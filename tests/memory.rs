use angulu::{memcpy, xor, AnguluError, ByteArray, EtcError, MemoryTaker};

#[test]
fn test_xor() {
    let a = ByteArray::<4>::from(&[0x42, 0x63, 0x76, 0x77]);
    let b = ByteArray::<4>::from(&[0x75, 0x4A, 0xB1, 0xC9]);
    let res = a ^ b;
    assert_eq!(res.as_ref(), &[0x37, 0x29, 0xC7, 0xBE]);
    println!("Res: {:?}", res);
}

#[test]
fn test_memory_taker() {
    let v = b"123456789".to_vec();
    let mut mt = MemoryTaker::new(&v);
    let mut v1: Vec<u8> = vec![0u8; 2];
    let mut v2 = vec![0u8; 3];
    let v3 = mt
        .take(&mut v1)
        .unwrap()
        .take(&mut v2)
        .unwrap()
        .take_all()
        .unwrap();
    assert_eq!(v1, b"12".to_vec());
    assert_eq!(v2, b"345".to_vec());
    assert_eq!(v3, b"6789".to_vec());
    let mut v1: Vec<u8> = vec![0u8; 2];
    assert!(mt.take(&mut v1).is_err());
}

#[test]
fn memory_taker_errors_leave_cursor() {
    let v = b"abc".to_vec();
    let mut mt = MemoryTaker::new(&v);
    let mut four = vec![9u8; 4];
    assert!(matches!(
        mt.take(&mut four),
        Err(AnguluError::Etc(EtcError::InsufficientMemoryContent))
    ));
    assert_eq!(four, vec![9u8; 4]);
    let mut empty: Vec<u8> = Vec::new();
    assert!(mt.take(&mut empty).is_ok());
    let mut three = vec![0u8; 3];
    assert!(mt.take(&mut three).is_ok());
    assert_eq!(three, b"abc".to_vec());
    assert_eq!(
        mt.take_all(),
        Err(AnguluError::Etc(EtcError::InsufficientMemoryContent))
    );
}

#[test]
fn memory_taker_take_all_on_empty_buffer() {
    let v: Vec<u8> = Vec::new();
    let mut mt = MemoryTaker::new(&v);
    assert_eq!(
        mt.take_all(),
        Err(AnguluError::Etc(EtcError::InsufficientMemoryContent))
    );
}

#[test]
fn memcpy_copies_equal_lengths() {
    let mut dst = [0u8; 3];
    assert_eq!(memcpy(&mut dst, &[1, 2, 3]), Ok(()));
    assert_eq!(dst, [1, 2, 3]);
    let mut none: [u8; 0] = [];
    assert_eq!(memcpy(&mut none, &[]), Ok(()));
}

#[test]
fn memcpy_rejects_length_mismatch() {
    for (d, s) in [(0usize, 1usize), (3, 2), (2, 3), (16, 15)] {
        let mut dst = vec![7u8; d];
        let src = vec![1u8; s];
        assert_eq!(
            memcpy(&mut dst, &src),
            Err(AnguluError::Etc(EtcError::MemoryLengthMismatch))
        );
        assert_eq!(dst, vec![7u8; d]);
    }
}

#[test]
fn xor_of_equal_lengths() {
    assert_eq!(
        xor(&[0x42, 0x63, 0x76, 0x77], &[0x75, 0x4A, 0xB1, 0xC9]),
        Ok(vec![0x37, 0x29, 0xC7, 0xBE])
    );
    assert_eq!(xor(&[], &[]), Ok(vec![]));
}

#[test]
fn xor_rejects_length_mismatch() {
    for (a, b) in [(0usize, 1usize), (1, 0), (4, 5), (32, 31)] {
        assert_eq!(
            xor(&vec![1u8; a], &vec![2u8; b]),
            Err(AnguluError::Etc(EtcError::XorMemoryLengthMismatch))
        );
    }
}

#[test]
fn xor_twice_gives_back_the_input() {
    let a = b"the quick brown fox".to_vec();
    let b = b"jumps over the dogs".to_vec();
    let once = xor(&a, &b).unwrap();
    assert_ne!(once, a);
    assert_eq!(xor(&once, &b).unwrap(), a);
}

#[test]
fn byte_array_basics() {
    let z = ByteArray::<5>::new();
    assert_eq!(z.as_slice(), &[0u8; 5]);
    assert!(z == ByteArray::<5>::default());
    assert_eq!(z.len(), 5);
    let mut a = ByteArray::<5>::from([1, 2, 3, 4, 5]);
    assert!(a != z);
    assert_eq!(a.get(2), 3);
    a.set(2, 9);
    assert_eq!(a.as_slice(), &[1, 2, 9, 4, 5]);
    assert!(a.equals(&ByteArray::from_array(&[1, 2, 9, 4, 5])));
    let x = a.xor_with(&a);
    assert!(x == z);
}

#[test]
fn byte_array_mut_slice_writes_through() {
    let mut a = ByteArray::<3>::new();
    a.as_mut_slice().copy_from_slice(&[4, 5, 6]);
    assert_eq!(a.as_slice(), &[4, 5, 6]);
    a.as_mut_slice()[0] = 9;
    assert_eq!(a.get(0), 9);
}

#[test]
fn memory_taker_empty_take_keeps_cursor() {
    let v = b"xy".to_vec();
    let mut mt = MemoryTaker::new(&v);
    let mut empty: Vec<u8> = Vec::new();
    assert!(mt.take(&mut empty).is_ok());
    assert_eq!(mt.take_all(), Ok(b"xy".to_vec()));
    assert!(mt.take(&mut empty).is_ok());
    assert!(mt.take_all().is_err());
}
