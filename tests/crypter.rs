use angulu::{
    AnguluError, ChaCha20CipherAlgorithm, CipherAlgorithmTrait, CipherAlgorithmType,
    CrypterError, Sm4CipherAlgorithm,
};

fn crypt_all<C: CipherAlgorithmTrait>(c: &mut C, src: &[u8]) -> Vec<u8> {
    let mut dst = vec![0u8; src.len()];
    c.crypt(src, &mut dst).unwrap();
    dst
}

fn hex(s: &str) -> Vec<u8> {
    (0..s.len())
        .step_by(2)
        .map(|i| u8::from_str_radix(&s[i..i + 2], 16).unwrap())
        .collect()
}

#[test]
fn test_chacha20() {
    let key = [7u8; 32];
    let iv = [3u8; 12];
    let mut enc = ChaCha20CipherAlgorithm::new(&iv, &key).unwrap();
    let ciphertext = crypt_all(&mut enc, b"123456");
    assert_ne!(ciphertext, b"123456".to_vec());
    let mut dec = ChaCha20CipherAlgorithm::new(&iv, &key).unwrap();
    let plaintext = crypt_all(&mut dec, &ciphertext);
    assert_eq!(plaintext, b"123456".to_vec());
}

#[test]
fn chacha20_keystream_matches_known_block() {
    let mut c = ChaCha20CipherAlgorithm::new(&[0u8; 12], &[0u8; 32]).unwrap();
    let out = crypt_all(&mut c, &[0u8; 16]);
    assert_eq!(out, hex("76b8e0ada0f13d90405d6ae55386bd28"));
}

#[test]
fn chacha20_split_call_equals_one_call() {
    let plaintext = "AAAA".repeat(500).into_bytes();
    assert_eq!(plaintext.len(), 2000);
    let mut one = ChaCha20CipherAlgorithm::new(&[0u8; 12], &[0u8; 32]).unwrap();
    let whole = crypt_all(&mut one, &plaintext);
    let mut two = ChaCha20CipherAlgorithm::new(&[0u8; 12], &[0u8; 32]).unwrap();
    let mut parts = crypt_all(&mut two, &plaintext[..1000]);
    parts.extend(crypt_all(&mut two, &plaintext[1000..]));
    assert_eq!(whole, parts);
}

#[test]
fn chacha20_split_at_odd_offset() {
    let plaintext: Vec<u8> = (0..200u32).map(|i| (i * 7) as u8).collect();
    let mut one = ChaCha20CipherAlgorithm::new(&[1u8; 12], &[2u8; 32]).unwrap();
    let whole = crypt_all(&mut one, &plaintext);
    let mut two = ChaCha20CipherAlgorithm::new(&[1u8; 12], &[2u8; 32]).unwrap();
    let mut parts = crypt_all(&mut two, &plaintext[..77]);
    parts.extend(crypt_all(&mut two, &plaintext[77..]));
    assert_eq!(whole, parts);
}

#[test]
fn chacha20_rejects_bad_lengths() {
    assert!(matches!(
        ChaCha20CipherAlgorithm::new(&[0u8; 11], &[0u8; 32]),
        Err(AnguluError::Crypter(CrypterError::InvalidIVLength))
    ));
    assert!(matches!(
        ChaCha20CipherAlgorithm::new(&[0u8; 11], &[0u8; 31]),
        Err(AnguluError::Crypter(CrypterError::InvalidIVLength))
    ));
    assert!(matches!(
        ChaCha20CipherAlgorithm::new(&[0u8; 12], &[0u8; 16]),
        Err(AnguluError::Crypter(CrypterError::InvalidKeyLength))
    ));
    let mut c = ChaCha20CipherAlgorithm::new(&[0u8; 12], &[0u8; 32]).unwrap();
    let mut dst = [0u8; 3];
    assert_eq!(
        c.crypt(&[1, 2], &mut dst),
        Err(AnguluError::Crypter(CrypterError::CryptionFailed))
    );
    // the failed call used no keystream
    let out = crypt_all(&mut c, &[0u8; 16]);
    assert_eq!(out, hex("76b8e0ada0f13d90405d6ae55386bd28"));
}

#[test]
fn sm4_known_block() {
    let key = hex("0123456789abcdeffedcba9876543210");
    let mut c = Sm4CipherAlgorithm::new(&[0u8; 16], &key).unwrap();
    let out = crypt_all(&mut c, &key);
    assert_eq!(out, hex("681edf34d206965e86b3e94f536e4246"));
}

#[test]
fn sm4_chaining_uses_previous_block() {
    let key = hex("0123456789abcdeffedcba9876543210");
    let mut c = Sm4CipherAlgorithm::new(&[0u8; 16], &key).unwrap();
    let first = crypt_all(&mut c, &[0x41u8; 16]);
    let second = crypt_all(&mut c, &[0x41u8; 16]);
    assert_ne!(first, second);
    // the second block is the first ciphertext XOR plaintext, enciphered
    let chained: Vec<u8> = first.iter().map(|b| b ^ 0x41).collect();
    let mut fresh = Sm4CipherAlgorithm::new(&[0u8; 16], &key).unwrap();
    assert_eq!(crypt_all(&mut fresh, &chained), second);
}

#[test]
fn sm4_split_call_equals_one_call() {
    let key: Vec<u8> = (0u8..16).collect();
    let iv = [0u8; 16];
    let plaintext = [0x41u8; 32];
    let mut one = Sm4CipherAlgorithm::new(&iv, &key).unwrap();
    let whole = crypt_all(&mut one, &plaintext);
    let mut two = Sm4CipherAlgorithm::new(&iv, &key).unwrap();
    let mut parts = crypt_all(&mut two, &plaintext[..16]);
    parts.extend(crypt_all(&mut two, &plaintext[16..]));
    assert_eq!(whole, parts);
}

#[test]
fn sm4_rejects_misaligned_and_mismatched() {
    let key: Vec<u8> = (0u8..16).collect();
    let plaintext = [0x41u8; 32];
    let mut c = Sm4CipherAlgorithm::new(&[0u8; 16], &key).unwrap();
    let mut dst = [0u8; 10];
    assert_eq!(
        c.crypt(&plaintext[..10], &mut dst),
        Err(AnguluError::Crypter(CrypterError::CryptionFailed))
    );
    let mut dst = [0u8; 16];
    assert_eq!(
        c.crypt(&plaintext, &mut dst),
        Err(AnguluError::Crypter(CrypterError::CryptionFailed))
    );
    // failures left the chaining block at the IV
    let after = crypt_all(&mut c, &plaintext);
    let mut fresh = Sm4CipherAlgorithm::new(&[0u8; 16], &key).unwrap();
    assert_eq!(after, crypt_all(&mut fresh, &plaintext));
    assert!(matches!(
        Sm4CipherAlgorithm::new(&[0u8; 8], &key),
        Err(AnguluError::Crypter(CrypterError::InvalidIVLength))
    ));
    assert!(matches!(
        Sm4CipherAlgorithm::new(&[0u8; 16], &key[..15]),
        Err(AnguluError::Crypter(CrypterError::InvalidKeyLength))
    ));
}

#[test]
fn algorithm_parameters() {
    assert_eq!(ChaCha20CipherAlgorithm::iv_length(), 12);
    assert_eq!(ChaCha20CipherAlgorithm::key_length(), 32);
    assert_eq!(
        ChaCha20CipherAlgorithm::algorithm_type(),
        CipherAlgorithmType::Stream
    );
    assert_eq!(Sm4CipherAlgorithm::iv_length(), 16);
    assert_eq!(Sm4CipherAlgorithm::key_length(), 16);
    assert_eq!(
        Sm4CipherAlgorithm::algorithm_type(),
        CipherAlgorithmType::Block(16)
    );
}
