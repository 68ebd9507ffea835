use vstd::prelude::*;

use crate::error::{AnguluError, AnguluResult, EtcError};

verus! {

/// A growable buffer of bytes.
pub type ByteVector = Vec<u8>;

/// The bytewise exclusive or of `a` and `b`, as long as `a`.
pub open spec fn xor_seq(a: Seq<u8>, b: Seq<u8>) -> Seq<u8> {
    Seq::new(a.len(), |i: int| a[i] ^ b[i])
}

/// XOR with the same bytes twice gives back what one started with: the
/// result of `xor` on `xor(a, b)` and `b` is `a`, for `a` and `b` of equal
/// length.
pub proof fn lemma_xor_involutive(a: Seq<u8>, b: Seq<u8>)
    requires
        a.len() == b.len(),
    ensures
        xor_seq(xor_seq(a, b), b) == a,
{
    assert forall|i: int| 0 <= i < a.len() implies #[trigger] xor_seq(xor_seq(a, b), b)[i]
        == a[i] by {
        let x = a[i];
        let y = b[i];
        assert((x ^ y) ^ y == x) by (bit_vector);
    }
    assert(xor_seq(xor_seq(a, b), b) =~= a);
}

/// A byte container of exactly `N` bytes, compared and combined by value.
#[derive(Debug, Clone, Copy)]
#[verifier::ext_equal]
pub struct ByteArray<const N: usize>([u8; N]);

impl<const N: usize> View for ByteArray<N> {
    type V = Seq<u8>;

    closed spec fn view(&self) -> Seq<u8> {
        self.0@
    }
}

impl<const N: usize> ByteArray<N> {
    /// A container whose `N` bytes are all zero.
    pub fn new() -> (r: ByteArray<N>)
        ensures
            r@ == Seq::new(N as nat, |i: int| 0u8),
    {
        let a: [u8; N] = [0u8; N];
        let r = ByteArray(a);
        assert(r@ =~= Seq::new(N as nat, |i: int| 0u8));
        r
    }

    /// A container holding a copy of `value`.
    pub fn from_array(value: &[u8; N]) -> (r: ByteArray<N>)
        ensures
            r@ == value@,
    {
        ByteArray(*value)
    }

    /// The number of bytes held, which is always `N`.
    pub fn len(&self) -> (r: usize)
        ensures
            r == N,
            self@.len() == N,
    {
        N
    }

    /// The bytes held, as a slice.
    pub fn as_slice(&self) -> (r: &[u8])
        ensures
            r@ == self@,
            r@.len() == N,
    {
        self.0.as_slice()
    }

    /// The bytes held, as a mutable slice: what is written through it is what
    /// the container then holds.
    pub fn as_mut_slice(&mut self) -> (r: &mut [u8])
        ensures
            r@ == old(self)@,
            final(self)@ == final(r)@,
    {
        &mut self.0
    }

    /// The byte at position `index`.
    pub fn get(&self, index: usize) -> (r: u8)
        requires
            index < N,
        ensures
            r == self@[index as int],
            self@.len() == N,
    {
        self.0[index]
    }

    /// Replaces the byte at position `index` by `value`.
    pub fn set(&mut self, index: usize, value: u8)
        requires
            index < N,
        ensures
            final(self)@ == old(self)@.update(index as int, value),
            final(self)@.len() == N,
    {
        self.0[index] = value;
    }

    /// Whether the two containers hold the same bytes.
    pub fn equals(&self, other: &Self) -> (r: bool)
        ensures
            r == (self@ == other@),
    {
        let mut i: usize = 0;
        while i < N
            invariant
                i <= N,
                self.0@.len() == N,
                other.0@.len() == N,
                forall|j: int| 0 <= j < i ==> self.0@[j] == other.0@[j],
            decreases N - i,
        {
            if self.0[i] != other.0[i] {
                return false;
            }
            i = i + 1;
        }
        assert(self.0@ =~= other.0@);
        true
    }

    /// The bytewise exclusive or of the two containers.
    pub fn xor_with(&self, rhs: &Self) -> (r: Self)
        ensures
            r@ == xor_seq(self@, rhs@),
            r@.len() == N,
    {
        let mut res: [u8; N] = self.0;
        let mut i: usize = 0;
        while i < N
            invariant
                i <= N,
                res@.len() == N,
                self.0@.len() == N,
                rhs.0@.len() == N,
                forall|j: int| 0 <= j < i ==> res@[j] == self.0@[j] ^ rhs.0@[j],
            decreases N - i,
        {
            res[i] = self.0[i] ^ rhs.0[i];
            i = i + 1;
        }
        let r = ByteArray(res);
        assert(r@ =~= xor_seq(self@, rhs@));
        r
    }
}

/// An array of `N` bytes whose first `k` bytes are those of `s`, the rest zero.
spec fn array_with_prefix<const N: usize>(s: Seq<u8>, k: nat) -> [u8; N]
    decreases k,
{
    if k == 0 {
        vstd::array::spec_array_fill_for_copy_type::<u8, N>(0u8)
    } else {
        vstd::array::spec_array_update(
            array_with_prefix::<N>(s, (k - 1) as nat),
            k - 1,
            s[k - 1],
        )
    }
}

proof fn lemma_array_with_prefix<const N: usize>(s: Seq<u8>, k: nat)
    requires
        s.len() == N,
        k <= N,
    ensures
        array_with_prefix::<N>(s, k)@.len() == N,
        array_with_prefix::<N>(s, k)@.take(k as int) == s.take(k as int),
    decreases k,
{
    let a = array_with_prefix::<N>(s, k);
    vstd::array::array_len_matches_n(&a);
    if k == 0 {
        assert(a@.take(0) =~= s.take(0));
    } else {
        let p = array_with_prefix::<N>(s, (k - 1) as nat);
        lemma_array_with_prefix::<N>(s, (k - 1) as nat);
        assert(a@ == p@.update(k - 1, s[k - 1]));
        assert(a@.take(k as int) =~= s.take(k as int));
    }
}

impl<const N: usize> ByteArray<N> {
    /// Every container holds exactly `N` bytes.
    pub proof fn lemma_view_len(a: Self)
        ensures
            a@.len() == N,
    {
        vstd::array::array_len_matches_n(&a.0);
    }

    /// Every sequence of `N` bytes is what some container holds.
    pub proof fn lemma_view_exists(s: Seq<u8>)
        requires
            s.len() == N,
        ensures
            exists|a: Self| a@ == s,
    {
        lemma_array_with_prefix::<N>(s, N as nat);
        let a = ByteArray::<N>(array_with_prefix::<N>(s, N as nat));
        assert(a@.take(N as int) =~= a@);
        assert(s.take(N as int) =~= s);
        assert(a@ == s);
    }

    /// Two containers with the same bytes are the same value.
    pub proof fn lemma_view_eq(a: Self, b: Self)
        requires
            a@ == b@,
        ensures
            a == b,
    {
        assert(a.0 =~= b.0);
        assert(a =~= b);
    }
}

impl<const N: usize> Default for ByteArray<N> {
    fn default() -> (r: Self)
        ensures
            r@ == Seq::new(N as nat, |i: int| 0u8),
    {
        ByteArray::new()
    }
}

impl<const N: usize> AsRef<[u8]> for ByteArray<N> {
    fn as_ref(&self) -> &[u8] {
        self.as_slice()
    }
}

impl<const N: usize> PartialEq for ByteArray<N> {
    fn eq(&self, other: &Self) -> (r: bool) {
        self.equals(other)
    }
}

impl<const N: usize> vstd::std_specs::cmp::PartialEqSpecImpl for ByteArray<N> {
    open spec fn obeys_eq_spec() -> bool {
        true
    }

    open spec fn eq_spec(&self, other: &Self) -> bool {
        self@ == other@
    }
}

impl<const N: usize> From<[u8; N]> for ByteArray<N> {
    fn from(value: [u8; N]) -> (r: Self) {
        let r = ByteArray::from_array(&value);
        proof {
            let c = choose|c: Self| c@ == value@;
            Self::lemma_view_eq(r, c);
        }
        r
    }
}

impl<const N: usize> vstd::std_specs::convert::FromSpecImpl<[u8; N]> for ByteArray<N> {
    open spec fn obeys_from_spec() -> bool {
        true
    }

    open spec fn from_spec(value: [u8; N]) -> Self {
        choose|r: Self| r@ == value@
    }
}

impl<'a, const N: usize> From<&'a [u8; N]> for ByteArray<N> {
    fn from(value: &'a [u8; N]) -> (r: Self) {
        let r = ByteArray::from_array(value);
        proof {
            let c = choose|c: Self| c@ == value@;
            Self::lemma_view_eq(r, c);
        }
        r
    }
}

impl<'a, const N: usize> vstd::std_specs::convert::FromSpecImpl<&'a [u8; N]> for ByteArray<N> {
    open spec fn obeys_from_spec() -> bool {
        true
    }

    open spec fn from_spec(value: &'a [u8; N]) -> Self {
        choose|r: Self| r@ == value@
    }
}

impl<const N: usize> core::ops::BitXor for ByteArray<N> {
    type Output = Self;

    fn bitxor(self, rhs: Self) -> (r: Self) {
        let r = self.xor_with(&rhs);
        proof {
            let c = choose|c: Self| c@ == xor_seq(self@, rhs@);
            Self::lemma_view_eq(r, c);
        }
        r
    }
}

impl<const N: usize> vstd::std_specs::ops::BitXorSpecImpl for ByteArray<N> {
    open spec fn obeys_bitxor_spec() -> bool {
        true
    }

    open spec fn bitxor_req(self, rhs: Self) -> bool {
        true
    }

    open spec fn bitxor_spec(self, rhs: Self) -> Self {
        choose|r: Self| r@ == xor_seq(self@, rhs@)
    }
}

/// A cursor that reads a borrowed buffer from left to right, in chunks of
/// exact length or all at once, and never goes back.
pub struct MemoryTaker<'a> {
    mem: &'a [u8],
    idx: usize,
    length: usize,
}

impl<'a> MemoryTaker<'a> {
    /// The buffer being read.
    pub closed spec fn source(&self) -> Seq<u8> {
        self.mem@
    }

    /// How many bytes have been read so far.
    pub closed spec fn position(&self) -> nat {
        self.idx as nat
    }

    /// The cursor lies within the buffer.
    pub closed spec fn wf(&self) -> bool {
        &&& self.length == self.mem@.len()
        &&& self.idx <= self.length
    }

    /// The cursor of a well-formed taker lies within its buffer.
    pub proof fn lemma_position_in_bounds(&self)
        requires
            self.wf(),
        ensures
            self.position() <= self.source().len(),
    {
    }

    /// A cursor at the start of `src`.
    pub fn new(src: &'a [u8]) -> (r: MemoryTaker<'a>)
        ensures
            r.wf(),
            r.source() == src@,
            r.position() == 0,
            r.position() <= r.source().len(),
    {
        MemoryTaker { mem: src, idx: 0, length: src.len() }
    }

    /// Fills `dst` with the next `dst.len()` bytes and moves past them; fails,
    /// changing nothing, when fewer bytes are left.
    pub fn take(&mut self, dst: &mut [u8]) -> (r: AnguluResult<&mut Self>)
        requires
            old(self).wf(),
        ensures
            old(self).position() <= old(self).source().len(),
            old(self).position() + old(dst)@.len() > old(self).source().len() ==> {
                &&& r == Err::<&mut Self, AnguluError>(
                    AnguluError::Etc(EtcError::InsufficientMemoryContent),
                )
                &&& *final(self) == *old(self)
                &&& final(dst)@ == old(dst)@
            },
            old(self).position() + old(dst)@.len() <= old(self).source().len() ==> {
                &&& r is Ok
                &&& final(dst)@ == old(self).source().subrange(
                    old(self).position() as int,
                    (old(self).position() + old(dst)@.len()) as int,
                )
            },
            r matches Ok(m) ==> {
                &&& m.wf()
                &&& m.source() == old(self).source()
                &&& m.position() == old(self).position() + old(dst)@.len()
                &&& m.position() <= m.source().len()
                &&& *final(self) == *final(m)
            },
    {
        let need_length = dst.len();
        if need_length > self.length - self.idx {
            return Err(AnguluError::Etc(EtcError::InsufficientMemoryContent));
        }
        let start = self.idx;
        let mut i: usize = 0;
        while i < need_length
            invariant
                i <= need_length,
                need_length == dst@.len(),
                start + need_length <= self.mem@.len(),
                self.length == self.mem@.len(),
                forall|j: int| 0 <= j < i ==> dst@[j] == self.mem@[start + j],
            decreases need_length - i,
        {
            dst[i] = self.mem[start + i];
            i = i + 1;
        }
        assert(dst@ =~= self.mem@.subrange(start as int, start + need_length));
        self.idx = start + need_length;
        Ok(self)
    }

    /// All bytes from the cursor to the end, after which the cursor stands at
    /// the end; fails, changing nothing, when no byte is left.
    pub fn take_all(&mut self) -> (r: AnguluResult<ByteVector>)
        requires
            old(self).wf(),
        ensures
            final(self).wf(),
            final(self).source() == old(self).source(),
            old(self).position() <= old(self).source().len(),
            final(self).position() <= final(self).source().len(),
            old(self).position() >= old(self).source().len() ==> {
                &&& r == Err::<ByteVector, AnguluError>(
                    AnguluError::Etc(EtcError::InsufficientMemoryContent),
                )
                &&& *final(self) == *old(self)
            },
            old(self).position() < old(self).source().len() ==> {
                &&& r matches Ok(v) && v@ == old(self).source().subrange(
                    old(self).position() as int,
                    old(self).source().len() as int,
                )
                &&& final(self).position() == old(self).source().len()
            },
    {
        if self.idx >= self.length {
            return Err(AnguluError::Etc(EtcError::InsufficientMemoryContent));
        }
        let start = self.idx;
        let mut res: Vec<u8> = Vec::with_capacity(self.length - start);
        let mut i: usize = start;
        while i < self.length
            invariant
                start <= i <= self.length,
                self.length == self.mem@.len(),
                res@ == self.mem@.subrange(start as int, i as int),
            decreases self.length - i,
        {
            res.push(self.mem[i]);
            i = i + 1;
            assert(res@ =~= self.mem@.subrange(start as int, i as int));
        }
        self.idx = self.length;
        Ok(res)
    }
}

/// Copies `src` into `dst`; the two must have the same length.
pub fn memcpy(dst: &mut [u8], src: &[u8]) -> (r: AnguluResult<()>)
    ensures
        old(dst)@.len() != src@.len() ==> r == Err::<(), AnguluError>(
            AnguluError::Etc(EtcError::MemoryLengthMismatch),
        ) && final(dst)@ == old(dst)@,
        old(dst)@.len() == src@.len() ==> r is Ok && final(dst)@ == src@,
{
    if dst.len() != src.len() {
        return Err(AnguluError::Etc(EtcError::MemoryLengthMismatch));
    }
    let n = src.len();
    let mut i: usize = 0;
    while i < n
        invariant
            i <= n,
            n == src@.len(),
            dst@.len() == n,
            forall|j: int| 0 <= j < i ==> dst@[j] == src@[j],
        decreases n - i,
    {
        dst[i] = src[i];
        i = i + 1;
    }
    assert(dst@ =~= src@);
    Ok(())
}

/// The bytewise exclusive or of two buffers of the same length.
pub fn xor(src1: &[u8], src2: &[u8]) -> (r: AnguluResult<ByteVector>)
    ensures
        src1@.len() != src2@.len() ==> r == Err::<ByteVector, AnguluError>(
            AnguluError::Etc(EtcError::XorMemoryLengthMismatch),
        ),
        src1@.len() == src2@.len() ==> (r matches Ok(v) && v@ == xor_seq(src1@, src2@)),
{
    if src1.len() != src2.len() {
        return Err(AnguluError::Etc(EtcError::XorMemoryLengthMismatch));
    }
    let n = src1.len();
    let mut res: Vec<u8> = Vec::with_capacity(n);
    let mut i: usize = 0;
    while i < n
        invariant
            i <= n,
            n == src1@.len(),
            n == src2@.len(),
            res@ == xor_seq(src1@.take(i as int), src2@),
        decreases n - i,
    {
        res.push(src1[i] ^ src2[i]);
        i = i + 1;
        assert(res@ =~= xor_seq(src1@.take(i as int), src2@));
    }
    assert(src1@.take(n as int) =~= src1@);
    Ok(res)
}

} // verus!
