//! Byte encodings and the SHA3-256 digest used by every transcript of the
//! direct seam.

use sha3::Digest;
use vstd::prelude::*;

verus! {

/// Little-endian encoding of the `n` low base-256 digits of `x`.
pub open spec fn le_bytes(x: nat, n: nat) -> Seq<u8>
    decreases n,
{
    if n == 0 {
        Seq::empty()
    } else {
        seq![(x % 256) as u8] + le_bytes(x / 256, (n - 1) as nat)
    }
}

/// `le_bytes(x, n)` has `n` bytes.
pub proof fn lemma_le_bytes_len(x: nat, n: nat)
    ensures
        le_bytes(x, n).len() == n,
    decreases n,
{
    if n > 0 {
        lemma_le_bytes_len(x / 256, (n - 1) as nat);
    }
}

/// The eight little-endian bytes of a `u64`, as `u64::to_le_bytes` lays them out.
pub open spec fn le64(x: u64) -> Seq<u8> {
    le_bytes(x as nat, 8)
}

/// Writes the little-endian encoding of `x` at the end of `out`.
pub fn push_le_u64(out: &mut Vec<u8>, x: u64)
    ensures
        final(out)@ == old(out)@ + le64(x),
{
    let ghost start = out@;
    let mut v: u64 = x;
    let mut i: usize = 0;
    while i < 8
        invariant
            0 <= i <= 8,
            out@ + le_bytes(v as nat, (8 - i) as nat) == start + le_bytes(x as nat, 8),
        decreases 8 - i,
    {
        let ghost before = out@;
        out.push((v % 256) as u8);
        proof {
            assert(le_bytes(v as nat, (8 - i) as nat) == seq![(v % 256) as u8] + le_bytes(
                (v / 256) as nat,
                (8 - i - 1) as nat,
            ));
            assert(out@ + le_bytes((v / 256) as nat, (8 - i - 1) as nat) =~= before + le_bytes(
                v as nat,
                (8 - i) as nat,
            ));
        }
        v = v / 256;
        i = i + 1;
    }
    assert(le_bytes(v as nat, 0) =~= Seq::<u8>::empty());
    assert(out@ =~= start + le64(x));
}

/// Appends `src` to the end of `out`.
pub fn push_bytes(out: &mut Vec<u8>, src: &[u8])
    ensures
        final(out)@ == old(out)@ + src@,
{
    let ghost start = out@;
    let mut i: usize = 0;
    while i < src.len()
        invariant
            0 <= i <= src@.len(),
            out@ == start + src@.subrange(0, i as int),
        decreases src@.len() - i,
    {
        out.push(src[i]);
        assert(src@.subrange(0, i + 1) =~= src@.subrange(0, i as int).push(src@[i as int]));
        i = i + 1;
    }
    assert(src@.subrange(0, src@.len() as int) =~= src@);
}

/// Name for the SHA3-256 digest of a byte string, as computed by the `sha3`
/// crate.
pub uninterp spec fn sha3_256_of(data: Seq<u8>) -> Seq<u8>;

/// Calls `sha3::Sha3_256::digest` on `data` and returns the 32-byte digest.
/// The contract claims only that the result is the digest of exactly these
/// bytes (a function of the bytes alone) and that it has 32 bytes.
#[verifier::external_body]
pub(crate) fn sha3_256(data: &[u8]) -> (digest: [u8; 32])
    ensures
        digest@ == sha3_256_of(data@),
{
    sha3::Sha3_256::digest(data).into()
}

/// An incremental SHA3-256 computation: a `sha3::Sha3_256` hasher that
/// absorbs bytes a piece at a time in constant memory. Its state is hidden
/// from Verus; `sha3_absorbed` names the bytes it has absorbed so far.
#[verifier::external_body]
#[derive(Debug)]
pub struct Sha3Stream {
    state: sha3::Sha3_256,
}

/// Name for the bytes a SHA3-256 stream has absorbed, in order.
pub uninterp spec fn sha3_absorbed(stream: Sha3Stream) -> Seq<u8>;

impl Sha3Stream {
    /// Calls `sha3::Sha3_256::new`. The contract claims that a fresh hasher
    /// has absorbed nothing.
    #[verifier::external_body]
    pub(crate) fn new() -> (stream: Sha3Stream)
        ensures
            sha3_absorbed(stream) == Seq::<u8>::empty(),
    {
        Sha3Stream { state: sha3::Sha3_256::new() }
    }

    /// Calls `Digest::update` with `data`. The contract claims that the
    /// absorbed bytes grow by exactly `data`, appended at the end.
    #[verifier::external_body]
    pub(crate) fn update(&mut self, data: &[u8])
        ensures
            sha3_absorbed(*final(self)) == sha3_absorbed(*old(self)) + data@,
    {
        self.state.update(data);
    }

    /// Calls `Digest::finalize`. The contract claims that the result is the
    /// SHA3-256 digest of everything absorbed, the same value `sha3_256`
    /// returns for those bytes in one piece.
    #[verifier::external_body]
    pub(crate) fn finalize(self) -> (digest: [u8; 32])
        ensures
            digest@ == sha3_256_of(sha3_absorbed(self)),
    {
        self.state.finalize().into()
    }
}

} // verus!
