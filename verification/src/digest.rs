//! Content hashing for cache keys: byte framing is done here, the digest
//! itself by the `blake3` crate.
use vstd::prelude::*;

verus! {

/// The BLAKE3 digest of `bytes`, written as lowercase hexadecimal.
pub uninterp spec fn blake3_hex(bytes: Seq<u8>) -> Seq<char>;

/// A lowercase hexadecimal digit.
pub open spec fn is_lower_hex(c: char) -> bool {
    ('0' <= c && c <= '9') || ('a' <= c && c <= 'f')
}

/// `blake3::hash(bytes).to_hex()`: the 32-byte digest of `bytes` as 64
/// lowercase hexadecimal digits. The digest depends on the bytes alone.
#[verifier::external_body]
pub(crate) fn blake3_hex_of(bytes: &[u8]) -> (r: String)
    ensures
        r@ == blake3_hex(bytes@),
        r@.len() == 64,
        forall|i: int| 0 <= i < 64 ==> is_lower_hex(#[trigger] r@[i]),
{
    blake3::hash(bytes).to_hex().to_string()
}

/// The `count` low bytes of `n`, least significant first.
pub open spec fn le_bytes(n: nat, count: nat) -> Seq<u8>
    decreases count,
{
    if count == 0 {
        Seq::empty()
    } else {
        seq![(n % 256) as u8] + le_bytes(n / 256, (count - 1) as nat)
    }
}

/// Append the `count` low bytes of `x`, least significant first.
pub fn push_le_bytes(out: &mut Vec<u8>, x: u64, count: u8)
    ensures
        final(out)@ == old(out)@ + le_bytes(x as nat, count as nat),
    decreases count,
{
    if count == 0 {
        assert(old(out)@ + le_bytes(x as nat, 0) =~= old(out)@);
    } else {
        let ghost before = out@;
        out.push((x % 256) as u8);
        push_le_bytes(out, x / 256, count - 1);
        assert(before + le_bytes(x as nat, count as nat) =~= before.push((x % 256) as u8)
            + le_bytes((x / 256) as nat, (count - 1) as nat));
    }
}

/// Append a byte slice.
pub fn push_bytes(out: &mut Vec<u8>, bytes: &[u8])
    ensures
        final(out)@ == old(out)@ + bytes@,
{
    let mut i: usize = 0;
    while i < bytes.len()
        invariant
            i <= bytes@.len(),
            out@ == old(out)@ + bytes@.take(i as int),
        decreases bytes@.len() - i,
    {
        out.push(bytes[i]);
        i += 1;
        assert(out@ =~= old(out)@ + bytes@.take(i as int));
    }
    assert(bytes@.take(bytes@.len() as int) =~= bytes@);
}

} // verus!
