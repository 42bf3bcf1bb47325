//! A deterministic 64-bit fingerprint of the parts of a request that decide
//! what it does: method, path and body. Headers take no part, so their order
//! and transport encoding do not change it.
use vstd::prelude::*;

verus! {

/// The FNV-1a offset basis.
pub const FNV_OFFSET: u64 = 0xcbf2_9ce4_8422_2325;

/// The FNV-1a prime.
pub const FNV_PRIME: u64 = 0x0000_0100_0000_01b3;

/// The byte that separates method from path and path from body.
pub const SEPARATOR: u8 = 0xff;

/// One FNV-1a step.
pub open spec fn step_spec(h: u64, b: u8) -> u64 {
    (h ^ (b as u64)).wrapping_mul(FNV_PRIME)
}

/// FNV-1a over `s`, starting from state `h`.
pub open spec fn fnv_from(h: u64, s: Seq<u8>) -> u64
    decreases s.len(),
{
    if s.len() == 0 {
        h
    } else {
        step_spec(fnv_from(h, s.drop_last()), s.last())
    }
}

/// The fingerprint of a request: FNV-1a over the method, a separator, the
/// path, a separator and the body.
pub open spec fn fingerprint_spec(method: Seq<u8>, path: Seq<u8>, body: Seq<u8>) -> u64 {
    let h = fnv_from(FNV_OFFSET, method);
    let h = step_spec(h, SEPARATOR);
    let h = fnv_from(h, path);
    let h = step_spec(h, SEPARATOR);
    fnv_from(h, body)
}

fn step(h: u64, b: u8) -> (r: u64)
    ensures
        r == step_spec(h, b),
{
    (h ^ (b as u64)).wrapping_mul(FNV_PRIME)
}

/// Continues the hash state `h` over the bytes of `s`.
pub fn hash_from(h: u64, s: &[u8]) -> (r: u64)
    ensures
        r == fnv_from(h, s@),
{
    let mut acc = h;
    let mut i: usize = 0;
    while i < s.len()
        invariant
            0 <= i <= s@.len(),
            acc == fnv_from(h, s@.take(i as int)),
        decreases s@.len() - i,
    {
        assert(s@.take(i + 1).drop_last() =~= s@.take(i as int));
        acc = step(acc, s[i]);
        i = i + 1;
    }
    assert(s@.take(s@.len() as int) =~= s@);
    acc
}

/// The fingerprint of a request whose body has been buffered in full.
pub fn fingerprint(method: &[u8], path: &[u8], body: &[u8]) -> (r: u64)
    ensures
        r == fingerprint_spec(method@, path@, body@),
{
    let h = hash_from(FNV_OFFSET, method);
    let h = step(h, SEPARATOR);
    let h = hash_from(h, path);
    let h = step(h, SEPARATOR);
    hash_from(h, body)
}

/// The fingerprint of a request, or `None` where its body is longer than
/// `max_body_bytes` and is not buffered.
pub fn bounded_fingerprint(method: &[u8], path: &[u8], body: &[u8], max_body_bytes: usize) -> (r:
    Option<u64>)
    ensures
        body@.len() > max_body_bytes ==> r is None,
        body@.len() <= max_body_bytes ==> r == Some(fingerprint_spec(method@, path@, body@)),
{
    if body.len() > max_body_bytes {
        None
    } else {
        Some(fingerprint(method, path, body))
    }
}

} // verus!
