//! The URL hash stored beside every page row. It is an index accelerator
//! only: hashes may collide, so every lookup that starts from a hash must
//! confirm its candidate by exact string equality.

use vstd::prelude::*;

verus! {

/// The running byte hash, truncated to 64 bits at every step.
pub open spec fn hash_bytes(b: Seq<u8>) -> u64
    decreases b.len(),
{
    if b.len() == 0 {
        5381u64
    } else {
        vstd::wrapping::u64_specs::wrapping_add(
            vstd::wrapping::u64_specs::wrapping_mul(hash_bytes(b.drop_last()), 33u64),
            b.last() as u64,
        )
    }
}

/// The hash of a URL: the byte hash of its UTF-8 serialization.
pub open spec fn url_hash_of(s: Seq<char>) -> u64 {
    hash_bytes(vstd::utf8::encode_utf8(s))
}

pub fn hash_url(url: &str) -> (h: u64)
    ensures
        h == url_hash_of(url@),
{
    let bytes: &[u8] = url.as_bytes();
    let mut h: u64 = 5381;
    let mut i: usize = 0;
    while i < bytes.len()
        invariant
            i <= bytes@.len(),
            bytes@ == vstd::utf8::encode_utf8(url@),
            h == hash_bytes(bytes@.take(i as int)),
        decreases bytes@.len() - i,
    {
        proof {
            assert(bytes@.take(i + 1).drop_last() =~= bytes@.take(i as int));
            assert(bytes@.take(i + 1).last() == bytes@[i as int]);
        }
        h = h.wrapping_mul(33).wrapping_add(bytes[i] as u64);
        i += 1;
    }
    proof {
        assert(bytes@.take(bytes@.len() as int) =~= bytes@);
    }
    h
}

} // verus!
