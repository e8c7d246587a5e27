//! The transport's duplicate-suppression key.
//!
//! The engine configures the gossip layer to identify a message by a
//! deterministic hash over its raw bytes combined with the transport-assigned
//! sequence number, when one is present.  Two bit-identical payloads published
//! under the same sequence number then collapse to one delivery.  The hash is
//! the 64-bit Fowler–Noll–Vo function, written out here and proved against
//! its own spec; nothing about the transport depends on which hash is used,
//! only on its determinism.

use vstd::prelude::*;

verus! {

/// One FNV-1a step: fold one byte into the state.
pub open spec fn fnv_step(h: u64, b: u8) -> u64 {
    (h ^ (b as u64)).wrapping_mul(0x100000001b3)
}

/// FNV-1a folded over a byte string, left to right.
pub open spec fn fnv_fold(h: u64, data: Seq<u8>) -> u64
    decreases data.len(),
{
    if data.len() == 0 {
        h
    } else {
        fnv_fold(fnv_step(h, data.first()), data.drop_first())
    }
}

/// Byte `j` of a sequence number, least significant first.
pub open spec fn seq_no_byte(n: u64, j: int) -> u8 {
    ((n >> ((8 * j) as u64)) & 0xff) as u8
}

/// The eight bytes of a sequence number, least significant first.
pub open spec fn seq_no_bytes(n: u64) -> Seq<u8> {
    Seq::new(8, |j: int| seq_no_byte(n, j))
}

/// The key: the payload bytes, then the sequence number's bytes when the
/// transport assigned one.
pub open spec fn dedup_key_spec(data: Seq<u8>, sequence_number: Option<u64>) -> u64 {
    let h = fnv_fold(0xcbf29ce484222325, data);
    match sequence_number {
        None => h,
        Some(n) => fnv_fold(h, seq_no_bytes(n)),
    }
}

proof fn lemma_fnv_fold_push(h: u64, s: Seq<u8>, b: u8)
    ensures
        fnv_fold(h, s.push(b)) == fnv_step(fnv_fold(h, s), b),
    decreases s.len(),
{
    if s.len() == 0 {
        assert(s.push(b).first() == b);
        assert(s.push(b).drop_first() =~= Seq::<u8>::empty());
        assert(fnv_fold(h, s.push(b)) == fnv_fold(fnv_step(h, b), Seq::<u8>::empty()));
        assert(fnv_fold(fnv_step(h, b), Seq::<u8>::empty()) == fnv_step(h, b));
        assert(fnv_fold(h, s) == h);
    } else {
        assert(s.push(b).first() == s.first());
        assert(s.push(b).drop_first() =~= s.drop_first().push(b));
        lemma_fnv_fold_push(fnv_step(h, s.first()), s.drop_first(), b);
    }
}

/// Law: the duplicate-suppression key is a function of the payload bytes and
/// the sequence number alone.  Two publishes of byte-identical envelopes under
/// the same transport sequence number carry the same key, so the transport's
/// duplicate suppression collapses them to at most one delivery per
/// recipient.
pub proof fn lemma_dedup_key_deterministic(
    d1: Seq<u8>,
    s1: Option<u64>,
    d2: Seq<u8>,
    s2: Option<u64>,
)
    requires
        d1 == d2,
        s1 == s2,
    ensures
        dedup_key_spec(d1, s1) == dedup_key_spec(d2, s2),
{
}

/// Computes the duplicate-suppression key of one gossip message.
pub fn dedup_key(data: &[u8], sequence_number: Option<u64>) -> (r: u64)
    ensures
        r == dedup_key_spec(data@, sequence_number),
{
    let ghost start: u64 = 0xcbf29ce484222325;
    let mut h: u64 = 0xcbf29ce484222325;
    let mut i: usize = 0;
    while i < data.len()
        invariant
            i <= data@.len(),
            h == fnv_fold(start, data@.take(i as int)),
        decreases data@.len() - i,
    {
        let b = data[i];
        proof {
            assert(data@.take(i + 1) =~= data@.take(i as int).push(b));
            lemma_fnv_fold_push(start, data@.take(i as int), b);
        }
        h = (h ^ (b as u64)).wrapping_mul(0x100000001b3);
        i = i + 1;
    }
    proof {
        assert(data@.take(data@.len() as int) =~= data@);
    }
    match sequence_number {
        None => h,
        Some(n) => {
            let ghost mid = h;
            let mut j: u64 = 0;
            while j < 8
                invariant
                    j <= 8,
                    h == fnv_fold(mid, seq_no_bytes(n).take(j as int)),
                decreases 8 - j,
            {
                let b = ((n >> (8 * j)) & 0xff) as u8;
                proof {
                    assert(b == seq_no_byte(n, j as int));
                    assert(seq_no_bytes(n)[j as int] == seq_no_byte(n, j as int));
                    assert(seq_no_bytes(n).take(j + 1) =~= seq_no_bytes(n).take(j as int).push(
                        b,
                    ));
                    lemma_fnv_fold_push(mid, seq_no_bytes(n).take(j as int), b);
                }
                h = (h ^ (b as u64)).wrapping_mul(0x100000001b3);
                j = j + 1;
            }
            proof {
                assert(seq_no_bytes(n).take(8) =~= seq_no_bytes(n));
            }
            h
        },
    }
}

} // verus!
