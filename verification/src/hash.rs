//! Content identifiers for blocks and gossiped blobs.
//!
//! Every unit of data handled by this crate (a block, a gossiped blob) is
//! addressed by a 64-bit content hash computed from its serialized bytes.
//! The hash is a pure function of the bytes, so two values with equal
//! content always map to equal identifiers.

use vstd::prelude::*;

verus! {

/// Initial state of the content-hash fold.
pub const HASH_SEED: u64 = 0xcbf29ce484222325;

/// Multiplier applied at each step of the content-hash fold.
pub const HASH_PRIME: u64 = 0x100000001b3;

/// One step of the content-hash fold: mix one byte into the running state.
pub open spec fn hash_step(h: u64, b: u8) -> u64 {
    (h ^ (b as u64)).wrapping_mul(HASH_PRIME)
}

/// The content hash of a byte sequence: a left fold of `hash_step` over the
/// bytes, starting from `HASH_SEED`.
pub open spec fn hash_of(bytes: Seq<u8>) -> u64
    decreases bytes.len(),
{
    if bytes.len() == 0 {
        HASH_SEED
    } else {
        hash_step(hash_of(bytes.drop_last()), bytes.last())
    }
}

/// Computes the content hash of `bytes`.
pub fn content_hash(bytes: &Vec<u8>) -> (h: u64)
    ensures
        h == hash_of(bytes@),
{
    let mut h: u64 = HASH_SEED;
    let mut i: usize = 0;
    while i < bytes.len()
        invariant
            i <= bytes@.len(),
            h == hash_of(bytes@.take(i as int)),
        decreases bytes@.len() - i,
    {
        h = (h ^ (bytes[i] as u64)).wrapping_mul(HASH_PRIME);
        proof {
            let taken = bytes@.take(i + 1);
            assert(taken.drop_last() =~= bytes@.take(i as int));
            assert(taken.last() == bytes@[i as int]);
        }
        i = i + 1;
    }
    proof {
        assert(bytes@.take(bytes@.len() as int) =~= bytes@);
    }
    h
}

/// The value of one hexadecimal digit character, or `None` for any other
/// byte. Both letter cases are accepted.
pub open spec fn hex_digit_value(c: u8) -> Option<u8> {
    if 48 <= c <= 57 {
        Some((c - 48) as u8)
    } else if 97 <= c <= 102 {
        Some((c - 87) as u8)
    } else if 65 <= c <= 70 {
        Some((c - 55) as u8)
    } else {
        None
    }
}

/// The value of a big-endian run of hexadecimal digit characters, or
/// `None` as soon as any byte is not a digit.
pub open spec fn hex_fold(s: Seq<u8>) -> Option<u64>
    decreases s.len(),
{
    if s.len() == 0 {
        Some(0)
    } else {
        match (hex_fold(s.drop_last()), hex_digit_value(s.last())) {
            (Some(acc), Some(d)) => Some((acc << 4) | (d as u64)),
            _ => None,
        }
    }
}

/// The 64-bit hash named by a sixteen-digit hexadecimal string; anything
/// else (wrong length, a non-digit byte) names no hash.
pub open spec fn spec_parse_hex_hash(s: Seq<u8>) -> Option<u64> {
    if s.len() == 16 {
        hex_fold(s)
    } else {
        None
    }
}

/// Computes the value of one hexadecimal digit character.
fn hex_digit_value_exec(c: u8) -> (r: Option<u8>)
    ensures
        r == hex_digit_value(c),
{
    if 48 <= c && c <= 57 {
        Some(c - 48)
    } else if 97 <= c && c <= 102 {
        Some(c - 87)
    } else if 65 <= c && c <= 70 {
        Some(c - 55)
    } else {
        None
    }
}

/// Parses the textual form of a hash, as a node's interface reports one:
/// exactly sixteen hexadecimal digits, big-endian, either letter case.
pub fn parse_hex_hash(text: &Vec<u8>) -> (r: Option<u64>)
    ensures
        r == spec_parse_hex_hash(text@),
{
    if text.len() != 16 {
        return None;
    }
    let mut acc: u64 = 0;
    let mut i: usize = 0;
    while i < 16
        invariant
            i <= 16,
            text@.len() == 16,
            Some(acc) == hex_fold(text@.take(i as int)),
        decreases 16 - i,
    {
        match hex_digit_value_exec(text[i]) {
            None => {
                proof {
                    lemma_hex_fold_bad_digit(text@, i as int);
                }
                return None;
            },
            Some(d) => {
                acc = (acc << 4u64) | (d as u64);
            },
        }
        proof {
            let taken = text@.take(i + 1);
            assert(taken.drop_last() =~= text@.take(i as int));
            assert(taken.last() == text@[i as int]);
        }
        i = i + 1;
    }
    proof {
        assert(text@.take(16) =~= text@);
    }
    Some(acc)
}

/// A run with a non-digit byte anywhere names no value.
proof fn lemma_hex_fold_bad_digit(s: Seq<u8>, i: int)
    requires
        0 <= i < s.len(),
        hex_digit_value(s[i]) is None,
    ensures
        hex_fold(s) is None,
    decreases s.len(),
{
    if s.len() > 0 {
        if i == s.len() - 1 {
        } else {
            assert(s.drop_last()[i] == s[i]);
            lemma_hex_fold_bad_digit(s.drop_last(), i);
        }
    }
}

} // verus!
