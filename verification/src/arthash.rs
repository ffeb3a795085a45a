//! The cache-busting token of an art reference: a stable 64-bit fold over
//! the reference text, so that equal references give equal tokens on every
//! run and every machine.  An absent reference maps to a fixed sentinel;
//! collisions are tolerated, the token is advisory only.

use vstd::prelude::*;

verus! {

/// The token of an absent art reference.
pub const ABSENT_ART_TOKEN: u64 = 0;

pub const FNV_OFFSET: u64 = 0xcbf29ce484222325;

pub const FNV_PRIME: u64 = 0x100000001b3;

/// One step of the fold: mix one character into the running hash.
pub open spec fn art_hash_step(h: u64, c: char) -> u64 {
    vstd::wrapping::u64_specs::wrapping_mul(h ^ ((c as u32) as u64), FNV_PRIME)
}

/// The fold over a whole reference text.
pub open spec fn art_hash_chars(s: Seq<char>) -> u64
    decreases s.len(),
{
    if s.len() == 0 {
        FNV_OFFSET
    } else {
        art_hash_step(art_hash_chars(s.drop_last()), s.last())
    }
}

/// The sentinel differs even from the token of a present-but-empty
/// reference, so absence is never mistaken for empty text.  Collisions
/// with longer references are tolerated: the token is advisory only.
pub proof fn lemma_absent_token_distinct()
    ensures
        art_hash_chars(Seq::empty()) != ABSENT_ART_TOKEN,
{
}

/// The token of a present or absent art reference.
pub fn hash_art_reference(art: Option<&str>) -> (h: u64)
    ensures
        art is None ==> h == ABSENT_ART_TOKEN,
        art is Some ==> h == art_hash_chars(art->Some_0@),
{
    match art {
        None => ABSENT_ART_TOKEN,
        Some(s) => {
            let n: usize = s.unicode_len();
            let mut h: u64 = FNV_OFFSET;
            let mut i: usize = 0;
            while i < n
                invariant
                    n == s@.len(),
                    0 <= i <= n,
                    h == art_hash_chars(s@.take(i as int)),
                decreases n - i,
            {
                let c = s.get_char(i);
                h = (h ^ ((c as u32) as u64)).wrapping_mul(FNV_PRIME);
                proof {
                    assert(s@.take(i + 1).drop_last() =~= s@.take(i as int));
                    assert(s@.take(i + 1).last() == s@[i as int]);
                }
                i = i + 1;
            }
            proof {
                assert(s@.take(n as int) =~= s@);
            }
            h
        },
    }
}

} // verus!
