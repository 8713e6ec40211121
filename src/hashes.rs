use vstd::prelude::*;
use vstd::utf8::*;
use crate::prefix::Prefix;
use crate::prefix_chars;
use crate::twine::Twine;
use crate::iter::lemma_encode_concat;

verus! {

/// The multiplier of both rolling hashes.
pub const HASH_MUL: u64 = 19;

/// Two rolling hashes over a byte sequence.
#[derive(Clone, Copy, Debug, PartialEq, Eq, Structural)]
pub struct Hashes {
    pub hash1: u64,
    pub hash2: u64,
}

/// One byte folded into a pair, in wrapping `u64` arithmetic:
/// `hash1 * 19 + b` and `hash2 * 19 + b + 1`.
pub open spec fn hash_step(h: Hashes, b: u8) -> Hashes {
    Hashes {
        hash1: h.hash1.wrapping_mul(HASH_MUL).wrapping_add(b as u64),
        hash2: h.hash2.wrapping_mul(HASH_MUL).wrapping_add(b as u64).wrapping_add(1),
    }
}

/// The pair obtained by folding `bytes`, first to last, into `h`.
pub open spec fn hash_fold(h: Hashes, bytes: Seq<u8>) -> Hashes
    decreases bytes.len(),
{
    if bytes.len() == 0 {
        h
    } else {
        hash_step(hash_fold(h, bytes.drop_last()), bytes.last())
    }
}

pub open spec fn zero_hashes() -> Hashes {
    Hashes { hash1: 0, hash2: 0 }
}

/// The pair of a byte sequence, folded from zero.
pub open spec fn hashes_of(bytes: Seq<u8>) -> Hashes {
    hash_fold(zero_hashes(), bytes)
}

/// Folding a concatenation is folding its two parts one after the other.
pub proof fn lemma_fold_concat(h: Hashes, a: Seq<u8>, b: Seq<u8>)
    ensures
        hash_fold(h, a + b) == hash_fold(hash_fold(h, a), b),
    decreases b.len(),
{
    if b.len() == 0 {
        assert(a + b =~= a);
    } else {
        lemma_fold_concat(h, a, b.drop_last());
        assert((a + b).drop_last() =~= a + b.drop_last());
        assert((a + b).last() == b.last());
    }
}

impl Hashes {
    pub fn zero() -> (r: Hashes)
        ensures
            r == zero_hashes(),
    {
        Hashes { hash1: 0, hash2: 0 }
    }

    /// Folds `bytes`, first to last, into this pair.
    pub fn fold(self, bytes: &[u8]) -> (r: Hashes)
        ensures
            r == hash_fold(self, bytes@),
    {
        let mut h = self;
        let mut i: usize = 0;
        while i < bytes.len()
            invariant
                i <= bytes@.len(),
                h == hash_fold(self, bytes@.subrange(0, i as int)),
            decreases bytes@.len() - i,
        {
            let b = bytes[i];
            proof {
                assert(bytes@.subrange(0, i + 1).drop_last() =~= bytes@.subrange(0, i as int));
            }
            h = Hashes {
                hash1: h.hash1.wrapping_mul(HASH_MUL).wrapping_add(b as u64),
                hash2: h.hash2.wrapping_mul(HASH_MUL).wrapping_add(b as u64).wrapping_add(1),
            };
            i = i + 1;
        }
        assert(bytes@.subrange(0, i as int) =~= bytes@);
        h
    }
}

/// The pair of a chain made of `prefix` and `string`: the prefix's cached pair
/// with the bytes of `string` folded in, so that no earlier fragment is read
/// again.
pub fn calculate_hashes(prefix: &Option<Prefix>, string: &Twine) -> (r: Hashes)
    ensures
        r == hashes_of(encode_utf8(prefix_chars(*prefix) + string@)),
{
    let start = match prefix {
        None => Hashes::zero(),
        Some(prefix) => prefix.get_hashes(),
    };
    proof {
        assert(encode_utf8(Seq::<char>::empty()) =~= Seq::<u8>::empty());
        lemma_encode_concat(prefix_chars(*prefix), string@);
        lemma_fold_concat(zero_hashes(), encode_utf8(prefix_chars(*prefix)), string.spec_bytes());
    }
    start.fold(string.as_bytes())
}

} // verus!
