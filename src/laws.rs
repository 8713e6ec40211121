use std::cmp::Ordering;
use vstd::prelude::*;
use vstd::utf8::*;
use crate::{Strey, reuse_content, starts_with};
use crate::hashes::{hash_fold, hashes_of, lemma_fold_concat, zero_hashes};
use crate::iter::{lemma_encode_concat, lemma_encode_injective};
use crate::order::{lemma_lex_antisymmetric, lemma_lex_equal, lemma_lex_transitive, reversed};

verus! {

/// A chain has no characters exactly when it has no bytes.
pub proof fn law_empty_iff_no_bytes(s: &Strey)
    ensures
        (s@.len() == 0) == (s.spec_bytes().len() == 0),
{
    if s@.len() > 0 {
        let c = s@[0];
        assert(s.spec_bytes() == encode_scalar(c as u32) + encode_utf8(s@.drop_first()));
        assert(encode_scalar(c as u32).len() > 0);
    } else {
        assert(s.spec_bytes() =~= Seq::<u8>::empty());
    }
}

/// The hash pair of a chain is its prefix's pair with the bytes of its own
/// text folded in.
pub proof fn law_hashes_extend_prefix(prefix: Seq<char>, local: Seq<char>)
    ensures
        hashes_of(encode_utf8(prefix + local)) == hash_fold(
            hashes_of(encode_utf8(prefix)),
            encode_utf8(local),
        ),
{
    lemma_encode_concat(prefix, local);
    lemma_fold_concat(zero_hashes(), encode_utf8(prefix), encode_utf8(local));
}

/// Folding a chain's own text into its prefix's pair gives the same pair
/// wherever the text is split between prefix and own text.
pub proof fn law_hashes_independent_of_split(
    prefix_a: Seq<char>,
    local_a: Seq<char>,
    prefix_b: Seq<char>,
    local_b: Seq<char>,
)
    requires
        prefix_a + local_a == prefix_b + local_b,
    ensures
        hash_fold(hashes_of(encode_utf8(prefix_a)), encode_utf8(local_a)) == hash_fold(
            hashes_of(encode_utf8(prefix_b)),
            encode_utf8(local_b),
        ),
{
    law_hashes_extend_prefix(prefix_a, local_a);
    law_hashes_extend_prefix(prefix_b, local_b);
}

/// `cmp` is a total order: swapping its arguments reverses the outcome, it
/// is transitive, and it says `Equal` exactly of equal chains.
pub proof fn law_compare_total_order(a: &Strey, b: &Strey, c: &Strey)
    ensures
        b.spec_cmp(a) == reversed(a.spec_cmp(b)),
        a.spec_cmp(b) == Ordering::Less && b.spec_cmp(c) == Ordering::Less ==> a.spec_cmp(c)
            == Ordering::Less,
        (a.spec_cmp(b) == Ordering::Equal) == (a@ == b@),
{
    lemma_lex_antisymmetric(a.spec_bytes(), b.spec_bytes());
    lemma_lex_equal(a.spec_bytes(), b.spec_bytes());
    if a.spec_bytes() == b.spec_bytes() {
        lemma_encode_injective(a@, b@);
    }
    if a.spec_cmp(b) == Ordering::Less && b.spec_cmp(c) == Ordering::Less {
        lemma_lex_transitive(a.spec_bytes(), b.spec_bytes(), c.spec_bytes());
    }
}

/// The edges of `strip_prefix`: an empty prefix leaves all of `s`, `s` as
/// its own prefix leaves nothing, and a longer prefix never matches.
pub proof fn law_strip_prefix_edges(s: Seq<char>, p: Seq<char>)
    ensures
        starts_with(s, seq![]) && s.subrange(0, s.len() as int) == s,
        starts_with(s, s) && s.subrange(s.len() as int, s.len() as int) == Seq::<char>::empty(),
        p.len() > s.len() ==> !starts_with(s, p),
{
    assert(s.subrange(0, 0) =~= Seq::<char>::empty());
    assert(s.subrange(0, s.len() as int) =~= s);
    assert(s.subrange(s.len() as int, s.len() as int) =~= Seq::<char>::empty());
}

/// Reusing a chain as the prefix of another keeps the other's characters,
/// and doing it a second time gives what the first time gave.
pub proof fn law_reuse_prefix_idempotent(p: &Strey, s: &Strey)
    ensures
        reuse_content(p@, s@) == s@,
        reuse_content(p@, reuse_content(p@, s@)) == reuse_content(p@, s@),
{
    if starts_with(s@, p@) {
        assert(p@ + s@.subrange(p@.len() as int, s@.len() as int) =~= s@);
    }
}

} // verus!
