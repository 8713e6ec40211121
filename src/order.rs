use std::cmp::Ordering;
use vstd::prelude::*;
use crate::iter::Bytes;

verus! {

/// Lexicographic order of byte sequences; a proper prefix comes first.
pub open spec fn lex_cmp(a: Seq<u8>, b: Seq<u8>) -> Ordering
    decreases a.len(),
{
    if a.len() == 0 {
        if b.len() == 0 {
            Ordering::Equal
        } else {
            Ordering::Less
        }
    } else if b.len() == 0 {
        Ordering::Greater
    } else if a[0] < b[0] {
        Ordering::Less
    } else if a[0] > b[0] {
        Ordering::Greater
    } else {
        lex_cmp(a.drop_first(), b.drop_first())
    }
}

pub open spec fn reversed(o: Ordering) -> Ordering {
    match o {
        Ordering::Less => Ordering::Greater,
        Ordering::Equal => Ordering::Equal,
        Ordering::Greater => Ordering::Less,
    }
}

/// Swapping the arguments reverses the outcome.
pub proof fn lemma_lex_antisymmetric(a: Seq<u8>, b: Seq<u8>)
    ensures
        lex_cmp(b, a) == reversed(lex_cmp(a, b)),
    decreases a.len(),
{
    if a.len() > 0 && b.len() > 0 && a[0] == b[0] {
        lemma_lex_antisymmetric(a.drop_first(), b.drop_first());
    }
}

/// Only equal sequences compare equal.
pub proof fn lemma_lex_equal(a: Seq<u8>, b: Seq<u8>)
    ensures
        (lex_cmp(a, b) == Ordering::Equal) == (a == b),
    decreases a.len(),
{
    if a.len() > 0 && b.len() > 0 {
        lemma_lex_equal(a.drop_first(), b.drop_first());
        if a[0] == b[0] && a.drop_first() == b.drop_first() {
            assert(a =~= seq![a[0]] + a.drop_first());
            assert(b =~= seq![b[0]] + b.drop_first());
        }
    } else if a.len() == 0 && b.len() == 0 {
        assert(a =~= b);
    }
}

/// `Less` is transitive.
pub proof fn lemma_lex_transitive(a: Seq<u8>, b: Seq<u8>, c: Seq<u8>)
    requires
        lex_cmp(a, b) == Ordering::Less,
        lex_cmp(b, c) == Ordering::Less,
    ensures
        lex_cmp(a, c) == Ordering::Less,
    decreases a.len(),
{
    if a.len() > 0 && b.len() > 0 && c.len() > 0 && a[0] == b[0] && b[0] == c[0] {
        lemma_lex_transitive(a.drop_first(), b.drop_first(), c.drop_first());
    }
}

/// Two sequences with the same first element are equal exactly when their
/// rests are.
proof fn lemma_same_head(x: Seq<u8>, y: Seq<u8>)
    requires
        x.len() > 0,
        y.len() > 0,
        x[0] == y[0],
    ensures
        (x == y) == (x.drop_first() == y.drop_first()),
{
    if x.drop_first() == y.drop_first() {
        assert(x =~= seq![x[0]] + x.drop_first());
        assert(y =~= seq![y[0]] + y.drop_first());
    }
}

/// Compares what is left of two byte sequences, lexicographically.
pub fn compare_bytes(first: Bytes<'_>, second: Bytes<'_>) -> (r: Ordering)
    ensures
        r == lex_cmp(first@, second@),
{
    let mut a = first;
    let mut b = second;
    loop
        invariant
            lex_cmp(first@, second@) == lex_cmp(a@, b@),
        decreases a@.len(),
    {
        let (p, q) = match (a.next(), b.next()) {
            (None, None) => {
                return Ordering::Equal;
            },
            (None, Some(_)) => {
                return Ordering::Less;
            },
            (Some(_), None) => {
                return Ordering::Greater;
            },
            (Some(p), Some(q)) => (p, q),
        };
        if p < q {
            return Ordering::Less;
        } else if p > q {
            return Ordering::Greater;
        }
    }
}

/// Whether what is left of two byte sequences is the same.
pub fn same_bytes(first: Bytes<'_>, second: Bytes<'_>) -> (r: bool)
    ensures
        r == (first@ == second@),
{
    let mut a = first;
    let mut b = second;
    loop
        invariant
            (first@ == second@) == (a@ == b@),
        decreases a@.len(),
    {
        let ghost old_a = a@;
        let ghost old_b = b@;
        let (p, q) = match (a.next(), b.next()) {
            (None, None) => {
                assert(old_a =~= old_b);
                return true;
            },
            (Some(p), Some(q)) => (p, q),
            _ => {
                return false;
            },
        };
        if p != q {
            return false;
        }
        proof {
            lemma_same_head(old_a, old_b);
        }
    }
}

} // verus!
