use std::cmp::Ordering;
use std::sync::Arc;
use vstd::prelude::*;
use vstd::utf8::*;

pub mod hashes;
pub mod iter;
pub mod laws;
pub mod order;
pub mod prefix;
pub mod twine;

use crate::hashes::{Hashes, calculate_hashes, hashes_of};
use crate::iter::{
    Bytes, Chars, lemma_encode_injective, stacked_chars,
};
use crate::order::{compare_bytes, lex_cmp, same_bytes};
use crate::prefix::Prefix;
use crate::twine::Twine;

verus! {

/// A string built as a chain of fragments: an optional link to the chain in
/// front of it, then a text of its own. Its hash pair and its count of
/// characters are computed once, when the chain is made.
pub struct Strey {
    prefix: Option<Prefix>,
    string: Twine,
    hashes: Hashes,
    count: usize,
}

/// A count of characters, held at `usize::MAX` where it would exceed it.
pub open spec fn capped(n: nat) -> usize {
    if n > usize::MAX {
        usize::MAX
    } else {
        n as usize
    }
}

/// The characters that a link puts in front of a chain's own text.
pub open spec fn prefix_chars(p: Option<Prefix>) -> Seq<char> {
    match p {
        None => seq![],
        Some(p) => p@,
    }
}

/// The texts of a list of fragments, joined first to last.
pub open spec fn concat_all(texts: Seq<Seq<char>>) -> Seq<char>
    decreases texts.len(),
{
    if texts.len() == 0 {
        seq![]
    } else {
        concat_all(texts.drop_last()) + texts.last()
    }
}

/// What `maybe_use_as_prefix_for` reads as: `p` followed by the rest of `s`
/// where `s` begins with `p`; `s` itself otherwise.
pub open spec fn reuse_content(p: Seq<char>, s: Seq<char>) -> Seq<char> {
    if starts_with(s, p) {
        p + s.subrange(p.len() as int, s.len() as int)
    } else {
        s
    }
}

/// `s` begins with `p`.
pub open spec fn starts_with(s: Seq<char>, p: Seq<char>) -> bool {
    p.len() <= s.len() && s.subrange(0, p.len() as int) == p
}

impl View for Strey {
    type V = Seq<char>;

    closed spec fn view(&self) -> Seq<char> {
        self.content()
    }
}

impl Strey {
    closed spec fn content(&self) -> Seq<char>
        decreases self,
    {
        match self.prefix {
            None => self.string@,
            Some(Prefix::Owned(b)) => b.content() + self.string@,
            Some(Prefix::Borrowed(s)) => s.content() + self.string@,
        }
    }

    /// The texts of the chain's fragments, first to last.
    pub closed spec fn pieces(&self) -> Seq<Seq<char>>
        decreases self,
    {
        match self.prefix {
            None => seq![self.string@],
            Some(Prefix::Owned(b)) => b.pieces().push(self.string@),
            Some(Prefix::Borrowed(s)) => s.pieces().push(self.string@),
        }
    }

    /// However deep the chain, its characters are the texts of its fragments
    /// joined in order.
    pub proof fn law_reads_as_its_fragments(&self)
        ensures
            self@ == concat_all(self.pieces()),
        decreases self,
    {
        match self.prefix {
            None => {
                let p = self.pieces();
                assert(p.drop_last() =~= Seq::<Seq<char>>::empty());
                assert(concat_all(p.drop_last()) =~= Seq::<char>::empty());
                assert(concat_all(p) =~= self.string@);
            },
            Some(Prefix::Owned(b)) => {
                b.law_reads_as_its_fragments();
                assert(self.pieces().drop_last() =~= b.pieces());
            },
            Some(Prefix::Borrowed(s)) => {
                s.law_reads_as_its_fragments();
                assert(self.pieces().drop_last() =~= s.pieces());
            },
        }
    }

    #[verifier::type_invariant]
    closed spec fn hashes_cached(&self) -> bool {
        &&& self.hashes == hashes_of(encode_utf8(self.content()))
        &&& self.count == capped(self.content().len())
    }

    /// The link to the chain in front, if any.
    pub closed spec fn link(&self) -> Option<Prefix> {
        self.prefix
    }

    /// The chain's own text, the last fragment.
    pub closed spec fn text(&self) -> Twine {
        self.string
    }

    /// The UTF-8 bytes of the whole chain.
    pub open spec fn spec_bytes(&self) -> Seq<u8> {
        encode_utf8(self@)
    }

    /// The order that `cmp` decides: bytes, lexicographically.
    pub open spec fn spec_cmp(&self, other: &Strey) -> Ordering {
        lex_cmp(self.spec_bytes(), other.spec_bytes())
    }

    /// A chain reads as its link's characters followed by its own text.
    pub proof fn lemma_parts(&self)
        ensures
            self@ == prefix_chars(self.link()) + self.text()@,
    {
        if self.prefix is None {
            assert(prefix_chars(self.prefix) + self.string@ =~= self.string@);
        }
    }

    pub fn new(prefix: Option<Prefix>, string: Twine) -> (r: Strey)
        ensures
            r@ == prefix_chars(prefix) + string@,
            r.link() == prefix,
            r.text() == string,
    {
        let hashes = calculate_hashes(&prefix, &string);
        let local = string.len();
        let front = match &prefix {
            None => 0,
            Some(p) => p.capped_count(),
        };
        let count = if front > usize::MAX - local {
            usize::MAX
        } else {
            front + local
        };
        let r = Strey { prefix, string, hashes, count };
        proof {
            r.lemma_parts();
        }
        r
    }

    pub fn new_string(string: String) -> (r: Strey)
        ensures
            r@ == string@,
            r.link() is None,
            r.text() == Twine::Owned(Arc::new(string)),
    {
        Strey::new(None, Twine::new(string))
    }

    pub fn new_str(string: &'static str) -> (r: Strey)
        ensures
            r@ == string@,
            r.link() is None,
            r.text() == Twine::Borrowed(string),
    {
        Strey::new(None, Twine::new_str(string))
    }

    /// A copy of the chain: owned links are copied, borrowed links and
    /// shared texts are shared.
    pub fn duplicate(&self) -> (r: Strey)
        ensures
            r@ == self@,
            r.pieces() == self.pieces(),
        decreases self,
    {
        proof {
            use_type_invariant(self);
        }
        let prefix = match &self.prefix {
            None => None,
            Some(Prefix::Owned(b)) => Some(Prefix::Owned(Box::new(b.duplicate()))),
            Some(Prefix::Borrowed(s)) => Some(Prefix::Borrowed(*s)),
        };
        let string = self.string.share();
        proof {
            self.lemma_parts();
        }
        let r = Strey { prefix, string, hashes: self.hashes, count: self.count };
        proof {
            r.lemma_parts();
        }
        r
    }

    /// A new chain that owns a copy of this one as its prefix.
    pub fn append(&self, string: String) -> (r: Strey)
        ensures
            r@ == self@ + string@,
            r.pieces() == self.pieces().push(string@),
            r.link() matches Some(Prefix::Owned(b)) && b@ == self@,
            r.text() == Twine::Owned(Arc::new(string)),
            r.text()@ == string@,
    {
        Strey::new(Some(Prefix::Owned(Box::new(self.duplicate()))), Twine::new(string))
    }

    pub fn append_str(&self, string: &'static str) -> (r: Strey)
        ensures
            r@ == self@ + string@,
            r.pieces() == self.pieces().push(string@),
            r.link() matches Some(Prefix::Owned(b)) && b@ == self@,
            r.text() == Twine::Borrowed(string),
            r.text()@ == string@,
    {
        Strey::new(Some(Prefix::Owned(Box::new(self.duplicate()))), Twine::new_str(string))
    }

    /// A new chain that refers to this long-lived one as its prefix.
    pub fn join(&'static self, string: String) -> (r: Strey)
        ensures
            r@ == self@ + string@,
            r.pieces() == self.pieces().push(string@),
            r.link() == Some(Prefix::Borrowed(self)),
            r.text() == Twine::Owned(Arc::new(string)),
            r.text()@ == string@,
    {
        Strey::new(Some(Prefix::Borrowed(self)), Twine::new(string))
    }

    pub fn join_str(&'static self, string: &'static str) -> (r: Strey)
        ensures
            r@ == self@ + string@,
            r.pieces() == self.pieces().push(string@),
            r.link() == Some(Prefix::Borrowed(self)),
            r.text() == Twine::Borrowed(string),
            r.text()@ == string@,
    {
        Strey::new(Some(Prefix::Borrowed(self)), Twine::new_str(string))
    }

    /// The count of characters, taken from the cache.
    pub fn len(&self) -> (r: usize)
        requires
            self@.len() <= usize::MAX,
        ensures
            r == self@.len(),
    {
        proof {
            use_type_invariant(self);
        }
        self.count
    }

    /// The count of characters, or `usize::MAX` where it is larger.
    pub(crate) fn capped_count(&self) -> (r: usize)
        ensures
            r == capped(self@.len()),
    {
        proof {
            use_type_invariant(self);
        }
        self.count
    }

    pub fn is_empty(&self) -> (r: bool)
        ensures
            r == (self@.len() == 0),
        decreases self,
    {
        proof {
            self.lemma_parts();
        }
        match &self.prefix {
            None => self.string.is_empty(),
            Some(prefix) => prefix.is_empty() && self.string.is_empty(),
        }
    }

    /// The cached hash pair.
    pub fn get_hashes(&self) -> (r: Hashes)
        ensures
            r == hashes_of(self.spec_bytes()),
    {
        proof {
            use_type_invariant(self);
        }
        self.hashes
    }

    /// Puts the fragments of the chain on `frags`, the first on top.
    fn stack_fragments<'a>(&'a self, frags: &mut Vec<&'a str>)
        ensures
            stacked_chars(final(frags)@) == self@ + stacked_chars(old(frags)@),
        decreases self,
    {
        let ghost below = frags@;
        let t = self.string.as_str();
        frags.push(t);
        proof {
            assert(frags@.drop_last() =~= below);
            self.lemma_parts();
        }
        match &self.prefix {
            None => {
                assert(self@ + stacked_chars(below) =~= t@ + stacked_chars(below));
            },
            Some(Prefix::Owned(b)) => {
                b.stack_fragments(frags);
                assert(self@ + stacked_chars(below) =~= b@ + (t@ + stacked_chars(below)));
            },
            Some(Prefix::Borrowed(s)) => {
                s.stack_fragments(frags);
                assert(self@ + stacked_chars(below) =~= s@ + (t@ + stacked_chars(below)));
            },
        }
    }

    fn fragments(&self) -> (r: Vec<&str>)
        ensures
            stacked_chars(r@) == self@,
    {
        let mut frags: Vec<&str> = Vec::new();
        self.stack_fragments(&mut frags);
        assert(self@ + stacked_chars(Seq::<&str>::empty()) =~= self@);
        frags
    }

    pub fn bytes(&self) -> (r: Bytes<'_>)
        ensures
            r@ == self.spec_bytes(),
    {
        Bytes::from_stack(self.fragments())
    }

    pub fn chars(&self) -> (r: Chars<'_>)
        ensures
            r@ == self@,
    {
        Chars::from_stack(self.fragments())
    }

    /// The rest of this chain's characters after `prefix`, where the chain
    /// begins with the characters of `prefix`, however either is split into
    /// fragments.
    pub fn strip_prefix(&self, prefix: &Strey) -> (r: Option<Chars<'_>>)
        ensures
            r is Some <==> starts_with(self@, prefix@),
            r is Some ==> r->0@ == self@.subrange(prefix@.len() as int, self@.len() as int),
    {
        let mut self_chars = self.chars();
        let mut prefix_chars = prefix.chars();
        let ghost k: int = 0;
        loop
            invariant
                0 <= k <= prefix@.len(),
                k <= self@.len(),
                prefix_chars@ == prefix@.subrange(k, prefix@.len() as int),
                self_chars@ == self@.subrange(k, self@.len() as int),
                self@.subrange(0, k) == prefix@.subrange(0, k),
            decreases prefix_chars@.len(),
        {
            let cp = match prefix_chars.next() {
                None => {
                    assert(prefix@.subrange(0, k) =~= prefix@);
                    return Some(self_chars);
                },
                Some(c) => c,
            };
            let cs = match self_chars.next() {
                None => {
                    return None;
                },
                Some(c) => c,
            };
            if cp != cs {
                proof {
                    if starts_with(self@, prefix@) {
                        assert(self@.subrange(0, prefix@.len() as int)[k] == self@[k]);
                    }
                }
                return None;
            }
            proof {
                assert(self@.subrange(0, k + 1) =~= prefix@.subrange(0, k + 1));
                assert(prefix_chars@ =~= prefix@.subrange(k + 1, prefix@.len() as int));
                assert(self_chars@ =~= self@.subrange(k + 1, self@.len() as int));
                k = k + 1;
            }
        }
    }

    /// Where `strey` begins with this chain's characters, the same
    /// characters rebuilt as a copy of this chain followed by the rest;
    /// otherwise `strey` unchanged.
    pub fn maybe_use_as_prefix_for(&self, strey: Strey) -> (r: Strey)
        ensures
            r@ == reuse_content(self@, strey@),
            starts_with(strey@, self@) ==> (r.link() matches Some(Prefix::Owned(b)) && b@ == self@),
            starts_with(strey@, self@) ==> r.pieces() == self.pieces().push(
                strey@.subrange(self@.len() as int, strey@.len() as int),
            ),
            starts_with(strey@, self@) ==> r.text()@ == strey@.subrange(
                self@.len() as int,
                strey@.len() as int,
            ),
            !starts_with(strey@, self@) ==> r == strey,
    {
        let rest = match strey.strip_prefix(self) {
            None => None,
            Some(suffix) => Some(suffix.collect_string()),
        };
        match rest {
            None => strey,
            Some(text) => Strey::new(
                Some(Prefix::Owned(Box::new(self.duplicate()))),
                Twine::new(text),
            ),
        }
    }

    /// Compares the bytes of two chains lexicographically.
    pub fn cmp(&self, other: &Strey) -> (r: Ordering)
        ensures
            r == self.spec_cmp(other),
    {
        compare_bytes(self.bytes(), other.bytes())
    }

    /// The whole text as one string.
    pub fn to_string(&self) -> (r: String)
        ensures
            r@ == self@,
    {
        self.chars().collect_string()
    }
}

impl PartialEq for Strey {
    /// Equal when the characters are, however the chains are split. Differing
    /// hash pairs settle it at once; equal ones are confirmed byte by byte.
    fn eq(&self, other: &Strey) -> (r: bool)
        ensures
            r == (self@ == other@),
    {
        proof {
            if self.spec_bytes() == other.spec_bytes() {
                lemma_encode_injective(self@, other@);
            }
        }
        if self.get_hashes() != other.get_hashes() {
            return false;
        }
        same_bytes(self.bytes(), other.bytes())
    }
}

impl vstd::std_specs::cmp::PartialEqSpecImpl for Strey {
    open spec fn obeys_eq_spec() -> bool {
        true
    }

    open spec fn eq_spec(&self, other: &Strey) -> bool {
        self@ == other@
    }
}

impl Clone for Strey {
    fn clone(&self) -> (r: Strey)
        ensures
            r@ == self@,
    {
        self.duplicate()
    }
}

impl From<&'static str> for Strey {
    fn from(string: &'static str) -> (r: Strey)
        ensures
            r@ == string@,
    {
        let r = Strey::new_str(string);
        proof {
            use_type_invariant(&r);
            r.lemma_parts();
        }
        r
    }
}

impl From<String> for Strey {
    fn from(string: String) -> (r: Strey)
        ensures
            r@ == string@,
    {
        let r = Strey::new_string(string);
        proof {
            use_type_invariant(&r);
            r.lemma_parts();
        }
        r
    }
}

impl vstd::std_specs::convert::FromSpecImpl<String> for Strey {
    open spec fn obeys_from_spec() -> bool {
        true
    }

    /// A chain of one owned fragment.
    closed spec fn from_spec(string: String) -> Strey {
        Strey {
            prefix: None,
            string: Twine::Owned(Arc::new(string)),
            hashes: hashes_of(encode_utf8(string@)),
            count: capped(string@.len()),
        }
    }
}

impl vstd::std_specs::convert::FromSpecImpl<&'static str> for Strey {
    open spec fn obeys_from_spec() -> bool {
        true
    }

    /// A chain of one literal fragment.
    closed spec fn from_spec(string: &'static str) -> Strey {
        Strey {
            prefix: None,
            string: Twine::Borrowed(string),
            hashes: hashes_of(encode_utf8(string@)),
            count: capped(string@.len()),
        }
    }
}

impl Eq for Strey {

}

impl PartialOrd for Strey {
    fn partial_cmp(&self, other: &Strey) -> (r: Option<Ordering>)
        ensures
            r == Some(self.spec_cmp(other)),
    {
        Some(self.cmp(other))
    }
}

impl vstd::std_specs::cmp::PartialOrdSpecImpl for Strey {
    open spec fn obeys_partial_cmp_spec() -> bool {
        true
    }

    open spec fn partial_cmp_spec(&self, other: &Strey) -> Option<Ordering> {
        Some(self.spec_cmp(other))
    }
}

} // verus!
