use std::sync::Arc;
use std::cmp::Ordering;
use vstd::prelude::*;
use vstd::string::*;
use vstd::utf8::*;
use crate::iter::{Bytes, Chars, lemma_encode_injective, stacked_chars};
use crate::order::{compare_bytes, lex_cmp, same_bytes};

verus! {

/// One leaf of text: either shared behind a reference count, or a literal
/// that lives as long as the process.
pub enum Twine {
    Owned(Arc<String>),
    Borrowed(&'static str),
}

/// Relies on `Arc::clone`: the new handle points at the same string.
#[verifier::external_body]
fn share(s: &Arc<String>) -> (r: Arc<String>)
    ensures
        *r == **s,
{
    Arc::clone(s)
}

impl View for Twine {
    type V = Seq<char>;

    open spec fn view(&self) -> Seq<char> {
        match self {
            Twine::Owned(s) => (**s)@,
            Twine::Borrowed(s) => (*s)@,
        }
    }
}

impl Twine {
    /// The UTF-8 bytes of the text.
    pub open spec fn spec_bytes(&self) -> Seq<u8> {
        encode_utf8(self@)
    }

    /// Takes ownership of `s` and shares it behind a reference count.
    pub fn new(s: String) -> (r: Twine)
        ensures
            r == Twine::Owned(Arc::new(s)),
            r@ == s@,
    {
        Twine::Owned(Arc::new(s))
    }

    /// Refers to a literal, without copying it.
    pub fn new_str(s: &'static str) -> (r: Twine)
        ensures
            r == Twine::Borrowed(s),
    {
        Twine::Borrowed(s)
    }

    pub fn as_str(&self) -> (r: &str)
        ensures
            r@ == self@,
    {
        match self {
            Twine::Owned(s) => s.as_str(),
            Twine::Borrowed(s) => s,
        }
    }

    pub fn as_bytes(&self) -> (r: &[u8])
        ensures
            r@ == self.spec_bytes(),
    {
        self.as_str().as_bytes()
    }

    /// The count of characters.
    pub fn len(&self) -> (r: usize)
        ensures
            r == self@.len(),
    {
        self.as_str().unicode_len()
    }

    /// The length in bytes.
    pub fn byte_len(&self) -> (r: usize)
        ensures
            r == self.spec_bytes().len(),
    {
        self.as_bytes().len()
    }

    pub fn is_empty(&self) -> (r: bool)
        ensures
            r == (self@.len() == 0),
    {
        self.as_str().is_empty()
    }

    pub fn bytes(&self) -> (r: Bytes<'_>)
        ensures
            r@ == self.spec_bytes(),
    {
        let t = self.as_str();
        let mut frags: Vec<&str> = Vec::new();
        frags.push(t);
        proof {
            assert(frags@.drop_last() =~= Seq::<&str>::empty());
            assert(stacked_chars(frags@.drop_last()) =~= Seq::<char>::empty());
            assert(stacked_chars(frags@) =~= self@);
        }
        Bytes::from_stack(frags)
    }

    pub fn chars(&self) -> (r: Chars<'_>)
        ensures
            r@ == self@,
    {
        let t = self.as_str();
        let mut frags: Vec<&str> = Vec::new();
        frags.push(t);
        proof {
            assert(frags@.drop_last() =~= Seq::<&str>::empty());
            assert(stacked_chars(frags@.drop_last()) =~= Seq::<char>::empty());
            assert(stacked_chars(frags@) =~= self@);
        }
        Chars::from_stack(frags)
    }

    /// A copy of the text as a string of its own.
    pub fn to_string(&self) -> (r: String)
        ensures
            r@ == self@,
    {
        self.as_str().to_owned()
    }

    /// Another handle on the same text; an owned text is shared, not copied.
    pub fn share(&self) -> (r: Twine)
        ensures
            r@ == self@,
    {
        match self {
            Twine::Owned(s) => Twine::Owned(share(s)),
            Twine::Borrowed(s) => Twine::Borrowed(s),
        }
    }
}

impl Clone for Twine {
    fn clone(&self) -> (r: Twine)
        ensures
            r@ == self@,
    {
        self.share()
    }
}

impl From<&'static str> for Twine {
    fn from(s: &'static str) -> (r: Twine)
        ensures
            r@ == s@,
    {
        Twine::Borrowed(s)
    }
}

impl From<String> for Twine {
    fn from(s: String) -> (r: Twine)
        ensures
            r@ == s@,
    {
        Twine::new(s)
    }
}

impl vstd::std_specs::convert::FromSpecImpl<String> for Twine {
    open spec fn obeys_from_spec() -> bool {
        true
    }

    open spec fn from_spec(s: String) -> Twine {
        Twine::Owned(Arc::new(s))
    }
}

impl From<&String> for Twine {
    /// Copies the string and shares the copy.
    fn from(s: &String) -> (r: Twine)
        ensures
            r@ == s@,
    {
        Twine::new(s.clone())
    }
}

impl vstd::std_specs::convert::FromSpecImpl<&String> for Twine {
    open spec fn obeys_from_spec() -> bool {
        true
    }

    open spec fn from_spec(s: &String) -> Twine {
        Twine::Owned(Arc::new(*s))
    }
}

impl From<Arc<String>> for Twine {
    fn from(s: Arc<String>) -> (r: Twine)
        ensures
            r@ == (*s)@,
    {
        Twine::Owned(s)
    }
}

impl vstd::std_specs::convert::FromSpecImpl<Arc<String>> for Twine {
    open spec fn obeys_from_spec() -> bool {
        true
    }

    open spec fn from_spec(s: Arc<String>) -> Twine {
        Twine::Owned(s)
    }
}

impl From<&Arc<String>> for Twine {
    /// Shares the string; nothing is copied.
    fn from(s: &Arc<String>) -> (r: Twine)
        ensures
            r@ == (**s)@,
    {
        Twine::Owned(share(s))
    }
}

impl vstd::std_specs::convert::FromSpecImpl<&Arc<String>> for Twine {
    open spec fn obeys_from_spec() -> bool {
        true
    }

    open spec fn from_spec(s: &Arc<String>) -> Twine {
        Twine::Owned(*s)
    }
}

impl vstd::std_specs::convert::FromSpecImpl<&'static str> for Twine {
    open spec fn obeys_from_spec() -> bool {
        true
    }

    open spec fn from_spec(s: &'static str) -> Twine {
        Twine::Borrowed(s)
    }
}

/// Texts are equal when their characters are, whatever holds them.
impl PartialEq for Twine {
    fn eq(&self, other: &Twine) -> (r: bool)
        ensures
            r == (self@ == other@),
    {
        proof {
            if self.spec_bytes() == other.spec_bytes() {
                lemma_encode_injective(self@, other@);
            }
        }
        same_bytes(self.bytes(), other.bytes())
    }
}

impl vstd::std_specs::cmp::PartialEqSpecImpl for Twine {
    open spec fn obeys_eq_spec() -> bool {
        true
    }

    open spec fn eq_spec(&self, other: &Twine) -> bool {
        self@ == other@
    }
}

impl Eq for Twine {

}

/// Texts are ordered by their bytes, lexicographically.
impl PartialOrd for Twine {
    fn partial_cmp(&self, other: &Twine) -> (r: Option<Ordering>)
        ensures
            r == Some(lex_cmp(self.spec_bytes(), other.spec_bytes())),
    {
        Some(compare_bytes(self.bytes(), other.bytes()))
    }
}

impl vstd::std_specs::cmp::PartialOrdSpecImpl for Twine {
    open spec fn obeys_partial_cmp_spec() -> bool {
        true
    }

    open spec fn partial_cmp_spec(&self, other: &Twine) -> Option<Ordering> {
        Some(lex_cmp(self.spec_bytes(), other.spec_bytes()))
    }
}

} // verus!
