use vstd::prelude::*;
use vstd::utf8::*;
use crate::{Strey, capped};
use crate::hashes::{Hashes, hashes_of};
use crate::iter::{Bytes, Chars};

verus! {

/// How a chain reaches the chain in front of it: by owning a copy of it, or
/// by referring to one that lives as long as the process.
pub enum Prefix {
    Borrowed(&'static Strey),
    Owned(Box<Strey>),
}

impl View for Prefix {
    type V = Seq<char>;

    /// The characters of the chain that the link leads to.
    open spec fn view(&self) -> Seq<char> {
        match self {
            Prefix::Borrowed(s) => s@,
            Prefix::Owned(b) => b@,
        }
    }
}

impl Clone for Prefix {
    /// An owned link gets a copy of its chain; a borrowed one is shared.
    fn clone(&self) -> (r: Prefix)
        ensures
            r@ == self@,
    {
        match self {
            Prefix::Borrowed(strey) => Prefix::Borrowed(strey),
            Prefix::Owned(strey) => Prefix::Owned(Box::new(strey.duplicate())),
        }
    }
}

impl Prefix {
    pub open spec fn spec_bytes(&self) -> Seq<u8> {
        encode_utf8(self@)
    }

    /// The count of characters of the chain that the link leads to.
    pub fn len(&self) -> (r: usize)
        requires
            self@.len() <= usize::MAX,
        ensures
            r == self@.len(),
    {
        match self {
            Prefix::Borrowed(strey) => strey.len(),
            Prefix::Owned(strey) => strey.len(),
        }
    }

    /// The count of characters, or `usize::MAX` where it is larger.
    pub(crate) fn capped_count(&self) -> (r: usize)
        ensures
            r == capped(self@.len()),
    {
        match self {
            Prefix::Borrowed(strey) => strey.capped_count(),
            Prefix::Owned(strey) => strey.capped_count(),
        }
    }

    pub fn is_empty(&self) -> (r: bool)
        ensures
            r == (self@.len() == 0),
        decreases self,
    {
        match self {
            Prefix::Borrowed(strey) => strey.is_empty(),
            Prefix::Owned(strey) => strey.is_empty(),
        }
    }

    pub fn bytes(&self) -> (r: Bytes<'_>)
        ensures
            r@ == self.spec_bytes(),
    {
        match self {
            Prefix::Borrowed(strey) => strey.bytes(),
            Prefix::Owned(strey) => strey.bytes(),
        }
    }

    pub fn chars(&self) -> (r: Chars<'_>)
        ensures
            r@ == self@,
    {
        match self {
            Prefix::Borrowed(strey) => strey.chars(),
            Prefix::Owned(strey) => strey.chars(),
        }
    }

    /// The text of the chain that the link leads to, as one string.
    pub fn to_string(&self) -> (r: String)
        ensures
            r@ == self@,
    {
        match self {
            Prefix::Borrowed(strey) => strey.to_string(),
            Prefix::Owned(strey) => strey.to_string(),
        }
    }

    /// The cached hash pair of the chain that the link leads to.
    pub fn get_hashes(&self) -> (r: Hashes)
        ensures
            r == hashes_of(self.spec_bytes()),
    {
        match self {
            Prefix::Borrowed(strey) => strey.get_hashes(),
            Prefix::Owned(strey) => strey.get_hashes(),
        }
    }
}

} // verus!
