use vstd::prelude::*;
use vstd::string::*;
use vstd::utf8::*;

verus! {

/// The characters of a stack of fragments, read from the top of the stack
/// (its last element) down to the bottom.
pub open spec fn stacked_chars(frags: Seq<&str>) -> Seq<char>
    decreases frags.len(),
{
    if frags.len() == 0 {
        seq![]
    } else {
        frags.last()@ + stacked_chars(frags.drop_last())
    }
}

/// The UTF-8 encoding of a concatenation is the concatenation of the encodings.
pub proof fn lemma_encode_concat(a: Seq<char>, b: Seq<char>)
    ensures
        encode_utf8(a + b) == encode_utf8(a) + encode_utf8(b),
    decreases a.len(),
{
    if a.len() == 0 {
        assert(a + b =~= b);
        assert(encode_utf8(a) + encode_utf8(b) =~= encode_utf8(b));
    } else {
        lemma_encode_concat(a.drop_first(), b);
        assert((a + b).drop_first() =~= a.drop_first() + b);
        assert(encode_utf8(a + b) =~= encode_utf8(a) + encode_utf8(b));
    }
}

/// Two character sequences with the same UTF-8 encoding are equal.
pub proof fn lemma_encode_injective(a: Seq<char>, b: Seq<char>)
    requires
        encode_utf8(a) == encode_utf8(b),
    ensures
        a == b,
{
    encode_utf8_decode_utf8(a);
    encode_utf8_decode_utf8(b);
}

/// A forward-only sequence over the characters of a chain of fragments.
/// It keeps the rest of the fragment being read and a stack of the
/// fragments still to come, and never copies their text.
pub struct Chars<'a> {
    cur: &'a str,
    pending: Vec<&'a str>,
}

impl<'a> View for Chars<'a> {
    type V = Seq<char>;

    /// The characters that are still to come.
    closed spec fn view(&self) -> Seq<char> {
        self.cur@ + stacked_chars(self.pending@)
    }
}

impl<'a> Chars<'a> {
    /// A sequence over a stack of fragments, the first to be read on top.
    pub fn from_stack(pending: Vec<&'a str>) -> (r: Chars<'a>)
        ensures
            r@ == stacked_chars(pending@),
    {
        let r = Chars { cur: "", pending };
        proof {
            reveal_strlit("");
            assert(r@ =~= stacked_chars(pending@));
        }
        r
    }

    /// Yields the next character, or `None` once all have been read.
    pub fn next(&mut self) -> (r: Option<char>)
        ensures
            old(self)@.len() == 0 ==> r is None && final(self)@ == old(self)@,
            old(self)@.len() > 0 ==> r == Some(old(self)@[0]) && final(self)@
                == old(self)@.drop_first(),
    {
        while self.cur.is_empty() && self.pending.len() > 0
            invariant
                self@ == old(self)@,
            decreases self.pending.len(),
        {
            let ghost before = self.pending@;
            let f = self.pending.pop().unwrap();
            proof {
                assert(self.cur@ + stacked_chars(before) =~= f@ + stacked_chars(self.pending@));
            }
            self.cur = f;
        }
        if self.cur.is_empty() {
            assert(self@ =~= seq![]);
            return None;
        }
        let ghost text = self.cur@;
        let bytes = self.cur.as_bytes();
        proof {
            encode_utf8_first_scalar(text);
            assert(encode_utf8(text) == encode_scalar(#[verifier::truncate] (text[0] as u32)) + encode_utf8(
                text.drop_first(),
            ));
        }
        let b0 = bytes[0];
        let w: usize = if b0 <= 0x7f {
            1
        } else if b0 <= 0xdf {
            2
        } else if b0 <= 0xef {
            3
        } else {
            4
        };
        proof {
            assert(w == length_of_first_scalar(encode_utf8(text)));
            encode_utf8_valid_utf8(text);
            assert(w <= encode_utf8(text).len());
            assert(is_char_boundary(pop_first_scalar(encode_utf8(text)), 0));
            reveal_with_fuel(is_char_boundary, 2);
            assert(is_char_boundary(self.cur.spec_bytes(), w as int));
        }
        let c = self.cur.get_char(0);
        let (_, tail) = self.cur.split_at(w);
        proof {
            assert(tail.spec_bytes() =~= encode_utf8(text.drop_first()));
            lemma_encode_injective(tail@, text.drop_first());
            assert(tail@ + stacked_chars(self.pending@) =~= self@.drop_first());
        }
        self.cur = tail;
        Some(c)
    }
}

impl<'a> Chars<'a> {
    /// Collects the characters still to come into a new string, fragment by
    /// fragment.
    pub fn collect_string(self) -> (r: String)
        ensures
            r@ == self@,
    {
        let mut s = self.cur.to_owned();
        let mut pending = self.pending;
        while pending.len() > 0
            invariant
                s@ + stacked_chars(pending@) == self@,
            decreases pending.len(),
        {
            let ghost before = pending@;
            let f = pending.pop().unwrap();
            proof {
                assert(before =~= pending@.push(f));
            }
            s.append(f);
            assert(s@ + stacked_chars(pending@) =~= self@);
        }
        assert(s@ + stacked_chars(pending@) =~= s@);
        s
    }
}

/// A forward-only sequence over the UTF-8 bytes of a chain of fragments.
/// Like `Chars` it reads the fragments in place.
pub struct Bytes<'a> {
    cur: &'a [u8],
    pending: Vec<&'a str>,
}

impl<'a> View for Bytes<'a> {
    type V = Seq<u8>;

    /// The bytes that are still to come.
    closed spec fn view(&self) -> Seq<u8> {
        self.cur@ + encode_utf8(stacked_chars(self.pending@))
    }
}

impl<'a> Bytes<'a> {
    /// A sequence over a stack of fragments, the first to be read on top.
    pub fn from_stack(pending: Vec<&'a str>) -> (r: Bytes<'a>)
        ensures
            r@ == encode_utf8(stacked_chars(pending@)),
    {
        let empty: &[u8] = "".as_bytes();
        proof {
            reveal_strlit("");
        }
        let r = Bytes { cur: empty, pending };
        assert(r@ =~= encode_utf8(stacked_chars(pending@)));
        r
    }

    /// Yields the next byte, or `None` once all have been read.
    pub fn next(&mut self) -> (r: Option<u8>)
        ensures
            old(self)@.len() == 0 ==> r is None && final(self)@ == old(self)@,
            old(self)@.len() > 0 ==> r == Some(old(self)@[0]) && final(self)@
                == old(self)@.drop_first(),
    {
        while self.cur.len() == 0 && self.pending.len() > 0
            invariant
                self@ == old(self)@,
            decreases self.pending.len(),
        {
            let ghost before = self.pending@;
            let f = self.pending.pop().unwrap();
            proof {
                assert(before =~= self.pending@.push(f));
                lemma_encode_concat(f@, stacked_chars(self.pending@));
                assert(self.cur@ + encode_utf8(stacked_chars(before)) =~= f.spec_bytes()
                    + encode_utf8(stacked_chars(self.pending@)));
            }
            self.cur = f.as_bytes();
        }
        if self.cur.len() == 0 {
            proof {
                assert(self.pending@ =~= seq![]);
                assert(encode_utf8(seq![]) =~= Seq::<u8>::empty());
                assert(self@ =~= seq![]);
            }
            return None;
        }
        let b = self.cur[0];
        let (_, tail) = self.cur.split_at(1);
        proof {
            assert(tail@ + encode_utf8(stacked_chars(self.pending@)) =~= self@.drop_first());
        }
        self.cur = tail;
        Some(b)
    }
}

} // verus!
