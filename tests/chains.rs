use std::cmp::Ordering;
use strey::hashes::Hashes;
use strey::iter::{Bytes, Chars};
use strey::prefix::Prefix;
use strey::twine::Twine;
use strey::Strey;

fn chars_text(mut it: Chars<'_>) -> String {
    let mut out = String::new();
    while let Some(c) = it.next() {
        out.push(c);
    }
    out
}

fn bytes_vec(mut it: Bytes<'_>) -> Vec<u8> {
    let mut out = Vec::new();
    while let Some(b) = it.next() {
        out.push(b);
    }
    out
}

fn leak(s: Strey) -> &'static Strey {
    Box::leak(Box::new(s))
}

#[test]
fn append_reads_hello_world() {
    let s = Strey::new_str("hello").append_str(" world");
    assert_eq!(chars_text(s.chars()), "hello world");
    assert_eq!(s.len(), 11);
    assert!(!s.is_empty());
}

#[test]
fn hash_pair_of_ab() {
    let h = Hashes::zero().fold(&[97u8, 98u8]);
    assert_eq!(h.hash1, 1941);
    assert_eq!(h.hash2, 1961);
    let s = Strey::new_str("ab");
    assert_eq!(s.get_hashes(), h);
}

#[test]
fn hash_pair_of_empty_is_zero() {
    let z = Hashes::zero();
    assert_eq!(z.hash1, 0);
    assert_eq!(z.hash2, 0);
    assert_eq!(Strey::new_str("").get_hashes(), z);
}

#[test]
fn join_renders_foobarbaz() {
    let foo = leak(Strey::new_str("foo"));
    let foobar = leak(foo.join_str("bar"));
    let all = foobar.join_str("baz");
    assert_eq!(all.to_string(), "foobarbaz");
    assert_eq!(all.len(), 9);
}

#[test]
fn join_with_owned_string() {
    let base = leak(Strey::new_string(String::from("key:")));
    let s = base.join(String::from("value"));
    assert_eq!(s.to_string(), "key:value");
}

#[test]
fn strip_prefix_leaves_def() {
    let s = Strey::new_str("abcdef");
    let p = Strey::new_str("abc");
    let rest = s.strip_prefix(&p).expect("abc is a prefix of abcdef");
    assert_eq!(chars_text(rest), "def");
}

#[test]
fn strip_prefix_mismatch() {
    let s = Strey::new_str("abc");
    let p = Strey::new_str("xyz");
    assert!(s.strip_prefix(&p).is_none());
}

#[test]
fn strip_prefix_edges() {
    let s = Strey::new_str("ab").append_str("c");
    let empty = Strey::new_str("");
    assert_eq!(chars_text(s.strip_prefix(&empty).unwrap()), "abc");
    let same = Strey::new_str("a").append_str("bc");
    assert_eq!(chars_text(s.strip_prefix(&same).unwrap()), "");
    let longer = Strey::new_str("abcd");
    assert!(s.strip_prefix(&longer).is_none());
}

#[test]
fn strip_prefix_across_fragments() {
    let s = Strey::new_str("he").append_str("llo").append_str(" there");
    let p = Strey::new_str("hell");
    assert_eq!(chars_text(s.strip_prefix(&p).unwrap()), "o there");
}

#[test]
fn different_shapes_equal_and_hash_equal() {
    let a = Strey::new_str("ab").append_str("c");
    let b = Strey::new_str("a").append(String::from("bc"));
    let c = Strey::new_string(String::from("abc"));
    assert!(a == b);
    assert!(b == c);
    assert_eq!(a.cmp(&c), Ordering::Equal);
    assert_eq!(a.get_hashes(), b.get_hashes());
    assert_eq!(a.get_hashes(), c.get_hashes());
}

#[test]
fn nested_appends_hash_like_one_fragment() {
    let x = Strey::new_str("x");
    let chained = x.append_str("a").append_str("b");
    let flat = Strey::new_str("xab");
    assert_eq!(chained.get_hashes(), flat.get_hashes());
}

#[test]
fn a_proper_prefix_is_not_equal() {
    let a = Strey::new_str("ab");
    let b = Strey::new_str("abc");
    assert!(a != b);
    assert!(b != a);
}

#[test]
fn compare_orders_bytes() {
    let ab = Strey::new_str("ab");
    let abc = Strey::new_str("a").append_str("bc");
    let abd = Strey::new_str("abd");
    assert_eq!(ab.cmp(&abc), Ordering::Less);
    assert_eq!(abc.cmp(&ab), Ordering::Greater);
    assert_eq!(abc.cmp(&abd), Ordering::Less);
    assert_eq!(abd.cmp(&abc), Ordering::Greater);
    assert_eq!(ab.cmp(&abd), Ordering::Less);
    assert_eq!(ab.partial_cmp(&abc), Some(Ordering::Less));
    assert!(ab < abc);
    assert!(abd > abc);
}

#[test]
fn compare_empty_first() {
    let e = Strey::new_str("");
    let a = Strey::new_str("a");
    assert_eq!(e.cmp(&a), Ordering::Less);
    assert_eq!(e.cmp(&Strey::new_str("").append_str("")), Ordering::Equal);
}

#[test]
fn length_and_emptiness() {
    let e = Strey::new_str("").append_str("").append(String::new());
    assert!(e.is_empty());
    assert_eq!(e.len(), 0);
    let s = Strey::new_str("").append_str("x");
    assert!(!s.is_empty());
    assert_eq!(s.len(), 1);
    let n = chars_text(s.chars()).chars().count();
    assert_eq!(n, s.len());
}

#[test]
fn length_counts_characters_of_non_ascii() {
    let s = Strey::new_str("caf").append_str("\u{e9}");
    assert_eq!(s.len(), 4);
    assert_eq!(chars_text(s.chars()).chars().count(), 4);
    assert_eq!(bytes_vec(s.bytes()).len(), 5);
    let e = Strey::new_str("\u{e9}");
    assert_eq!(e.len(), 1);
    let p = Prefix::Owned(Box::new(Strey::new_str("\u{1f600}").append_str("x")));
    assert_eq!(p.len(), 2);
}

#[test]
fn chars_decode_multibyte_fragments() {
    let s = Strey::new_str("\u{e9}t\u{e9}").append_str(" \u{1f600}").append_str("\u{4e2d}");
    assert_eq!(chars_text(s.chars()), "\u{e9}t\u{e9} \u{1f600}\u{4e2d}");
    assert_eq!(s.to_string(), "\u{e9}t\u{e9} \u{1f600}\u{4e2d}");
}

#[test]
fn bytes_follow_all_fragments() {
    let s = Strey::new_str("a").append_str("").append_str("\u{e9}b");
    assert_eq!(bytes_vec(s.bytes()), vec![97u8, 0xc3, 0xa9, 98]);
}

#[test]
fn reuse_prefix_shares_and_keeps_content() {
    let p = Strey::new_str("http://");
    let s = Strey::new_string(String::from("http://example.org"));
    let r = p.maybe_use_as_prefix_for(s);
    assert_eq!(r.to_string(), "http://example.org");
    assert!(r == Strey::new_str("http://example.org"));
    let twice = p.maybe_use_as_prefix_for(r.duplicate());
    assert!(twice == r);
    assert_eq!(twice.to_string(), "http://example.org");
}

#[test]
fn reuse_prefix_without_match_returns_input() {
    let p = Strey::new_str("ftp://");
    let s = Strey::new_str("http://x");
    let r = p.maybe_use_as_prefix_for(s);
    assert_eq!(r.to_string(), "http://x");
}

#[test]
fn new_with_prefix_links() {
    let head = Strey::new_str("ab");
    let s = Strey::new(Some(Prefix::Owned(Box::new(head))), Twine::new_str("cd"));
    assert_eq!(s.to_string(), "abcd");
    let st = leak(Strey::new_str("x"));
    let t = Strey::new(Some(Prefix::Borrowed(st)), Twine::new(String::from("y")));
    assert_eq!(t.to_string(), "xy");
}

#[test]
fn prefix_inspection() {
    let p = Prefix::Owned(Box::new(Strey::new_str("ab").append_str("c")));
    assert_eq!(p.len(), 3);
    assert!(!p.is_empty());
    assert_eq!(chars_text(p.chars()), "abc");
    assert_eq!(bytes_vec(p.bytes()), vec![97u8, 98, 99]);
    let e = Prefix::Borrowed(leak(Strey::new_str("")));
    assert!(e.is_empty());
    assert_eq!(e.len(), 0);
}

#[test]
fn twine_inspection() {
    let owned = Twine::new(String::from("h\u{e9}"));
    assert_eq!(owned.as_str(), "h\u{e9}");
    assert_eq!(owned.as_bytes(), &[104u8, 0xc3, 0xa9]);
    assert_eq!(owned.len(), 2);
    assert_eq!(owned.byte_len(), 3);
    assert!(!owned.is_empty());
    assert_eq!(chars_text(owned.chars()), "h\u{e9}");
    assert_eq!(bytes_vec(owned.bytes()), vec![104u8, 0xc3, 0xa9]);
    let lit = Twine::new_str("");
    assert!(lit.is_empty());
    assert_eq!(lit.len(), 0);
    assert_eq!(owned.share().as_str(), "h\u{e9}");
}

#[test]
fn duplicate_keeps_content() {
    let s = Strey::new_str("a").append_str("b").append(String::from("c"));
    let d = s.duplicate();
    assert!(d == s);
    assert_eq!(d.to_string(), "abc");
}

#[test]
fn collect_rest_of_chars() {
    let s = Strey::new_str("xy").append_str("z");
    let mut it = s.chars();
    assert_eq!(it.next(), Some('x'));
    assert_eq!(it.collect_string(), "yz");
}

#[test]
fn clone_and_from_literal() {
    let s = Strey::from("ab").append_str("c");
    let c = s.clone();
    assert!(c == s);
    assert_eq!(c.to_string(), "abc");
    let p = Prefix::Owned(Box::new(Strey::from("xy")));
    assert_eq!(chars_text(p.clone().chars()), "xy");
    assert_eq!(Strey::from("q").get_hashes(), Strey::new_str("q").get_hashes());
}

#[test]
fn twine_compares_by_content() {
    let a = Twine::new(String::from("abc"));
    let b = Twine::from("abc");
    let c = Twine::new_str("abd");
    assert!(a == b);
    assert!(a != c);
    assert_eq!(a.partial_cmp(&c), Some(Ordering::Less));
    assert_eq!(c.partial_cmp(&b), Some(Ordering::Greater));
    assert_eq!(a.partial_cmp(&b), Some(Ordering::Equal));
    assert!(Twine::from("ab") < a);
    assert!(a.clone() == a);
}

#[test]
fn hash_pair_wraps_around() {
    let h = Hashes { hash1: u64::MAX, hash2: u64::MAX }.fold(&[1u8]);
    assert_eq!(h.hash1, u64::MAX.wrapping_mul(19).wrapping_add(1));
    assert_eq!(h.hash2, u64::MAX.wrapping_mul(19).wrapping_add(2));
}

#[test]
fn render_links_and_texts() {
    let p = Prefix::Owned(Box::new(Strey::new_str("a").append_str("\u{e9}")));
    assert_eq!(p.to_string(), "a\u{e9}");
    assert_eq!(Twine::new(String::from("t")).to_string(), "t");
    assert_eq!(Twine::new_str("").to_string(), "");
}

#[test]
fn deep_chain_reads_as_concatenation() {
    let mut s = Strey::new_str("");
    let mut expected = String::new();
    for i in 0..200u32 {
        let piece = format!("{}-", i);
        expected.push_str(&piece);
        s = s.append(piece);
    }
    assert_eq!(chars_text(s.chars()), expected);
    assert_eq!(s.len(), expected.len());
    assert!(s == Strey::new_string(expected.clone()));
    assert_eq!(s.get_hashes(), Strey::new_string(expected).get_hashes());
}

#[test]
fn conversions_from_owned_strings() {
    let s = Strey::from(String::from("own"));
    assert_eq!(s.to_string(), "own");
    assert_eq!(s.get_hashes(), Strey::new_str("own").get_hashes());
    let shared = std::sync::Arc::new(String::from("arc"));
    let t1 = Twine::from(&shared);
    let t2 = Twine::from(shared);
    assert_eq!(t1.as_str(), "arc");
    assert!(t1 == t2);
    let owned = String::from("r\u{e9}f");
    assert_eq!(Twine::from(&owned).as_str(), "r\u{e9}f");
    assert_eq!(Twine::from(owned).len(), 3);
}

#[test]
fn texts_of_new_fragments() {
    let base = Strey::new_str("a");
    let s = base.append_str("b").append(String::from("c"));
    assert_eq!(s.to_string(), "abc");
    assert_eq!(s.len(), 3);
    let fixed = leak(Strey::new_str("k"));
    assert_eq!(fixed.join_str("v").to_string(), "kv");
    assert_eq!(fixed.join(String::from("w")).len(), 2);
}
