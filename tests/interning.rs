use interned_string::handle::InternedString;
use interned_string::order::compare_bytes;
use interned_string::render::{DisplayEq, DisplayHasher};
use interned_string::table::InternTable;
use std::cmp::Ordering;
use std::collections::hash_map::DefaultHasher;
use std::hash::{Hash, Hasher};

const LONG: &str = "a text that is longer than twenty bytes";
const LONG_B: &str = "a text that is longer than twenty bytez";

fn digest(h: &InternedString) -> u64 {
    let mut s = DefaultHasher::new();
    h.hash(&mut s);
    s.finish()
}

#[test]
fn test_export() {
    assert_eq!(InternedString::name(), "string");
}

#[test]
fn short_text_is_inline_and_leaves_table_alone() {
    let mut t = InternTable::new();
    let a = InternedString::intern(&mut t, "hello");
    let b = InternedString::intern(&mut t, "hello");
    assert!(a.is_inline());
    assert!(b.is_inline());
    assert_eq!(t.len(), 0);
    assert!(a == b);
    assert!(!a.same_identity(&b));
}

#[test]
fn twenty_bytes_inline_twenty_one_not() {
    let mut t = InternTable::new();
    let twenty = "abcdefghijklmnopqrst";
    assert_eq!(twenty.len(), 20);
    assert!(InternedString::intern(&mut t, twenty).is_inline());
    assert_eq!(t.len(), 0);
    let wide = "abcdefghijklmnopqrs\u{e9}";
    assert_eq!(wide.len(), 21);
    let h = InternedString::intern(&mut t, wide);
    assert!(!h.is_inline());
    assert_eq!(t.len(), 1);
    assert_eq!(h.as_str(), wide);
}

#[test]
fn long_text_shares_one_allocation() {
    let mut t = InternTable::new();
    let a = InternedString::intern(&mut t, LONG);
    let b = InternedString::intern(&mut t, LONG);
    assert!(a.same_identity(&b));
    assert_eq!(t.len(), 1);
    let c = InternedString::lookup(&t, LONG).unwrap();
    assert!(c.same_identity(&a));
}

#[test]
fn release_of_last_handle_removes_record() {
    let mut t = InternTable::new();
    let a = InternedString::intern(&mut t, LONG);
    let b = a.clone();
    assert!(a.same_identity(&b));
    a.release(&mut t);
    assert_eq!(t.len(), 1);
    assert!(InternedString::lookup(&t, LONG).is_some());
    b.release(&mut t);
    assert_eq!(t.len(), 0);
    assert!(InternedString::lookup(&t, LONG).is_none());
    let c = InternedString::intern(&mut t, LONG);
    assert_eq!(c.as_str(), LONG);
    assert_eq!(t.len(), 1);
}

#[test]
fn dropped_handle_leaves_no_live_record() {
    let mut t = InternTable::new();
    let a = InternedString::intern(&mut t, LONG);
    drop(a);
    assert!(InternedString::lookup(&t, LONG).is_none());
}

#[test]
fn static_registration_wins_over_heap() {
    let mut t = InternTable::new();
    let heap = InternedString::intern(&mut t, LONG);
    let s1 = InternedString::intern_static(&mut t, LONG);
    let s2 = InternedString::intern(&mut t, LONG);
    let s3 = InternedString::intern_static(&mut t, LONG);
    assert!(s1.same_identity(&s2));
    assert!(s1.same_identity(&s3));
    assert!(!heap.same_identity(&s1));
    assert_eq!(heap.as_str(), LONG);
    assert!(heap == s2);
    assert_eq!(t.len(), 1);
}

#[test]
fn static_registration_without_heap_record() {
    let mut t = InternTable::new();
    let s1 = InternedString::intern_static(&mut t, LONG);
    let s2 = InternedString::intern(&mut t, LONG);
    assert!(s1.same_identity(&s2));
    assert_eq!(t.len(), 1);
    let short = InternedString::intern_static(&mut t, "tiny");
    assert!(short.is_inline());
    assert_eq!(t.len(), 1);
}

#[test]
fn from_static_bypasses_table() {
    let mut t = InternTable::new();
    let a = InternedString::from_static(LONG);
    assert_eq!(t.len(), 0);
    let b = InternedString::intern(&mut t, LONG);
    assert!(!a.same_identity(&b));
    assert!(a == b);
    let s = InternedString::from_static("ab");
    assert!(!s.is_inline());
    assert_eq!(s.as_str(), "ab");
}

#[test]
fn round_trip_of_any_text() {
    let mut t = InternTable::new();
    for text in ["", "x", "h\u{e9}llo w\u{f6}rld", "\u{1f600}\u{1f600}\u{1f600}\u{1f600}\u{1f600}\u{1f600}", LONG] {
        let h = InternedString::intern(&mut t, text);
        assert_eq!(h.as_str(), text);
        assert_eq!(h.as_bytes(), text.as_bytes());
        assert!(h.eq_str(text));
        assert!(!h.eq_str("other"));
    }
    assert_eq!(InternedString::default().as_str(), "");
    assert!(InternedString::default().is_inline());
}

#[test]
fn bytes_must_be_well_formed() {
    let mut t = InternTable::new();
    let bad = vec![0x61u8, 0xff, 0x62];
    let e = InternedString::from_bytes(&mut t, &bad).unwrap_err();
    assert_eq!(e.bytes, bad);
    let truncated = vec![0xe2u8, 0x82];
    assert!(InternedString::from_bytes(&mut t, &truncated).is_err());
    let ok = InternedString::from_bytes(&mut t, LONG.as_bytes()).unwrap();
    let direct = InternedString::intern(&mut t, LONG);
    assert!(ok.same_identity(&direct));
    assert_eq!(ok.as_str(), LONG);
    let short = InternedString::from_bytes(&mut t, "\u{e9}t\u{e9}".as_bytes()).unwrap();
    assert_eq!(short.as_str(), "\u{e9}t\u{e9}");
}

#[test]
fn order_is_bytewise_across_representations() {
    let mut t = InternTable::new();
    let stack = InternedString::intern(&mut t, "abc");
    let heap = InternedString::intern(&mut t, LONG);
    let heap_b = InternedString::intern(&mut t, LONG_B);
    let stat = InternedString::from_static("b");
    assert_eq!(stack.cmp(&heap), Ordering::Greater);
    assert_eq!(heap.cmp(&heap_b), Ordering::Less);
    assert_eq!(heap_b.cmp(&heap), Ordering::Greater);
    assert_eq!(stat.cmp(&stack), Ordering::Greater);
    assert_eq!(heap.cmp(&heap.clone()), Ordering::Equal);
    assert!(heap < heap_b);
    assert!(stack < stat);
    let prefix = InternedString::intern(&mut t, "ab");
    assert_eq!(prefix.cmp(&stack), Ordering::Less);
    let st = InternedString::from_static(LONG);
    assert_eq!(st.cmp(&heap), Ordering::Equal);
    assert_eq!(st.partial_cmp(&heap), Some(Ordering::Equal));
}

#[test]
fn compare_bytes_exact_values() {
    assert_eq!(compare_bytes(b"", b""), Ordering::Equal);
    assert_eq!(compare_bytes(b"", b"a"), Ordering::Less);
    assert_eq!(compare_bytes(b"b", b"ab"), Ordering::Greater);
    assert_eq!(compare_bytes(&[0xc3, 0xa9], b"z"), Ordering::Greater);
}

#[test]
fn streaming_equality_stops_on_mismatch() {
    assert!(DisplayEq::eq("hello", "hello"));
    assert!(!DisplayEq::eq("hell", "hello"));
    assert!(!DisplayEq::eq("hello!", "hello"));
    assert!(DisplayEq::eq("", ""));
}

#[test]
fn hasher_keeps_short_text_inline() {
    let (h1, s1) = DisplayHasher::hash_and_stack("short");
    let (h2, s2) = DisplayHasher::hash_and_stack("short");
    assert_eq!(h1, h2);
    assert_eq!(s1.unwrap().as_slice(), b"short");
    assert_eq!(s2.unwrap().as_slice(), b"short");
    let (h3, s3) = DisplayHasher::hash_and_stack(LONG);
    assert!(s3.is_none());
    assert_eq!(h3, DisplayHasher::hash(LONG));
    let mut d = DisplayHasher::new(true);
    d.write_str("0123456789");
    d.write_str("0123456789");
    assert_eq!(d.finish().1.unwrap().as_slice(), b"01234567890123456789");
    d.write_str("x");
    assert!(d.finish().1.is_none());
}

#[test]
fn from_display_renders_then_interns() {
    let mut t = InternTable::new();
    let n = InternedString::from_display(&mut t, &12345u32);
    assert_eq!(n.as_str(), "12345");
    assert!(n.is_inline());
    let long = format!("{}-{}", LONG, 7);
    let a = InternedString::from_display(&mut t, long.as_str());
    let b = InternedString::intern(&mut t, &long);
    assert!(a.same_identity(&b));
    assert_eq!(t.len(), 1);
}

#[test]
fn hash_follows_text_not_representation() {
    let mut t = InternTable::new();
    let heap = InternedString::intern(&mut t, LONG);
    let stat = InternedString::from_static(LONG);
    assert_eq!(digest(&heap), digest(&stat));
    let stack = InternedString::intern(&mut t, "ab");
    let stat_short = InternedString::from_static("ab");
    assert_eq!(digest(&stack), digest(&stat_short));
    assert_ne!(digest(&stack), digest(&heap));
}

#[test]
fn repeated_static_registration_converges_to_one_constant() {
    let mut t = InternTable::new();
    let copy: &'static str = Box::leak(String::from(LONG).into_boxed_str());
    let first = InternedString::intern_static(&mut t, LONG);
    let second = InternedString::intern_static(&mut t, copy);
    assert!(first.same_identity(&second));
    assert!(!second.same_identity(&InternedString::from_static(copy)));
    let later = InternedString::intern(&mut t, copy);
    assert!(later.same_identity(&first));
    assert_eq!(t.len(), 1);
}

#[test]
fn short_bytes_stay_inline() {
    let mut t = InternTable::new();
    let h = InternedString::from_bytes(&mut t, b"hello").unwrap();
    assert!(h.is_inline());
    assert_eq!(h.as_str(), "hello");
    assert_eq!(t.len(), 0);
    assert!(InternedString::from_bytes(&mut t, &[0xffu8]).is_err());
    assert_eq!(t.len(), 0);
    let i = InternedString::try_inline_bytes(b"hello").unwrap();
    assert!(i.is_inline());
    assert_eq!(i.as_str(), "hello");
    assert!(InternedString::try_inline_bytes(LONG.as_bytes()).is_none());
    assert!(InternedString::try_inline_bytes(&[0xc3u8]).is_none());
}

#[test]
fn try_inline_only_for_short_text() {
    let h = InternedString::try_inline("tiny").unwrap();
    assert!(h.is_inline());
    assert_eq!(h.as_str(), "tiny");
    assert!(InternedString::try_inline(LONG).is_none());
}

#[test]
fn clone_keeps_representation() {
    let mut t = InternTable::new();
    let heap = InternedString::intern(&mut t, LONG);
    assert!(heap.clone().same_identity(&heap));
    let stat = InternedString::from_static(LONG_B);
    assert!(stat.clone().same_identity(&stat));
    let stack = InternedString::intern(&mut t, "abc");
    assert!(stack.clone().is_inline());
}

#[test]
fn release_keeps_other_records() {
    let mut t = InternTable::new();
    let a = InternedString::intern(&mut t, LONG);
    let b = InternedString::intern(&mut t, LONG_B);
    let s = InternedString::intern_static(&mut t, LONG);
    assert_eq!(t.len(), 2);
    a.release(&mut t);
    assert_eq!(t.len(), 2);
    b.release(&mut t);
    assert_eq!(t.len(), 1);
    s.release(&mut t);
    assert_eq!(t.len(), 1);
    assert!(InternedString::lookup(&t, LONG).is_some());
}
