//! The interned string handle and its three representations.
use crate::order::{compare_bytes, lex_cmp};
use crate::render::STACK_STR_SIZE;
use crate::stack::{stack_bytes, stack_slice};
use std::cmp::Ordering;
use std::sync::Arc;
use tinyvec::ArrayVec;
use vstd::prelude::*;
use vstd::string::StringSliceAdditionalSpecFns;
use vstd::utf8::{decode_utf8, encode_utf8, valid_utf8};

verus! {

/// The heap-resident owner of one interned value's text.
#[derive(Debug)]
pub struct TableString(String);

impl TableString {
    /// An owned copy of the text.
    pub fn new(s: &str) -> (r: Self)
        ensures
            r.text() == s@,
    {
        TableString(s.to_owned())
    }

    /// The text owned.
    pub closed spec fn text(&self) -> Seq<char> {
        self.0@
    }

    /// The text owned.
    pub fn as_str(&self) -> (r: &str)
        ensures
            r@ == self.text(),
    {
        self.0.as_str()
    }
}

/// Relies on `Arc::clone`: a new owner of the same allocation.
#[verifier::external_body]
pub(crate) fn share(a: &Arc<TableString>) -> (r: Arc<TableString>)
    ensures
        r == *a,
{
    Arc::clone(a)
}

/// Relies on `Arc::ptr_eq`: two owners of one allocation see one value.
#[verifier::external_body]
pub(crate) fn same_allocation(a: &Arc<TableString>, b: &Arc<TableString>) -> (r: bool)
    ensures
        r ==> *a == *b,
{
    Arc::ptr_eq(a, b)
}

/// Relies on `std::ptr::eq`: two equal references, address and length
/// alike, see the same text.
#[verifier::external_body]
fn same_static(a: &'static str, b: &'static str) -> (r: bool)
    ensures
        r ==> a@ == b@,
{
    std::ptr::eq(a, b)
}

/// Relies on `std::str::from_utf8`: succeeds exactly on well-formed UTF-8,
/// and then views the same bytes.
#[verifier::external_body]
pub(crate) fn utf8_str(b: &[u8]) -> (r: Option<&str>)
    ensures
        r is Some <==> valid_utf8(b@),
        r is Some ==> r.unwrap().spec_bytes() == b@,
{
    std::str::from_utf8(b).ok()
}

/// How one handle holds its text.
#[derive(Debug)]
pub enum StringRepr {
    /// Shares a canonical allocation registered in the table.
    Heap(Arc<TableString>),
    /// Short text held inline; never in the table.
    Stack(ArrayVec<[u8; 20]>),
    /// Text with process lifetime.
    Static(&'static str),
}

/// A handle on interned text.
#[derive(Debug)]
pub struct InternedString(pub(crate) StringRepr);

impl View for InternedString {
    type V = Seq<char>;

    /// The text the handle stands for.
    closed spec fn view(&self) -> Seq<char> {
        match self.0 {
            StringRepr::Heap(a) => a.text(),
            StringRepr::Stack(v) => decode_utf8(stack_bytes(v)),
            StringRepr::Static(s) => s@,
        }
    }
}

impl InternedString {
    /// Inline bytes are well-formed and short; heap text is long.
    #[verifier::type_invariant]
    pub(crate) open spec fn inv(&self) -> bool {
        match self.0 {
            StringRepr::Heap(a) => encode_utf8(a.text()).len() > STACK_STR_SIZE,
            StringRepr::Stack(v) => valid_utf8(stack_bytes(v)) && stack_bytes(v).len()
                <= STACK_STR_SIZE,
            StringRepr::Static(_) => true,
        }
    }

    /// The encoded text.
    pub open spec fn bytes(&self) -> Seq<u8> {
        encode_utf8(self@)
    }

    /// Held inline.
    pub closed spec fn is_stack(&self) -> bool {
        self.0 is Stack
    }

    /// Shares a canonical allocation.
    pub closed spec fn is_heap(&self) -> bool {
        self.0 is Heap
    }

    /// The constant text referred to, if the handle is one.
    pub closed spec fn static_text(&self) -> Option<&'static str> {
        match self.0 {
            StringRepr::Static(s) => Some(s),
            _ => None,
        }
    }

    /// A handle on text held inline.
    pub(crate) fn new_stack(v: ArrayVec<[u8; 20]>) -> (r: Self)
        requires
            valid_utf8(stack_bytes(v)),
            stack_bytes(v).len() <= STACK_STR_SIZE,
        ensures
            r@ == decode_utf8(stack_bytes(v)),
            r.is_stack(),
    {
        InternedString(StringRepr::Stack(v))
    }

    /// A handle sharing a canonical allocation.
    pub(crate) fn new_heap(a: Arc<TableString>) -> (r: Self)
        requires
            encode_utf8(a.text()).len() > STACK_STR_SIZE,
        ensures
            r@ == a.text(),
            r.is_heap(),
            !r.is_stack(),
            r.static_text() is None,
    {
        InternedString(StringRepr::Heap(a))
    }

    /// What the representation predicates say of the representation.
    pub(crate) proof fn lemma_repr(&self)
        ensures
            self.is_heap() <==> self.0 is Heap,
            self.is_stack() <==> self.0 is Stack,
            self.static_text() is Some <==> self.0 is Static,
            self.0 is Heap ==> self@ == self.0->Heap_0.text(),
    {
    }

    /// Whether the text is held inline.
    pub fn is_inline(&self) -> (r: bool)
        ensures
            r == self.is_stack(),
    {
        match &self.0 {
            StringRepr::Stack(_) => true,
            _ => false,
        }
    }

    /// The name under which type-description tools export a handle: the
    /// plain text primitive, since the handle has no shape of its own.
    pub fn name() -> (r: String)
        ensures
            r@ == seq!['s', 't', 'r', 'i', 'n', 'g'],
    {
        let r = "string".to_owned();
        proof {
            reveal_strlit("string");
        }
        r
    }

    /// A handle on constant text, outside the table.
    pub fn from_static(s: &'static str) -> (r: Self)
        ensures
            r@ == s@,
            r.static_text() == Some(s),
            !r.is_stack(),
    {
        InternedString(StringRepr::Static(s))
    }

    /// The text.
    pub fn as_str(&self) -> (r: &str)
        ensures
            r@ == self@,
    {
        proof {
            use_type_invariant(self);
        }
        match &self.0 {
            StringRepr::Heap(a) => a.as_str(),
            StringRepr::Stack(v) => {
                match utf8_str(stack_slice(v)) {
                    Some(s) => {
                        proof {
                            broadcast use vstd::utf8::decode_utf8_encode_utf8, vstd::utf8::encode_utf8_decode_utf8;

                            assert(decode_utf8(encode_utf8(s@)) == s@);
                        }
                        s
                    },
                    None => "",
                }
            },
            StringRepr::Static(s) => *s,
        }
    }

    /// The encoded text.
    pub fn as_bytes(&self) -> (r: &[u8])
        ensures
            r@ == self.bytes(),
    {
        self.as_str().as_bytes()
    }

    /// Whether both handles refer to the same allocation or constant.
    pub fn same_identity(&self, other: &Self) -> (r: bool)
        ensures
            r ==> self@ == other@,
    {
        match (&self.0, &other.0) {
            (StringRepr::Heap(a), StringRepr::Heap(b)) => same_allocation(a, b),
            (StringRepr::Static(a), StringRepr::Static(b)) => same_static(a, b),
            _ => false,
        }
    }

    /// The order of two handles: that of their encoded texts.
    pub open spec fn cmp_spec(&self, other: &Self) -> Ordering {
        lex_cmp(self.bytes(), other.bytes())
    }

    /// Byte-wise order of the texts; identical handles compare equal at once.
    pub fn cmp(&self, other: &Self) -> (r: Ordering)
        ensures
            r == self.cmp_spec(other),
    {
        if self.same_identity(other) {
            proof {
                crate::order::lemma_lex_cmp_equal(self.bytes(), other.bytes());
            }
            return Ordering::Equal;
        }
        compare_bytes(self.as_bytes(), other.as_bytes())
    }

    /// Whether the handle's text equals the given text.
    pub fn eq_str(&self, other: &str) -> (r: bool)
        ensures
            r == (self@ == other@),
    {
        crate::render::DisplayEq::eq(other, self.as_str())
    }
}

impl PartialEq for InternedString {
    /// Whether the texts are equal; identical handles are equal at once.
    fn eq(&self, other: &Self) -> (r: bool) {
        let o = self.cmp(other);
        proof {
            lemma_order_matches_text(self, other);
        }
        match o {
            Ordering::Equal => true,
            _ => false,
        }
    }
}

impl vstd::std_specs::cmp::PartialEqSpecImpl for InternedString {
    open spec fn obeys_eq_spec() -> bool {
        true
    }

    open spec fn eq_spec(&self, other: &Self) -> bool {
        self@ == other@
    }
}

impl PartialOrd for InternedString {
    fn partial_cmp(&self, other: &Self) -> (r: Option<Ordering>) {
        Some(self.cmp(other))
    }
}

impl vstd::std_specs::cmp::PartialOrdSpecImpl for InternedString {
    open spec fn obeys_partial_cmp_spec() -> bool {
        true
    }

    open spec fn partial_cmp_spec(&self, other: &Self) -> Option<Ordering> {
        Some(self.cmp_spec(other))
    }
}

impl Clone for InternedString {
    /// Another handle on the same text; a heap handle shares the allocation.
    fn clone(&self) -> (r: Self)
        ensures
            r@ == self@,
            r.is_stack() == self.is_stack(),
            r.is_heap() == self.is_heap(),
            r.static_text() == self.static_text(),
    {
        proof {
            use_type_invariant(self);
        }
        match &self.0 {
            StringRepr::Heap(a) => InternedString::new_heap(share(a)),
            StringRepr::Stack(v) => InternedString::new_stack(*v),
            StringRepr::Static(s) => InternedString::from_static(*s),
        }
    }
}

/// Relies on `Hash` of `str`: feeds the text to the hasher; nothing is
/// stated of the hasher's state.
pub assume_specification<H: std::hash::Hasher>[ <str as std::hash::Hash>::hash ](
    s: &str,
    state: &mut H,
);

impl std::hash::Hash for InternedString {
    /// Hashes the text, never the identity, so that every representation of
    /// one text hashes alike.
    fn hash<H: std::hash::Hasher>(&self, state: &mut H) {
        std::hash::Hash::hash(self.as_str(), state)
    }
}

impl Default for InternedString {
    /// The empty text, held inline.
    fn default() -> (r: Self)
        ensures
            r@ == Seq::<char>::empty(),
            r.is_stack(),
    {
        let v = crate::stack::stack_new();
        proof {
            assert(valid_utf8(Seq::<u8>::empty()));
            assert(decode_utf8(Seq::<u8>::empty()) =~= Seq::<char>::empty());
        }
        InternedString::new_stack(v)
    }
}

/// Handles compare equal exactly when their texts are equal, whichever
/// representations hold them.
pub proof fn lemma_order_matches_text(a: &InternedString, b: &InternedString)
    ensures
        (a.cmp_spec(b) == Ordering::Equal) <==> a@ == b@,
{
    broadcast use vstd::utf8::encode_utf8_decode_utf8;

    crate::order::lemma_lex_cmp_equal(a.bytes(), b.bytes());
    if a.bytes() == b.bytes() {
        assert(decode_utf8(a.bytes()) == decode_utf8(b.bytes()));
    }
}

/// The order of handles is a total order: equal exactly on equal text,
/// antisymmetric, and transitive, whichever representations hold them.
pub proof fn lemma_order_is_total(a: &InternedString, b: &InternedString, c: &InternedString)
    ensures
        (a.cmp_spec(b) == Ordering::Equal) <==> a@ == b@,
        b.cmp_spec(a) == crate::order::flip(a.cmp_spec(b)),
        a.cmp_spec(b) == Ordering::Less && b.cmp_spec(c) == Ordering::Less ==> a.cmp_spec(c)
            == Ordering::Less,
{
    lemma_order_matches_text(a, b);
    crate::order::lemma_lex_cmp_flip(a.bytes(), b.bytes());
    if a.cmp_spec(b) == Ordering::Less && b.cmp_spec(c) == Ordering::Less {
        crate::order::lemma_lex_cmp_transitive(a.bytes(), b.bytes(), c.bytes());
    }
}

} // verus!
