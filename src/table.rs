//! The intern table: an index of canonical allocations and constant text,
//! keyed by a hash of the content.
use crate::handle::{same_allocation, share, utf8_str, InternedString, StringRepr, TableString};
use crate::render::{DisplayEq, DisplayHasher, STACK_STR_SIZE};
use hashbrown::raw::RawTable;
use std::sync::Arc;
use vstd::multiset::Multiset;
use vstd::prelude::*;
use vstd::string::{to_string_from_display_ensures, StringSliceAdditionalSpecFns};
use vstd::utf8::{decode_utf8, encode_utf8, valid_utf8};

verus! {

/// One record of the table.
pub enum StringRef {
    /// A canonical allocation; live while some handle beside the table's own
    /// reference shares it.
    Heap(Arc<TableString>),
    /// Constant text; never removed.
    Static(&'static str),
}

/// The text a record stands for.
pub open spec fn record_text(r: StringRef) -> Seq<char> {
    match r {
        StringRef::Heap(a) => a.text(),
        StringRef::Static(s) => s@,
    }
}

/// A record as the table's contents see it: whether it is constant, and
/// its text.
pub open spec fn record_view(r: StringRef) -> (bool, Seq<char>) {
    (r is Static, record_text(r))
}

/// The records an intern table holds, as `record_view` sees them.
pub uninterp spec fn table_records(t: InternTable) -> Multiset<(bool, Seq<char>)>;

/// Relies on `Arc::strong_count`: how many owners the allocation has now.
/// Other threads may change it, so nothing more is stated.
#[verifier::external_body]
fn owner_count(a: &Arc<TableString>) -> (r: usize) {
    Arc::strong_count(a)
}

/// Whether a heap record is still shared by a handle; constant records
/// always are live.
pub fn record_is_live(r: &StringRef) -> (b: bool)
    ensures
        r is Static ==> b,
{
    match r {
        StringRef::Heap(a) => owner_count(a) > 1,
        StringRef::Static(_) => true,
    }
}

/// Whether a record is the table's share of the given allocation, and the
/// only share besides it is the caller's own.
pub fn record_is_last_share(r: &StringRef, a: &Arc<TableString>) -> (b: bool)
    ensures
        b ==> r is Heap && record_text(*r) == a.text(),
{
    match r {
        StringRef::Heap(x) => same_allocation(x, a) && owner_count(x) <= 2,
        StringRef::Static(_) => false,
    }
}

/// Whether a record is live and holds the text.
pub fn record_matches(r: &StringRef, text: &str) -> (b: bool)
    ensures
        b ==> record_text(*r) == text@,
        r is Static ==> (b == (record_text(*r) == text@)),
{
    match r {
        StringRef::Heap(a) => record_is_live(r) && DisplayEq::eq(text, a.as_str()),
        StringRef::Static(s) => DisplayEq::eq(text, s),
    }
}

/// The hash a record is filed under, computed again from its text.
pub fn record_hash(r: &StringRef) -> u64 {
    match r {
        StringRef::Heap(a) => DisplayHasher::hash(a.as_str()),
        StringRef::Static(s) => DisplayHasher::hash(s),
    }
}

/// The records, held in an open-addressing table of the `hashbrown` crate,
/// which rehashes each record from its text when it grows. The raw table
/// type carries an allocator parameter, so it is kept behind this struct
/// and reached only through the methods below.
#[verifier::external_body]
pub struct InternTable {
    raw: RawTable<StringRef>,
}

impl InternTable {
    /// Relies on `RawTable::new`: an empty table.
    #[verifier::external_body]
    fn create() -> (r: Self)
        ensures
            table_records(r) == Multiset::<(bool, Seq<char>)>::empty(),
    {
        InternTable { raw: RawTable::new() }
    }

    /// Relies on `RawTable::len`: the number of records, live or expired.
    #[verifier::external_body]
    fn count(&self) -> (r: usize)
        ensures
            r == table_records(*self).len(),
    {
        self.raw.len()
    }

    /// An empty table.
    pub fn new() -> (r: Self)
        ensures
            table_records(r) == Multiset::<(bool, Seq<char>)>::empty(),
    {
        Self::create()
    }

    /// The number of records, live or expired.
    pub fn len(&self) -> (r: usize)
        ensures
            r == table_records(*self).len(),
    {
        self.count()
    }

    /// Relies on `RawTable::get`, which yields only a record of the table
    /// for which the predicate held.
    #[verifier::external_body]
    fn find(&self, hash: u64, text: &str) -> (r: Option<&StringRef>)
        ensures
            r is Some ==> record_text(*r.unwrap()) == text@,
            r is Some ==> table_records(*self).contains(record_view(*r.unwrap())),
    {
        self.raw.get(hash, |r| record_matches(r, text))
    }

    /// Relies on `RawTable::insert`: adds the record, filed under `hash`.
    #[verifier::external_body]
    fn insert(&mut self, hash: u64, rec: StringRef)
        ensures
            table_records(*final(self)) == table_records(*old(self)).insert(record_view(rec)),
    {
        self.raw.insert(hash, rec, |r| record_hash(r));
    }

    /// Relies on `RawTable::erase_entry`: removes one record for which the
    /// predicate held, if it finds one.
    #[verifier::external_body]
    fn erase_matching(&mut self, hash: u64, text: &str) -> (r: bool)
        ensures
            r ==> exists|e: (bool, Seq<char>)|
                table_records(*old(self)).contains(e) && e.1 == text@ && table_records(*final(self))
                    == table_records(*old(self)).remove(e),
            !r ==> table_records(*final(self)) == table_records(*old(self)),
    {
        self.raw.erase_entry(hash, |r| record_matches(r, text))
    }

    /// Relies on `RawTable::erase_entry`: removes the table's record of the
    /// allocation, if it finds it and the caller holds the only other share.
    #[verifier::external_body]
    fn erase_last_share(&mut self, hash: u64, a: &Arc<TableString>) -> (r: bool)
        ensures
            r ==> exists|e: (bool, Seq<char>)|
                table_records(*old(self)).contains(e) && !e.0 && e.1 == a.text() && table_records(
                    *final(self),
                ) == table_records(*old(self)).remove(e),
            !r ==> table_records(*final(self)) == table_records(*old(self)),
    {
        self.raw.erase_entry(hash, |r| record_is_last_share(r, a))
    }
}

/// What interning `text` owes: `r` holds the text, inline exactly when it is
/// short, and a short text leaves the table alone; a longer one leaves a
/// record of the result's kind, either found there or newly added as a heap
/// record, and no record is ever removed.
pub open spec fn interned_as(r: InternedString, text: Seq<char>, before: InternTable, after: InternTable) -> bool {
    let long = encode_utf8(text).len() > STACK_STR_SIZE;
    &&& r@ == text
    &&& r.is_stack() <==> !long
    &&& !long ==> after == before
    &&& long ==> table_records(after).contains((r.static_text() is Some, text))
    &&& long ==> (table_records(after) == table_records(before) || (r.is_heap() && table_records(
        after,
    ) == table_records(before).insert((false, text))))
    &&& forall|e: (bool, Seq<char>)|
        table_records(after).count(e) >= table_records(before).count(e)
}

/// Why raw bytes could not become a handle: they are not well-formed text.
#[derive(Debug)]
pub struct EncodingError {
    /// The rejected bytes.
    pub bytes: Vec<u8>,
}

impl InternedString {
    /// A live table record for text longer than the inline size.
    fn find_live(table: &InternTable, hash: u64, s: &str) -> (r: Option<Self>)
        requires
            s.spec_bytes().len() > STACK_STR_SIZE,
        ensures
            r is Some ==> r.unwrap()@ == s@ && !r.unwrap().is_stack(),
            r is Some ==> table_records(*table).contains((r.unwrap().static_text() is Some, s@)),
    {
        match table.find(hash, s) {
            Some(StringRef::Heap(a)) => Some(InternedString::new_heap(share(a))),
            Some(StringRef::Static(p)) => Some(InternedString::from_static(*p)),
            None => None,
        }
    }

    /// A handle holding the text inline, when it is short enough; the table
    /// is not involved.
    pub fn try_inline(s: &str) -> (r: Option<Self>)
        ensures
            r is Some <==> s.spec_bytes().len() <= STACK_STR_SIZE,
            r is Some ==> r.unwrap()@ == s@ && r.unwrap().is_stack(),
    {
        let (_, stack) = DisplayHasher::hash_and_stack(s);
        match stack {
            Some(st) => {
                proof {
                    broadcast use vstd::utf8::encode_utf8_valid_utf8, vstd::utf8::encode_utf8_decode_utf8;
                }
                Some(InternedString::new_stack(st))
            },
            None => None,
        }
    }

    /// A handle holding raw bytes inline, when they are well-formed text
    /// short enough; the table is not involved.
    pub fn try_inline_bytes(v: &[u8]) -> (r: Option<Self>)
        ensures
            r is Some <==> valid_utf8(v@) && v@.len() <= STACK_STR_SIZE,
            r is Some ==> r.unwrap().bytes() == v@ && r.unwrap().is_stack(),
    {
        match utf8_str(v) {
            Some(s) => {
                proof {
                    broadcast use vstd::utf8::decode_utf8_encode_utf8;
                }
                Self::try_inline(s)
            },
            None => None,
        }
    }

    /// The shared-lock half of interning: a handle for the text if it can be
    /// had without changing the table. Short text always can.
    pub fn lookup(table: &InternTable, s: &str) -> (r: Option<Self>)
        ensures
            r is Some ==> r.unwrap()@ == s@,
            s.spec_bytes().len() <= STACK_STR_SIZE ==> r is Some
                && r.unwrap().is_stack(),
            s.spec_bytes().len() > STACK_STR_SIZE ==> r is Some ==> !r.unwrap().is_stack()
                && table_records(*table).contains((r.unwrap().static_text() is Some, s@)),
    {
        let (hash, stack) = DisplayHasher::hash_and_stack(s);
        match stack {
            Some(st) => {
                proof {
                    broadcast use vstd::utf8::encode_utf8_valid_utf8, vstd::utf8::encode_utf8_decode_utf8;
                }
                Some(InternedString::new_stack(st))
            },
            None => Self::find_live(table, hash, s),
        }
    }

    /// Interns the text: short text is held inline and leaves the table
    /// alone; longer text shares the live record that holds it, or gets a
    /// new canonical allocation filed in the table.
    pub fn intern(table: &mut InternTable, s: &str) -> (r: Self)
        ensures
            interned_as(r, s@, *old(table), *final(table)),
    {
        let (hash, stack) = DisplayHasher::hash_and_stack(s);
        match stack {
            Some(st) => {
                proof {
                    broadcast use vstd::utf8::encode_utf8_valid_utf8, vstd::utf8::encode_utf8_decode_utf8;
                }
                return InternedString::new_stack(st);
            },
            None => {},
        }
        match Self::find_live(table, hash, s) {
            Some(h) => return h,
            None => {},
        }
        let res = Arc::new(TableString::new(s));
        table.insert(hash, StringRef::Heap(share(&res)));
        InternedString::new_heap(res)
    }

    /// Interns constant text: short text is held inline; longer text
    /// yields the constant already registered for it, or else replaces any
    /// heap record for it, so that later interning yields the constant.
    pub fn intern_static(table: &mut InternTable, s: &'static str) -> (r: Self)
        ensures
            r@ == s@,
            r.is_stack() <==> s.spec_bytes().len() <= STACK_STR_SIZE,
            s.spec_bytes().len() <= STACK_STR_SIZE ==> *final(table) == *old(table),
            s.spec_bytes().len() > STACK_STR_SIZE ==> r.static_text() is Some,
            s.spec_bytes().len() > STACK_STR_SIZE && !table_records(*old(table)).contains(
                (true, s@),
            ) ==> r.static_text() == Some(s),
            s.spec_bytes().len() > STACK_STR_SIZE ==> table_records(*final(table)).contains(
                (true, s@),
            ),
            forall|e: (bool, Seq<char>)|
                e != (true, s@) ==> table_records(*final(table)).count(e) <= table_records(
                    *old(table),
                ).count(e),
            forall|e: (bool, Seq<char>)|
                e.0 ==> table_records(*final(table)).count(e) >= table_records(*old(table)).count(e),
            s.spec_bytes().len() > STACK_STR_SIZE && !table_records(*old(table)).contains((true, s@))
                && !table_records(*old(table)).contains((false, s@)) ==> table_records(*final(table))
                == table_records(*old(table)).insert((true, s@)),
    {
        let (hash, stack) = DisplayHasher::hash_and_stack(s);
        match stack {
            Some(st) => {
                proof {
                    broadcast use vstd::utf8::encode_utf8_valid_utf8, vstd::utf8::encode_utf8_decode_utf8;
                }
                return InternedString::new_stack(st);
            },
            None => {},
        }
        let found: Option<Option<&'static str>> = match table.find(hash, s) {
            Some(StringRef::Static(p)) => Some(Some(*p)),
            Some(StringRef::Heap(_)) => Some(None),
            None => None,
        };
        match found {
            Some(Some(p)) => InternedString::from_static(p),
            Some(None) => {
                table.erase_matching(hash, s);
                table.insert(hash, StringRef::Static(s));
                InternedString::from_static(s)
            },
            None => {
                table.insert(hash, StringRef::Static(s));
                InternedString::from_static(s)
            },
        }
    }

    /// Gives the handle up; when it held the last share of a canonical
    /// allocation besides the table's, the table's record of exactly that
    /// allocation is removed.
    pub fn release(self, table: &mut InternTable)
        ensures
            table_records(*final(table)) == table_records(*old(table)) || exists|e: (bool, Seq<char>)|
                !e.0 && e.1 == self@ && table_records(*old(table)).contains(e) && table_records(
                    *final(table),
                ) == table_records(*old(table)).remove(e),
            !self.is_heap() ==> *final(table) == *old(table),
    {
        proof {
            self.lemma_repr();
        }
        match self.0 {
            StringRepr::Heap(a) => {
                let hash = DisplayHasher::hash(a.as_str());
                table.erase_last_share(hash, &a);
            },
            _ => {},
        }
    }

    /// Interns the text a value renders to.
    pub fn from_display<S: std::fmt::Display + ?Sized>(table: &mut InternTable, v: &S) -> (r: Self)
        ensures
            exists|t: String|
                to_string_from_display_ensures::<S>(v, t) && interned_as(
                    r,
                    t@,
                    *old(table),
                    *final(table),
                ),
    {
        let t = v.to_string();
        let r = Self::intern(table, t.as_str());
        assert(to_string_from_display_ensures::<S>(v, t) && interned_as(r, t@, *old(table), *final(table)));
        r
    }

    /// Interns raw bytes, which must be well-formed text.
    pub fn from_bytes(table: &mut InternTable, v: &[u8]) -> (r: Result<Self, EncodingError>)
        ensures
            r is Ok <==> valid_utf8(v@),
            r is Ok ==> r->Ok_0.bytes() == v@,
            r is Ok ==> (r->Ok_0.is_stack() <==> v@.len() <= STACK_STR_SIZE),
            r is Ok ==> interned_as(r->Ok_0, decode_utf8(v@), *old(table), *final(table)),
            r is Err ==> r->Err_0.bytes@ == v@,
            r is Err ==> *final(table) == *old(table),
    {
        match utf8_str(v) {
            Some(s) => {
                let h = Self::intern(table, s);
                proof {
                    broadcast use vstd::utf8::decode_utf8_encode_utf8, vstd::utf8::encode_utf8_decode_utf8;

                    assert(decode_utf8(v@) == decode_utf8(encode_utf8(s@)));
                }
                Ok(h)
            },
            None => Err(EncodingError { bytes: vstd::slice::slice_to_vec(v) }),
        }
    }
}

/// A handle made from the bytes of a text and a handle interned from that
/// text hold the same text.
pub proof fn lemma_bytes_agree_with_text(from_bytes: InternedString, interned: InternedString, t: &str)
    requires
        from_bytes.bytes() == t.spec_bytes(),
        interned@ == t@,
    ensures
        from_bytes@ == interned@,
{
    broadcast use vstd::utf8::encode_utf8_decode_utf8;

    assert(vstd::utf8::decode_utf8(from_bytes.bytes()) == vstd::utf8::decode_utf8(t.spec_bytes()));
}

} // verus!
