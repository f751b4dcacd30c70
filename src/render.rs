//! Streaming hash, inline capture and equality over rendered text.
use crate::stack::{stack_bytes, stack_extend, stack_len, stack_new};
use ahash::AHasher;
use tinyvec::ArrayVec;
use vstd::prelude::*;
use vstd::string::StringSliceAdditionalSpecFns;
use vstd::utf8::decode_utf8;

verus! {

/// Largest byte length kept inline instead of in the table.
pub const STACK_STR_SIZE: usize = 20;

#[verifier::external_type_specification]
#[verifier::external_body]
pub struct ExAHasher(AHasher);

/// Relies on `AHasher::default`: a fresh hasher. Its keys are drawn once per
/// process, so nothing is stated of the values it later yields.
#[verifier::external_body]
fn hasher_new() -> (r: AHasher) {
    AHasher::default()
}

/// Relies on `Hasher::write` of `AHasher`: feeds bytes to the hasher.
#[verifier::external_body]
fn hasher_write(h: &mut AHasher, b: &[u8]) {
    std::hash::Hasher::write(h, b)
}

/// Relies on `Hasher::finish` of `AHasher`: the digest of what was fed.
#[verifier::external_body]
fn hasher_finish(h: &AHasher) -> (r: u64) {
    std::hash::Hasher::finish(h)
}

/// Accumulates a hash of text written in pieces and, while the total stays
/// within `STACK_STR_SIZE` bytes, a copy of those bytes.
pub struct DisplayHasher {
    hasher: AHasher,
    stack: Option<ArrayVec<[u8; 20]>>,
    capture: bool,
    written: Ghost<Seq<u8>>,
}

impl DisplayHasher {
    /// The bytes written so far.
    pub closed spec fn written(&self) -> Seq<u8> {
        self.written@
    }

    /// Whether the inline copy was asked for.
    pub closed spec fn captures(&self) -> bool {
        self.capture
    }

    /// The inline copy: present exactly while capture is on and the bytes fit.
    pub closed spec fn wf(&self) -> bool {
        &&& self.stack.is_some() <==> (self.capture && self.written@.len() <= STACK_STR_SIZE)
        &&& self.stack.is_some() ==> stack_bytes(self.stack.unwrap()) == self.written@
    }

    pub fn new(capture: bool) -> (r: Self)
        ensures
            r.wf(),
            r.written() == Seq::<u8>::empty(),
            r.captures() == capture,
    {
        let stack = if capture {
            Some(stack_new())
        } else {
            None
        };
        DisplayHasher { hasher: hasher_new(), stack, capture, written: Ghost(Seq::empty()) }
    }

    /// Feeds one rendered piece.
    pub fn write_str(&mut self, s: &str)
        requires
            old(self).wf(),
        ensures
            final(self).wf(),
            final(self).written() == old(self).written() + s.spec_bytes(),
            final(self).captures() == old(self).captures(),
    {
        let b = s.as_bytes();
        hasher_write(&mut self.hasher, b);
        let ghost before = self.written@;
        self.written = Ghost(before + b@);
        match self.stack {
            None => {},
            Some(mut st) => {
                if b.len() <= STACK_STR_SIZE && stack_len(&st) <= STACK_STR_SIZE - b.len() {
                    stack_extend(&mut st, b);
                    self.stack = Some(st);
                } else {
                    self.stack = None;
                }
            },
        }
    }

    /// The digest, and the inline copy when all bytes fit.
    pub fn finish(&self) -> (r: (u64, Option<ArrayVec<[u8; 20]>>))
        requires
            self.wf(),
        ensures
            r.1 is Some <==> self.captures() && self.written().len() <= STACK_STR_SIZE,
            r.1 is Some ==> stack_bytes(r.1.unwrap()) == self.written(),
    {
        (hasher_finish(&self.hasher), self.stack)
    }

    /// Hashes the text and keeps it inline when it is at most
    /// `STACK_STR_SIZE` bytes long.
    pub fn hash_and_stack(t: &str) -> (r: (u64, Option<ArrayVec<[u8; 20]>>))
        ensures
            r.1 is Some <==> t.spec_bytes().len() <= STACK_STR_SIZE,
            r.1 is Some ==> stack_bytes(r.1.unwrap()) == t.spec_bytes(),
    {
        let mut h = DisplayHasher::new(true);
        h.write_str(t);
        assert(Seq::<u8>::empty() + t.spec_bytes() == t.spec_bytes());
        h.finish()
    }

    /// Hashes the text.
    pub fn hash(t: &str) -> (r: u64) {
        let mut h = DisplayHasher::new(false);
        h.write_str(t);
        h.finish().0
    }
}

/// Checks, one rendered piece at a time, that text equals a stored string,
/// stopping at the first piece that does not match.
pub struct DisplayEq<'a> {
    target: &'a [u8],
    pos: usize,
}

impl<'a> DisplayEq<'a> {
    /// The stored bytes not yet matched.
    pub closed spec fn remaining(&self) -> Seq<u8> {
        self.target@.subrange(self.pos as int, self.target@.len() as int)
    }

    pub closed spec fn wf(&self) -> bool {
        self.pos <= self.target@.len()
    }

    /// Matches one piece against the front of the remaining bytes; on a
    /// mismatch nothing is consumed.
    pub fn write_str(&mut self, s: &str) -> (r: bool)
        requires
            old(self).wf(),
        ensures
            final(self).wf(),
            r == (s.spec_bytes().len() <= old(self).remaining().len()
                && s.spec_bytes() == old(self).remaining().subrange(0, s.spec_bytes().len() as int)),
            r ==> final(self).remaining() == old(self).remaining().subrange(
                s.spec_bytes().len() as int,
                old(self).remaining().len() as int,
            ),
            !r ==> final(self).remaining() == old(self).remaining(),
    {
        let b = s.as_bytes();
        let n = b.len();
        let t = self.target;
        let p = self.pos;
        if n > t.len() - p {
            return false;
        }
        let mut i: usize = 0;
        while i < n
            invariant
                n == b@.len(),
                b@ == s.spec_bytes(),
                p + n <= t.len(),
                t.len() == t@.len(),
                t == self.target,
                p == self.pos,
                *self == *old(self),
                i <= n,
                forall|j: int| 0 <= j < i ==> b@[j] == t@[p + j],
            decreases n - i,
        {
            if b[i] != t[p + i] {
                assert(b@[i as int] != self.remaining().subrange(0, n as int)[i as int]);
                assert(b@ != self.remaining().subrange(0, n as int));
                return false;
            }
            i = i + 1;
        }
        assert(b@ == self.remaining().subrange(0, n as int));
        let ghost before = self.remaining();
        self.pos = p + n;
        assert(self.remaining() == before.subrange(n as int, before.len() as int));
        true
    }

    /// Whether every stored byte has been matched.
    pub fn is_done(&self) -> (r: bool)
        requires
            self.wf(),
        ensures
            r == (self.remaining().len() == 0),
    {
        self.pos == self.target.len()
    }

    /// Whether the rendered text equals the stored string.
    pub fn eq(src: &str, target: &'a str) -> (r: bool)
        ensures
            r == (src@ == target@),
    {
        let mut e = DisplayEq { target: target.as_bytes(), pos: 0 };
        assert(e.remaining() == target.spec_bytes());
        let ok = e.write_str(src);
        let r = ok && e.is_done();
        proof {
            broadcast use vstd::utf8::encode_utf8_decode_utf8, vstd::utf8::encode_utf8_valid_utf8;

            if r {
                assert(target.spec_bytes().subrange(0, src.spec_bytes().len() as int)
                    =~= target.spec_bytes());
                assert(src.spec_bytes() == target.spec_bytes());
                assert(decode_utf8(src.spec_bytes()) == decode_utf8(target.spec_bytes()));
            }
            if src@ == target@ {
                assert(src.spec_bytes() == target.spec_bytes());
                assert(e.remaining().len() == 0);
            }
        }
        r
    }
}

} // verus!
