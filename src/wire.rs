//! Byte-level layout rules and the read and write cursors that the message codecs share.
//!
//! A value is encoded as its base region, of a size fixed by its type, followed by scratch
//! bytes. Fixed-width integers sit in the base region, little-endian. A variable-length field
//! puts an 8-byte descriptor in the base region, its length (bytes of text, or elements of a
//! list) and the position of its scratch bytes, each a little-endian `u32`; the scratch bytes
//! themselves are appended in field order, so each position is the sum of the scratch lengths
//! written before it.

use vstd::bytes::*;
use vstd::prelude::*;
use vstd::slice::slice_subrange;
use vstd::utf8::*;

verus! {

broadcast use vstd::seq_lib::group_seq_properties;

/// The single failure of decoding: a region lies outside the buffer, text is not UTF-8, or a
/// discriminant byte names no variant.
#[derive(Debug, Clone, Copy, PartialEq, Eq, Structural)]
pub struct DecodeError;

pub type DecodeResult<T> = Result<T, DecodeError>;

/// `w` written over `s`, starting at position `at`.
pub open spec fn overwrite(s: Seq<u8>, at: int, w: Seq<u8>) -> Seq<u8> {
    s.subrange(0, at) + w + s.subrange(at + w.len(), s.len() as int)
}

/// `n` zero bytes.
pub open spec fn zeros(n: nat) -> Seq<u8> {
    Seq::new(n, |i: int| 0u8)
}

/// The little-endian `u32` stored at `at`.
pub open spec fn u32_at(buf: Seq<u8>, at: int) -> u32 {
    spec_u32_from_le_bytes(buf.subrange(at, at + 4))
}

/// The little-endian `u64` stored at `at`.
pub open spec fn u64_at(buf: Seq<u8>, at: int) -> u64 {
    spec_u64_from_le_bytes(buf.subrange(at, at + 8))
}

/// The UTF-8 bytes of a text.
pub open spec fn utf8(s: Seq<char>) -> Seq<u8> {
    encode_utf8(s)
}

/// Base region of a text field whose bytes sit at absolute position `at`: the byte length,
/// then the position, each as a little-endian `u32`.
pub open spec fn text_base(s: Seq<char>, at: int) -> Seq<u8> {
    spec_u32_to_le_bytes(utf8(s).len() as u32) + spec_u32_to_le_bytes(at as u32)
}

/// The text whose descriptor starts at `at`, if the descriptor and the bytes it points to lie
/// inside `buf` and those bytes are UTF-8.
pub open spec fn text_at(buf: Seq<u8>, at: int) -> Option<Seq<char>> {
    if 0 <= at && at + 8 <= buf.len() {
        let n = u32_at(buf, at) as int;
        let p = u32_at(buf, at + 4) as int;
        if p + n <= buf.len() && valid_utf8(buf.subrange(p, p + n)) {
            Some(decode_utf8(buf.subrange(p, p + n)))
        } else {
            None
        }
    } else {
        None
    }
}

/// Writing `a` and then `b` right after it writes `a + b`.
pub proof fn lemma_overwrite_concat(s: Seq<u8>, at: int, a: Seq<u8>, b: Seq<u8>)
    requires
        0 <= at,
        at + a.len() + b.len() <= s.len(),
    ensures
        overwrite(overwrite(s, at, a), at + a.len(), b) == overwrite(s, at, a + b),
{
    assert(overwrite(overwrite(s, at, a), at + a.len(), b) =~= overwrite(s, at, a + b));
}

/// Writes to disjoint regions may be done in either order.
pub proof fn lemma_overwrite_commute(s: Seq<u8>, a: int, x: Seq<u8>, b: int, y: Seq<u8>)
    requires
        0 <= a,
        a + x.len() <= b,
        b + y.len() <= s.len(),
    ensures
        overwrite(overwrite(s, a, x), b, y) == overwrite(overwrite(s, b, y), a, x),
{
    assert(overwrite(overwrite(s, a, x), b, y) =~= overwrite(overwrite(s, b, y), a, x));
}

/// A write keeps the length and puts `w` where it was written.
pub proof fn lemma_overwrite_shape(s: Seq<u8>, at: int, w: Seq<u8>)
    requires
        0 <= at,
        at + w.len() <= s.len(),
    ensures
        overwrite(s, at, w).len() == s.len(),
        overwrite(s, at, w).subrange(at, at + w.len()) == w,
{
    assert(overwrite(s, at, w).subrange(at, at + w.len()) =~= w);
}

/// A value's base region and scratch bytes written into a fresh buffer of their joint length
/// are its whole encoding.
pub proof fn lemma_fresh_buffer(v: EncodeCursorView, base: Seq<u8>, scratch: Seq<u8>)
    requires
        v.bytes == zeros(base.len() + scratch.len()),
        v.base == 0,
        v.scratch == base.len(),
    ensures
        v.put_base(base).put_scratch(scratch).bytes == base + scratch,
{
    assert(v.put_base(base).put_scratch(scratch).bytes =~= base + scratch);
}

/// Two base writes in a row are one.
pub proof fn lemma_put_base_twice(v: EncodeCursorView, a: Seq<u8>, b: Seq<u8>)
    requires
        0 <= v.base,
        v.base + a.len() + b.len() <= v.bytes.len(),
    ensures
        v.put_base(a).put_base(b) == v.put_base(a + b),
{
    lemma_overwrite_concat(v.bytes, v.base, a, b);
}

/// A text descriptor pointing at the text's bytes reads back as that text.
pub proof fn lemma_text_at(buf: Seq<u8>, at: int, s: Seq<char>, p: int)
    requires
        0 <= at,
        at + 8 <= buf.len(),
        0 <= p,
        p + utf8(s).len() <= buf.len(),
        buf.len() <= u32::MAX,
        buf.subrange(at, at + 8) == text_base(s, p),
        buf.subrange(p, p + utf8(s).len()) == utf8(s),
    ensures
        text_at(buf, at) == Some(s),
{
    lemma_auto_spec_u32_to_from_le_bytes();
    let n = utf8(s).len();
    let b = text_base(s, p);
    assert(buf.subrange(at, at + 4) =~= b.subrange(0, 4));
    assert(b.subrange(0, 4) =~= spec_u32_to_le_bytes(n as u32));
    assert(buf.subrange(at + 4, at + 8) =~= b.subrange(4, 8));
    assert(b.subrange(4, 8) =~= spec_u32_to_le_bytes(p as u32));
    encode_utf8_valid_utf8(s);
    encode_utf8_decode_utf8(s);
}

/// Little-endian encodings have the integer's width.
pub proof fn lemma_le_lengths()
    ensures
        forall|x: u32| #[trigger] spec_u32_to_le_bytes(x).len() == 4,
        forall|x: u64| #[trigger] spec_u64_to_le_bytes(x).len() == 8,
{
    lemma_auto_spec_u32_to_from_le_bytes();
    lemma_auto_spec_u64_to_from_le_bytes();
}

/// A text descriptor takes 8 bytes.
pub proof fn lemma_text_base_len(s: Seq<char>, at: int)
    ensures
        text_base(s, at).len() == 8,
{
    lemma_le_lengths();
}

/// A little-endian `u64` reads back.
pub proof fn lemma_u64_at(buf: Seq<u8>, at: int, x: u64)
    requires
        0 <= at,
        at + 8 <= buf.len(),
        buf.subrange(at, at + 8) == spec_u64_to_le_bytes(x),
    ensures
        u64_at(buf, at) == x,
{
    lemma_auto_spec_u64_to_from_le_bytes();
}

/// Relies on `core::str::from_utf8`: it accepts exactly the well-formed UTF-8 byte strings,
/// and then views those same bytes as text.
#[verifier::external_body]
fn str_from_utf8<'a>(bytes: &'a [u8]) -> (r: Option<&'a str>)
    ensures
        r is Some <==> valid_utf8(bytes@),
        r is Some ==> encode_utf8(r->0@) == bytes@,
{
    core::str::from_utf8(bytes).ok()
}

/// Whether two texts are equal, compared byte by byte.
pub fn same_text(a: &str, b: &str) -> (r: bool)
    ensures
        r == (a@ == b@),
{
    let x = a.as_bytes();
    let y = b.as_bytes();
    proof {
        encode_utf8_decode_utf8(a@);
        encode_utf8_decode_utf8(b@);
    }
    if x.len() != y.len() {
        return false;
    }
    let mut i: usize = 0;
    while i < x.len()
        invariant
            x@.len() == y@.len(),
            x@ == encode_utf8(a@),
            y@ == encode_utf8(b@),
            i <= x@.len(),
            forall|j: int| 0 <= j < i ==> x@[j] == y@[j],
        decreases x@.len() - i,
    {
        if x[i] != y[i] {
            return false;
        }
        i += 1;
    }
    proof {
        assert(x@ =~= y@);
    }
    true
}

/// Reads the byte at `at`.
pub fn read_u8(buf: &[u8], at: usize) -> (r: Option<u8>)
    ensures
        r is Some <==> at < buf@.len(),
        r is Some ==> r->0 == buf@[at as int],
{
    if at < buf.len() {
        Some(buf[at])
    } else {
        None
    }
}

/// Reads the little-endian `u32` at `at`.
pub fn read_u32(buf: &[u8], at: usize) -> (r: Option<u32>)
    ensures
        r is Some <==> at + 4 <= buf@.len(),
        r is Some ==> r->0 == u32_at(buf@, at as int),
{
    if at <= buf.len() && buf.len() - at >= 4 {
        Some(u32_from_le_bytes(slice_subrange(buf, at, at + 4)))
    } else {
        None
    }
}

/// Reads the little-endian `u64` at `at`.
pub fn read_u64(buf: &[u8], at: usize) -> (r: Option<u64>)
    ensures
        r is Some <==> at + 8 <= buf@.len(),
        r is Some ==> r->0 == u64_at(buf@, at as int),
{
    if at <= buf.len() && buf.len() - at >= 8 {
        Some(u64_from_le_bytes(slice_subrange(buf, at, at + 8)))
    } else {
        None
    }
}

/// Reads the text field whose descriptor starts at `at`, without copying its bytes.
pub fn read_text<'a>(buf: &'a [u8], at: usize) -> (r: Option<&'a str>)
    ensures
        r is Some <==> text_at(buf@, at as int) is Some,
        r is Some ==> r->0@ == text_at(buf@, at as int)->0,
{
    if at > buf.len() || buf.len() - at < 8 {
        return None;
    }
    let n = read_u32(buf, at).unwrap() as usize;
    let p = read_u32(buf, at + 4).unwrap() as usize;
    if p > buf.len() || buf.len() - p < n {
        return None;
    }
    let bytes = slice_subrange(buf, p, p + n);
    match str_from_utf8(bytes) {
        Some(s) => {
            proof {
                encode_utf8_decode_utf8(s@);
            }
            Some(s)
        },
        None => None,
    }
}

/// What a write cursor holds: the output bytes, the base head with the end of the base
/// region it is filling, and the scratch head.
pub struct EncodeCursorView {
    pub bytes: Seq<u8>,
    pub base: int,
    pub base_end: int,
    pub scratch: int,
}

impl EncodeCursorView {
    /// `w` written at the base head, which moves past it.
    pub open spec fn put_base(self, w: Seq<u8>) -> EncodeCursorView {
        EncodeCursorView {
            bytes: overwrite(self.bytes, self.base, w),
            base: self.base + w.len(),
            base_end: self.base_end,
            scratch: self.scratch,
        }
    }

    /// `w` written at the scratch head, which moves past it.
    pub open spec fn put_scratch(self, w: Seq<u8>) -> EncodeCursorView {
        EncodeCursorView {
            bytes: overwrite(self.bytes, self.scratch, w),
            base: self.base,
            base_end: self.base_end,
            scratch: self.scratch + w.len(),
        }
    }
}

/// A write cursor over an output buffer of fixed length, made of the base region of the
/// outermost value followed by scratch space. Base regions of values are filled in field
/// order at the base head; the bytes of variable-length fields are appended at the scratch
/// head.
pub struct EncodeCursor {
    buf: Vec<u8>,
    base: usize,
    base_end: usize,
    scratch: usize,
}

/// Where the base head of an enclosing value stood while a list's elements are written.
pub struct OuterBase {
    pub base: usize,
    pub base_end: usize,
}

impl View for EncodeCursor {
    type V = EncodeCursorView;

    closed spec fn view(&self) -> EncodeCursorView {
        EncodeCursorView {
            bytes: self.buf@,
            base: self.base as int,
            base_end: self.base_end as int,
            scratch: self.scratch as int,
        }
    }
}

impl EncodeCursor {
    /// The base region being filled lies before the scratch head, and every position fits
    /// in the `u32` that the wire format stores.
    pub open spec fn wf(&self) -> bool {
        &&& 0 <= self@.base <= self@.base_end <= self@.scratch <= self@.bytes.len()
        &&& self@.bytes.len() <= u32::MAX
    }

    /// A cursor over `len` zero bytes, whose first `base_len` bytes are the base region of
    /// the value about to be written.
    pub fn new(len: usize, base_len: usize) -> (r: Self)
        requires
            base_len <= len <= u32::MAX,
        ensures
            r.wf(),
            r@.bytes == zeros(len as nat),
            r@.base == 0,
            r@.base_end == base_len,
            r@.scratch == base_len,
    {
        let mut buf: Vec<u8> = Vec::with_capacity(len);
        let mut i: usize = 0;
        while i < len
            invariant
                i <= len,
                buf@ == zeros(i as nat),
            decreases len - i,
        {
            buf.push(0u8);
            i += 1;
        }
        EncodeCursor { buf, base: 0, base_end: base_len, scratch: base_len }
    }

    /// The output bytes.
    pub fn into_bytes(self) -> (r: Vec<u8>)
        ensures
            r@ == self@.bytes,
    {
        self.buf
    }

    fn write_at(&mut self, at: usize, w: &[u8])
        requires
            at + w@.len() <= old(self).buf@.len(),
        ensures
            final(self).buf@ == overwrite(old(self).buf@, at as int, w@),
            final(self).base == old(self).base,
            final(self).base_end == old(self).base_end,
            final(self).scratch == old(self).scratch,
    {
        let mut i: usize = 0;
        while i < w.len()
            invariant
                i <= w@.len(),
                at + w@.len() <= old(self).buf@.len(),
                self.buf@.len() == old(self).buf@.len(),
                at + w@.len() <= self.buf.len(),
                self.buf@ == overwrite(old(self).buf@, at as int, w@.subrange(0, i as int)),
                self.base == old(self).base,
                self.base_end == old(self).base_end,
                self.scratch == old(self).scratch,
            decreases w@.len() - i,
        {
            proof {
                assert(overwrite(old(self).buf@, at as int, w@.subrange(0, i + 1)) =~= overwrite(
                    old(self).buf@,
                    at as int,
                    w@.subrange(0, i as int),
                ).update(at + i, w@[i as int]));
            }
            self.buf.set(at + i, w[i]);
            i += 1;
        }
        proof {
            assert(w@.subrange(0, w@.len() as int) =~= w@);
        }
    }

    /// Writes `w` at the base head.
    pub fn put_base_bytes(&mut self, w: &[u8])
        requires
            old(self).wf(),
            old(self)@.base + w@.len() <= old(self)@.base_end,
        ensures
            final(self).wf(),
            final(self)@ == old(self)@.put_base(w@),
    {
        let at = self.base;
        self.write_at(at, w);
        self.base = self.base + w.len();
    }

    /// Writes one byte at the base head.
    pub fn put_u8(&mut self, v: u8)
        requires
            old(self).wf(),
            old(self)@.base + 1 <= old(self)@.base_end,
        ensures
            final(self).wf(),
            final(self)@ == old(self)@.put_base(seq![v]),
    {
        let w: [u8; 1] = [v];
        proof {
            assert(w@ =~= seq![v]);
        }
        self.put_base_bytes(w.as_slice());
    }

    /// Writes `v` little-endian at the base head.
    pub fn put_u32(&mut self, v: u32)
        requires
            old(self).wf(),
            old(self)@.base + 4 <= old(self)@.base_end,
        ensures
            final(self).wf(),
            final(self)@ == old(self)@.put_base(spec_u32_to_le_bytes(v)),
    {
        let w = u32_to_le_bytes(v);
        self.put_base_bytes(w.as_slice());
    }

    /// Writes `v` little-endian at the base head.
    pub fn put_u64(&mut self, v: u64)
        requires
            old(self).wf(),
            old(self)@.base + 8 <= old(self)@.base_end,
        ensures
            final(self).wf(),
            final(self)@ == old(self)@.put_base(spec_u64_to_le_bytes(v)),
    {
        let w = u64_to_le_bytes(v);
        self.put_base_bytes(w.as_slice());
    }

    /// Fills the next `n` base bytes with zeros.
    pub fn put_zeros(&mut self, n: usize)
        requires
            old(self).wf(),
            old(self)@.base + n <= old(self)@.base_end,
        ensures
            final(self).wf(),
            final(self)@ == old(self)@.put_base(zeros(n as nat)),
    {
        let mut w: Vec<u8> = Vec::with_capacity(n);
        let mut i: usize = 0;
        while i < n
            invariant
                i <= n,
                w@ == zeros(i as nat),
            decreases n - i,
        {
            w.push(0u8);
            i += 1;
        }
        self.put_base_bytes(w.as_slice());
    }

    /// Writes a text field: its length and the scratch position at the base head, its
    /// bytes at the scratch head.
    pub fn put_text(&mut self, s: &str)
        requires
            old(self).wf(),
            old(self)@.base + 8 <= old(self)@.base_end,
            old(self)@.scratch + utf8(s@).len() <= old(self)@.bytes.len(),
        ensures
            final(self).wf(),
            final(self)@ == old(self)@.put_base(text_base(s@, old(self)@.scratch)).put_scratch(
                utf8(s@),
            ),
    {
        let bytes = s.as_bytes();
        let n = bytes.len();
        let at = self.scratch;
        let len_bytes = u32_to_le_bytes(n as u32);
        let pos_bytes = u32_to_le_bytes(at as u32);
        let ghost b0 = self.buf@;
        let base = self.base;
        self.write_at(base, len_bytes.as_slice());
        self.write_at(base + 4, pos_bytes.as_slice());
        self.write_at(at, bytes);
        self.base = base + 8;
        self.scratch = at + n;
        proof {
            let v = old(self)@;
            let w = text_base(s@, v.scratch);
            assert(w =~= len_bytes@ + pos_bytes@);
            assert(overwrite(overwrite(b0, base as int, len_bytes@), base + 4, pos_bytes@)
                =~= overwrite(b0, base as int, w));
        }
    }

    /// Starts a list of `count` elements whose base regions are `item_base_len` bytes each:
    /// writes the count and the scratch position at the base head, reserves the elements'
    /// base regions at the scratch head, and moves the base head there. Returns where the
    /// base head stood, for `end_list`.
    pub fn begin_list(&mut self, count: usize, item_base_len: usize) -> (r: OuterBase)
        requires
            old(self).wf(),
            old(self)@.base + 8 <= old(self)@.base_end,
            old(self)@.scratch + count * item_base_len <= old(self)@.bytes.len(),
        ensures
            final(self).wf(),
            final(self)@ == (EncodeCursorView {
                bytes: overwrite(
                    old(self)@.bytes,
                    old(self)@.base,
                    spec_u32_to_le_bytes(count as u32) + spec_u32_to_le_bytes(
                        old(self)@.scratch as u32,
                    ),
                ),
                base: old(self)@.scratch,
                base_end: old(self)@.scratch + count * item_base_len,
                scratch: old(self)@.scratch + count * item_base_len,
            }),
            r.base == old(self)@.base + 8,
            r.base_end == old(self)@.base_end,
    {
        let at = self.scratch;
        let count_bytes = u32_to_le_bytes(count as u32);
        let pos_bytes = u32_to_le_bytes(at as u32);
        let ghost b0 = self.buf@;
        let base = self.base;
        self.write_at(base, count_bytes.as_slice());
        self.write_at(base + 4, pos_bytes.as_slice());
        proof {
            assert(overwrite(overwrite(b0, base as int, count_bytes@), base + 4, pos_bytes@)
                =~= overwrite(b0, base as int, count_bytes@ + pos_bytes@));
        }
        let outer = OuterBase { base: base + 8, base_end: self.base_end };
        let k = count * item_base_len;
        self.base = at;
        self.base_end = at + k;
        self.scratch = at + k;
        outer
    }

    /// Returns the base head to the enclosing value once a list's elements are written.
    pub fn end_list(&mut self, outer: OuterBase)
        requires
            old(self).wf(),
            outer.base <= outer.base_end <= old(self)@.scratch,
        ensures
            final(self).wf(),
            final(self)@ == (EncodeCursorView {
                bytes: old(self)@.bytes,
                base: outer.base as int,
                base_end: outer.base_end as int,
                scratch: old(self)@.scratch,
            }),
    {
        self.base = outer.base;
        self.base_end = outer.base_end;
    }
}

/// A read cursor: a buffer and a position in it.
pub struct DecodeCursor<'a> {
    buffer: &'a [u8],
    offset: usize,
}

impl<'a> DecodeCursor<'a> {
    /// The bytes read from.
    pub closed spec fn bytes(&self) -> Seq<u8> {
        self.buffer@
    }

    /// The current position.
    pub closed spec fn pos(&self) -> int {
        self.offset as int
    }

    /// A cursor at the start of `buffer`.
    pub fn new(buffer: &'a [u8]) -> (r: Self)
        ensures
            r.bytes() == buffer@,
            r.pos() == 0,
    {
        DecodeCursor { buffer, offset: 0 }
    }

    /// A cursor at position `offset` of `buffer`.
    pub fn at_offset(buffer: &'a [u8], offset: usize) -> (r: Self)
        ensures
            r.bytes() == buffer@,
            r.pos() == offset,
    {
        DecodeCursor { buffer, offset }
    }

    pub fn buffer(&self) -> (r: &'a [u8])
        ensures
            r@ == self.bytes(),
    {
        self.buffer
    }

    pub fn offset(&self) -> (r: usize)
        ensures
            r == self.pos(),
    {
        self.offset
    }

    /// Moves the position `n` bytes on, within the buffer.
    pub fn advance(&mut self, n: usize)
        requires
            old(self).pos() + n <= old(self).bytes().len(),
        ensures
            final(self).bytes() == old(self).bytes(),
            final(self).pos() == old(self).pos() + n,
    {
        proof {
            assert(self.buffer@.len() == self.buffer.len());
        }
        self.offset = self.offset + n;
    }
}

} // verus!
