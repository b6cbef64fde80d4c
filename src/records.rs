//! Records with a text field: the registered user, the registration request and the chat
//! message request.

use vstd::bytes::*;
use vstd::prelude::*;

use crate::wire::{
    lemma_fresh_buffer, lemma_le_lengths, lemma_put_base_twice, lemma_text_at,
    lemma_text_base_len, lemma_u64_at, read_text, read_u64, same_text, text_at, text_base,
    u64_at, utf8, DecodeCursor, DecodeError, DecodeResult, EncodeCursor, EncodeCursorView,
};

verus! {

/// A value that an encoder accepts in place of a `String` field: an owned string or a
/// borrowed one.
pub trait TextField {
    /// The text held.
    spec fn text(&self) -> Seq<char>;

    fn as_text(&self) -> (r: &str)
        ensures
            r@ == self.text(),
    ;
}

impl TextField for String {
    open spec fn text(&self) -> Seq<char> {
        self@
    }

    fn as_text(&self) -> (r: &str) {
        self.as_str()
    }
}

impl<'s> TextField for &'s str {
    open spec fn text(&self) -> Seq<char> {
        (**self)@
    }

    fn as_text(&self) -> (r: &str) {
        *self
    }
}

// ---------------------------------------------------------------------------------------
// RegisteredUser: { endpoint: u64, alias: text }
// ---------------------------------------------------------------------------------------

/// A user known to the chat server: the endpoint it speaks from and its alias.
#[derive(Clone, Debug, PartialEq, Eq, PartialOrd, Ord, Hash)]
pub struct RegisteredUser {
    pub endpoint: u64,
    pub alias: String,
}

/// What a registered user holds.
pub struct RegisteredUserView {
    pub endpoint: u64,
    pub alias: Seq<char>,
}

impl View for RegisteredUser {
    type V = RegisteredUserView;

    open spec fn view(&self) -> RegisteredUserView {
        RegisteredUserView { endpoint: self.endpoint, alias: self.alias@ }
    }
}

/// Base region of a registered user: the endpoint, then the alias descriptor (8 bytes each).
pub open spec fn user_base_len() -> nat {
    16
}

/// Base region of `u` when its alias bytes sit at absolute position `at`.
pub open spec fn user_base(u: RegisteredUserView, at: int) -> Seq<u8> {
    spec_u64_to_le_bytes(u.endpoint) + text_base(u.alias, at)
}

/// Scratch bytes of `u`: its alias.
pub open spec fn user_scratch(u: RegisteredUserView) -> Seq<u8> {
    utf8(u.alias)
}

/// `u` encoded on its own.
pub open spec fn user_encoding(u: RegisteredUserView) -> Seq<u8> {
    user_base(u, user_base_len() as int) + user_scratch(u)
}

/// Whether every position in `u`'s encoding fits the wire format's `u32`.
pub open spec fn user_fits(u: RegisteredUserView) -> bool {
    user_base_len() + user_scratch(u).len() <= u32::MAX
}

/// The registered user whose base region starts at `at`, if it decodes.
pub open spec fn user_at(buf: Seq<u8>, at: int) -> Option<RegisteredUserView> {
    if 0 <= at && at + user_base_len() <= buf.len() && text_at(buf, at + 8) is Some {
        Some(RegisteredUserView { endpoint: u64_at(buf, at), alias: text_at(buf, at + 8)->0 })
    } else {
        None
    }
}

/// What writing `u` at the cursor does.
pub open spec fn put_user(c: EncodeCursorView, u: RegisteredUserView) -> EncodeCursorView {
    c.put_base(user_base(u, c.scratch)).put_scratch(user_scratch(u))
}

/// Whether `c` has room for `u`.
pub open spec fn room_for_user(c: &EncodeCursor, u: RegisteredUserView) -> bool {
    &&& c.wf()
    &&& c@.base + user_base_len() <= c@.base_end
    &&& c@.scratch + user_scratch(u).len() <= c@.bytes.len()
}

/// Writes a registered user given by its fields; shared by every representation.
pub fn put_user_fields(c: &mut EncodeCursor, endpoint: u64, alias: &str)
    requires
        room_for_user(old(c), RegisteredUserView { endpoint, alias: alias@ }),
    ensures
        final(c).wf(),
        final(c)@ == put_user(old(c)@, RegisteredUserView { endpoint, alias: alias@ }),
{
    let ghost v = c@;
    proof {
        lemma_le_lengths();
    }
    c.put_u64(endpoint);
    c.put_text(alias);
    proof {
        lemma_put_base_twice(v, spec_u64_to_le_bytes(endpoint), text_base(alias@, v.scratch));
    }
}

/// Reads back a registered user written by itself into a buffer.
pub proof fn lemma_user_round_trip(u: RegisteredUserView)
    requires
        user_fits(u),
    ensures
        user_at(user_encoding(u), 0) == Some(u),
{
    let b = user_encoding(u);
    let n = utf8(u.alias).len() as int;
    lemma_le_lengths();
    assert(b.subrange(0, 8) =~= spec_u64_to_le_bytes(u.endpoint));
    lemma_u64_at(b, 0, u.endpoint);
    assert(b.subrange(8, 16) =~= text_base(u.alias, 16));
    assert(b.subrange(16, 16 + n) =~= utf8(u.alias));
    lemma_text_at(b, 8, u.alias, 16);
}

impl RegisteredUser {
    /// Length of the base region, the same for every registered user.
    pub fn base_len() -> (r: usize)
        ensures
            r == user_base_len(),
    {
        16
    }

    /// Number of scratch bytes this user takes: its alias.
    pub fn scratch_len(&self) -> (r: usize)
        ensures
            r == user_scratch(self@).len(),
    {
        self.alias.as_str().as_bytes().len()
    }

    /// Writes this user at the cursor.
    pub fn encode(&self, c: &mut EncodeCursor)
        requires
            room_for_user(old(c), self@),
        ensures
            final(c).wf(),
            final(c)@ == put_user(old(c)@, self@),
    {
        put_user_fields(c, self.endpoint, self.alias.as_str());
    }

    /// This user encoded on its own.
    pub fn to_bytes(&self) -> (r: Vec<u8>)
        requires
            user_fits(self@),
        ensures
            r@ == user_encoding(self@),
    {
        let n = self.scratch_len();
        let mut c = EncodeCursor::new(16 + n, 16);
        let ghost v = c@;
        proof {
            lemma_le_lengths();
        }
        self.encode(&mut c);
        proof {
            lemma_fresh_buffer(v, user_base(self@, 16), user_scratch(self@));
        }
        c.into_bytes()
    }

    /// Decodes the user whose base region is at the cursor, and moves past it.
    pub fn decode<'a>(c: &mut DecodeCursor<'a>) -> (r: DecodeResult<Self>)
        ensures
            final(c).bytes() == old(c).bytes(),
            r is Ok <==> user_at(old(c).bytes(), old(c).pos()) is Some,
            r is Ok ==> r->Ok_0@ == user_at(old(c).bytes(), old(c).pos())->0 && final(c).pos()
                == old(c).pos() + user_base_len(),
            r is Err ==> final(c).pos() == old(c).pos(),
    {
        let lazy = RegisteredUserLazy::decode(c)?;
        let r = RegisteredUser::lazy_to_owned(lazy);
        if r.is_err() {
            let back = DecodeCursor::at_offset(lazy.buffer, lazy.offset);
            *c = back;
        }
        r
    }

    /// Decodes a user encoded on its own.
    pub fn from_bytes(buf: &[u8]) -> (r: DecodeResult<Self>)
        ensures
            r is Ok <==> user_at(buf@, 0) is Some,
            r is Ok ==> r->Ok_0@ == user_at(buf@, 0)->0,
    {
        let mut c = DecodeCursor::new(buf);
        RegisteredUser::decode(&mut c)
    }

    /// Materialises the user that a lazy view points at.
    pub fn lazy_to_owned(lazy: RegisteredUserLazy<'_>) -> (r: DecodeResult<Self>)
        ensures
            r is Ok <==> user_at(lazy.bytes(), lazy.pos()) is Some,
            r is Ok ==> r->Ok_0@ == user_at(lazy.bytes(), lazy.pos())->0,
    {
        let endpoint = lazy.endpoint()?;
        let alias = lazy.alias()?;
        Ok(RegisteredUser { endpoint, alias: alias.to_owned() })
    }
}

/// A view of a registered user inside a received buffer; fields decode when asked for.
pub struct RegisteredUserLazy<'a> {
    buffer: &'a [u8],
    offset: usize,
}

impl<'a> Clone for RegisteredUserLazy<'a> {
    fn clone(&self) -> (r: Self)
        ensures
            r == *self,
    {
        *self
    }
}

impl<'a> Copy for RegisteredUserLazy<'a> {

}

impl<'a> RegisteredUserLazy<'a> {
    /// The base region lies inside the buffer.
    #[verifier::type_invariant]
    spec fn inv(&self) -> bool {
        self.offset + user_base_len() <= self.buffer@.len()
    }

    /// The buffer viewed.
    pub closed spec fn bytes(&self) -> Seq<u8> {
        self.buffer@
    }

    /// Where the user's base region starts.
    pub closed spec fn pos(&self) -> int {
        self.offset as int
    }

    pub fn base_len() -> (r: usize)
        ensures
            r == user_base_len(),
    {
        16
    }

    /// A view of the user whose base region starts at `offset`; fails only if that region
    /// runs past the end of the buffer.
    pub fn at(buffer: &'a [u8], offset: usize) -> (r: DecodeResult<Self>)
        ensures
            r is Ok <==> offset + user_base_len() <= buffer@.len(),
            r is Ok ==> r->Ok_0.bytes() == buffer@ && r->Ok_0.pos() == offset,
    {
        if offset <= buffer.len() && buffer.len() - offset >= 16 {
            Ok(RegisteredUserLazy { buffer, offset })
        } else {
            Err(DecodeError)
        }
    }

    /// A view of the user at the cursor; the cursor moves past its base region.
    pub fn decode(c: &mut DecodeCursor<'a>) -> (r: DecodeResult<Self>)
        ensures
            final(c).bytes() == old(c).bytes(),
            r is Ok <==> old(c).pos() + user_base_len() <= old(c).bytes().len(),
            r is Ok ==> r->Ok_0.bytes() == old(c).bytes() && r->Ok_0.pos() == old(c).pos()
                && final(c).pos() == old(c).pos() + user_base_len(),
            r is Err ==> final(c).pos() == old(c).pos(),
    {
        let r = RegisteredUserLazy::at(c.buffer(), c.offset());
        if r.is_ok() {
            c.advance(16);
        }
        r
    }

    pub fn endpoint(&self) -> (r: DecodeResult<u64>)
        ensures
            r == Ok::<u64, DecodeError>(u64_at(self.bytes(), self.pos())),
    {
        proof {
            use_type_invariant(self);
        }
        Ok(read_u64(self.buffer, self.offset).unwrap())
    }

    pub fn alias(&self) -> (r: DecodeResult<&'a str>)
        ensures
            r is Ok <==> text_at(self.bytes(), self.pos() + 8) is Some,
            r is Ok ==> r->Ok_0@ == text_at(self.bytes(), self.pos() + 8)->0,
    {
        proof {
            use_type_invariant(self);
            assert(self.buffer@.len() == self.buffer.len());
        }
        match read_text(self.buffer, self.offset + 8) {
            Some(s) => Ok(s),
            None => Err(DecodeError),
        }
    }

    /// Number of scratch bytes the viewed user takes.
    pub fn scratch_len(&self) -> (r: usize)
        requires
            user_at(self.bytes(), self.pos()) is Some,
        ensures
            r == user_scratch(user_at(self.bytes(), self.pos())->0).len(),
    {
        self.alias().unwrap().as_bytes().len()
    }

    /// Writes the viewed user at the cursor, as its owned value would be written.
    pub fn encode(&self, c: &mut EncodeCursor)
        requires
            user_at(self.bytes(), self.pos()) is Some,
            room_for_user(old(c), user_at(self.bytes(), self.pos())->0),
        ensures
            final(c).wf(),
            final(c)@ == put_user(old(c)@, user_at(self.bytes(), self.pos())->0),
    {
        let endpoint = self.endpoint().unwrap();
        let alias = self.alias().unwrap();
        put_user_fields(c, endpoint, alias);
    }
}

impl<'a> PartialEq for RegisteredUserLazy<'a> {
    /// Both views decode, to the same user.
    fn eq(&self, other: &Self) -> (r: bool) {
        match (RegisteredUser::lazy_to_owned(*self), RegisteredUser::lazy_to_owned(*other)) {
            (Ok(a), Ok(b)) => a.endpoint == b.endpoint && same_text(
                a.alias.as_str(),
                b.alias.as_str(),
            ),
            _ => false,
        }
    }
}

impl<'a> vstd::std_specs::cmp::PartialEqSpecImpl for RegisteredUserLazy<'a> {
    open spec fn obeys_eq_spec() -> bool {
        true
    }

    open spec fn eq_spec(&self, other: &Self) -> bool {
        user_at(self.bytes(), self.pos()) is Some && user_at(self.bytes(), self.pos()) == user_at(
            other.bytes(),
            other.pos(),
        )
    }
}

impl<'a> RegisteredUserLazy<'a> {
    /// Whether the view decodes to `v`.
    pub fn matches(&self, v: &RegisteredUser) -> (r: bool)
        ensures
            r == (user_at(self.bytes(), self.pos()) == Some(v@)),
    {
        match RegisteredUser::lazy_to_owned(*self) {
            Ok(a) => a.endpoint == v.endpoint && same_text(a.alias.as_str(), v.alias.as_str()),
            Err(_) => false,
        }
    }
}

/// Encodes a registered user straight from its fields, with the alias in any text form.
pub struct RegisteredUserGen<A: TextField> {
    pub endpoint: u64,
    pub alias: A,
}

impl<A: TextField> RegisteredUserGen<A> {
    /// The registered user this generator stands for.
    pub open spec fn model(&self) -> RegisteredUserView {
        RegisteredUserView { endpoint: self.endpoint, alias: self.alias.text() }
    }

    pub fn base_len() -> (r: usize)
        ensures
            r == user_base_len(),
    {
        16
    }

    pub fn scratch_len(&self) -> (r: usize)
        ensures
            r == user_scratch(self.model()).len(),
    {
        self.alias.as_text().as_bytes().len()
    }

    pub fn encode(&self, c: &mut EncodeCursor)
        requires
            room_for_user(old(c), self.model()),
        ensures
            final(c).wf(),
            final(c)@ == put_user(old(c)@, self.model()),
    {
        put_user_fields(c, self.endpoint, self.alias.as_text());
    }

    pub fn to_bytes(&self) -> (r: Vec<u8>)
        requires
            user_fits(self.model()),
        ensures
            r@ == user_encoding(self.model()),
    {
        let n = self.scratch_len();
        let mut c = EncodeCursor::new(16 + n, 16);
        let ghost v = c@;
        proof {
            lemma_le_lengths();
        }
        self.encode(&mut c);
        proof {
            lemma_fresh_buffer(v, user_base(self.model(), 16), user_scratch(self.model()));
        }
        c.into_bytes()
    }
}

// ---------------------------------------------------------------------------------------
// Records of one text field: RegisterRequest { alias }, SendMessageRequest { content }
// ---------------------------------------------------------------------------------------

/// Base region of a record of one text field: the text's descriptor.
pub open spec fn text_record_base_len() -> nat {
    8
}

/// A record of one text field encoded on its own.
pub open spec fn text_record_encoding(s: Seq<char>) -> Seq<u8> {
    text_base(s, text_record_base_len() as int) + utf8(s)
}

/// Whether every position in the encoding of a record holding `s` fits a `u32`.
pub open spec fn text_record_fits(s: Seq<char>) -> bool {
    text_record_base_len() + utf8(s).len() <= u32::MAX
}

/// Whether `c` has room for a text field holding `s`.
pub open spec fn room_for_text(c: &EncodeCursor, s: Seq<char>) -> bool {
    &&& c.wf()
    &&& c@.base + 8 <= c@.base_end
    &&& c@.scratch + utf8(s).len() <= c@.bytes.len()
}

/// What writing a text field holding `s` at the cursor does.
pub open spec fn put_text_field(c: EncodeCursorView, s: Seq<char>) -> EncodeCursorView {
    c.put_base(text_base(s, c.scratch)).put_scratch(utf8(s))
}

/// A record of one text field holding `s`, encoded on its own.
fn text_record_to_bytes(s: &str) -> (r: Vec<u8>)
    requires
        text_record_fits(s@),
    ensures
        r@ == text_record_encoding(s@),
{
    let n = s.as_bytes().len();
    let mut c = EncodeCursor::new(8 + n, 8);
    let ghost v = c@;
    c.put_text(s);
    proof {
        lemma_text_base_len(s@, 8);
        lemma_fresh_buffer(v, text_base(s@, 8), utf8(s@));
    }
    c.into_bytes()
}

/// Reads back a record of one text field written by itself into a buffer.
pub proof fn lemma_text_record_round_trip(s: Seq<char>)
    requires
        text_record_fits(s),
    ensures
        text_at(text_record_encoding(s), 0) == Some(s),
{
    let b = text_record_encoding(s);
    let n = utf8(s).len() as int;
    lemma_text_base_len(s, 8);
    assert(b.subrange(0, 8) =~= text_base(s, 8));
    assert(b.subrange(8, 8 + n) =~= utf8(s));
    lemma_text_at(b, 0, s, 8);
}

/// The position of a view whose 8-byte base region lies inside `buffer`.
fn text_view_at(buffer: &[u8], offset: usize) -> (r: bool)
    ensures
        r <==> offset + text_record_base_len() <= buffer@.len(),
{
    offset <= buffer.len() && buffer.len() - offset >= 8
}

/// A request to join the chat under an alias.
#[derive(Clone, Debug, PartialEq, Eq, PartialOrd, Ord, Hash)]
pub struct RegisterRequest {
    pub alias: String,
}

impl View for RegisterRequest {
    type V = Seq<char>;

    open spec fn view(&self) -> Seq<char> {
        self.alias@
    }
}

impl RegisterRequest {
    pub fn base_len() -> (r: usize)
        ensures
            r == text_record_base_len(),
    {
        8
    }

    pub fn scratch_len(&self) -> (r: usize)
        ensures
            r == utf8(self@).len(),
    {
        self.alias.as_str().as_bytes().len()
    }

    pub fn encode(&self, c: &mut EncodeCursor)
        requires
            room_for_text(old(c), self@),
        ensures
            final(c).wf(),
            final(c)@ == put_text_field(old(c)@, self@),
    {
        c.put_text(self.alias.as_str());
    }

    pub fn to_bytes(&self) -> (r: Vec<u8>)
        requires
            text_record_fits(self@),
        ensures
            r@ == text_record_encoding(self@),
    {
        text_record_to_bytes(self.alias.as_str())
    }

    /// Decodes the record at the cursor, and moves past its base region.
    pub fn decode<'a>(c: &mut DecodeCursor<'a>) -> (r: DecodeResult<Self>)
        ensures
            final(c).bytes() == old(c).bytes(),
            r is Ok <==> text_at(old(c).bytes(), old(c).pos()) is Some,
            r is Ok ==> r->Ok_0@ == text_at(old(c).bytes(), old(c).pos())->0 && final(c).pos()
                == old(c).pos() + text_record_base_len(),
            r is Err ==> final(c).pos() == old(c).pos(),
    {
        let lazy = RegisterRequestLazy::decode(c)?;
        let r = RegisterRequest::lazy_to_owned(lazy);
        if r.is_err() {
            *c = DecodeCursor::at_offset(lazy.buffer, lazy.offset);
        }
        r
    }

    /// Decodes a record encoded on its own.
    pub fn from_bytes(buf: &[u8]) -> (r: DecodeResult<Self>)
        ensures
            r is Ok <==> text_at(buf@, 0) is Some,
            r is Ok ==> r->Ok_0@ == text_at(buf@, 0)->0,
    {
        let mut c = DecodeCursor::new(buf);
        RegisterRequest::decode(&mut c)
    }

    /// Materialises the record that a lazy view points at.
    pub fn lazy_to_owned(lazy: RegisterRequestLazy<'_>) -> (r: DecodeResult<Self>)
        ensures
            r is Ok <==> text_at(lazy.bytes(), lazy.pos()) is Some,
            r is Ok ==> r->Ok_0@ == text_at(lazy.bytes(), lazy.pos())->0,
    {
        let alias = lazy.alias()?;
        Ok(RegisterRequest { alias: alias.to_owned() })
    }
}

/// A view of a registration request inside a received buffer.
pub struct RegisterRequestLazy<'a> {
    buffer: &'a [u8],
    offset: usize,
}

impl<'a> Clone for RegisterRequestLazy<'a> {
    fn clone(&self) -> (r: Self)
        ensures
            r == *self,
    {
        *self
    }
}

impl<'a> Copy for RegisterRequestLazy<'a> {

}

impl<'a> RegisterRequestLazy<'a> {
    /// The base region lies inside the buffer.
    #[verifier::type_invariant]
    spec fn inv(&self) -> bool {
        self.offset + text_record_base_len() <= self.buffer@.len()
    }

    pub closed spec fn bytes(&self) -> Seq<u8> {
        self.buffer@
    }

    pub closed spec fn pos(&self) -> int {
        self.offset as int
    }

    pub fn base_len() -> (r: usize)
        ensures
            r == text_record_base_len(),
    {
        8
    }

    /// A view of the record at the cursor; the cursor moves past its base region.
    pub fn decode(c: &mut DecodeCursor<'a>) -> (r: DecodeResult<Self>)
        ensures
            final(c).bytes() == old(c).bytes(),
            r is Ok <==> old(c).pos() + text_record_base_len() <= old(c).bytes().len(),
            r is Ok ==> r->Ok_0.bytes() == old(c).bytes() && r->Ok_0.pos() == old(c).pos()
                && final(c).pos() == old(c).pos() + text_record_base_len(),
            r is Err ==> final(c).pos() == old(c).pos(),
    {
        let buffer = c.buffer();
        let offset = c.offset();
        if text_view_at(buffer, offset) {
            c.advance(8);
            Ok(RegisterRequestLazy { buffer, offset })
        } else {
            Err(DecodeError)
        }
    }

    pub fn alias(&self) -> (r: DecodeResult<&'a str>)
        ensures
            r is Ok <==> text_at(self.bytes(), self.pos()) is Some,
            r is Ok ==> r->Ok_0@ == text_at(self.bytes(), self.pos())->0,
    {
        match read_text(self.buffer, self.offset) {
            Some(s) => Ok(s),
            None => Err(DecodeError),
        }
    }

    pub fn scratch_len(&self) -> (r: usize)
        requires
            text_at(self.bytes(), self.pos()) is Some,
        ensures
            r == utf8(text_at(self.bytes(), self.pos())->0).len(),
    {
        self.alias().unwrap().as_bytes().len()
    }

    /// Writes the viewed record at the cursor, as its owned value would be written.
    pub fn encode(&self, c: &mut EncodeCursor)
        requires
            text_at(self.bytes(), self.pos()) is Some,
            room_for_text(old(c), text_at(self.bytes(), self.pos())->0),
        ensures
            final(c).wf(),
            final(c)@ == put_text_field(old(c)@, text_at(self.bytes(), self.pos())->0),
    {
        c.put_text(self.alias().unwrap());
    }
}

impl<'a> PartialEq for RegisterRequestLazy<'a> {
    /// Both views decode, to the same text.
    fn eq(&self, other: &Self) -> (r: bool) {
        match (self.alias(), other.alias()) {
            (Ok(a), Ok(b)) => same_text(a, b),
            _ => false,
        }
    }
}

impl<'a> vstd::std_specs::cmp::PartialEqSpecImpl for RegisterRequestLazy<'a> {
    open spec fn obeys_eq_spec() -> bool {
        true
    }

    open spec fn eq_spec(&self, other: &Self) -> bool {
        text_at(self.bytes(), self.pos()) is Some && text_at(self.bytes(), self.pos()) == text_at(
            other.bytes(),
            other.pos(),
        )
    }
}

impl<'a> RegisterRequestLazy<'a> {
    /// Whether the view decodes to `v`.
    pub fn matches(&self, v: &RegisterRequest) -> (r: bool)
        ensures
            r == (text_at(self.bytes(), self.pos()) == Some(v@)),
    {
        match self.alias() {
            Ok(a) => same_text(a, v.alias.as_str()),
            Err(_) => false,
        }
    }
}

/// Encodes a registration request straight from a text in any form.
pub struct RegisterRequestGen<A: TextField> {
    pub alias: A,
}

impl<A: TextField> RegisterRequestGen<A> {
    /// The text of the record this generator stands for.
    pub open spec fn model(&self) -> Seq<char> {
        self.alias.text()
    }

    pub fn base_len() -> (r: usize)
        ensures
            r == text_record_base_len(),
    {
        8
    }

    pub fn scratch_len(&self) -> (r: usize)
        ensures
            r == utf8(self.model()).len(),
    {
        self.alias.as_text().as_bytes().len()
    }

    pub fn encode(&self, c: &mut EncodeCursor)
        requires
            room_for_text(old(c), self.model()),
        ensures
            final(c).wf(),
            final(c)@ == put_text_field(old(c)@, self.model()),
    {
        c.put_text(self.alias.as_text());
    }

    pub fn to_bytes(&self) -> (r: Vec<u8>)
        requires
            text_record_fits(self.model()),
        ensures
            r@ == text_record_encoding(self.model()),
    {
        text_record_to_bytes(self.alias.as_text())
    }
}

/// A request to send a chat message.
#[derive(Clone, Debug, PartialEq, Eq, PartialOrd, Ord, Hash)]
pub struct SendMessageRequest {
    pub content: String,
}

impl View for SendMessageRequest {
    type V = Seq<char>;

    open spec fn view(&self) -> Seq<char> {
        self.content@
    }
}

impl SendMessageRequest {
    pub fn base_len() -> (r: usize)
        ensures
            r == text_record_base_len(),
    {
        8
    }

    pub fn scratch_len(&self) -> (r: usize)
        ensures
            r == utf8(self@).len(),
    {
        self.content.as_str().as_bytes().len()
    }

    pub fn encode(&self, c: &mut EncodeCursor)
        requires
            room_for_text(old(c), self@),
        ensures
            final(c).wf(),
            final(c)@ == put_text_field(old(c)@, self@),
    {
        c.put_text(self.content.as_str());
    }

    pub fn to_bytes(&self) -> (r: Vec<u8>)
        requires
            text_record_fits(self@),
        ensures
            r@ == text_record_encoding(self@),
    {
        text_record_to_bytes(self.content.as_str())
    }

    /// Decodes the record at the cursor, and moves past its base region.
    pub fn decode<'a>(c: &mut DecodeCursor<'a>) -> (r: DecodeResult<Self>)
        ensures
            final(c).bytes() == old(c).bytes(),
            r is Ok <==> text_at(old(c).bytes(), old(c).pos()) is Some,
            r is Ok ==> r->Ok_0@ == text_at(old(c).bytes(), old(c).pos())->0 && final(c).pos()
                == old(c).pos() + text_record_base_len(),
            r is Err ==> final(c).pos() == old(c).pos(),
    {
        let lazy = SendMessageRequestLazy::decode(c)?;
        let r = SendMessageRequest::lazy_to_owned(lazy);
        if r.is_err() {
            *c = DecodeCursor::at_offset(lazy.buffer, lazy.offset);
        }
        r
    }

    /// Decodes a record encoded on its own.
    pub fn from_bytes(buf: &[u8]) -> (r: DecodeResult<Self>)
        ensures
            r is Ok <==> text_at(buf@, 0) is Some,
            r is Ok ==> r->Ok_0@ == text_at(buf@, 0)->0,
    {
        let mut c = DecodeCursor::new(buf);
        SendMessageRequest::decode(&mut c)
    }

    /// Materialises the record that a lazy view points at.
    pub fn lazy_to_owned(lazy: SendMessageRequestLazy<'_>) -> (r: DecodeResult<Self>)
        ensures
            r is Ok <==> text_at(lazy.bytes(), lazy.pos()) is Some,
            r is Ok ==> r->Ok_0@ == text_at(lazy.bytes(), lazy.pos())->0,
    {
        let content = lazy.content()?;
        Ok(SendMessageRequest { content: content.to_owned() })
    }
}

/// A view of a chat message request inside a received buffer.
pub struct SendMessageRequestLazy<'a> {
    buffer: &'a [u8],
    offset: usize,
}

impl<'a> Clone for SendMessageRequestLazy<'a> {
    fn clone(&self) -> (r: Self)
        ensures
            r == *self,
    {
        *self
    }
}

impl<'a> Copy for SendMessageRequestLazy<'a> {

}

impl<'a> SendMessageRequestLazy<'a> {
    /// The base region lies inside the buffer.
    #[verifier::type_invariant]
    spec fn inv(&self) -> bool {
        self.offset + text_record_base_len() <= self.buffer@.len()
    }

    pub closed spec fn bytes(&self) -> Seq<u8> {
        self.buffer@
    }

    pub closed spec fn pos(&self) -> int {
        self.offset as int
    }

    pub fn base_len() -> (r: usize)
        ensures
            r == text_record_base_len(),
    {
        8
    }

    /// A view of the record at the cursor; the cursor moves past its base region.
    pub fn decode(c: &mut DecodeCursor<'a>) -> (r: DecodeResult<Self>)
        ensures
            final(c).bytes() == old(c).bytes(),
            r is Ok <==> old(c).pos() + text_record_base_len() <= old(c).bytes().len(),
            r is Ok ==> r->Ok_0.bytes() == old(c).bytes() && r->Ok_0.pos() == old(c).pos()
                && final(c).pos() == old(c).pos() + text_record_base_len(),
            r is Err ==> final(c).pos() == old(c).pos(),
    {
        let buffer = c.buffer();
        let offset = c.offset();
        if text_view_at(buffer, offset) {
            c.advance(8);
            Ok(SendMessageRequestLazy { buffer, offset })
        } else {
            Err(DecodeError)
        }
    }

    pub fn content(&self) -> (r: DecodeResult<&'a str>)
        ensures
            r is Ok <==> text_at(self.bytes(), self.pos()) is Some,
            r is Ok ==> r->Ok_0@ == text_at(self.bytes(), self.pos())->0,
    {
        match read_text(self.buffer, self.offset) {
            Some(s) => Ok(s),
            None => Err(DecodeError),
        }
    }

    pub fn scratch_len(&self) -> (r: usize)
        requires
            text_at(self.bytes(), self.pos()) is Some,
        ensures
            r == utf8(text_at(self.bytes(), self.pos())->0).len(),
    {
        self.content().unwrap().as_bytes().len()
    }

    /// Writes the viewed record at the cursor, as its owned value would be written.
    pub fn encode(&self, c: &mut EncodeCursor)
        requires
            text_at(self.bytes(), self.pos()) is Some,
            room_for_text(old(c), text_at(self.bytes(), self.pos())->0),
        ensures
            final(c).wf(),
            final(c)@ == put_text_field(old(c)@, text_at(self.bytes(), self.pos())->0),
    {
        c.put_text(self.content().unwrap());
    }
}

impl<'a> PartialEq for SendMessageRequestLazy<'a> {
    /// Both views decode, to the same text.
    fn eq(&self, other: &Self) -> (r: bool) {
        match (self.content(), other.content()) {
            (Ok(a), Ok(b)) => same_text(a, b),
            _ => false,
        }
    }
}

impl<'a> vstd::std_specs::cmp::PartialEqSpecImpl for SendMessageRequestLazy<'a> {
    open spec fn obeys_eq_spec() -> bool {
        true
    }

    open spec fn eq_spec(&self, other: &Self) -> bool {
        text_at(self.bytes(), self.pos()) is Some && text_at(self.bytes(), self.pos()) == text_at(
            other.bytes(),
            other.pos(),
        )
    }
}

impl<'a> SendMessageRequestLazy<'a> {
    /// Whether the view decodes to `v`.
    pub fn matches(&self, v: &SendMessageRequest) -> (r: bool)
        ensures
            r == (text_at(self.bytes(), self.pos()) == Some(v@)),
    {
        match self.content() {
            Ok(a) => same_text(a, v.content.as_str()),
            Err(_) => false,
        }
    }
}

/// Encodes a chat message request straight from a text in any form.
pub struct SendMessageRequestGen<A: TextField> {
    pub content: A,
}

impl<A: TextField> SendMessageRequestGen<A> {
    /// The text of the record this generator stands for.
    pub open spec fn model(&self) -> Seq<char> {
        self.content.text()
    }

    pub fn base_len() -> (r: usize)
        ensures
            r == text_record_base_len(),
    {
        8
    }

    pub fn scratch_len(&self) -> (r: usize)
        ensures
            r == utf8(self.model()).len(),
    {
        self.content.as_text().as_bytes().len()
    }

    pub fn encode(&self, c: &mut EncodeCursor)
        requires
            room_for_text(old(c), self.model()),
        ensures
            final(c).wf(),
            final(c)@ == put_text_field(old(c)@, self.model()),
    {
        c.put_text(self.content.as_text());
    }

    pub fn to_bytes(&self) -> (r: Vec<u8>)
        requires
            text_record_fits(self.model()),
        ensures
            r@ == text_record_encoding(self.model()),
    {
        text_record_to_bytes(self.content.as_text())
    }
}

} // verus!
