//! Tagged sum types: a one-byte discriminant followed by a zero-filled region the size of the
//! largest variant payload, so that every variant encodes to the same length.

use vstd::prelude::*;

use crate::wire::{
    lemma_put_base_twice, read_u8, zeros, DecodeCursor, DecodeError, DecodeResult, EncodeCursor,
};

verus! {

/// Why a registration was refused.
#[derive(Clone, Copy, Debug, PartialEq, Eq, Structural, PartialOrd, Ord, Hash)]
pub enum RegisterError {
    Internal,
    UserAlreadyExists,
    ChatFull,
}

/// A decoded RegisterError that has not been materialised; it carries no data of its own.
#[derive(Clone, Copy, Debug, PartialEq, Eq, Structural)]
pub enum RegisterErrorLazy {
    Internal,
    UserAlreadyExists,
    ChatFull,
}

/// Largest base region among the variants' payloads; no variant carries one.
pub open spec fn register_error_payload_len() -> nat {
    0
}

/// Base region: the discriminant byte, then room for the largest payload.
pub open spec fn register_error_base_len() -> nat {
    1 + register_error_payload_len()
}

pub open spec fn register_error_tag(e: RegisterError) -> u8 {
    match e {
        RegisterError::Internal => 0,
        RegisterError::UserAlreadyExists => 1,
        RegisterError::ChatFull => 2,
    }
}

/// The variant a discriminant byte names, if any.
pub open spec fn register_error_of_tag(b: u8) -> Option<RegisterError> {
    if b == 0 {
        Some(RegisterError::Internal)
    } else if b == 1 {
        Some(RegisterError::UserAlreadyExists)
    } else if b == 2 {
        Some(RegisterError::ChatFull)
    } else {
        None
    }
}

/// `e` encoded: its discriminant, then zeros up to the fixed size.
pub open spec fn register_error_encoding(e: RegisterError) -> Seq<u8> {
    seq![register_error_tag(e)] + zeros(register_error_payload_len())
}

/// The value whose base region starts at `at`, if it lies in `buf` and its discriminant names
/// a variant.
pub open spec fn register_error_at(buf: Seq<u8>, at: int) -> Option<RegisterError> {
    if 0 <= at && at + register_error_base_len() <= buf.len() {
        register_error_of_tag(buf[at])
    } else {
        None
    }
}

impl RegisterErrorLazy {
    /// The owned variant this stands for.
    pub open spec fn owned(self) -> RegisterError {
        match self {
            RegisterErrorLazy::Internal => RegisterError::Internal,
            RegisterErrorLazy::UserAlreadyExists => RegisterError::UserAlreadyExists,
            RegisterErrorLazy::ChatFull => RegisterError::ChatFull,
        }
    }
}

/// Writes `e` at the cursor.
fn put_register_error(c: &mut EncodeCursor, e: RegisterError)
    requires
        old(c).wf(),
        old(c)@.base + register_error_base_len() <= old(c)@.base_end,
    ensures
        final(c).wf(),
        final(c)@ == old(c)@.put_base(register_error_encoding(e)),
{
    let ghost v = c@;
    let tag: u8 = match e {
        RegisterError::Internal => 0,
        RegisterError::UserAlreadyExists => 1,
        RegisterError::ChatFull => 2,
    };
    c.put_u8(tag);
    c.put_zeros(0);
    proof {
        lemma_put_base_twice(v, seq![tag], zeros(0));
    }
}

/// Reads the value whose base region starts at `at`.
fn register_error_from(buf: &[u8], at: usize) -> (r: DecodeResult<RegisterError>)
    ensures
        r is Ok <==> register_error_at(buf@, at as int) is Some,
        r is Ok ==> r->Ok_0 == register_error_at(buf@, at as int)->0,
{
    match read_u8(buf, at) {
        Some(0u8) => Ok(RegisterError::Internal),
        Some(1u8) => Ok(RegisterError::UserAlreadyExists),
        Some(2u8) => Ok(RegisterError::ChatFull),
        _ => Err(DecodeError),
    }
}

impl RegisterError {
    pub fn base_len() -> (r: usize)
        ensures
            r == register_error_base_len(),
    {
        1
    }

    /// No variant has scratch bytes.
    pub fn scratch_len(&self) -> (r: usize)
        ensures
            r == 0,
    {
        0
    }

    pub fn encode(&self, c: &mut EncodeCursor)
        requires
            old(c).wf(),
            old(c)@.base + register_error_base_len() <= old(c)@.base_end,
        ensures
            final(c).wf(),
            final(c)@ == old(c)@.put_base(register_error_encoding(*self)),
    {
        put_register_error(c, *self);
    }

    pub fn to_bytes(&self) -> (r: Vec<u8>)
        ensures
            r@ == register_error_encoding(*self),
    {
        let mut c = EncodeCursor::new(1, 1);
        let ghost v = c@;
        self.encode(&mut c);
        proof {
            assert(v.put_base(register_error_encoding(*self)).bytes =~= register_error_encoding(*self));
        }
        c.into_bytes()
    }

    /// Decodes the value at the cursor, and moves past its fixed-size region.
    pub fn decode<'a>(c: &mut DecodeCursor<'a>) -> (r: DecodeResult<Self>)
        ensures
            final(c).bytes() == old(c).bytes(),
            r is Ok <==> register_error_at(old(c).bytes(), old(c).pos()) is Some,
            r is Ok ==> r->Ok_0 == register_error_at(old(c).bytes(), old(c).pos())->0 && final(c).pos()
                == old(c).pos() + register_error_base_len(),
            r is Err ==> final(c).pos() == old(c).pos(),
    {
        let r = register_error_from(c.buffer(), c.offset());
        if r.is_ok() {
            c.advance(1);
        }
        r
    }

    /// Decodes a value encoded on its own.
    pub fn from_bytes(buf: &[u8]) -> (r: DecodeResult<Self>)
        ensures
            r is Ok <==> register_error_at(buf@, 0) is Some,
            r is Ok ==> r->Ok_0 == register_error_at(buf@, 0)->0,
    {
        register_error_from(buf, 0)
    }

    /// The owned value a decoded one stands for; this never fails.
    pub fn lazy_to_owned(lazy: RegisterErrorLazy) -> (r: DecodeResult<Self>)
        ensures
            r == Ok::<RegisterError, DecodeError>(lazy.owned()),
    {
        match lazy {
            RegisterErrorLazy::Internal => Ok(RegisterError::Internal),
            RegisterErrorLazy::UserAlreadyExists => Ok(RegisterError::UserAlreadyExists),
            RegisterErrorLazy::ChatFull => Ok(RegisterError::ChatFull),
        }
    }
}

impl RegisterErrorLazy {
    pub fn base_len() -> (r: usize)
        ensures
            r == register_error_base_len(),
    {
        1
    }

    pub fn scratch_len(&self) -> (r: usize)
        ensures
            r == 0,
    {
        0
    }

    /// Writes the value at the cursor, as its owned form would be written.
    pub fn encode(&self, c: &mut EncodeCursor)
        requires
            old(c).wf(),
            old(c)@.base + register_error_base_len() <= old(c)@.base_end,
        ensures
            final(c).wf(),
            final(c)@ == old(c)@.put_base(register_error_encoding(self.owned())),
    {
        let e = match self {
            RegisterErrorLazy::Internal => RegisterError::Internal,
            RegisterErrorLazy::UserAlreadyExists => RegisterError::UserAlreadyExists,
            RegisterErrorLazy::ChatFull => RegisterError::ChatFull,
        };
        put_register_error(c, e);
    }

    /// Decodes the discriminant at the cursor, and moves past the fixed-size region.
    pub fn decode<'a>(c: &mut DecodeCursor<'a>) -> (r: DecodeResult<Self>)
        ensures
            final(c).bytes() == old(c).bytes(),
            r is Ok <==> register_error_at(old(c).bytes(), old(c).pos()) is Some,
            r is Ok ==> r->Ok_0.owned() == register_error_at(old(c).bytes(), old(c).pos())->0
                && final(c).pos() == old(c).pos() + register_error_base_len(),
            r is Err ==> final(c).pos() == old(c).pos(),
    {
        let r = RegisterError::decode(c)?;
        Ok(
            match r {
                RegisterError::Internal => RegisterErrorLazy::Internal,
                RegisterError::UserAlreadyExists => RegisterErrorLazy::UserAlreadyExists,
                RegisterError::ChatFull => RegisterErrorLazy::ChatFull,
            },
        )
    }
}

/// Why a chat message was refused.
#[derive(Clone, Copy, Debug, PartialEq, Eq, Structural, PartialOrd, Ord, Hash)]
pub enum SendMessageError {
    Internal,
    NotRegistered,
    MessageTooLong,
}

/// A decoded SendMessageError that has not been materialised; it carries no data of its own.
#[derive(Clone, Copy, Debug, PartialEq, Eq, Structural)]
pub enum SendMessageErrorLazy {
    Internal,
    NotRegistered,
    MessageTooLong,
}

/// Largest base region among the variants' payloads; no variant carries one.
pub open spec fn send_message_error_payload_len() -> nat {
    0
}

/// Base region: the discriminant byte, then room for the largest payload.
pub open spec fn send_message_error_base_len() -> nat {
    1 + send_message_error_payload_len()
}

pub open spec fn send_message_error_tag(e: SendMessageError) -> u8 {
    match e {
        SendMessageError::Internal => 0,
        SendMessageError::NotRegistered => 1,
        SendMessageError::MessageTooLong => 2,
    }
}

/// The variant a discriminant byte names, if any.
pub open spec fn send_message_error_of_tag(b: u8) -> Option<SendMessageError> {
    if b == 0 {
        Some(SendMessageError::Internal)
    } else if b == 1 {
        Some(SendMessageError::NotRegistered)
    } else if b == 2 {
        Some(SendMessageError::MessageTooLong)
    } else {
        None
    }
}

/// `e` encoded: its discriminant, then zeros up to the fixed size.
pub open spec fn send_message_error_encoding(e: SendMessageError) -> Seq<u8> {
    seq![send_message_error_tag(e)] + zeros(send_message_error_payload_len())
}

/// The value whose base region starts at `at`, if it lies in `buf` and its discriminant names
/// a variant.
pub open spec fn send_message_error_at(buf: Seq<u8>, at: int) -> Option<SendMessageError> {
    if 0 <= at && at + send_message_error_base_len() <= buf.len() {
        send_message_error_of_tag(buf[at])
    } else {
        None
    }
}

impl SendMessageErrorLazy {
    /// The owned variant this stands for.
    pub open spec fn owned(self) -> SendMessageError {
        match self {
            SendMessageErrorLazy::Internal => SendMessageError::Internal,
            SendMessageErrorLazy::NotRegistered => SendMessageError::NotRegistered,
            SendMessageErrorLazy::MessageTooLong => SendMessageError::MessageTooLong,
        }
    }
}

/// Writes `e` at the cursor.
fn put_send_message_error(c: &mut EncodeCursor, e: SendMessageError)
    requires
        old(c).wf(),
        old(c)@.base + send_message_error_base_len() <= old(c)@.base_end,
    ensures
        final(c).wf(),
        final(c)@ == old(c)@.put_base(send_message_error_encoding(e)),
{
    let ghost v = c@;
    let tag: u8 = match e {
        SendMessageError::Internal => 0,
        SendMessageError::NotRegistered => 1,
        SendMessageError::MessageTooLong => 2,
    };
    c.put_u8(tag);
    c.put_zeros(0);
    proof {
        lemma_put_base_twice(v, seq![tag], zeros(0));
    }
}

/// Reads the value whose base region starts at `at`.
fn send_message_error_from(buf: &[u8], at: usize) -> (r: DecodeResult<SendMessageError>)
    ensures
        r is Ok <==> send_message_error_at(buf@, at as int) is Some,
        r is Ok ==> r->Ok_0 == send_message_error_at(buf@, at as int)->0,
{
    match read_u8(buf, at) {
        Some(0u8) => Ok(SendMessageError::Internal),
        Some(1u8) => Ok(SendMessageError::NotRegistered),
        Some(2u8) => Ok(SendMessageError::MessageTooLong),
        _ => Err(DecodeError),
    }
}

impl SendMessageError {
    pub fn base_len() -> (r: usize)
        ensures
            r == send_message_error_base_len(),
    {
        1
    }

    /// No variant has scratch bytes.
    pub fn scratch_len(&self) -> (r: usize)
        ensures
            r == 0,
    {
        0
    }

    pub fn encode(&self, c: &mut EncodeCursor)
        requires
            old(c).wf(),
            old(c)@.base + send_message_error_base_len() <= old(c)@.base_end,
        ensures
            final(c).wf(),
            final(c)@ == old(c)@.put_base(send_message_error_encoding(*self)),
    {
        put_send_message_error(c, *self);
    }

    pub fn to_bytes(&self) -> (r: Vec<u8>)
        ensures
            r@ == send_message_error_encoding(*self),
    {
        let mut c = EncodeCursor::new(1, 1);
        let ghost v = c@;
        self.encode(&mut c);
        proof {
            assert(v.put_base(send_message_error_encoding(*self)).bytes =~= send_message_error_encoding(*self));
        }
        c.into_bytes()
    }

    /// Decodes the value at the cursor, and moves past its fixed-size region.
    pub fn decode<'a>(c: &mut DecodeCursor<'a>) -> (r: DecodeResult<Self>)
        ensures
            final(c).bytes() == old(c).bytes(),
            r is Ok <==> send_message_error_at(old(c).bytes(), old(c).pos()) is Some,
            r is Ok ==> r->Ok_0 == send_message_error_at(old(c).bytes(), old(c).pos())->0 && final(c).pos()
                == old(c).pos() + send_message_error_base_len(),
            r is Err ==> final(c).pos() == old(c).pos(),
    {
        let r = send_message_error_from(c.buffer(), c.offset());
        if r.is_ok() {
            c.advance(1);
        }
        r
    }

    /// Decodes a value encoded on its own.
    pub fn from_bytes(buf: &[u8]) -> (r: DecodeResult<Self>)
        ensures
            r is Ok <==> send_message_error_at(buf@, 0) is Some,
            r is Ok ==> r->Ok_0 == send_message_error_at(buf@, 0)->0,
    {
        send_message_error_from(buf, 0)
    }

    /// The owned value a decoded one stands for; this never fails.
    pub fn lazy_to_owned(lazy: SendMessageErrorLazy) -> (r: DecodeResult<Self>)
        ensures
            r == Ok::<SendMessageError, DecodeError>(lazy.owned()),
    {
        match lazy {
            SendMessageErrorLazy::Internal => Ok(SendMessageError::Internal),
            SendMessageErrorLazy::NotRegistered => Ok(SendMessageError::NotRegistered),
            SendMessageErrorLazy::MessageTooLong => Ok(SendMessageError::MessageTooLong),
        }
    }
}

impl SendMessageErrorLazy {
    pub fn base_len() -> (r: usize)
        ensures
            r == send_message_error_base_len(),
    {
        1
    }

    pub fn scratch_len(&self) -> (r: usize)
        ensures
            r == 0,
    {
        0
    }

    /// Writes the value at the cursor, as its owned form would be written.
    pub fn encode(&self, c: &mut EncodeCursor)
        requires
            old(c).wf(),
            old(c)@.base + send_message_error_base_len() <= old(c)@.base_end,
        ensures
            final(c).wf(),
            final(c)@ == old(c)@.put_base(send_message_error_encoding(self.owned())),
    {
        let e = match self {
            SendMessageErrorLazy::Internal => SendMessageError::Internal,
            SendMessageErrorLazy::NotRegistered => SendMessageError::NotRegistered,
            SendMessageErrorLazy::MessageTooLong => SendMessageError::MessageTooLong,
        };
        put_send_message_error(c, e);
    }

    /// Decodes the discriminant at the cursor, and moves past the fixed-size region.
    pub fn decode<'a>(c: &mut DecodeCursor<'a>) -> (r: DecodeResult<Self>)
        ensures
            final(c).bytes() == old(c).bytes(),
            r is Ok <==> send_message_error_at(old(c).bytes(), old(c).pos()) is Some,
            r is Ok ==> r->Ok_0.owned() == send_message_error_at(old(c).bytes(), old(c).pos())->0
                && final(c).pos() == old(c).pos() + send_message_error_base_len(),
            r is Err ==> final(c).pos() == old(c).pos(),
    {
        let r = SendMessageError::decode(c)?;
        Ok(
            match r {
                SendMessageError::Internal => SendMessageErrorLazy::Internal,
                SendMessageError::NotRegistered => SendMessageErrorLazy::NotRegistered,
                SendMessageError::MessageTooLong => SendMessageErrorLazy::MessageTooLong,
            },
        )
    }
}

} // verus!
