//! Messages without fields: their base region is empty and they have no scratch bytes.

use vstd::prelude::*;

use crate::wire::{DecodeCursor, DecodeError, DecodeResult, EncodeCursor};

verus! {

/// The reply to an accepted registration.
#[derive(Clone, Copy, Debug, PartialEq, Eq, Structural, PartialOrd, Ord, Hash, Default)]
pub struct RegisterSuccess {}

/// A view of an accepted registration's reply inside a received buffer.
pub struct RegisterSuccessLazy<'a> {
    buffer: &'a [u8],
    offset: usize,
}

/// Encodes an accepted registration's reply.
pub struct RegisterSuccessGen {}

impl RegisterSuccess {
    pub fn base_len() -> (r: usize)
        ensures
            r == 0,
    {
        0
    }

    pub fn scratch_len(&self) -> (r: usize)
        ensures
            r == 0,
    {
        0
    }

    /// Writes nothing.
    pub fn encode(&self, c: &mut EncodeCursor)
        ensures
            *final(c) == *old(c),
    {
    }

    /// The empty encoding.
    pub fn to_bytes(&self) -> (r: Vec<u8>)
        ensures
            r@.len() == 0,
    {
        Vec::new()
    }

    /// Reads nothing, and so never fails.
    pub fn decode<'a>(c: &mut DecodeCursor<'a>) -> (r: DecodeResult<Self>)
        ensures
            *final(c) == *old(c),
            r == Ok::<Self, DecodeError>(Self {}),
    {
        Ok(RegisterSuccess {})
    }

    pub fn from_bytes(buf: &[u8]) -> (r: DecodeResult<Self>)
        ensures
            r == Ok::<Self, DecodeError>(Self {}),
    {
        Ok(RegisterSuccess {})
    }

    pub fn lazy_to_owned(lazy: RegisterSuccessLazy<'_>) -> (r: DecodeResult<Self>)
        ensures
            r == Ok::<Self, DecodeError>(Self {}),
    {
        Ok(RegisterSuccess {})
    }
}

impl<'a> Clone for RegisterSuccessLazy<'a> {
    fn clone(&self) -> (r: Self)
        ensures
            r == *self,
    {
        *self
    }
}

impl<'a> Copy for RegisterSuccessLazy<'a> {

}

impl<'a> PartialEq for RegisterSuccessLazy<'a> {
    /// Views of a message without fields are all equal.
    fn eq(&self, other: &Self) -> (r: bool) {
        true
    }
}

impl<'a> vstd::std_specs::cmp::PartialEqSpecImpl for RegisterSuccessLazy<'a> {
    open spec fn obeys_eq_spec() -> bool {
        true
    }

    open spec fn eq_spec(&self, other: &Self) -> bool {
        true
    }
}

impl<'a> RegisterSuccessLazy<'a> {
    pub closed spec fn bytes(&self) -> Seq<u8> {
        self.buffer@
    }

    pub closed spec fn pos(&self) -> int {
        self.offset as int
    }

    pub fn base_len() -> (r: usize)
        ensures
            r == 0,
    {
        0
    }

    pub fn scratch_len(&self) -> (r: usize)
        ensures
            r == 0,
    {
        0
    }

    /// Writes nothing.
    pub fn encode(&self, c: &mut EncodeCursor)
        ensures
            *final(c) == *old(c),
    {
    }

    /// A view at the cursor, which stays where it is: the base region is empty.
    pub fn decode(c: &mut DecodeCursor<'a>) -> (r: DecodeResult<Self>)
        ensures
            *final(c) == *old(c),
            r is Ok,
            r->Ok_0.bytes() == old(c).bytes(),
            r->Ok_0.pos() == old(c).pos(),
    {
        Ok(RegisterSuccessLazy { buffer: c.buffer(), offset: c.offset() })
    }
}

impl RegisterSuccessGen {
    pub fn base_len() -> (r: usize)
        ensures
            r == 0,
    {
        0
    }

    pub fn scratch_len(&self) -> (r: usize)
        ensures
            r == 0,
    {
        0
    }

    /// Writes nothing.
    pub fn encode(&self, c: &mut EncodeCursor)
        ensures
            *final(c) == *old(c),
    {
    }

    /// The empty encoding.
    pub fn to_bytes(&self) -> (r: Vec<u8>)
        ensures
            r@.len() == 0,
    {
        Vec::new()
    }
}

/// The reply to an accepted chat message.
#[derive(Clone, Copy, Debug, PartialEq, Eq, Structural, PartialOrd, Ord, Hash, Default)]
pub struct SendMessageSuccess {}

/// A view of an accepted message's reply inside a received buffer.
pub struct SendMessageSuccessLazy<'a> {
    buffer: &'a [u8],
    offset: usize,
}

/// Encodes an accepted message's reply.
pub struct SendMessageSuccessGen {}

impl SendMessageSuccess {
    pub fn base_len() -> (r: usize)
        ensures
            r == 0,
    {
        0
    }

    pub fn scratch_len(&self) -> (r: usize)
        ensures
            r == 0,
    {
        0
    }

    /// Writes nothing.
    pub fn encode(&self, c: &mut EncodeCursor)
        ensures
            *final(c) == *old(c),
    {
    }

    /// The empty encoding.
    pub fn to_bytes(&self) -> (r: Vec<u8>)
        ensures
            r@.len() == 0,
    {
        Vec::new()
    }

    /// Reads nothing, and so never fails.
    pub fn decode<'a>(c: &mut DecodeCursor<'a>) -> (r: DecodeResult<Self>)
        ensures
            *final(c) == *old(c),
            r == Ok::<Self, DecodeError>(Self {}),
    {
        Ok(SendMessageSuccess {})
    }

    pub fn from_bytes(buf: &[u8]) -> (r: DecodeResult<Self>)
        ensures
            r == Ok::<Self, DecodeError>(Self {}),
    {
        Ok(SendMessageSuccess {})
    }

    pub fn lazy_to_owned(lazy: SendMessageSuccessLazy<'_>) -> (r: DecodeResult<Self>)
        ensures
            r == Ok::<Self, DecodeError>(Self {}),
    {
        Ok(SendMessageSuccess {})
    }
}

impl<'a> Clone for SendMessageSuccessLazy<'a> {
    fn clone(&self) -> (r: Self)
        ensures
            r == *self,
    {
        *self
    }
}

impl<'a> Copy for SendMessageSuccessLazy<'a> {

}

impl<'a> PartialEq for SendMessageSuccessLazy<'a> {
    /// Views of a message without fields are all equal.
    fn eq(&self, other: &Self) -> (r: bool) {
        true
    }
}

impl<'a> vstd::std_specs::cmp::PartialEqSpecImpl for SendMessageSuccessLazy<'a> {
    open spec fn obeys_eq_spec() -> bool {
        true
    }

    open spec fn eq_spec(&self, other: &Self) -> bool {
        true
    }
}

impl<'a> SendMessageSuccessLazy<'a> {
    pub closed spec fn bytes(&self) -> Seq<u8> {
        self.buffer@
    }

    pub closed spec fn pos(&self) -> int {
        self.offset as int
    }

    pub fn base_len() -> (r: usize)
        ensures
            r == 0,
    {
        0
    }

    pub fn scratch_len(&self) -> (r: usize)
        ensures
            r == 0,
    {
        0
    }

    /// Writes nothing.
    pub fn encode(&self, c: &mut EncodeCursor)
        ensures
            *final(c) == *old(c),
    {
    }

    /// A view at the cursor, which stays where it is: the base region is empty.
    pub fn decode(c: &mut DecodeCursor<'a>) -> (r: DecodeResult<Self>)
        ensures
            *final(c) == *old(c),
            r is Ok,
            r->Ok_0.bytes() == old(c).bytes(),
            r->Ok_0.pos() == old(c).pos(),
    {
        Ok(SendMessageSuccessLazy { buffer: c.buffer(), offset: c.offset() })
    }
}

impl SendMessageSuccessGen {
    pub fn base_len() -> (r: usize)
        ensures
            r == 0,
    {
        0
    }

    pub fn scratch_len(&self) -> (r: usize)
        ensures
            r == 0,
    {
        0
    }

    /// Writes nothing.
    pub fn encode(&self, c: &mut EncodeCursor)
        ensures
            *final(c) == *old(c),
    {
    }

    /// The empty encoding.
    pub fn to_bytes(&self) -> (r: Vec<u8>)
        ensures
            r@.len() == 0,
    {
        Vec::new()
    }
}

/// Configuration of the client role; it has no settings.
#[derive(Clone, Copy, Debug, PartialEq, Eq, Structural, PartialOrd, Ord, Hash, Default)]
pub struct ChatClientConfig {}

/// A view of the client configuration inside a received buffer.
pub struct ChatClientConfigLazy<'a> {
    buffer: &'a [u8],
    offset: usize,
}

/// Encodes the client configuration.
pub struct ChatClientConfigGen {}

impl ChatClientConfig {
    pub fn base_len() -> (r: usize)
        ensures
            r == 0,
    {
        0
    }

    pub fn scratch_len(&self) -> (r: usize)
        ensures
            r == 0,
    {
        0
    }

    /// Writes nothing.
    pub fn encode(&self, c: &mut EncodeCursor)
        ensures
            *final(c) == *old(c),
    {
    }

    /// The empty encoding.
    pub fn to_bytes(&self) -> (r: Vec<u8>)
        ensures
            r@.len() == 0,
    {
        Vec::new()
    }

    /// Reads nothing, and so never fails.
    pub fn decode<'a>(c: &mut DecodeCursor<'a>) -> (r: DecodeResult<Self>)
        ensures
            *final(c) == *old(c),
            r == Ok::<Self, DecodeError>(Self {}),
    {
        Ok(ChatClientConfig {})
    }

    pub fn from_bytes(buf: &[u8]) -> (r: DecodeResult<Self>)
        ensures
            r == Ok::<Self, DecodeError>(Self {}),
    {
        Ok(ChatClientConfig {})
    }

    pub fn lazy_to_owned(lazy: ChatClientConfigLazy<'_>) -> (r: DecodeResult<Self>)
        ensures
            r == Ok::<Self, DecodeError>(Self {}),
    {
        Ok(ChatClientConfig {})
    }
}

impl<'a> Clone for ChatClientConfigLazy<'a> {
    fn clone(&self) -> (r: Self)
        ensures
            r == *self,
    {
        *self
    }
}

impl<'a> Copy for ChatClientConfigLazy<'a> {

}

impl<'a> PartialEq for ChatClientConfigLazy<'a> {
    /// Views of a message without fields are all equal.
    fn eq(&self, other: &Self) -> (r: bool) {
        true
    }
}

impl<'a> vstd::std_specs::cmp::PartialEqSpecImpl for ChatClientConfigLazy<'a> {
    open spec fn obeys_eq_spec() -> bool {
        true
    }

    open spec fn eq_spec(&self, other: &Self) -> bool {
        true
    }
}

impl<'a> ChatClientConfigLazy<'a> {
    pub closed spec fn bytes(&self) -> Seq<u8> {
        self.buffer@
    }

    pub closed spec fn pos(&self) -> int {
        self.offset as int
    }

    pub fn base_len() -> (r: usize)
        ensures
            r == 0,
    {
        0
    }

    pub fn scratch_len(&self) -> (r: usize)
        ensures
            r == 0,
    {
        0
    }

    /// Writes nothing.
    pub fn encode(&self, c: &mut EncodeCursor)
        ensures
            *final(c) == *old(c),
    {
    }

    /// A view at the cursor, which stays where it is: the base region is empty.
    pub fn decode(c: &mut DecodeCursor<'a>) -> (r: DecodeResult<Self>)
        ensures
            *final(c) == *old(c),
            r is Ok,
            r->Ok_0.bytes() == old(c).bytes(),
            r->Ok_0.pos() == old(c).pos(),
    {
        Ok(ChatClientConfigLazy { buffer: c.buffer(), offset: c.offset() })
    }
}

impl ChatClientConfigGen {
    pub fn base_len() -> (r: usize)
        ensures
            r == 0,
    {
        0
    }

    pub fn scratch_len(&self) -> (r: usize)
        ensures
            r == 0,
    {
        0
    }

    /// Writes nothing.
    pub fn encode(&self, c: &mut EncodeCursor)
        ensures
            *final(c) == *old(c),
    {
    }

    /// The empty encoding.
    pub fn to_bytes(&self) -> (r: Vec<u8>)
        ensures
            r@.len() == 0,
    {
        Vec::new()
    }
}

/// Configuration of the server role; it has no settings.
#[derive(Clone, Copy, Debug, PartialEq, Eq, Structural, PartialOrd, Ord, Hash, Default)]
pub struct ChatServerConfig {}

/// A view of the server configuration inside a received buffer.
pub struct ChatServerConfigLazy<'a> {
    buffer: &'a [u8],
    offset: usize,
}

/// Encodes the server configuration.
pub struct ChatServerConfigGen {}

impl ChatServerConfig {
    pub fn base_len() -> (r: usize)
        ensures
            r == 0,
    {
        0
    }

    pub fn scratch_len(&self) -> (r: usize)
        ensures
            r == 0,
    {
        0
    }

    /// Writes nothing.
    pub fn encode(&self, c: &mut EncodeCursor)
        ensures
            *final(c) == *old(c),
    {
    }

    /// The empty encoding.
    pub fn to_bytes(&self) -> (r: Vec<u8>)
        ensures
            r@.len() == 0,
    {
        Vec::new()
    }

    /// Reads nothing, and so never fails.
    pub fn decode<'a>(c: &mut DecodeCursor<'a>) -> (r: DecodeResult<Self>)
        ensures
            *final(c) == *old(c),
            r == Ok::<Self, DecodeError>(Self {}),
    {
        Ok(ChatServerConfig {})
    }

    pub fn from_bytes(buf: &[u8]) -> (r: DecodeResult<Self>)
        ensures
            r == Ok::<Self, DecodeError>(Self {}),
    {
        Ok(ChatServerConfig {})
    }

    pub fn lazy_to_owned(lazy: ChatServerConfigLazy<'_>) -> (r: DecodeResult<Self>)
        ensures
            r == Ok::<Self, DecodeError>(Self {}),
    {
        Ok(ChatServerConfig {})
    }
}

impl<'a> Clone for ChatServerConfigLazy<'a> {
    fn clone(&self) -> (r: Self)
        ensures
            r == *self,
    {
        *self
    }
}

impl<'a> Copy for ChatServerConfigLazy<'a> {

}

impl<'a> PartialEq for ChatServerConfigLazy<'a> {
    /// Views of a message without fields are all equal.
    fn eq(&self, other: &Self) -> (r: bool) {
        true
    }
}

impl<'a> vstd::std_specs::cmp::PartialEqSpecImpl for ChatServerConfigLazy<'a> {
    open spec fn obeys_eq_spec() -> bool {
        true
    }

    open spec fn eq_spec(&self, other: &Self) -> bool {
        true
    }
}

impl<'a> ChatServerConfigLazy<'a> {
    pub closed spec fn bytes(&self) -> Seq<u8> {
        self.buffer@
    }

    pub closed spec fn pos(&self) -> int {
        self.offset as int
    }

    pub fn base_len() -> (r: usize)
        ensures
            r == 0,
    {
        0
    }

    pub fn scratch_len(&self) -> (r: usize)
        ensures
            r == 0,
    {
        0
    }

    /// Writes nothing.
    pub fn encode(&self, c: &mut EncodeCursor)
        ensures
            *final(c) == *old(c),
    {
    }

    /// A view at the cursor, which stays where it is: the base region is empty.
    pub fn decode(c: &mut DecodeCursor<'a>) -> (r: DecodeResult<Self>)
        ensures
            *final(c) == *old(c),
            r is Ok,
            r->Ok_0.bytes() == old(c).bytes(),
            r->Ok_0.pos() == old(c).pos(),
    {
        Ok(ChatServerConfigLazy { buffer: c.buffer(), offset: c.offset() })
    }
}

impl ChatServerConfigGen {
    pub fn base_len() -> (r: usize)
        ensures
            r == 0,
    {
        0
    }

    pub fn scratch_len(&self) -> (r: usize)
        ensures
            r == 0,
    {
        0
    }

    /// Writes nothing.
    pub fn encode(&self, c: &mut EncodeCursor)
        ensures
            *final(c) == *old(c),
    {
    }

    /// The empty encoding.
    pub fn to_bytes(&self) -> (r: Vec<u8>)
        ensures
            r@.len() == 0,
    {
        Vec::new()
    }
}

} // verus!
