//! Compact binary encoding of the chat protocol's messages.
//!
//! Every message type exists as an owned value, as a lazy view into a received buffer, and
//! (for records) as a generator that encodes straight from borrowed data. All three share
//! one wire layout: a fixed-size base region followed by a scratch region that holds the
//! bytes of variable-length fields.
//!
//! Beside the codec stand the decisions of the chat's two ends: the server's table of users
//! and aliases (`registry`), and a terminal client's view and user directory (`chat_view`).

pub mod chat_view;
pub mod enums;
pub mod laws;
pub mod lists;
pub mod records;
pub mod registry;
pub mod units;
pub mod wire;

pub use enums::{RegisterError, RegisterErrorLazy, SendMessageError, SendMessageErrorLazy};
pub use lists::{ChatInitState, ChatInitStateGen, ChatInitStateLazy, UserListLazy, UserRecord};
pub use records::{
    RegisterRequest, RegisterRequestGen, RegisterRequestLazy, RegisteredUser, RegisteredUserGen,
    RegisteredUserLazy, SendMessageRequest, SendMessageRequestGen, SendMessageRequestLazy,
    TextField,
};
pub use units::{
    ChatClientConfig, ChatClientConfigGen, ChatClientConfigLazy, ChatServerConfig,
    ChatServerConfigGen, ChatServerConfigLazy, RegisterSuccess, RegisterSuccessGen,
    RegisterSuccessLazy, SendMessageSuccess, SendMessageSuccessGen, SendMessageSuccessLazy,
};
pub use wire::{DecodeCursor, DecodeError, DecodeResult, EncodeCursor};
