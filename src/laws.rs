//! Laws that relate the encoders, decoders and views of each message type.

use vstd::prelude::*;

use crate::enums::{
    register_error_at, register_error_base_len, register_error_encoding,
    register_error_payload_len, send_message_error_at, send_message_error_base_len,
    send_message_error_encoding, send_message_error_payload_len, RegisterError,
    SendMessageError,
};
use crate::lists::{
    init_state_base_len, init_state_encoding, init_state_fits, lemma_init_state_element,
    lemma_init_state_round_trip, lemma_user_slots_len, put_users, records, user_in_list,
    users_at, users_base, users_scratch_len, ChatInitState, ChatInitStateGen, UserRecord,
};
use crate::records::{
    lemma_text_record_round_trip, lemma_user_round_trip, put_text_field, put_user, text_record_base_len,
    text_record_encoding, text_record_fits, user_at, user_base, user_base_len, user_encoding,
    user_fits, user_scratch, RegisterRequest, RegisterRequestGen, RegisteredUser,
    RegisteredUserGen, SendMessageRequest, SendMessageRequestGen, TextField,
};
use crate::units::{ChatClientConfig, ChatServerConfig, RegisterSuccess, SendMessageSuccess};
use crate::wire::{
    lemma_le_lengths, lemma_text_base_len, text_at, text_base, u32_at, u64_at, utf8,
    EncodeCursorView,
};

verus! {

/// Decoding an encoded registered user gives it back.
pub proof fn registered_user_round_trip(v: RegisteredUser)
    requires
        user_fits(v@),
    ensures
        user_at(user_encoding(v@), 0) == Some(v@),
{
    lemma_user_round_trip(v@);
}

/// Decoding an encoded registration request gives it back.
pub proof fn register_request_round_trip(v: RegisterRequest)
    requires
        text_record_fits(v@),
    ensures
        text_at(text_record_encoding(v@), 0) == Some(v@),
{
    lemma_text_record_round_trip(v@);
}

/// Decoding an encoded chat message request gives it back.
pub proof fn send_message_request_round_trip(v: SendMessageRequest)
    requires
        text_record_fits(v@),
    ensures
        text_at(text_record_encoding(v@), 0) == Some(v@),
{
    lemma_text_record_round_trip(v@);
}

/// Decoding an encoded initial state gives it back, every user in its place.
pub proof fn init_state_round_trip(v: ChatInitState)
    requires
        init_state_fits(v@),
    ensures
        users_at(init_state_encoding(v@), 0) == Some(v@),
{
    lemma_init_state_round_trip(v@);
}

/// Decoding an encoded registration error gives it back.
pub proof fn register_error_round_trip(e: RegisterError)
    ensures
        register_error_at(register_error_encoding(e), 0) == Some(e),
{
}

/// Decoding an encoded chat message error gives it back.
pub proof fn send_message_error_round_trip(e: SendMessageError)
    ensures
        send_message_error_at(send_message_error_encoding(e), 0) == Some(e),
{
}

/// A message without fields has a single value, which its decoder returns.
pub proof fn empty_messages_round_trip(
    a: RegisterSuccess,
    b: SendMessageSuccess,
    c: ChatClientConfig,
    d: ChatServerConfig,
)
    ensures
        a == (RegisterSuccess {}),
        b == (SendMessageSuccess {}),
        c == (ChatClientConfig {}),
        d == (ChatServerConfig {}),
{
}

/// The lazy view of an encoded registered user, at the start of the buffer, answers each
/// field accessor with that field of the user.
pub proof fn registered_user_lazy_matches_owned(v: RegisteredUser)
    requires
        user_fits(v@),
    ensures
        u64_at(user_encoding(v@), 0) == v.endpoint,
        text_at(user_encoding(v@), 8) == Some(v.alias@),
{
    lemma_user_round_trip(v@);
}

/// The lazy view of an encoded registration request answers `alias` with its alias.
pub proof fn register_request_lazy_matches_owned(v: RegisterRequest)
    requires
        text_record_fits(v@),
    ensures
        text_at(text_record_encoding(v@), 0) == Some(v.alias@),
{
    lemma_text_record_round_trip(v@);
}

/// The lazy view of an encoded chat message request answers `content` with its content.
pub proof fn send_message_request_lazy_matches_owned(v: SendMessageRequest)
    requires
        text_record_fits(v@),
    ensures
        text_at(text_record_encoding(v@), 0) == Some(v.content@),
{
    lemma_text_record_round_trip(v@);
}

/// In the lazy view of an encoded initial state, the user list has the state's length, its
/// elements start right after the list descriptor, and element `i` answers `endpoint` and
/// `alias` with those of user `i`.
pub proof fn init_state_lazy_matches_owned(v: ChatInitState, i: int)
    requires
        init_state_fits(v@),
        0 <= i < v@.len(),
    ensures
        u32_at(init_state_encoding(v@), 0) == v@.len(),
        u32_at(init_state_encoding(v@), 4) == init_state_base_len(),
        init_state_base_len() + user_base_len() * i + user_base_len() <= init_state_encoding(
            v@,
        ).len(),
        u64_at(init_state_encoding(v@), init_state_base_len() + user_base_len() * i)
            == v@[i].endpoint,
        text_at(init_state_encoding(v@), init_state_base_len() + user_base_len() * i + 8) == Some(
            v@[i].alias,
        ),
{
    lemma_init_state_round_trip(v@);
    lemma_init_state_element(v@, i);
}

/// Base regions have one length per type, whatever the field contents and wherever the
/// scratch bytes go.
pub proof fn base_len_invariance(
    u: crate::records::RegisteredUserView,
    s: Seq<char>,
    us: Seq<crate::records::RegisteredUserView>,
    e: RegisterError,
    f: SendMessageError,
    at: int,
)
    ensures
        user_base(u, at).len() == user_base_len(),
        text_base(s, at).len() == text_record_base_len(),
        users_base(us, at).len() == init_state_base_len(),
        register_error_encoding(e).len() == register_error_base_len(),
        send_message_error_encoding(f).len() == send_message_error_base_len(),
{
    lemma_le_lengths();
    lemma_text_base_len(u.alias, at);
    lemma_text_base_len(s, at);
}

/// The encoded length of a value is its type's base length plus its scratch length.
pub proof fn total_len(v: RegisteredUser, r: RegisterRequest, m: SendMessageRequest, st: ChatInitState)
    ensures
        user_encoding(v@).len() == user_base_len() + user_scratch(v@).len(),
        text_record_encoding(r@).len() == text_record_base_len() + utf8(r@).len(),
        text_record_encoding(m@).len() == text_record_base_len() + utf8(m@).len(),
        init_state_encoding(st@).len() == init_state_base_len() + users_scratch_len(st@),
{
    lemma_le_lengths();
    lemma_text_base_len(v.alias@, 16);
    lemma_text_base_len(r@, 8);
    lemma_text_base_len(m@, 8);
    lemma_user_slots_len(st@, 8 + 16 * st@.len() as int);
}

/// Every variant of a sum type encodes to one discriminant byte plus the largest payload.
pub proof fn sum_type_fixed_size(e: RegisterError, f: SendMessageError)
    ensures
        register_error_encoding(e).len() == 1 + register_error_payload_len(),
        send_message_error_encoding(f).len() == 1 + send_message_error_payload_len(),
{
}

/// A discriminant byte that names no variant does not decode.
pub proof fn sum_type_unknown_discriminant(buf: Seq<u8>, at: int)
    requires
        0 <= at < buf.len(),
        buf[at] > 2,
    ensures
        register_error_at(buf, at) is None,
        send_message_error_at(buf, at) is None,
{
}

/// A registered-user generator encodes to the same bytes as the owned user it stands for,
/// alone or at any cursor.
pub proof fn registered_user_generator_matches_owned<A: TextField>(
    g: RegisteredUserGen<A>,
    v: RegisteredUser,
    c: EncodeCursorView,
)
    requires
        g.model() == v@,
    ensures
        user_encoding(g.model()) == user_encoding(v@),
        put_user(c, g.model()) == put_user(c, v@),
{
}

/// Text-record generators encode to the same bytes as the owned records they stand for.
pub proof fn text_record_generators_match_owned<A: TextField, B: TextField>(
    g: RegisterRequestGen<A>,
    v: RegisterRequest,
    h: SendMessageRequestGen<B>,
    w: SendMessageRequest,
    c: EncodeCursorView,
)
    requires
        g.model() == v@,
        h.model() == w@,
    ensures
        text_record_encoding(g.model()) == text_record_encoding(v@),
        put_text_field(c, g.model()) == put_text_field(c, v@),
        text_record_encoding(h.model()) == text_record_encoding(w@),
        put_text_field(c, h.model()) == put_text_field(c, w@),
{
}

/// An initial-state generator over borrowed users, in any element form, encodes to the same
/// bytes as the owned state holding those users.
pub proof fn init_state_generator_matches_owned<U: UserRecord>(
    g: ChatInitStateGen<'_, U>,
    v: ChatInitState,
    c: EncodeCursorView,
)
    requires
        records(g.users@) == v@,
    ensures
        init_state_encoding(g.model()) == init_state_encoding(v@),
        put_users(c, g.model()) == put_users(c, v@),
{
}

/// Element `i` of a list is read from its own base region and the alias bytes that region
/// points to, and from nothing else: two buffers that agree there give the same element,
/// whatever the other elements hold.
pub proof fn list_element_reads_only_its_own_bytes(a: Seq<u8>, b: Seq<u8>, p: int, i: int)
    requires
        a.len() == b.len(),
        0 <= p,
        0 <= i,
        p + user_base_len() * i + user_base_len() <= a.len(),
        a.subrange(p + 16 * i, p + 16 * i + 16) == b.subrange(p + 16 * i, p + 16 * i + 16),
        u32_at(a, p + 16 * i + 12) + u32_at(a, p + 16 * i + 8) <= a.len() ==> a.subrange(
            u32_at(a, p + 16 * i + 12) as int,
            u32_at(a, p + 16 * i + 12) + u32_at(a, p + 16 * i + 8),
        ) == b.subrange(
            u32_at(a, p + 16 * i + 12) as int,
            u32_at(a, p + 16 * i + 12) + u32_at(a, p + 16 * i + 8),
        ),
    ensures
        user_in_list(a, p, i) == user_in_list(b, p, i),
{
    let x = p + 16 * i;
    assert(a.subrange(x, x + 8) =~= b.subrange(x, x + 8)) by {
        assert(a.subrange(x, x + 8) =~= a.subrange(x, x + 16).subrange(0, 8));
        assert(b.subrange(x, x + 8) =~= b.subrange(x, x + 16).subrange(0, 8));
    }
    assert(a.subrange(x + 8, x + 12) =~= b.subrange(x + 8, x + 12)) by {
        assert(a.subrange(x + 8, x + 12) =~= a.subrange(x, x + 16).subrange(8, 12));
        assert(b.subrange(x + 8, x + 12) =~= b.subrange(x, x + 16).subrange(8, 12));
    }
    assert(a.subrange(x + 12, x + 16) =~= b.subrange(x + 12, x + 16)) by {
        assert(a.subrange(x + 12, x + 16) =~= a.subrange(x, x + 16).subrange(12, 16));
        assert(b.subrange(x + 12, x + 16) =~= b.subrange(x, x + 16).subrange(12, 16));
    }
}

} // verus!
