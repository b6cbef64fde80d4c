//! The chat's initial state: a list of registered users, whose element base regions sit side
//! by side so that any element can be reached without parsing the ones before it.

use vstd::bytes::*;
use vstd::prelude::*;

use crate::records::{
    put_user_fields, user_at, user_base, user_base_len, RegisteredUser, RegisteredUserGen,
    RegisteredUserLazy, RegisteredUserView, TextField,
};
use crate::wire::{
    lemma_fresh_buffer, lemma_le_lengths, lemma_overwrite_commute, lemma_overwrite_concat,
    lemma_overwrite_shape, lemma_text_at, lemma_text_base_len, lemma_u64_at, overwrite,
    read_u32, same_text, text_base, u32_at, utf8, DecodeCursor, DecodeError, DecodeResult,
    EncodeCursor, EncodeCursorView,
};

verus! {

/// A value that an encoder accepts in place of a `RegisteredUser` list element: an owned
/// user, a borrowed one, or a generator.
pub trait UserRecord {
    /// The registered user this value stands for.
    spec fn record(&self) -> RegisteredUserView;

    fn endpoint_value(&self) -> (r: u64)
        ensures
            r == self.record().endpoint,
    ;

    fn alias_text(&self) -> (r: &str)
        ensures
            r@ == self.record().alias,
    ;
}

impl UserRecord for RegisteredUser {
    open spec fn record(&self) -> RegisteredUserView {
        self@
    }

    fn endpoint_value(&self) -> (r: u64) {
        self.endpoint
    }

    fn alias_text(&self) -> (r: &str) {
        self.alias.as_str()
    }
}

impl<'r> UserRecord for &'r RegisteredUser {
    open spec fn record(&self) -> RegisteredUserView {
        (**self)@
    }

    fn endpoint_value(&self) -> (r: u64) {
        self.endpoint
    }

    fn alias_text(&self) -> (r: &str) {
        self.alias.as_str()
    }
}

impl<A: TextField> UserRecord for RegisteredUserGen<A> {
    open spec fn record(&self) -> RegisteredUserView {
        self.model()
    }

    fn endpoint_value(&self) -> (r: u64) {
        self.endpoint
    }

    fn alias_text(&self) -> (r: &str) {
        self.alias.as_text()
    }
}

/// The users that a sequence of list elements stands for.
pub open spec fn records<U: UserRecord>(us: Seq<U>) -> Seq<RegisteredUserView> {
    us.map_values(|u: U| u.record())
}

/// The users' alias bytes, one after another.
pub open spec fn aliases(us: Seq<RegisteredUserView>) -> Seq<u8>
    decreases us.len(),
{
    if us.len() == 0 {
        Seq::empty()
    } else {
        aliases(us.drop_last()) + utf8(us.last().alias)
    }
}

/// The users' base regions side by side, for aliases laid out from position `at` on.
pub open spec fn user_slots(us: Seq<RegisteredUserView>, at: int) -> Seq<u8>
    decreases us.len(),
{
    if us.len() == 0 {
        Seq::empty()
    } else {
        user_slots(us.drop_last(), at) + user_base(us.last(), at + aliases(us.drop_last()).len())
    }
}

/// Base region of a list field: the element count, then where the elements start.
pub open spec fn users_base(us: Seq<RegisteredUserView>, at: int) -> Seq<u8> {
    spec_u32_to_le_bytes(us.len() as u32) + spec_u32_to_le_bytes(at as u32)
}

/// Scratch bytes of a list whose scratch starts at `at`: the elements' base regions, then
/// their aliases.
pub open spec fn users_scratch(us: Seq<RegisteredUserView>, at: int) -> Seq<u8> {
    user_slots(us, at + user_base_len() * us.len()) + aliases(us)
}

/// Number of scratch bytes of a list.
pub open spec fn users_scratch_len(us: Seq<RegisteredUserView>) -> nat {
    user_base_len() * us.len() + aliases(us).len()
}

/// Base region of the initial state: the list descriptor.
pub open spec fn init_state_base_len() -> nat {
    8
}

/// The initial state holding `us`, encoded on its own.
pub open spec fn init_state_encoding(us: Seq<RegisteredUserView>) -> Seq<u8> {
    users_base(us, init_state_base_len() as int) + users_scratch(us, init_state_base_len() as int)
}

/// Whether every position in the encoding of the initial state fits a `u32`.
pub open spec fn init_state_fits(us: Seq<RegisteredUserView>) -> bool {
    init_state_base_len() + users_scratch_len(us) <= u32::MAX
}

/// What writing a list of `us` at the cursor does.
pub open spec fn put_users(c: EncodeCursorView, us: Seq<RegisteredUserView>) -> EncodeCursorView {
    c.put_base(users_base(us, c.scratch)).put_scratch(users_scratch(us, c.scratch))
}

/// Whether `c` has room for a list of `us`.
pub open spec fn room_for_users(c: &EncodeCursor, us: Seq<RegisteredUserView>) -> bool {
    &&& c.wf()
    &&& c@.base + 8 <= c@.base_end
    &&& c@.scratch + users_scratch_len(us) <= c@.bytes.len()
}

/// Element `i` of the list whose elements start at `p`, if it decodes.
pub open spec fn user_in_list(buf: Seq<u8>, p: int, i: int) -> Option<RegisteredUserView> {
    user_at(buf, p + user_base_len() * i)
}

/// The list whose descriptor starts at `at`, if the descriptor lies in `buf` and every
/// element decodes.
pub open spec fn users_at(buf: Seq<u8>, at: int) -> Option<Seq<RegisteredUserView>> {
    if 0 <= at && at + 8 <= buf.len() {
        let n = u32_at(buf, at) as int;
        let p = u32_at(buf, at + 4) as int;
        if forall|i: int| 0 <= i < n ==> (#[trigger] user_in_list(buf, p, i)) is Some {
            Some(Seq::new(n as nat, |i: int| user_in_list(buf, p, i)->0))
        } else {
            None
        }
    } else {
        None
    }
}

pub proof fn lemma_user_slots_len(us: Seq<RegisteredUserView>, at: int)
    ensures
        user_slots(us, at).len() == user_base_len() * us.len(),
    decreases us.len(),
{
    if us.len() > 0 {
        lemma_user_slots_len(us.drop_last(), at);
        lemma_le_lengths();
        lemma_text_base_len(us.last().alias, at + aliases(us.drop_last()).len());
    }
}

/// The aliases of a prefix of the users are a prefix of their aliases.
pub proof fn lemma_aliases_prefix(us: Seq<RegisteredUserView>, i: int)
    requires
        0 <= i <= us.len(),
    ensures
        aliases(us.take(i)).len() <= aliases(us).len(),
        aliases(us).subrange(0, aliases(us.take(i)).len() as int) == aliases(us.take(i)),
    decreases us.len(),
{
    if i == us.len() {
        assert(us.take(i) =~= us);
    } else {
        lemma_aliases_prefix(us.drop_last(), i);
        assert(us.drop_last().take(i) =~= us.take(i));
        assert(aliases(us).subrange(0, aliases(us.take(i)).len() as int) =~= aliases(
            us.drop_last(),
        ).subrange(0, aliases(us.take(i)).len() as int));
    }
}

/// The aliases of the first `i + 1` users are those of the first `i`, then user `i`'s.
pub proof fn lemma_aliases_step(us: Seq<RegisteredUserView>, i: int)
    requires
        0 <= i < us.len(),
    ensures
        aliases(us.take(i + 1)) == aliases(us.take(i)) + utf8(us[i].alias),
{
    assert(us.take(i + 1).drop_last() =~= us.take(i));
}

/// The base regions of the first `i + 1` users are those of the first `i`, then user `i`'s.
pub proof fn lemma_user_slots_step(us: Seq<RegisteredUserView>, i: int, at: int)
    requires
        0 <= i < us.len(),
    ensures
        user_slots(us.take(i + 1), at) == user_slots(us.take(i), at) + user_base(
            us[i],
            at + aliases(us.take(i)).len(),
        ),
{
    assert(us.take(i + 1).drop_last() =~= us.take(i));
}

/// Where user `i`'s base region and alias sit inside the list's scratch bytes.
pub proof fn lemma_user_in_scratch(us: Seq<RegisteredUserView>, i: int, at: int)
    requires
        0 <= i < us.len(),
    ensures
        user_slots(us, at).subrange(user_base_len() * i, user_base_len() * i + user_base_len())
            == user_base(us[i], at + aliases(us.take(i)).len()),
        aliases(us).subrange(
            aliases(us.take(i)).len() as int,
            (aliases(us.take(i)).len() + utf8(us[i].alias).len()) as int,
        ) == utf8(us[i].alias),
    decreases us.len(),
{
    lemma_user_slots_len(us, at);
    lemma_user_slots_len(us.drop_last(), at);
    if i == us.len() - 1 {
        assert(us.drop_last() =~= us.take(i));
        lemma_le_lengths();
        lemma_text_base_len(us[i].alias, at + aliases(us.take(i)).len());
        assert(user_slots(us, at).subrange(user_base_len() * i, user_base_len() * i + 16)
            =~= user_base(us[i], at + aliases(us.take(i)).len()));
        assert(aliases(us).subrange(
            aliases(us.take(i)).len() as int,
            (aliases(us.take(i)).len() + utf8(us[i].alias).len()) as int,
        ) =~= utf8(us[i].alias));
    } else {
        let d = us.drop_last();
        lemma_user_in_scratch(d, i, at);
        assert(d.take(i) =~= us.take(i));
        assert(d[i] == us[i]);
        lemma_aliases_prefix(d, i + 1);
        lemma_aliases_step(d, i);
        assert(user_slots(us, at).subrange(user_base_len() * i, user_base_len() * i + 16)
            =~= user_slots(d, at).subrange(user_base_len() * i, user_base_len() * i + 16));
        assert(aliases(us).subrange(
            aliases(us.take(i)).len() as int,
            (aliases(us.take(i)).len() + utf8(us[i].alias).len()) as int,
        ) =~= aliases(d).subrange(
            aliases(us.take(i)).len() as int,
            (aliases(us.take(i)).len() + utf8(us[i].alias).len()) as int,
        ));
    }
}

/// Writes a list of users, each given in any element form, at the cursor.
pub fn put_user_list<U: UserRecord>(c: &mut EncodeCursor, us: &[U])
    requires
        room_for_users(old(c), records(us@)),
    ensures
        final(c).wf(),
        final(c)@ == put_users(old(c)@, records(us@)),
{
    let ghost c0 = c@;
    let ghost rs = records(us@);
    let n = us.len();
    let ghost s = c0.scratch;
    let ghost t = s + 16 * n;
    let outer = c.begin_list(n, 16);
    let ghost b1 = c@.bytes;
    proof {
        lemma_le_lengths();
        lemma_overwrite_shape(c0.bytes, c0.base, users_base(rs, s));
        assert(rs.take(0) =~= Seq::<RegisteredUserView>::empty());
        assert(overwrite_twice(b1, s, user_slots(rs.take(0), t), t, aliases(rs.take(0))) =~= b1);
    }
    let mut i: usize = 0;
    while i < n
        invariant
            c.wf(),
            0 <= i <= n,
            n == us@.len(),
            rs == records(us@),
            rs.len() == n,
            t == s + 16 * n,
            c0.scratch == s,
            0 <= s,
            t + aliases(rs).len() <= c0.bytes.len(),
            b1.len() == c0.bytes.len(),
            c@.base == s + 16 * i,
            c@.base_end == t,
            c@.scratch == t + aliases(rs.take(i as int)).len(),
            c@.bytes == overwrite_twice(
                b1,
                s,
                user_slots(rs.take(i as int), t),
                t,
                aliases(rs.take(i as int)),
            ),
        decreases n - i,
    {
        let ghost ci = c@;
        let ghost u = rs[i as int];
        proof {
            lemma_aliases_prefix(rs, i + 1);
            lemma_aliases_step(rs, i as int);
            lemma_user_slots_step(rs, i as int, t);
            lemma_user_slots_len(rs.take(i as int), t);
        }
        put_user_fields(c, us[i].endpoint_value(), us[i].alias_text());
        proof {
            let sl = user_slots(rs.take(i as int), t);
            let al = aliases(rs.take(i as int));
            let ub = user_base(u, ci.scratch);
            lemma_le_lengths();
            lemma_text_base_len(u.alias, ci.scratch);
            let x = overwrite(b1, s, sl);
            lemma_overwrite_shape(b1, s, sl);
            lemma_overwrite_shape(x, t, al);
            lemma_overwrite_commute(x, s + 16 * i, ub, t, al);
            lemma_overwrite_concat(b1, s, sl, ub);
            let y = overwrite(b1, s, sl + ub);
            lemma_overwrite_shape(b1, s, sl + ub);
            lemma_overwrite_concat(y, t, al, utf8(u.alias));
        }
        i += 1;
    }
    c.end_list(outer);
    proof {
        assert(rs.take(n as int) =~= rs);
        lemma_user_slots_len(rs, t);
        lemma_overwrite_concat(b1, s, user_slots(rs, t), aliases(rs));
    }
}

/// `x` written at `a`, then `y` at `b`.
pub open spec fn overwrite_twice(s: Seq<u8>, a: int, x: Seq<u8>, b: int, y: Seq<u8>) -> Seq<u8> {
    overwrite(overwrite(s, a, x), b, y)
}

/// Number of scratch bytes a list of `us` takes.
pub fn user_list_scratch_len<U: UserRecord>(us: &[U]) -> (r: usize)
    requires
        users_scratch_len(records(us@)) <= usize::MAX,
    ensures
        r == users_scratch_len(records(us@)),
{
    let ghost rs = records(us@);
    let n = us.len();
    let mut total: usize = 0;
    let mut i: usize = 0;
    while i < n
        invariant
            0 <= i <= n,
            n == us@.len(),
            rs == records(us@),
            rs.len() == n,
            users_scratch_len(rs) <= usize::MAX,
            total == 16 * i + aliases(rs.take(i as int)).len(),
        decreases n - i,
    {
        proof {
            lemma_aliases_prefix(rs, i + 1);
            lemma_aliases_step(rs, i as int);
        }
        let a = us[i].alias_text().as_bytes().len();
        total = total + 16 + a;
        i += 1;
    }
    proof {
        assert(rs.take(n as int) =~= rs);
    }
    total
}

/// Decodes the list whose descriptor starts at `at`.
fn user_list_at(buf: &[u8], at: usize) -> (r: DecodeResult<Vec<RegisteredUser>>)
    ensures
        r is Ok <==> users_at(buf@, at as int) is Some,
        r is Ok ==> records(r->Ok_0@) == users_at(buf@, at as int)->0,
{
    if at > buf.len() || buf.len() - at < 8 {
        return Err(DecodeError);
    }
    let n = read_u32(buf, at).unwrap() as usize;
    let p = read_u32(buf, at + 4).unwrap() as usize;
    let ghost want = Seq::new(n as nat, |j: int| user_in_list(buf@, p as int, j)->0);
    let mut out: Vec<RegisteredUser> = Vec::new();
    let mut pos: usize = p;
    let mut i: usize = 0;
    while i < n
        invariant
            0 <= i <= n,
            n == u32_at(buf@, at as int),
            p == u32_at(buf@, at as int + 4),
            at + 8 <= buf@.len(),
            pos == p + 16 * i,
            want == Seq::new(n as nat, |j: int| user_in_list(buf@, p as int, j)->0),
            forall|j: int| 0 <= j < i ==> (#[trigger] user_in_list(buf@, p as int, j)) is Some,
            records(out@) == want.take(i as int),
        decreases n - i,
    {
        let lazy = match RegisteredUserLazy::at(buf, pos) {
            Ok(l) => l,
            Err(e) => {
                assert(!(user_in_list(buf@, p as int, i as int) is Some));
                return Err(e);
            },
        };
        let u = match RegisteredUser::lazy_to_owned(lazy) {
            Ok(u) => u,
            Err(e) => {
                assert(!(user_in_list(buf@, p as int, i as int) is Some));
                return Err(e);
            },
        };
        let ghost prev = out@;
        let ghost uv = u@;
        out.push(u);
        proof {
            assert(out@ == prev.push(u));
            assert(uv == want[i as int]);
            assert(records(out@) =~= records(prev).push(uv));
            assert(records(out@) =~= want.take(i + 1));
            assert(buf@.len() == buf.len());
        }
        pos = pos + 16;
        i += 1;
    }
    proof {
        assert(want.take(n as int) =~= want);
    }
    Ok(out)
}

/// User `i` of the initial state holding `us` reads back from its encoding, at its own
/// position and without regard to the other elements.
pub proof fn lemma_init_state_element(us: Seq<RegisteredUserView>, i: int)
    requires
        init_state_fits(us),
        0 <= i < us.len(),
    ensures
        user_in_list(init_state_encoding(us), init_state_base_len() as int, i) == Some(us[i]),
{
    let b = init_state_encoding(us);
    let n = us.len() as int;
    let t = 8 + 16 * n;
    lemma_le_lengths();
    lemma_user_in_scratch(us, i, t);
    lemma_user_slots_len(us, t);
    lemma_aliases_prefix(us, i + 1);
    lemma_aliases_step(us, i);
    let a = aliases(us.take(i)).len() as int;
    let m = utf8(us[i].alias).len() as int;
    let ub = user_base(us[i], t + a);
    lemma_text_base_len(us[i].alias, t + a);
    assert(b.subrange(8 + 16 * i, 8 + 16 * i + 16) =~= user_slots(us, t).subrange(
        16 * i,
        16 * i + 16,
    ));
    assert(b.subrange(8 + 16 * i, 8 + 16 * i + 8) =~= ub.subrange(0, 8));
    assert(ub.subrange(0, 8) =~= spec_u64_to_le_bytes(us[i].endpoint));
    assert(b.subrange(16 + 16 * i, 24 + 16 * i) =~= ub.subrange(8, 16));
    assert(ub.subrange(8, 16) =~= text_base(us[i].alias, t + a));
    assert(b.subrange(t + a, t + a + m) =~= aliases(us).subrange(a, a + m));
    lemma_u64_at(b, 8 + 16 * i, us[i].endpoint);
    lemma_text_at(b, 16 + 16 * i, us[i].alias, t + a);
}

/// The initial state reads back from its encoding.
pub proof fn lemma_init_state_round_trip(us: Seq<RegisteredUserView>)
    requires
        init_state_fits(us),
    ensures
        users_at(init_state_encoding(us), 0) == Some(us),
        u32_at(init_state_encoding(us), 0) == us.len(),
        u32_at(init_state_encoding(us), 4) == init_state_base_len(),
{
    let b = init_state_encoding(us);
    lemma_le_lengths();
    lemma_auto_spec_u32_to_from_le_bytes();
    lemma_user_slots_len(us, 8 + 16 * us.len() as int);
    assert(b.subrange(0, 4) =~= spec_u32_to_le_bytes(us.len() as u32));
    assert(b.subrange(4, 8) =~= spec_u32_to_le_bytes(8u32));
    assert forall|i: int| 0 <= i < us.len() implies (#[trigger] user_in_list(b, 8, i)) == Some(
        us[i],
    ) by {
        lemma_init_state_element(us, i);
    }
    assert(users_at(b, 0)->0 =~= us);
}

/// A view of a list of registered users inside a received buffer.
pub struct UserListLazy<'a> {
    buffer: &'a [u8],
    offset: usize,
}

impl<'a> Clone for UserListLazy<'a> {
    fn clone(&self) -> (r: Self)
        ensures
            r == *self,
    {
        *self
    }
}

impl<'a> Copy for UserListLazy<'a> {

}

impl<'a> UserListLazy<'a> {
    /// The list descriptor lies inside the buffer.
    #[verifier::type_invariant]
    spec fn inv(&self) -> bool {
        self.offset + 8 <= self.buffer@.len()
    }

    pub closed spec fn bytes(&self) -> Seq<u8> {
        self.buffer@
    }

    /// Where the list descriptor starts.
    pub closed spec fn pos(&self) -> int {
        self.offset as int
    }

    /// The number of elements the descriptor gives.
    pub open spec fn spec_len(&self) -> u32 {
        u32_at(self.bytes(), self.pos())
    }

    /// Where the elements' base regions start.
    pub open spec fn items_pos(&self) -> u32 {
        u32_at(self.bytes(), self.pos() + 4)
    }

    pub fn len(&self) -> (r: usize)
        ensures
            r == self.spec_len(),
    {
        proof {
            use_type_invariant(self);
        }
        read_u32(self.buffer, self.offset).unwrap() as usize
    }

    /// A view of element `index`, found from the descriptor alone: no other element is read.
    pub fn get(&self, index: usize) -> (r: DecodeResult<RegisteredUserLazy<'a>>)
        ensures
            r is Ok <==> index < self.spec_len() && self.items_pos() + user_base_len() * index
                + user_base_len() <= self.bytes().len(),
            r is Ok ==> r->Ok_0.bytes() == self.bytes() && r->Ok_0.pos() == self.items_pos()
                + user_base_len() * index,
    {
        proof {
            use_type_invariant(self);
            assert(self.buffer@.len() == self.buffer.len());
        }
        let n = self.len();
        if index >= n {
            return Err(DecodeError);
        }
        let p = read_u32(self.buffer, self.offset + 4).unwrap() as u64;
        let at: u64 = p + 16 * (index as u64);
        if at > self.buffer.len() as u64 {
            return Err(DecodeError);
        }
        RegisteredUserLazy::at(self.buffer, at as usize)
    }
}

/// The state a client receives on connecting: every registered user.
#[derive(Clone, Debug, PartialEq, Eq, PartialOrd, Ord, Hash)]
pub struct ChatInitState {
    pub users: Vec<RegisteredUser>,
}

impl View for ChatInitState {
    type V = Seq<RegisteredUserView>;

    open spec fn view(&self) -> Seq<RegisteredUserView> {
        records(self.users@)
    }
}

impl ChatInitState {
    pub fn base_len() -> (r: usize)
        ensures
            r == init_state_base_len(),
    {
        8
    }

    pub fn scratch_len(&self) -> (r: usize)
        requires
            users_scratch_len(self@) <= usize::MAX,
        ensures
            r == users_scratch_len(self@),
    {
        user_list_scratch_len(self.users.as_slice())
    }

    pub fn encode(&self, c: &mut EncodeCursor)
        requires
            room_for_users(old(c), self@),
        ensures
            final(c).wf(),
            final(c)@ == put_users(old(c)@, self@),
    {
        put_user_list(c, self.users.as_slice());
    }

    pub fn to_bytes(&self) -> (r: Vec<u8>)
        requires
            init_state_fits(self@),
        ensures
            r@ == init_state_encoding(self@),
    {
        init_state_to_bytes(self.users.as_slice())
    }

    /// Decodes the state at the cursor, and moves past its base region.
    pub fn decode<'a>(c: &mut DecodeCursor<'a>) -> (r: DecodeResult<Self>)
        ensures
            final(c).bytes() == old(c).bytes(),
            r is Ok <==> users_at(old(c).bytes(), old(c).pos()) is Some,
            r is Ok ==> r->Ok_0@ == users_at(old(c).bytes(), old(c).pos())->0 && final(c).pos()
                == old(c).pos() + init_state_base_len(),
            r is Err ==> final(c).pos() == old(c).pos(),
    {
        let buffer = c.buffer();
        let offset = c.offset();
        let users = user_list_at(buffer, offset)?;
        c.advance(8);
        Ok(ChatInitState { users })
    }

    /// Decodes a state encoded on its own.
    pub fn from_bytes(buf: &[u8]) -> (r: DecodeResult<Self>)
        ensures
            r is Ok <==> users_at(buf@, 0) is Some,
            r is Ok ==> r->Ok_0@ == users_at(buf@, 0)->0,
    {
        let mut c = DecodeCursor::new(buf);
        ChatInitState::decode(&mut c)
    }

    /// Materialises the state that a lazy view points at.
    pub fn lazy_to_owned(lazy: ChatInitStateLazy<'_>) -> (r: DecodeResult<Self>)
        ensures
            r is Ok <==> users_at(lazy.bytes(), lazy.pos()) is Some,
            r is Ok ==> r->Ok_0@ == users_at(lazy.bytes(), lazy.pos())->0,
    {
        let mut c = DecodeCursor::at_offset(lazy.buffer, lazy.offset);
        ChatInitState::decode(&mut c)
    }
}

/// The initial state holding `us`, encoded on its own.
fn init_state_to_bytes<U: UserRecord>(us: &[U]) -> (r: Vec<u8>)
    requires
        init_state_fits(records(us@)),
    ensures
        r@ == init_state_encoding(records(us@)),
{
    let ghost rs = records(us@);
    let n = user_list_scratch_len(us);
    let mut c = EncodeCursor::new(8 + n, 8);
    let ghost v = c@;
    put_user_list(&mut c, us);
    proof {
        lemma_le_lengths();
        lemma_user_slots_len(rs, 8 + 16 * rs.len() as int);
        lemma_fresh_buffer(v, users_base(rs, 8), users_scratch(rs, 8));
    }
    c.into_bytes()
}

/// A view of the initial state inside a received buffer.
pub struct ChatInitStateLazy<'a> {
    buffer: &'a [u8],
    offset: usize,
}

impl<'a> Clone for ChatInitStateLazy<'a> {
    fn clone(&self) -> (r: Self)
        ensures
            r == *self,
    {
        *self
    }
}

impl<'a> Copy for ChatInitStateLazy<'a> {

}

impl<'a> ChatInitStateLazy<'a> {
    /// The base region lies inside the buffer.
    #[verifier::type_invariant]
    spec fn inv(&self) -> bool {
        self.offset + init_state_base_len() <= self.buffer@.len()
    }

    pub closed spec fn bytes(&self) -> Seq<u8> {
        self.buffer@
    }

    pub closed spec fn pos(&self) -> int {
        self.offset as int
    }

    pub fn base_len() -> (r: usize)
        ensures
            r == init_state_base_len(),
    {
        8
    }

    /// A view of the state at the cursor; the cursor moves past its base region.
    pub fn decode(c: &mut DecodeCursor<'a>) -> (r: DecodeResult<Self>)
        ensures
            final(c).bytes() == old(c).bytes(),
            r is Ok <==> old(c).pos() + init_state_base_len() <= old(c).bytes().len(),
            r is Ok ==> r->Ok_0.bytes() == old(c).bytes() && r->Ok_0.pos() == old(c).pos()
                && final(c).pos() == old(c).pos() + init_state_base_len(),
            r is Err ==> final(c).pos() == old(c).pos(),
    {
        let buffer = c.buffer();
        let offset = c.offset();
        if offset <= buffer.len() && buffer.len() - offset >= 8 {
            c.advance(8);
            Ok(ChatInitStateLazy { buffer, offset })
        } else {
            Err(DecodeError)
        }
    }

    /// The list of users, as a view; its elements decode when asked for.
    pub fn users(&self) -> (r: DecodeResult<UserListLazy<'a>>)
        ensures
            r is Ok,
            r->Ok_0.bytes() == self.bytes(),
            r->Ok_0.pos() == self.pos(),
    {
        proof {
            use_type_invariant(self);
        }
        Ok(UserListLazy { buffer: self.buffer, offset: self.offset })
    }

    pub fn scratch_len(&self) -> (r: usize)
        requires
            users_at(self.bytes(), self.pos()) is Some,
            users_scratch_len(users_at(self.bytes(), self.pos())->0) <= usize::MAX,
        ensures
            r == users_scratch_len(users_at(self.bytes(), self.pos())->0),
    {
        ChatInitState::lazy_to_owned(*self).unwrap().scratch_len()
    }

    /// Writes the viewed state at the cursor, as its owned value would be written.
    pub fn encode(&self, c: &mut EncodeCursor)
        requires
            users_at(self.bytes(), self.pos()) is Some,
            room_for_users(old(c), users_at(self.bytes(), self.pos())->0),
        ensures
            final(c).wf(),
            final(c)@ == put_users(old(c)@, users_at(self.bytes(), self.pos())->0),
    {
        let owned = ChatInitState::lazy_to_owned(*self).unwrap();
        owned.encode(c);
    }
}

/// Whether two lists of users hold the same users in the same order.
pub fn same_users(a: &[RegisteredUser], b: &[RegisteredUser]) -> (r: bool)
    ensures
        r == (records(a@) == records(b@)),
{
    if a.len() != b.len() {
        proof {
            assert(records(a@).len() != records(b@).len());
        }
        return false;
    }
    let mut i: usize = 0;
    while i < a.len()
        invariant
            a@.len() == b@.len(),
            i <= a@.len(),
            forall|j: int| 0 <= j < i ==> records(a@)[j] == records(b@)[j],
        decreases a@.len() - i,
    {
        if a[i].endpoint != b[i].endpoint || !same_text(a[i].alias.as_str(), b[i].alias.as_str()) {
            proof {
                assert(records(a@)[i as int] != records(b@)[i as int]);
            }
            return false;
        }
        i += 1;
    }
    proof {
        assert(records(a@) =~= records(b@));
    }
    true
}

impl<'a> PartialEq for ChatInitStateLazy<'a> {
    /// Both views decode, to the same users.
    fn eq(&self, other: &Self) -> (r: bool) {
        match (ChatInitState::lazy_to_owned(*self), ChatInitState::lazy_to_owned(*other)) {
            (Ok(a), Ok(b)) => same_users(a.users.as_slice(), b.users.as_slice()),
            _ => false,
        }
    }
}

impl<'a> vstd::std_specs::cmp::PartialEqSpecImpl for ChatInitStateLazy<'a> {
    open spec fn obeys_eq_spec() -> bool {
        true
    }

    open spec fn eq_spec(&self, other: &Self) -> bool {
        users_at(self.bytes(), self.pos()) is Some && users_at(self.bytes(), self.pos()) == users_at(
            other.bytes(),
            other.pos(),
        )
    }
}

impl<'a> ChatInitStateLazy<'a> {
    /// Whether the view decodes to `v`.
    pub fn matches(&self, v: &ChatInitState) -> (r: bool)
        ensures
            r == (users_at(self.bytes(), self.pos()) == Some(v@)),
    {
        match ChatInitState::lazy_to_owned(*self) {
            Ok(a) => same_users(a.users.as_slice(), v.users.as_slice()),
            Err(_) => false,
        }
    }
}

/// Encodes the initial state straight from borrowed users in any element form.
pub struct ChatInitStateGen<'s, U: UserRecord> {
    pub users: &'s [U],
}

impl<'s, U: UserRecord> ChatInitStateGen<'s, U> {
    /// The users of the state this generator stands for.
    pub open spec fn model(&self) -> Seq<RegisteredUserView> {
        records(self.users@)
    }

    pub fn base_len() -> (r: usize)
        ensures
            r == init_state_base_len(),
    {
        8
    }

    pub fn scratch_len(&self) -> (r: usize)
        requires
            users_scratch_len(self.model()) <= usize::MAX,
        ensures
            r == users_scratch_len(self.model()),
    {
        user_list_scratch_len(self.users)
    }

    pub fn encode(&self, c: &mut EncodeCursor)
        requires
            room_for_users(old(c), self.model()),
        ensures
            final(c).wf(),
            final(c)@ == put_users(old(c)@, self.model()),
    {
        put_user_list(c, self.users);
    }

    pub fn to_bytes(&self) -> (r: Vec<u8>)
        requires
            init_state_fits(self.model()),
        ensures
            r@ == init_state_encoding(self.model()),
    {
        init_state_to_bytes(self.users)
    }
}

} // verus!
