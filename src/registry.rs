//! The chat server's table of registered users and claimed aliases, and the decisions it
//! makes on registration, on a chat message and on a disconnect.

use std::collections::HashMap;

use vstd::prelude::*;

use crate::enums::{RegisterError, SendMessageError};
use crate::records::{RegisteredUser, RegisteredUserView};
use crate::units::{RegisterSuccess, SendMessageSuccess};
use crate::wire::{same_text, utf8, DecodeResult};

verus! {

broadcast use vstd::std_specs::hash::group_hash_axioms;

/// Most aliases the chat accepts.
pub const MAX_USERS: usize = 1000;

/// Longest chat message accepted, in bytes.
pub const MAX_MESSAGE_LEN: usize = 500;

/// Aliases claimed by a sequence of claims; a later claim of an alias replaces an earlier.
pub open spec fn claim_map(cs: Seq<RegisteredUserView>) -> Map<Seq<char>, u64>
    decreases cs.len(),
{
    if cs.len() == 0 {
        Map::empty()
    } else {
        claim_map(cs.drop_last()).insert(cs.last().alias, cs.last().endpoint)
    }
}

/// No alias is claimed twice.
pub open spec fn aliases_unique(cs: Seq<RegisteredUserView>) -> bool {
    forall|i: int, j: int| 0 <= i < j < cs.len() ==> cs[i].alias != cs[j].alias
}

pub proof fn lemma_claim_map_has(cs: Seq<RegisteredUserView>, a: Seq<char>)
    ensures
        claim_map(cs).contains_key(a) <==> exists|i: int| 0 <= i < cs.len() && cs[i].alias == a,
        claim_map(cs).dom().finite(),
    decreases cs.len(),
{
    if cs.len() > 0 {
        let d = cs.drop_last();
        lemma_claim_map_has(d, a);
        if claim_map(d).contains_key(a) {
            let i = choose|i: int| 0 <= i < d.len() && d[i].alias == a;
            assert(cs[i].alias == a);
        }
        if exists|i: int| 0 <= i < cs.len() && cs[i].alias == a {
            let i = choose|i: int| 0 <= i < cs.len() && cs[i].alias == a;
            if i < cs.len() - 1 {
                assert(d[i].alias == a);
            }
        }
    }
}

pub proof fn lemma_claim_map_at(cs: Seq<RegisteredUserView>, i: int)
    requires
        aliases_unique(cs),
        0 <= i < cs.len(),
    ensures
        claim_map(cs).contains_key(cs[i].alias),
        claim_map(cs)[cs[i].alias] == cs[i].endpoint,
    decreases cs.len(),
{
    if i < cs.len() - 1 {
        let d = cs.drop_last();
        assert(aliases_unique(d));
        lemma_claim_map_at(d, i);
        assert(cs.last().alias != cs[i].alias);
    }
}

pub proof fn lemma_claim_map_len(cs: Seq<RegisteredUserView>)
    requires
        aliases_unique(cs),
    ensures
        claim_map(cs).dom().len() == cs.len(),
    decreases cs.len(),
{
    if cs.len() > 0 {
        let d = cs.drop_last();
        assert(aliases_unique(d));
        lemma_claim_map_len(d);
        lemma_claim_map_has(d, cs.last().alias);
        lemma_claim_map_has(d, cs.last().alias);
        if claim_map(d).contains_key(cs.last().alias) {
            let i = choose|i: int| 0 <= i < d.len() && d[i].alias == cs.last().alias;
            assert(cs[i].alias == cs[cs.len() - 1].alias);
        }
    }
}

pub proof fn lemma_claim_map_remove(cs: Seq<RegisteredUserView>, k: int)
    requires
        aliases_unique(cs),
        0 <= k < cs.len(),
    ensures
        claim_map(cs.remove(k)) == claim_map(cs).remove(cs[k].alias),
        aliases_unique(cs.remove(k)),
    decreases cs.len(),
{
    let r = cs.remove(k);
    if k == cs.len() - 1 {
        assert(r =~= cs.drop_last());
        lemma_claim_map_has(r, cs[k].alias);
        if claim_map(r).contains_key(cs[k].alias) {
            let i = choose|i: int| 0 <= i < r.len() && r[i].alias == cs[k].alias;
            assert(cs[i].alias == cs[k].alias);
        }
        assert(claim_map(r) =~= claim_map(cs).remove(cs[k].alias));
    } else {
        let d = cs.drop_last();
        assert(aliases_unique(d));
        lemma_claim_map_remove(d, k);
        assert(r.drop_last() =~= d.remove(k));
        assert(r.last() == cs.last());
        assert(cs.last().alias != cs[k].alias);
        assert(claim_map(r) =~= claim_map(cs).remove(cs[k].alias));
    }
    assert forall|i: int, j: int| 0 <= i < j < r.len() implies r[i].alias != r[j].alias by {
        let i2 = if i < k { i } else { i + 1 };
        let j2 = if j < k { j } else { j + 1 };
        assert(r[i] == cs[i2]);
        assert(r[j] == cs[j2]);
    }
}

/// The chat server's state: who is registered from which endpoint, and which endpoint holds
/// each alias.
pub struct ChatRegistry {
    users: HashMap<u64, RegisteredUser>,
    claims: Vec<RegisteredUser>,
}

impl ChatRegistry {
    /// Registered users by endpoint.
    pub closed spec fn users(&self) -> Map<u64, RegisteredUserView> {
        self.users@.map_values(|u: RegisteredUser| u@)
    }

    /// Claimed aliases, with the endpoint that holds each.
    pub closed spec fn claims(&self) -> Map<Seq<char>, u64> {
        claim_map(self.claims@.map_values(|u: RegisteredUser| u@))
    }

    /// No alias is claimed twice, and each user is filed under its own endpoint.
    pub closed spec fn wf(&self) -> bool {
        &&& aliases_unique(self.claims@.map_values(|u: RegisteredUser| u@))
        &&& forall|e: u64| #[trigger]
            self.users@.contains_key(e) ==> self.users@[e].endpoint == e
    }

    pub fn new() -> (r: Self)
        ensures
            r.wf(),
            r.users() == Map::<u64, RegisteredUserView>::empty(),
            r.claims() == Map::<Seq<char>, u64>::empty(),
    {
        let r = ChatRegistry { users: HashMap::new(), claims: Vec::new() };
        proof {
            assert(r.users() =~= Map::<u64, RegisteredUserView>::empty());
            assert(r.claims@.map_values(|u: RegisteredUser| u@) =~= Seq::<RegisteredUserView>::empty());
        }
        r
    }

    /// Number of claimed aliases.
    pub fn claimed_count(&self) -> (r: usize)
        requires
            self.wf(),
        ensures
            r == self.claims().dom().len(),
    {
        proof {
            lemma_claim_map_len(self.claims@.map_values(|u: RegisteredUser| u@));
        }
        self.claims.len()
    }

    /// The endpoint holding `alias`, if any.
    pub fn holder_of(&self, alias: &str) -> (r: Option<u64>)
        requires
            self.wf(),
        ensures
            r is Some <==> self.claims().contains_key(alias@),
            r is Some ==> r->0 == self.claims()[alias@],
    {
        let ghost cs = self.claims@.map_values(|u: RegisteredUser| u@);
        let mut i: usize = 0;
        while i < self.claims.len()
            invariant
                cs == self.claims@.map_values(|u: RegisteredUser| u@),
                aliases_unique(cs),
                i <= cs.len(),
                forall|j: int| 0 <= j < i ==> cs[j].alias != alias@,
            decreases cs.len() - i,
        {
            if same_text(self.claims[i].alias.as_str(), alias) {
                proof {
                    lemma_claim_map_at(cs, i as int);
                }
                return Some(self.claims[i].endpoint);
            }
            i += 1;
        }
        proof {
            lemma_claim_map_has(cs, alias@);
        }
        None
    }

    /// Whether a registration of `alias` claims it anew: the chat is not full, the alias
    /// decodes, and nobody holds it.
    pub open spec fn claims_new_alias(&self, alias: DecodeResult<&str>) -> bool {
        &&& self.claims().dom().len() < MAX_USERS
        &&& alias is Ok
        &&& !self.claims().contains_key(alias->Ok_0@)
    }

    /// Decides a registration of `alias` from `source`. The chat refuses when it is full,
    /// before even reading the alias; an alias that does not decode is an internal error; an
    /// alias held by another endpoint is taken; registering again under one's own alias
    /// succeeds and changes nothing. Otherwise the user is filed under `source` and the alias
    /// is claimed for it.
    pub fn register(&mut self, source: u64, alias: DecodeResult<&str>) -> (r: Result<
        RegisterSuccess,
        RegisterError,
    >)
        requires
            old(self).wf(),
        ensures
            final(self).wf(),
            old(self).claims().dom().len() >= MAX_USERS ==> r == Err::<
                RegisterSuccess,
                RegisterError,
            >(RegisterError::ChatFull),
            old(self).claims().dom().len() < MAX_USERS && alias is Err ==> r == Err::<
                RegisterSuccess,
                RegisterError,
            >(RegisterError::Internal),
            old(self).claims().dom().len() < MAX_USERS && alias is Ok && old(
                self,
            ).claims().contains_key(alias->Ok_0@) ==> r == if old(self).claims()[alias->Ok_0@]
                == source {
                Ok::<RegisterSuccess, RegisterError>(RegisterSuccess {  })
            } else {
                Err::<RegisterSuccess, RegisterError>(RegisterError::UserAlreadyExists)
            },
            old(self).claims_new_alias(alias) ==> {
                &&& r == Ok::<RegisterSuccess, RegisterError>(RegisterSuccess {  })
                &&& final(self).users() == old(self).users().insert(
                    source,
                    RegisteredUserView { endpoint: source, alias: alias->Ok_0@ },
                )
                &&& final(self).claims() == old(self).claims().insert(alias->Ok_0@, source)
            },
            !old(self).claims_new_alias(alias) ==> {
                &&& final(self).users() == old(self).users()
                &&& final(self).claims() == old(self).claims()
            },
    {
        if self.claimed_count() >= MAX_USERS {
            return Err(RegisterError::ChatFull);
        }
        let alias = match alias {
            Ok(a) => a,
            Err(_) => return Err(RegisterError::Internal),
        };
        match self.holder_of(alias) {
            Some(holder) => {
                if holder == source {
                    return Ok(RegisterSuccess {  });
                } else {
                    return Err(RegisterError::UserAlreadyExists);
                }
            },
            None => {},
        }
        let ghost cs = self.claims@.map_values(|u: RegisteredUser| u@);
        let ghost old_users = self.users@;
        self.users.insert(source, RegisteredUser { endpoint: source, alias: alias.to_owned() });
        self.claims.push(RegisteredUser { endpoint: source, alias: alias.to_owned() });
        proof {
            let cs2 = self.claims@.map_values(|u: RegisteredUser| u@);
            assert(cs2.drop_last() =~= cs);
            lemma_claim_map_has(cs, alias@);
            assert forall|i: int, j: int| 0 <= i < j < cs2.len() implies cs2[i].alias
                != cs2[j].alias by {
                if j == cs2.len() - 1 {
                    assert(cs[i].alias == cs2[i].alias);
                } else {
                    assert(cs[i] == cs2[i] && cs[j] == cs2[j]);
                }
            }
            assert(self.users() =~= old(self).users().insert(
                source,
                RegisteredUserView { endpoint: source, alias: alias@ },
            ));
        }
        Ok(RegisterSuccess {  })
    }

    /// Decides whether `source` may send a chat message with this content: content that does
    /// not decode is an internal error, then an over-long message is refused, then one from
    /// an unregistered endpoint.
    pub fn admit_message(&self, source: u64, content: DecodeResult<&str>) -> (r: Result<
        SendMessageSuccess,
        SendMessageError,
    >)
        requires
            self.wf(),
        ensures
            content is Err ==> r == Err::<SendMessageSuccess, SendMessageError>(
                SendMessageError::Internal,
            ),
            content is Ok && utf8(content->Ok_0@).len() > MAX_MESSAGE_LEN ==> r == Err::<
                SendMessageSuccess,
                SendMessageError,
            >(SendMessageError::MessageTooLong),
            content is Ok && utf8(content->Ok_0@).len() <= MAX_MESSAGE_LEN ==> r == if self.users().contains_key(
                source,
            ) {
                Ok::<SendMessageSuccess, SendMessageError>(SendMessageSuccess {  })
            } else {
                Err::<SendMessageSuccess, SendMessageError>(SendMessageError::NotRegistered)
            },
    {
        let content = match content {
            Ok(c) => c,
            Err(_) => return Err(SendMessageError::Internal),
        };
        if content.as_bytes().len() > MAX_MESSAGE_LEN {
            return Err(SendMessageError::MessageTooLong);
        }
        match self.users.get(&source) {
            Some(_) => Ok(SendMessageSuccess {  }),
            None => Err(SendMessageError::NotRegistered),
        }
    }

    /// The user registered from `endpoint`, if any.
    pub fn user(&self, endpoint: u64) -> (r: Option<&RegisteredUser>)
        ensures
            r is Some <==> self.users().contains_key(endpoint),
            r is Some ==> r->0@ == self.users()[endpoint],
    {
        self.users.get(&endpoint)
    }

    /// Forgets the user registered from `endpoint`, and frees the alias it is registered
    /// under. Returns that user.
    pub fn disconnect(&mut self, endpoint: u64) -> (r: Option<RegisteredUser>)
        requires
            old(self).wf(),
        ensures
            final(self).wf(),
            r is Some <==> old(self).users().contains_key(endpoint),
            r is Some ==> {
                &&& r->0@ == old(self).users()[endpoint]
                &&& final(self).users() == old(self).users().remove(endpoint)
                &&& final(self).claims() == old(self).claims().remove(r->0@.alias)
            },
            r is None ==> final(self).users() == old(self).users() && final(self).claims() == old(
                self,
            ).claims(),
    {
        let removed = self.users.remove(&endpoint);
        proof {
            assert(self.users() =~= old(self).users().remove(endpoint));
        }
        let user = match removed {
            Some(u) => u,
            None => {
                proof {
                    assert(self.users() =~= old(self).users());
                }
                return None;
            },
        };
        let ghost cs = self.claims@.map_values(|u: RegisteredUser| u@);
        let mut i: usize = 0;
        while i < self.claims.len()
            invariant
                cs == self.claims@.map_values(|u: RegisteredUser| u@),
                aliases_unique(cs),
                i <= cs.len(),
                forall|j: int| 0 <= j < i ==> cs[j].alias != user@.alias,
                old(self).users().contains_key(endpoint),
                user@ == old(self).users()[endpoint],
                self.users() == old(self).users().remove(endpoint),
                forall|e: u64| #[trigger]
                    self.users@.contains_key(e) ==> self.users@[e].endpoint == e,
                self.claims() == old(self).claims(),
            decreases cs.len() - i,
        {
            if same_text(self.claims[i].alias.as_str(), user.alias.as_str()) {
                self.claims.remove(i);
                proof {
                    lemma_claim_map_remove(cs, i as int);
                    assert(self.claims@.map_values(|u: RegisteredUser| u@) =~= cs.remove(i as int));
                }
                return Some(user);
            }
            i += 1;
        }
        proof {
            lemma_claim_map_has(cs, user@.alias);
            assert(self.claims() =~= old(self).claims().remove(user@.alias));
        }
        Some(user)
    }

    /// The registered users, for the state sent to a client that connects.
    pub fn registered_users(&self) -> (r: &HashMap<u64, RegisteredUser>)
        ensures
            r@.map_values(|u: RegisteredUser| u@) == self.users(),
    {
        &self.users
    }
}

} // verus!
