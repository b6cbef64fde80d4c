//! The terminal client's view: the chat lines shown, the line being typed, and how far the
//! list of lines is scrolled, with its reactions to keys and to incoming messages. Drawing it
//! and reading keys is left to the program around it.

use std::collections::HashMap;

use vstd::prelude::*;

use crate::lists::ChatInitState;
use crate::records::RegisteredUserView;

verus! {

broadcast use vstd::std_specs::hash::group_hash_axioms;

/// Whether `c` is white space in Unicode's sense, as `char::is_whitespace` decides.
pub uninterp spec fn white_space(c: char) -> bool;

/// Relies on `char::is_whitespace`: whether `c` has Unicode's White_Space property.
#[verifier::external_body]
fn is_white_space(c: char) -> (r: bool)
    ensures
        r == white_space(c),
{
    c.is_whitespace()
}

/// Relies on `String`'s `FromIterator<char>`: the string of exactly these characters.
#[verifier::external_body]
fn string_of(chars: &[char]) -> (r: String)
    ensures
        r@ == chars@,
{
    chars.iter().collect()
}

/// Whether a text is empty once white space is trimmed from it.
pub open spec fn blank(s: Seq<char>) -> bool {
    forall|i: int| 0 <= i < s.len() ==> white_space(s[i])
}

/// The keys the view reacts to; any other key is `Other`.
#[derive(Clone, Copy, Debug, PartialEq, Eq, Structural)]
pub enum InputKey {
    Enter,
    Char(char),
    Backspace,
    Up,
    Down,
    Other,
}

/// One line of the chat: who said it, and what.
#[derive(Clone, Debug, PartialEq, Eq)]
pub struct ChatLine {
    pub sender: String,
    pub content: String,
}

/// What a chat line holds.
pub struct ChatLineView {
    pub sender: Seq<char>,
    pub content: Seq<char>,
}

impl View for ChatLine {
    type V = ChatLineView;

    open spec fn view(&self) -> ChatLineView {
        ChatLineView { sender: self.sender@, content: self.content@ }
    }
}

/// `a - b`, or 0 when `b` is larger.
pub open spec fn minus_or_zero(a: int, b: int) -> int {
    if a > b {
        a - b
    } else {
        0
    }
}

/// The terminal client's view state.
pub struct ChatView {
    lines: Vec<ChatLine>,
    input: Vec<char>,
    offset: usize,
    height: usize,
}

impl ChatView {
    /// The chat lines, oldest first.
    pub closed spec fn spec_lines(&self) -> Seq<ChatLineView> {
        self.lines@.map_values(|l: ChatLine| l@)
    }

    /// The line being typed.
    pub closed spec fn spec_input(&self) -> Seq<char> {
        self.input@
    }

    /// Index of the first chat line shown.
    pub closed spec fn spec_offset(&self) -> int {
        self.offset as int
    }

    /// How many chat lines fit on screen.
    pub closed spec fn spec_height(&self) -> int {
        self.height as int
    }

    /// The scroll position stays within the lines.
    pub open spec fn wf(&self) -> bool {
        0 <= self.spec_offset() <= self.spec_lines().len()
    }

    /// The view at start: three lines of greeting from "System", nothing typed, nothing
    /// scrolled, no room measured yet.
    pub fn new() -> (r: Self)
        ensures
            r.wf(),
            r.spec_lines() == seq![
                ChatLineView { sender: "System"@, content: "Welcome to the modrpc chat!"@ },
                ChatLineView {
                    sender: "System"@,
                    content: "Type your message below and press Enter."@,
                },
                ChatLineView { sender: "System"@, content: "Press Esc to exit."@ },
            ],
            r.spec_input().len() == 0,
            r.spec_offset() == 0,
            r.spec_height() == 0,
    {
        let mut lines: Vec<ChatLine> = Vec::new();
        lines.push(
            ChatLine {
                sender: "System".to_owned(),
                content: "Welcome to the modrpc chat!".to_owned(),
            },
        );
        lines.push(
            ChatLine {
                sender: "System".to_owned(),
                content: "Type your message below and press Enter.".to_owned(),
            },
        );
        lines.push(
            ChatLine { sender: "System".to_owned(), content: "Press Esc to exit.".to_owned() },
        );
        let r = ChatView { lines, input: Vec::new(), offset: 0, height: 0 };
        proof {
            assert(r.spec_lines() =~= seq![
                ChatLineView { sender: "System"@, content: "Welcome to the modrpc chat!"@ },
                ChatLineView {
                    sender: "System"@,
                    content: "Type your message below and press Enter."@,
                },
                ChatLineView { sender: "System"@, content: "Press Esc to exit."@ },
            ]);
        }
        r
    }

    pub fn lines(&self) -> (r: &[ChatLine])
        ensures
            r@.map_values(|l: ChatLine| l@) == self.spec_lines(),
    {
        self.lines.as_slice()
    }

    /// The line being typed.
    pub fn input_text(&self) -> (r: String)
        ensures
            r@ == self.spec_input(),
    {
        string_of(self.input.as_slice())
    }

    pub fn offset(&self) -> (r: usize)
        ensures
            r == self.spec_offset(),
    {
        self.offset
    }

    /// Records how many chat lines fit on screen, as measured when the view was last drawn.
    pub fn set_height(&mut self, height: usize)
        ensures
            final(self).spec_height() == height,
            final(self).spec_lines() == old(self).spec_lines(),
            final(self).spec_input() == old(self).spec_input(),
            final(self).spec_offset() == old(self).spec_offset(),
    {
        self.height = height;
    }

    /// Appends a chat line and scrolls so that the newest lines fill the screen.
    pub fn add_message(&mut self, sender: String, content: String)
        requires
            old(self).wf(),
        ensures
            final(self).wf(),
            final(self).spec_lines() == old(self).spec_lines().push(
                ChatLineView { sender: sender@, content: content@ },
            ),
            final(self).spec_offset() == minus_or_zero(
                old(self).spec_lines().len() + 1int,
                old(self).spec_height(),
            ),
            final(self).spec_input() == old(self).spec_input(),
            final(self).spec_height() == old(self).spec_height(),
    {
        let ghost before = self.lines@;
        let line = ChatLine { sender, content };
        let ghost lv = line@;
        self.lines.push(line);
        self.offset = self.lines.len().saturating_sub(self.height);
        proof {
            assert(self.lines@ == before.push(line));
            assert(self.spec_lines() =~= before.map_values(|l: ChatLine| l@).push(lv));
        }
    }

    /// Adds what this client has just sent, under "You".
    pub fn add_sent(&mut self, content: String)
        requires
            old(self).wf(),
        ensures
            final(self).wf(),
            final(self).spec_lines() == old(self).spec_lines().push(
                ChatLineView { sender: "You"@, content: content@ },
            ),
            final(self).spec_offset() == minus_or_zero(
                old(self).spec_lines().len() + 1int,
                old(self).spec_height(),
            ),
            final(self).spec_input() == old(self).spec_input(),
            final(self).spec_height() == old(self).spec_height(),
    {
        self.add_message("You".to_owned(), content);
    }

    /// Whether the typed line holds anything but white space.
    fn input_has_text(&self) -> (r: bool)
        ensures
            r == !blank(self.spec_input()),
    {
        let mut i: usize = 0;
        while i < self.input.len()
            invariant
                i <= self.input@.len(),
                forall|j: int| 0 <= j < i ==> white_space(self.input@[j]),
            decreases self.input@.len() - i,
        {
            if !is_white_space(self.input[i]) {
                return true;
            }
            i += 1;
        }
        false
    }

    /// Reacts to a key. Enter hands back the typed line to be sent, and clears it, unless it
    /// is blank; a character is typed; Backspace removes the last one; Up and Down scroll by
    /// one line, within the lines. Any other key does nothing.
    pub fn handle_key(&mut self, key: InputKey) -> (r: Option<String>)
        requires
            old(self).wf(),
        ensures
            final(self).wf(),
            final(self).spec_lines() == old(self).spec_lines(),
            final(self).spec_height() == old(self).spec_height(),
            key == InputKey::Enter && !blank(old(self).spec_input()) ==> r is Some && r->0@ == old(
                self,
            ).spec_input() && final(self).spec_input().len() == 0,
            !(key == InputKey::Enter && !blank(old(self).spec_input())) ==> r is None,
            key is Char ==> final(self).spec_input() == old(self).spec_input().push(key->Char_0),
            key == InputKey::Backspace ==> final(self).spec_input() == if old(
                self,
            ).spec_input().len() > 0 {
                old(self).spec_input().drop_last()
            } else {
                old(self).spec_input()
            },
            key == InputKey::Up ==> final(self).spec_offset() == minus_or_zero(
                old(self).spec_offset(),
                1,
            ),
            key == InputKey::Down ==> final(self).spec_offset() == if old(self).spec_offset() + 1
                <= old(self).spec_lines().len() {
                old(self).spec_offset() + 1
            } else {
                old(self).spec_lines().len() as int
            },
            !(key == InputKey::Up || key == InputKey::Down) ==> final(self).spec_offset() == old(
                self,
            ).spec_offset(),
            !(key is Char || key == InputKey::Backspace || (key == InputKey::Enter && !blank(
                old(self).spec_input(),
            ))) ==> final(self).spec_input() == old(self).spec_input(),
    {
        match key {
            InputKey::Enter => {
                if self.input_has_text() {
                    let message = string_of(self.input.as_slice());
                    self.input = Vec::new();
                    Some(message)
                } else {
                    None
                }
            },
            InputKey::Char(c) => {
                self.input.push(c);
                None
            },
            InputKey::Backspace => {
                let _ = self.input.pop();
                proof {
                    if old(self).input@.len() > 0 {
                        assert(self.input@ =~= old(self).input@.drop_last());
                    }
                }
                None
            },
            InputKey::Up => {
                self.offset = self.offset.saturating_sub(1);
                None
            },
            InputKey::Down => {
                if self.offset < self.lines.len() {
                    self.offset = self.offset + 1;
                }
                None
            },
            InputKey::Other => None,
        }
    }
}

/// Aliases by endpoint, from a list of users; a later entry for an endpoint wins.
pub open spec fn directory_of(us: Seq<RegisteredUserView>) -> Map<u64, Seq<char>>
    decreases us.len(),
{
    if us.len() == 0 {
        Map::empty()
    } else {
        directory_of(us.drop_last()).insert(us.last().endpoint, us.last().alias)
    }
}

/// What a client knows of the other users: the alias of each registered endpoint.
pub struct UserDirectory {
    users: HashMap<u64, String>,
}

impl UserDirectory {
    pub closed spec fn spec_users(&self) -> Map<u64, Seq<char>> {
        self.users@.map_values(|a: String| a@)
    }

    /// The directory described by the state received on connecting.
    pub fn from_init(state: &ChatInitState) -> (r: Self)
        ensures
            r.spec_users() == directory_of(state@),
    {
        let mut users: HashMap<u64, String> = HashMap::new();
        let ghost us = state@;
        let mut i: usize = 0;
        proof {
            assert(us.take(0) =~= Seq::<RegisteredUserView>::empty());
            assert(users@.map_values(|a: String| a@) =~= Map::<u64, Seq<char>>::empty());
        }
        while i < state.users.len()
            invariant
                us == state@,
                us.len() == state.users@.len(),
                i <= us.len(),
                users@.map_values(|a: String| a@) == directory_of(us.take(i as int)),
            decreases us.len() - i,
        {
            let ghost before = users@;
            users.insert(state.users[i].endpoint, state.users[i].alias.clone());
            proof {
                assert(us.take(i + 1).drop_last() =~= us.take(i as int));
                assert(us[i as int] == state.users@[i as int]@);
                assert(users@.map_values(|a: String| a@) =~= before.map_values(|a: String| a@).insert(
                    us[i as int].endpoint,
                    us[i as int].alias,
                ));
            }
            i += 1;
        }
        proof {
            assert(us.take(us.len() as int) =~= us);
        }
        UserDirectory { users }
    }

    /// Notes that `endpoint` registered under `alias`.
    pub fn registered(&mut self, endpoint: u64, alias: &str)
        ensures
            final(self).spec_users() == old(self).spec_users().insert(endpoint, alias@),
    {
        self.users.insert(endpoint, alias.to_owned());
        proof {
            assert(self.spec_users() =~= old(self).spec_users().insert(endpoint, alias@));
        }
    }

    /// The name to show for a message from `endpoint`: its alias, or "<unknown>".
    pub fn sender_name(&self, endpoint: u64) -> (r: String)
        ensures
            r@ == if self.spec_users().contains_key(endpoint) {
                self.spec_users()[endpoint]
            } else {
                "<unknown>"@
            },
    {
        match self.users.get(&endpoint) {
            Some(alias) => alias.clone(),
            None => "<unknown>".to_owned(),
        }
    }
}

} // verus!
