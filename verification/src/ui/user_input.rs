//! The chat input line: a text with a cursor counted in characters, and the keys that edit it.
use crate::agents::{AgentID, AgentIDView};
use crate::text::{chars_of, string_from_chars};
use vstd::string::StringExecFns;
use crate::ui::KeyCode;
use vstd::prelude::*;
use vstd::utf8::encode_utf8;

verus! {

/// Whether keys edit the input line.
#[derive(Debug, Clone, Copy, PartialEq, Eq, Structural)]
pub enum InputMode {
    Normal,
    Editing,
}

/// Who wrote a chat message.
#[derive(Debug, Clone, Copy, PartialEq, Eq, Structural)]
pub enum ChatRole {
    User,
    Assistant,
}

/// A message of the conversation with an agent.
#[derive(Debug, PartialEq, Eq)]
pub struct ChatMessage {
    pub role: ChatRole,
    pub content: String,
}

/// What the application should do after a key.
#[derive(Debug, PartialEq, Eq)]
pub enum InputAction {
    Nothing,
    Quit,
    /// Send this user message to the agent.
    Submit(ChatMessage),
}

/// A prefix of a text takes no more UTF-8 bytes than the text.
proof fn lemma_encode_prefix(s: Seq<char>, k: int)
    requires
        0 <= k <= s.len(),
    ensures
        encode_utf8(s.take(k)).len() <= encode_utf8(s).len(),
    decreases s.len(),
{
    if k > 0 {
        assert(s.take(k).drop_first() =~= s.drop_first().take(k - 1));
        lemma_encode_prefix(s.drop_first(), k - 1);
    }
}

/// The input line of the chat with one agent.
pub struct Tui {
    input: String,
    character_index: usize,
    input_mode: InputMode,
    messages: Vec<ChatMessage>,
    agent_id: AgentID,
}

impl Tui {
    #[verifier::type_invariant]
    spec fn cursor_in_text(self) -> bool {
        self.character_index <= self.input@.len()
    }

    /// The characters of the input line.
    pub closed spec fn text(self) -> Seq<char> {
        self.input@
    }

    /// The cursor, counted in characters.
    pub closed spec fn cursor(self) -> usize {
        self.character_index
    }

    /// Whether keys edit the input.
    pub closed spec fn mode(self) -> InputMode {
        self.input_mode
    }

    /// The messages sent so far, with their authors.
    pub closed spec fn history(self) -> Seq<(ChatRole, Seq<char>)> {
        self.messages@.map_values(|m: ChatMessage| (m.role, m.content@))
    }

    /// The agent the chat is with.
    pub closed spec fn agent(self) -> AgentIDView {
        self.agent_id@
    }

    /// An empty chat with `agent_id`, not editing.
    pub fn new(agent_id: AgentID) -> (r: Self)
        ensures
            r.text() == Seq::<char>::empty(),
            r.cursor() == 0,
            r.mode() == InputMode::Normal,
            r.history() == Seq::<(ChatRole, Seq<char>)>::empty(),
            r.agent() == agent_id@,
    {
        let r = Self {
            input: String::new(),
            input_mode: InputMode::Normal,
            messages: Vec::new(),
            character_index: 0,
            agent_id,
        };
        proof {
            assert(r.messages@.map_values(|m: ChatMessage| (m.role, m.content@)) =~= Seq::<
                (ChatRole, Seq<char>),
            >::empty());
        }
        r
    }

    /// The input line.
    pub fn input(&self) -> (r: &String)
        ensures
            r@ == self.text(),
    {
        &self.input
    }

    /// The cursor, counted in characters.
    pub fn character_index(&self) -> (r: usize)
        ensures
            r == self.cursor(),
            r <= self.text().len(),
    {
        proof {
            use_type_invariant(self);
        }
        self.character_index
    }

    /// Whether keys edit the input.
    pub fn input_mode(&self) -> (r: InputMode)
        ensures
            r == self.mode(),
    {
        self.input_mode
    }

    /// The agent the chat is with.
    pub fn agent_id(&self) -> (r: &AgentID)
        ensures
            r@ == self.agent(),
    {
        &self.agent_id
    }

    /// The messages sent so far.
    pub fn messages(&self) -> (r: &Vec<ChatMessage>)
        ensures
            r@.map_values(|m: ChatMessage| (m.role, m.content@)) == self.history(),
    {
        &self.messages
    }

    /// `new_cursor_pos` kept within the text: at most its number of characters.
    pub fn clamp_cursor(&self, new_cursor_pos: usize) -> (r: usize)
        ensures
            self.text().len() <= usize::MAX,
            r == if new_cursor_pos <= self.text().len() {
                new_cursor_pos
            } else {
                self.text().len() as usize
            },
    {
        let n = chars_of(self.input.as_str()).len();
        if new_cursor_pos <= n {
            new_cursor_pos
        } else {
            n
        }
    }

    /// Moves the cursor one character left, staying at the start.
    pub fn move_cursor_left(&mut self)
        ensures
            final(self).text() == old(self).text(),
            final(self).cursor() == if old(self).cursor() == 0 {
                0
            } else {
                (old(self).cursor() - 1) as usize
            },
            final(self).mode() == old(self).mode(),
            final(self).history() == old(self).history(),
            final(self).agent() == old(self).agent(),
    {
        proof {
            use_type_invariant(&*self);
        }
        let cursor_moved_left = self.character_index.saturating_sub(1);
        self.character_index = self.clamp_cursor(cursor_moved_left);
    }

    /// Moves the cursor one character right, staying at the end.
    pub fn move_cursor_right(&mut self)
        ensures
            final(self).text() == old(self).text(),
            old(self).cursor() < old(self).text().len() ==> final(self).cursor() == old(self).cursor()
                + 1,
            old(self).cursor() >= old(self).text().len() ==> final(self).cursor() == old(
                self,
            ).cursor(),
            final(self).mode() == old(self).mode(),
            final(self).history() == old(self).history(),
            final(self).agent() == old(self).agent(),
    {
        proof {
            use_type_invariant(&*self);
        }
        let cursor_moved_right = self.character_index.saturating_add(1);
        self.character_index = self.clamp_cursor(cursor_moved_right);
    }

    /// The byte offset in the text of the character at the cursor (the text's length in bytes
    /// when the cursor is at its end). The text's length in bytes fits in `usize`.
    pub fn byte_index(&self) -> (r: usize)
        requires
            encode_utf8(self.text()).len() <= usize::MAX,
        ensures
            r == encode_utf8(self.text().take(self.cursor() as int)).len(),
    {
        proof {
            use_type_invariant(self);
        }
        let v = chars_of(self.input.as_str());
        let ci = self.character_index;
        let ghost total = encode_utf8(v@.take(ci as int)).len();
        proof {
            lemma_encode_prefix(v@, ci as int);
            assert(v@.subrange(0, ci as int) =~= v@.take(ci as int));
        }
        let mut i: usize = 0;
        let mut bytes: usize = 0;
        while i < ci
            invariant
                v@ == self.input@,
                ci <= v@.len(),
                i <= ci,
                total == encode_utf8(v@.take(ci as int)).len(),
                total <= usize::MAX,
                bytes + encode_utf8(v@.subrange(i as int, ci as int)).len() == total,
            decreases ci - i,
        {
            let c = v[i];
            let w: usize = if (c as u32) < 0x80 {
                1
            } else if (c as u32) < 0x800 {
                2
            } else if (c as u32) < 0x10000 {
                3
            } else {
                4
            };
            proof {
                let sub = v@.subrange(i as int, ci as int);
                assert(sub.drop_first() =~= v@.subrange(i + 1, ci as int));
                assert(sub[0] == c);
                vstd::utf8::char_is_scalar(c);
                assert(encode_utf8(sub).len() == w + encode_utf8(v@.subrange(i + 1, ci as int)).len());
            }
            bytes = bytes + w;
            i += 1;
        }
        bytes
    }

    /// Inserts `new_char` at the cursor and moves the cursor past it.
    pub fn enter_char(&mut self, new_char: char)
        ensures
            final(self).text() == old(self).text().insert(old(self).cursor() as int, new_char),
            final(self).cursor() == old(self).cursor() + 1,
            final(self).mode() == old(self).mode(),
            final(self).history() == old(self).history(),
            final(self).agent() == old(self).agent(),
    {
        proof {
            use_type_invariant(&*self);
        }
        let v = chars_of(self.input.as_str());
        let ci = self.character_index;
        let mut w: Vec<char> = Vec::new();
        let mut i: usize = 0;
        while i < ci
            invariant
                ci <= v@.len(),
                i <= ci,
                w@ == v@.take(i as int),
            decreases ci - i,
        {
            w.push(v[i]);
            i += 1;
            proof {
                assert(w@ =~= v@.take(i as int));
            }
        }
        w.push(new_char);
        let mut k = ci;
        while k < v.len()
            invariant
                ci <= k <= v@.len(),
                w@ == v@.take(ci as int).push(new_char) + v@.subrange(ci as int, k as int),
            decreases v@.len() - k,
        {
            w.push(v[k]);
            k += 1;
            proof {
                assert(w@ =~= v@.take(ci as int).push(new_char) + v@.subrange(ci as int, k as int));
            }
        }
        proof {
            assert(w@ =~= v@.insert(ci as int, new_char));
        }
        self.input = string_from_chars(&w);
        self.move_cursor_right();
    }

    /// Removes the character before the cursor and moves the cursor back over it; nothing
    /// happens at the start of the text.
    pub fn delete_char(&mut self)
        ensures
            old(self).cursor() == 0 ==> final(self).text() == old(self).text() && final(self).cursor()
                == 0,
            old(self).cursor() != 0 ==> final(self).text() == old(self).text().take(
                old(self).cursor() - 1,
            ) + old(self).text().skip(old(self).cursor() as int) && final(self).cursor()
                == old(self).cursor() - 1,
            final(self).mode() == old(self).mode(),
            final(self).history() == old(self).history(),
            final(self).agent() == old(self).agent(),
    {
        proof {
            use_type_invariant(&*self);
        }
        let is_not_cursor_leftmost = self.character_index != 0;
        if is_not_cursor_leftmost {
            let v = chars_of(self.input.as_str());
            let current_index = self.character_index;
            let from_left_to_current_index = current_index - 1;
            let mut w: Vec<char> = Vec::new();
            let mut i: usize = 0;
            while i < from_left_to_current_index
                invariant
                    from_left_to_current_index < current_index <= v@.len(),
                    i <= from_left_to_current_index,
                    w@ == v@.take(i as int),
                decreases from_left_to_current_index - i,
            {
                w.push(v[i]);
                i += 1;
                proof {
                    assert(w@ =~= v@.take(i as int));
                }
            }
            let mut k = current_index;
            while k < v.len()
                invariant
                    current_index <= k <= v@.len(),
                    w@ == v@.take(from_left_to_current_index as int) + v@.subrange(
                        current_index as int,
                        k as int,
                    ),
                decreases v@.len() - k,
            {
                w.push(v[k]);
                k += 1;
                proof {
                    assert(w@ =~= v@.take(from_left_to_current_index as int) + v@.subrange(
                        current_index as int,
                        k as int,
                    ));
                }
            }
            proof {
                assert(v@.subrange(current_index as int, v@.len() as int) =~= v@.skip(
                    current_index as int,
                ));
            }
            self.character_index = from_left_to_current_index;
            self.input = string_from_chars(&w);
        }
    }

    /// Moves the cursor to the start.
    pub fn reset_cursor(&mut self)
        ensures
            final(self).text() == old(self).text(),
            final(self).cursor() == 0,
            final(self).mode() == old(self).mode(),
            final(self).history() == old(self).history(),
            final(self).agent() == old(self).agent(),
    {
        self.character_index = 0;
    }

    /// Records the input as a user message, empties the input, and hands the message out to
    /// be sent to the agent.
    pub fn submit_message(&mut self) -> (r: ChatMessage)
        ensures
            r.role == ChatRole::User,
            r.content@ == old(self).text(),
            final(self).history() == old(self).history().push((ChatRole::User, old(self).text())),
            final(self).text() == Seq::<char>::empty(),
            final(self).cursor() == 0,
            final(self).mode() == old(self).mode(),
            final(self).agent() == old(self).agent(),
    {
        proof {
            use_type_invariant(&*self);
        }
        let message = ChatMessage { role: ChatRole::User, content: self.input.clone() };
        let recorded = ChatMessage { role: ChatRole::User, content: self.input.clone() };
        let ghost before = self.messages@;
        let mut msgs: Vec<ChatMessage> = Vec::new();
        std::mem::swap(&mut msgs, &mut self.messages);
        msgs.push(recorded);
        self.messages = msgs;
        proof {
            assert(self.messages@.map_values(|m: ChatMessage| (m.role, m.content@)) =~= before.map_values(
                |m: ChatMessage| (m.role, m.content@),
            ).push((ChatRole::User, old(self).input@)));
        }
        self.character_index = 0;
        self.input = String::new();
        message
    }

    /// Handles a key: in normal mode `e` starts editing and `q` quits; while editing, a pressed
    /// key edits the input (`Enter` submits it, `Esc` stops editing).
    pub fn handle_key(&mut self, key: KeyCode, pressed: bool) -> (r: InputAction)
        ensures
            old(self).mode() == InputMode::Normal ==> {
                &&& final(self).text() == old(self).text()
                &&& final(self).cursor() == old(self).cursor()
                &&& final(self).history() == old(self).history()
                &&& (key == KeyCode::Char('e') ==> final(self).mode() == InputMode::Editing && r
                    == InputAction::Nothing)
                &&& (key == KeyCode::Char('q') ==> final(self).mode() == InputMode::Normal && r
                    == InputAction::Quit)
                &&& (key != KeyCode::Char('e') && key != KeyCode::Char('q') ==> final(self).mode()
                    == InputMode::Normal && r == InputAction::Nothing)
            },
            old(self).mode() == InputMode::Editing && !pressed ==> final(self).text() == old(
                self,
            ).text() && final(self).cursor() == old(self).cursor() && final(self).mode()
                == InputMode::Editing && final(self).history() == old(self).history() && r
                == InputAction::Nothing,
            old(self).mode() == InputMode::Editing && pressed ==> match key {
                KeyCode::Enter => (r matches InputAction::Submit(m) && m.role == ChatRole::User
                    && m.content@ == old(self).text()) && final(self).text() == Seq::<char>::empty()
                    && final(self).cursor() == 0 && final(self).history() == old(self).history().push(
                    (ChatRole::User, old(self).text()),
                ) && final(self).mode() == InputMode::Editing,
                KeyCode::Char(c) => final(self).text() == old(self).text().insert(
                    old(self).cursor() as int,
                    c,
                ) && final(self).cursor() == old(self).cursor() + 1 && r == InputAction::Nothing
                    && final(self).history() == old(self).history() && final(self).mode()
                    == InputMode::Editing,
                KeyCode::Esc => final(self).text() == old(self).text() && final(self).cursor()
                    == old(self).cursor() && final(self).mode() == InputMode::Normal && r
                    == InputAction::Nothing && final(self).history() == old(self).history(),
                KeyCode::Backspace => final(self).mode() == InputMode::Editing && r
                    == InputAction::Nothing && final(self).history() == old(self).history() && (
                old(self).cursor() == 0 ==> final(self).text() == old(self).text()
                    && final(self).cursor() == 0) && (old(self).cursor() != 0 ==> final(self).text()
                    == old(self).text().take(old(self).cursor() - 1) + old(self).text().skip(
                    old(self).cursor() as int,
                ) && final(self).cursor() == old(self).cursor() - 1),
                KeyCode::Left => final(self).mode() == InputMode::Editing && r == InputAction::Nothing
                    && final(self).history() == old(self).history() && final(self).text() == old(
                    self,
                ).text() && final(self).cursor() == (if old(self).cursor() == 0 {
                    0
                } else {
                    (old(self).cursor() - 1) as usize
                }),
                KeyCode::Right => final(self).mode() == InputMode::Editing && r == InputAction::Nothing
                    && final(self).history() == old(self).history() && final(self).text() == old(
                    self,
                ).text() && final(self).cursor() == (if old(self).cursor() < old(self).text().len() {
                    (old(self).cursor() + 1) as usize
                } else {
                    old(self).cursor()
                }),
                _ => final(self).mode() == InputMode::Editing && r == InputAction::Nothing
                    && final(self).history() == old(self).history() && final(self).text() == old(
                    self,
                ).text() && final(self).cursor() == old(self).cursor(),
            },
            final(self).agent() == old(self).agent(),
    {
        proof {
            use_type_invariant(&*self);
        }
        match self.input_mode {
            InputMode::Normal => {
                if key == KeyCode::Char('e') {
                    self.input_mode = InputMode::Editing;
                } else if key == KeyCode::Char('q') {
                    return InputAction::Quit;
                }
                InputAction::Nothing
            },
            InputMode::Editing => {
                if !pressed {
                    return InputAction::Nothing;
                }
                match key {
                    KeyCode::Enter => InputAction::Submit(self.submit_message()),
                    KeyCode::Char(c) => {
                        self.enter_char(c);
                        InputAction::Nothing
                    },
                    KeyCode::Backspace => {
                        self.delete_char();
                        InputAction::Nothing
                    },
                    KeyCode::Left => {
                        self.move_cursor_left();
                        InputAction::Nothing
                    },
                    KeyCode::Right => {
                        self.move_cursor_right();
                        InputAction::Nothing
                    },
                    KeyCode::Esc => {
                        self.input_mode = InputMode::Normal;
                        InputAction::Nothing
                    },
                    _ => InputAction::Nothing,
                }
            },
        }
    }
}

/// Law: typing a character and then deleting it gives back the text, with the cursor where it
/// was.
pub proof fn lemma_enter_then_delete(s: Seq<char>, cursor: int, c: char)
    requires
        0 <= cursor <= s.len(),
    ensures
        s.insert(cursor, c).take(cursor) + s.insert(cursor, c).skip(cursor + 1) == s,
{
    assert(s.insert(cursor, c).take(cursor) + s.insert(cursor, c).skip(cursor + 1) =~= s);
}

} // verus!
