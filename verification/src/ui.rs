//! The terminal interface: which pane has the focus, how keys move it, and the agent list.
pub mod user_input;
pub mod db_panel;

use crate::agents::{agent_display, AgentID, AgentIDView};
use vstd::prelude::*;

verus! {

/// The pane that has the focus.
#[derive(Debug, Clone, Copy, PartialEq, Eq, Structural)]
pub enum CurrentPane {
    Normal,
    Agents,
    Global,
    Docs,
    DB,
}

impl Default for CurrentPane {
    fn default() -> (r: Self)
        ensures
            r == CurrentPane::Normal,
    {
        CurrentPane::Normal
    }
}

/// A key as the interface tells keys apart.
#[derive(Debug, Clone, Copy, PartialEq, Eq, Structural)]
pub enum KeyCode {
    Char(char),
    Esc,
    Enter,
    Backspace,
    Left,
    Right,
    Up,
    Down,
    Other,
}

/// The key that selects a pane from the home pane, and the pane.
pub open spec fn pane_key(p: CurrentPane) -> char {
    match p {
        CurrentPane::Agents => 'a',
        CurrentPane::DB => 'b',
        CurrentPane::Docs => 'd',
        CurrentPane::Global => 'g',
        CurrentPane::Normal => 'q',
    }
}

/// The focus of the interface and whether it should quit.
pub struct Tui {
    pub current_pane: CurrentPane,
    pub should_quit: bool,
}

/// The pane a key leads to from `pane`, and whether it asks to quit: from the home pane the
/// selection keys `a`, `b`, `d`, `g` enter a pane and `q` quits; from any other pane `Esc`
/// goes back home.
pub open spec fn key_step(pane: CurrentPane, key: KeyCode) -> (CurrentPane, bool) {
    match pane {
        CurrentPane::Normal => match key {
            KeyCode::Char('a') => (CurrentPane::Agents, false),
            KeyCode::Char('b') => (CurrentPane::DB, false),
            KeyCode::Char('d') => (CurrentPane::Docs, false),
            KeyCode::Char('g') => (CurrentPane::Global, false),
            KeyCode::Char('q') => (CurrentPane::Normal, true),
            _ => (CurrentPane::Normal, false),
        },
        _ => match key {
            KeyCode::Esc => (CurrentPane::Normal, false),
            _ => (pane, false),
        },
    }
}

/// The agents pane: the agents, and the position of the selected one.
pub struct AgentProps {
    pub current_agent: usize,
    pub all_agents: Vec<AgentID>,
}

/// The documents pane.
pub struct DocsProps;

/// The pane of the global agent.
pub struct GlobalProps;

/// The database pane.
pub struct DBProps;

impl AgentProps {
    /// The key that selects the pane from the home pane, and the pane.
    pub fn select_me() -> (r: (KeyCode, CurrentPane))
        ensures
            r == (KeyCode::Char('a'), CurrentPane::Agents),
    {
        (KeyCode::Char('a'), CurrentPane::Agents)
    }
}

impl DBProps {
    /// The key that selects the pane from the home pane, and the pane.
    pub fn select_me() -> (r: (KeyCode, CurrentPane))
        ensures
            r == (KeyCode::Char('b'), CurrentPane::DB),
    {
        (KeyCode::Char('b'), CurrentPane::DB)
    }
}

impl DocsProps {
    /// The key that selects the pane from the home pane, and the pane.
    pub fn select_me() -> (r: (KeyCode, CurrentPane))
        ensures
            r == (KeyCode::Char('d'), CurrentPane::Docs),
    {
        (KeyCode::Char('d'), CurrentPane::Docs)
    }

    /// Keys in the documents pane: `Esc` goes home.
    pub fn handle_keyevent(tui: &mut Tui, key: KeyCode)
        ensures
            final(tui).current_pane == if key == KeyCode::Esc {
                CurrentPane::Normal
            } else {
                old(tui).current_pane
            },
            final(tui).should_quit == old(tui).should_quit,
    {
        if key == KeyCode::Esc {
            tui.current_pane = CurrentPane::Normal;
        }
    }
}

impl GlobalProps {
    /// The key that selects the pane from the home pane, and the pane.
    pub fn select_me() -> (r: (KeyCode, CurrentPane))
        ensures
            r == (KeyCode::Char('g'), CurrentPane::Global),
    {
        (KeyCode::Char('g'), CurrentPane::Global)
    }

    /// Keys in the global pane: `Esc` goes home.
    pub fn handle_keyevent(tui: &mut Tui, key: KeyCode)
        ensures
            final(tui).current_pane == if key == KeyCode::Esc {
                CurrentPane::Normal
            } else {
                old(tui).current_pane
            },
            final(tui).should_quit == old(tui).should_quit,
    {
        if key == KeyCode::Esc {
            tui.current_pane = CurrentPane::Normal;
        }
    }
}

impl Tui {
    /// The interface on the home pane, not quitting.
    pub fn new() -> (r: Self)
        ensures
            r.current_pane == CurrentPane::Normal,
            !r.should_quit,
    {
        Tui { current_pane: CurrentPane::default(), should_quit: false }
    }

    /// Moves the focus for a key; see `key_step`.
    pub fn handle_key_event(&mut self, key: KeyCode)
        ensures
            final(self).current_pane == key_step(old(self).current_pane, key).0,
            final(self).should_quit == (old(self).should_quit || key_step(
                old(self).current_pane,
                key,
            ).1),
    {
        match self.current_pane {
            CurrentPane::Normal => {
                if key == AgentProps::select_me().0 {
                    self.current_pane = AgentProps::select_me().1;
                } else if key == DBProps::select_me().0 {
                    self.current_pane = DBProps::select_me().1;
                } else if key == DocsProps::select_me().0 {
                    self.current_pane = DocsProps::select_me().1;
                } else if key == GlobalProps::select_me().0 {
                    self.current_pane = GlobalProps::select_me().1;
                } else if key == KeyCode::Char('q') {
                    self.should_quit = true;
                }
            },
            _ => {
                if key == KeyCode::Esc {
                    self.current_pane = CurrentPane::Normal;
                }
            },
        }
    }

    /// The top bar: the name of the focused pane, and the key that leaves it with what it does.
    pub fn top_bar(&self) -> (r: (&'static str, &'static str, &'static str))
        ensures
            r.0@ == match self.current_pane {
                CurrentPane::DB => "Database"@,
                CurrentPane::Docs => "Docs"@,
                CurrentPane::Agents => "Agents"@,
                CurrentPane::Global => "Global"@,
                CurrentPane::Normal => "Home"@,
            },
            self.current_pane == CurrentPane::Normal ==> r.1@ == "q"@ && r.2@ == " to quit"@,
            self.current_pane != CurrentPane::Normal ==> r.1@ == "Esc"@ && r.2@ == " to go back"@,
    {
        let (button, message) = if self.current_pane == CurrentPane::Normal {
            ("q", " to quit")
        } else {
            ("Esc", " to go back")
        };
        let pane = match self.current_pane {
            CurrentPane::DB => "Database",
            CurrentPane::Docs => "Docs",
            CurrentPane::Agents => "Agents",
            CurrentPane::Global => "Global",
            CurrentPane::Normal => "Home",
        };
        (pane, button, message)
    }
}

/// Law: from the home pane, the selection key of a pane enters it, and `Esc` leads back home.
pub proof fn lemma_select_then_escape(p: CurrentPane)
    requires
        p != CurrentPane::Normal,
    ensures
        key_step(CurrentPane::Normal, KeyCode::Char(pane_key(p))) == (p, false),
        key_step(p, KeyCode::Esc) == (CurrentPane::Normal, false),
{
}

impl AgentProps {
    /// Selects the previous agent, wrapping from the first to the last.
    pub fn prev_agent(&mut self)
        requires
            old(self).all_agents@.len() > 0,
        ensures
            final(self).all_agents@ == old(self).all_agents@,
            final(self).current_agent == prev_index(old(self).current_agent, old(self).all_agents@.len()),
    {
        if self.current_agent == 0 {
            self.current_agent = self.all_agents.len() - 1;
        } else {
            self.current_agent -= 1;
        }
    }

    /// Selects the next agent, wrapping from the last to the first.
    pub fn next_agent(&mut self)
        requires
            old(self).all_agents@.len() > 0,
            old(self).current_agent != usize::MAX,
        ensures
            final(self).all_agents@ == old(self).all_agents@,
            final(self).current_agent == next_index(old(self).current_agent, old(self).all_agents@.len()),
    {
        if self.current_agent == self.all_agents.len() - 1 {
            self.current_agent = 0;
        } else {
            self.current_agent += 1;
        }
    }

    /// Keys in the agents pane: `Esc` goes home, `Up` or `k` selects the next agent, `Down` or
    /// `j` the previous one.
    pub fn handle_keyevent(&mut self, tui: &mut Tui, key: KeyCode)
        requires
            (key == KeyCode::Up || key == KeyCode::Char('k') || key == KeyCode::Down || key
                == KeyCode::Char('j')) ==> old(self).all_agents@.len() > 0,
            (key == KeyCode::Up || key == KeyCode::Char('k')) ==> old(self).current_agent
                != usize::MAX,
        ensures
            final(self).all_agents@ == old(self).all_agents@,
            final(tui).current_pane == if key == KeyCode::Esc {
                CurrentPane::Normal
            } else {
                old(tui).current_pane
            },
            final(tui).should_quit == old(tui).should_quit,
            (key == KeyCode::Up || key == KeyCode::Char('k')) ==> final(self).current_agent
                == next_index(old(self).current_agent, old(self).all_agents@.len()),
            (key == KeyCode::Down || key == KeyCode::Char('j')) ==> final(self).current_agent
                == prev_index(old(self).current_agent, old(self).all_agents@.len()),
            !(key == KeyCode::Up || key == KeyCode::Char('k') || key == KeyCode::Down || key
                == KeyCode::Char('j')) ==> final(self).current_agent == old(self).current_agent,
    {
        if key == KeyCode::Esc {
            tui.current_pane = CurrentPane::Normal;
        } else if key == KeyCode::Up || key == KeyCode::Char('k') {
            self.next_agent();
        } else if key == KeyCode::Down || key == KeyCode::Char('j') {
            self.prev_agent();
        }
    }
}

impl AgentProps {
    /// The rows of the agents pane: each agent as it is shown, and whether it is the selected
    /// one (drawn highlighted). A document agent's identifier holds at least one `'/'`.
    pub fn list_items(&self) -> (r: Vec<(String, bool)>)
        requires
            forall|t: int|
                0 <= t < self.all_agents@.len() ==> ((#[trigger] self.all_agents@[t])@ matches AgentIDView::Uri(
                    s,
                ) ==> s.contains('/')),
        ensures
            r@.len() == self.all_agents@.len(),
            forall|t: int|
                0 <= t < r@.len() ==> (#[trigger] r@[t]).0@ == agent_display(self.all_agents@[t]@)
                    && r@[t].1 == (t == self.current_agent),
    {
        let mut out: Vec<(String, bool)> = Vec::new();
        let mut i: usize = 0;
        while i < self.all_agents.len()
            invariant
                i <= self.all_agents@.len(),
                out@.len() == i,
                forall|t: int|
                    0 <= t < self.all_agents@.len() ==> ((#[trigger] self.all_agents@[t])@ matches AgentIDView::Uri(
                        s,
                    ) ==> s.contains('/')),
                forall|t: int|
                    0 <= t < i ==> (#[trigger] out@[t]).0@ == agent_display(self.all_agents@[t]@)
                        && out@[t].1 == (t == self.current_agent),
            decreases self.all_agents@.len() - i,
        {
            let shown = self.all_agents[i].to_display_string();
            out.push((shown, i == self.current_agent));
            i += 1;
        }
        out
    }
}

/// The agent selected after `current` in a list of `len` agents.
pub open spec fn next_index(current: usize, len: nat) -> usize {
    if current == len - 1 {
        0
    } else {
        (current + 1) as usize
    }
}

/// The agent selected before `current` in a list of `len` agents.
pub open spec fn prev_index(current: usize, len: nat) -> usize {
    if current == 0 {
        (len - 1) as usize
    } else {
        (current - 1) as usize
    }
}

/// Law: within the list, selecting the next agent and then the previous one comes back to
/// the same agent, and so does the other order; both stay within the list.
pub proof fn lemma_next_prev_inverse(current: usize, len: nat)
    requires
        0 <= current < len,
        len <= usize::MAX,
    ensures
        next_index(current, len) < len,
        prev_index(current, len) < len,
        prev_index(next_index(current, len), len) == current,
        next_index(prev_index(current, len), len) == current,
{
}

} // verus!
