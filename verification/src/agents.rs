//! Identifiers of the language-model agents a document talks to.
use crate::text::{chars_of, trim, trim_bounds};
use crate::uri::{parse_uri, uri_parses};
use vstd::prelude::*;
use vstd::string::StringExecFns;
use vstd::utf8::encode_utf8;

verus! {

/// The character that names the global agent.
pub const GLOBAL_CHARACTER: char = '_';

/// Which agent a request is for: the global one, the one of a document, or a custom one.
#[derive(Debug, PartialEq, Eq, Hash)]
pub enum AgentID {
    Global,
    Uri(String),
    Char(char),
}

/// The mathematical value of an agent identifier.
pub enum AgentIDView {
    Global,
    Uri(Seq<char>),
    Char(char),
}

impl View for AgentID {
    type V = AgentIDView;

    open spec fn view(&self) -> AgentIDView {
        match self {
            AgentID::Global => AgentIDView::Global,
            AgentID::Uri(s) => AgentIDView::Uri(s@),
            AgentID::Char(c) => AgentIDView::Char(*c),
        }
    }
}

/// The agent a character names.
pub open spec fn agent_of_char(c: char) -> AgentIDView {
    if c == GLOBAL_CHARACTER {
        AgentIDView::Global
    } else {
        AgentIDView::Char(c)
    }
}

/// Index of the last `'/'` of `s` before position `end`, or -1.
pub open spec fn last_sep_before(s: Seq<char>, end: int) -> int
    decreases end,
{
    if end <= 0 {
        -1
    } else if s[end - 1] == '/' {
        end - 1
    } else {
        last_sep_before(s, end - 1)
    }
}

/// The last two `/`-separated components of `s`, joined by `/`: the part of `s` after its
/// second-to-last `'/'`.
pub open spec fn last_two_components(s: Seq<char>) -> Seq<char> {
    s.skip(last_sep_before(s, last_sep_before(s, s.len() as int)) + 1)
}

/// How an agent identifier is shown.
pub open spec fn agent_display(id: AgentIDView) -> Seq<char> {
    match id {
        AgentIDView::Global => "Global"@,
        AgentIDView::Uri(s) => last_two_components(s),
        AgentIDView::Char(c) => "Custom Agent("@ + seq![c] + ")"@,
    }
}

/// Errors about agents.
#[derive(Debug)]
pub enum AgentsError {
    Undefined(String),
    IncorrectAgentIDVariant(AgentID),
    AgentNotPresent(AgentID),
}

/// Last index of `'/'` in `v[..end]`.
fn find_last_sep(v: &Vec<char>, end: usize) -> (r: Option<usize>)
    requires
        end <= v@.len(),
    ensures
        match r {
            Some(i) => i as int == last_sep_before(v@, end as int),
            None => last_sep_before(v@, end as int) == -1,
        },
{
    let mut e = end;
    while e > 0
        invariant
            e <= end <= v@.len(),
            last_sep_before(v@, end as int) == last_sep_before(v@, e as int),
        decreases e,
    {
        if v[e - 1] == '/' {
            return Some(e - 1);
        }
        e -= 1;
    }
    None
}

/// `last_sep_before` is -1 or an index before `end`.
proof fn lemma_last_sep_range(s: Seq<char>, end: int)
    requires
        0 <= end <= s.len(),
    ensures
        -1 <= last_sep_before(s, end) < end,
    decreases end,
{
    if end > 0 && s[end - 1] != '/' {
        lemma_last_sep_range(s, end - 1);
    }
}

impl AgentID {
    /// The agent a character names: the global character names the global agent, any other
    /// character a custom agent.
    pub fn from_char(value: char) -> (r: AgentID)
        ensures
            r@ == agent_of_char(value),
    {
        if value == GLOBAL_CHARACTER {
            AgentID::Global
        } else {
            AgentID::Char(value)
        }
    }

    /// The agent a character names; every character names one.
    pub fn try_from_char(value: char) -> (r: Option<AgentID>)
        ensures
            r matches Some(id) && id@ == agent_of_char(value),
    {
        Some(Self::from_char(value))
    }

    /// Whether the two identifiers name the same agent.
    pub fn same(&self, other: &AgentID) -> (r: bool)
        ensures
            r == (self@ == other@),
    {
        match self {
            AgentID::Global => match other {
                AgentID::Global => true,
                _ => false,
            },
            AgentID::Uri(a) => match other {
                AgentID::Uri(b) => *a == *b,
                _ => false,
            },
            AgentID::Char(a) => match other {
                AgentID::Char(b) => *a == *b,
                _ => false,
            },
        }
    }

    /// A copy of the identifier.
    pub fn duplicate(&self) -> (r: AgentID)
        ensures
            r@ == self@,
    {
        match self {
            AgentID::Global => AgentID::Global,
            AgentID::Uri(s) => AgentID::Uri(s.clone()),
            AgentID::Char(c) => AgentID::Char(*c),
        }
    }

    /// The character of a custom agent.
    pub fn try_into_char(self) -> (r: Result<char, AgentsError>)
        ensures
            match self@ {
                AgentIDView::Char(c) => r == Ok::<char, AgentsError>(c),
                _ => (r matches Err(AgentsError::IncorrectAgentIDVariant(id)) && id@ == self@),
            },
    {
        match self {
            AgentID::Char(c) => Ok(c),
            _ => Err(AgentsError::IncorrectAgentIDVariant(self)),
        }
    }

    /// The URI of a document agent, when it parses as one.
    pub fn try_into_uri(self) -> (r: Result<String, AgentsError>)
        requires
            match self@ {
                AgentIDView::Uri(s) => encode_utf8(s).len() <= i32::MAX,
                _ => true,
            },
        ensures
            match self@ {
                AgentIDView::Uri(s) => if uri_parses(s) {
                    (r matches Ok(u) && u@ == s)
                } else {
                    r matches Err(AgentsError::Undefined(_))
                },
                _ => (r matches Err(AgentsError::IncorrectAgentIDVariant(id)) && id@ == self@),
            },
    {
        match self {
            AgentID::Uri(s) => {
                if parse_uri(s.as_str()) {
                    Ok(s)
                } else {
                    Err(AgentsError::Undefined(String::from_str("Could not create uri from str")))
                }
            },
            _ => Err(AgentsError::IncorrectAgentIDVariant(self)),
        }
    }

    /// How the agent is shown: `Global`, the last two path components of a document, or
    /// `Custom Agent(c)`. A document agent's identifier holds at least one `'/'`.
    pub fn to_display_string(&self) -> (r: String)
        requires
            self@ matches AgentIDView::Uri(s) ==> s.contains('/'),
        ensures
            r@ == agent_display(self@),
    {
        match self {
            AgentID::Global => String::from_str("Global"),
            AgentID::Uri(s) => {
                let v = chars_of(s.as_str());
                let last = find_last_sep(&v, v.len());
                proof {
                    lemma_last_sep_range(v@, v@.len() as int);
                    if let Some(i) = last {
                        lemma_last_sep_range(v@, i as int);
                    }
                }
                let start = match last {
                    Some(i) => match find_last_sep(&v, i) {
                        Some(j) => j + 1,
                        None => 0,
                    },
                    None => 0,
                };
                proof {
                    assert(v@.subrange(start as int, v@.len() as int) =~= v@.skip(start as int));
                }
                crate::text::string_from_range(&v, start, v.len())
            },
            AgentID::Char(c) => {
                let mut out = String::from_str("Custom Agent(");
                crate::text::push_char(&mut out, *c);
                out.append(")");
                out
            },
        }
    }
}

/// The agent a user names on the command line: a single character (after trimming) names an
/// agent by character, a longer name that parses as a URI names a document agent.
pub fn string_to_agent_id(agent_name: &str) -> (r: Option<AgentID>)
    requires
        trim(agent_name@).len() > 1 ==> encode_utf8(agent_name@).len() <= i32::MAX,
    ensures
        trim(agent_name@).len() <= 1 ==> agent_opt_view(r) == agent_id_of_name(agent_name@, false),
        trim(agent_name@).len() > 1 ==> agent_opt_view(r) == agent_id_of_name(
            agent_name@,
            uri_parses(agent_name@),
        ),
{
    let v = chars_of(agent_name);
    let (a, b) = trim_bounds(&v);
    let is_uri = if b - a > 1 {
        parse_uri(agent_name)
    } else {
        false
    };
    agent_id_from_name(agent_name, is_uri)
}

/// The value of an optional agent.
pub open spec fn agent_opt_view(o: Option<AgentID>) -> Option<AgentIDView> {
    match o {
        Some(id) => Some(id@),
        None => None,
    }
}

/// The agent named by `name`, given whether `name` parses as a URI.
pub open spec fn agent_id_of_name(name: Seq<char>, is_uri: bool) -> Option<AgentIDView> {
    let t = trim(name);
    if t.len() == 0 {
        None
    } else if t.len() == 1 {
        Some(agent_of_char(t[0]))
    } else if is_uri {
        Some(AgentIDView::Uri(name))
    } else {
        None
    }
}

/// The agent named by `agent_name`, where `is_uri` says whether the name parses as a URI
/// (it is consulted only for names longer than one character after trimming).
pub fn agent_id_from_name(agent_name: &str, is_uri: bool) -> (r: Option<AgentID>)
    ensures
        agent_opt_view(r) == agent_id_of_name(agent_name@, is_uri),
{
    let v = chars_of(agent_name);
    let (a, b) = trim_bounds(&v);
    if b - a == 0 {
        None
    } else if b - a == 1 {
        AgentID::try_from_char(v[a])
    } else if is_uri {
        Some(AgentID::Uri(String::from_str(agent_name)))
    } else {
        None
    }
}

} // verus!
