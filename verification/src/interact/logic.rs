//! Interact commands typed into comments: a command character followed by arguments.
use crate::text::{is_whitespace, is_ws, string_from_range, chars_of};
use vstd::prelude::*;

verus! {

/// One argument of an interact: a single character or a longer word.
#[derive(Debug, PartialEq, Eq)]
pub enum InteractArg {
    Char(char),
    String(String),
}

/// The mathematical value of an argument.
pub enum InteractArgView {
    Char(char),
    String(Seq<char>),
}

impl View for InteractArg {
    type V = InteractArgView;

    open spec fn view(&self) -> InteractArgView {
        match self {
            InteractArg::Char(c) => InteractArgView::Char(*c),
            InteractArg::String(s) => InteractArgView::String(s@),
        }
    }
}

impl InteractArg {
    /// The argument's character, when it is one.
    pub fn as_char(&self) -> (r: Option<&char>)
        ensures
            match self@ {
                InteractArgView::Char(c) => r == Some(&c),
                _ => r is None,
            },
    {
        match self {
            Self::Char(ch) => Some(ch),
            _ => None,
        }
    }

    /// The argument's word, when it is a longer one.
    pub fn as_string(&self) -> (r: Option<&str>)
        ensures
            match self@ {
                InteractArgView::String(s) => (r matches Some(t) && t@ == s),
                _ => r is None,
            },
    {
        match self {
            Self::String(s) => Some(s.as_str()),
            _ => None,
        }
    }
}

/// What an agent interact asks for.
#[derive(Debug, Clone, Copy, PartialEq, Eq, Structural)]
pub enum AgentInteract {
    Push,
    Prompt,
    RagPrompt,
}

impl AgentInteract {
    /// The command character of a push.
    pub const PUSH: char = '+';
    /// The command character of a prompt.
    pub const PROMPT: char = '@';

    /// The agent interact a command character names: `+` pushes, `@` prompts.
    pub fn try_from_char(value: char) -> (r: Option<AgentInteract>)
        ensures
            r == agent_interact_of_char(value),
    {
        if value == Self::PUSH {
            Some(AgentInteract::Push)
        } else if value == Self::PROMPT {
            Some(AgentInteract::Prompt)
        } else {
            None
        }
    }
}

/// The agent interact a command character names.
pub open spec fn agent_interact_of_char(c: char) -> Option<AgentInteract> {
    if c == '+' {
        Some(AgentInteract::Push)
    } else if c == '@' {
        Some(AgentInteract::Prompt)
    } else {
        None
    }
}

/// The interact that reports on the database.
#[derive(Debug, Clone, Copy, PartialEq, Eq, Structural)]
pub struct DBInteract;

impl DBInteract {
    /// The command character of a database interact.
    pub const DATABASE: char = '%';

    /// The database interact, named by `%`.
    pub fn try_from_char(value: char) -> (r: Option<DBInteract>)
        ensures
            r is Some <==> value == '%',
    {
        if value == Self::DATABASE {
            Some(DBInteract)
        } else {
            None
        }
    }
}

/// The kind of an interact.
#[derive(Debug, Clone, Copy, PartialEq, Eq, Structural)]
pub enum InteractVar {
    Agent(AgentInteract),
    DB(DBInteract),
}

/// A parsed interact: its kind and its arguments.
#[derive(Debug, PartialEq, Eq)]
pub struct Interact {
    pub variant: InteractVar,
    pub parsed_args: Vec<InteractArg>,
}

/// End of the run of whitespace of `s` that starts at `i`.
pub open spec fn ws_end(s: Seq<char>, i: int) -> int
    decreases s.len() - i,
{
    if 0 <= i < s.len() && is_ws(s[i]) {
        ws_end(s, i + 1)
    } else {
        i
    }
}

/// End of the run of non-whitespace of `s` that starts at `i`.
pub open spec fn word_end(s: Seq<char>, i: int) -> int
    decreases s.len() - i,
{
    if 0 <= i < s.len() && !is_ws(s[i]) {
        word_end(s, i + 1)
    } else {
        i
    }
}

/// A word run ends within the text, after its start, on whitespace or at the end.
pub proof fn lemma_word_end_bounds(s: Seq<char>, i: int)
    requires
        0 <= i <= s.len(),
    ensures
        i <= word_end(s, i) <= s.len(),
        forall|t: int| i <= t < word_end(s, i) ==> !is_ws(#[trigger] s[t]),
        word_end(s, i) < s.len() ==> is_ws(s[word_end(s, i)]),
    decreases s.len() - i,
{
    if i < s.len() && !is_ws(s[i]) {
        lemma_word_end_bounds(s, i + 1);
    }
}

/// The whitespace-separated words of `s` from position `i` on, as `str::split_whitespace`
/// yields them.
pub open spec fn words_from(s: Seq<char>, i: int) -> Seq<Seq<char>>
    decreases s.len() - i,
{
    if i < 0 || i >= s.len() {
        Seq::empty()
    } else if is_ws(s[i]) {
        words_from(s, i + 1)
    } else {
        let b = word_end(s, i + 1);
        proof {
            lemma_word_end_bounds(s, i + 1);
        }
        if b <= i {
            Seq::empty()
        } else {
            seq![s.subrange(i, b)] + words_from(s, b)
        }
    }
}

/// The argument a word stands for: its character when it has one, the word otherwise.
pub open spec fn arg_of_word(w: Seq<char>) -> InteractArgView {
    if w.len() == 1 {
        InteractArgView::Char(w[0])
    } else {
        InteractArgView::String(w)
    }
}

/// The arguments of the words of `s` from position `i` on.
pub open spec fn args_from(s: Seq<char>, i: int) -> Seq<InteractArgView> {
    words_from(s, i).map_values(|w: Seq<char>| arg_of_word(w))
}

/// The views of a list of arguments.
pub open spec fn arg_views(v: Seq<InteractArg>) -> Seq<InteractArgView> {
    v.map_values(|a: InteractArg| a@)
}

/// The interact that the text `s` holds: its first non-whitespace character is the command,
/// the words after it are the arguments.
pub open spec fn interact_of_str(s: Seq<char>) -> Option<(InteractVar, Seq<InteractArgView>)> {
    let p = ws_end(s, 0);
    if p >= s.len() {
        None
    } else if s[p] == '%' {
        Some((InteractVar::DB(DBInteract), args_from(s, p + 1)))
    } else {
        match agent_interact_of_char(s[p]) {
            Some(a) => Some((InteractVar::Agent(a), args_from(s, p + 1))),
            None => None,
        }
    }
}

/// A text of whitespace alone holds no interact.
pub proof fn lemma_blank_text_is_no_interact(s: Seq<char>)
    requires
        forall|k: int| 0 <= k < s.len() ==> is_ws(#[trigger] s[k]),
    ensures
        interact_of_str(s) is None,
{
    lemma_ws_end_at(s, 0, s.len() as int);
}

/// The text `seps[0] + words[0] + seps[1] + ... + words[n - 1] + seps[n]`: the words with the
/// runs between, before and after them.
pub open spec fn interleave(seps: Seq<Seq<char>>, words: Seq<Seq<char>>) -> Seq<char>
    decreases words.len(),
{
    if words.len() == 0 {
        if seps.len() > 0 {
            seps[0]
        } else {
            Seq::empty()
        }
    } else {
        seps[0] + words[0] + interleave(seps.drop_first(), words.drop_first())
    }
}

/// `words` are non-empty runs without whitespace, and `seps` the whitespace runs around them,
/// non-empty where they stand between two words.
spec fn spaced_words(seps: Seq<Seq<char>>, words: Seq<Seq<char>>) -> bool {
    &&& seps.len() == words.len() + 1
    &&& forall|j: int, k: int| 0 <= j < seps.len() && 0 <= k < seps[j].len() ==> is_ws(#[trigger] seps[j][k])
    &&& forall|j: int| 0 < j < words.len() ==> (#[trigger] seps[j]).len() > 0
    &&& forall|j: int| 0 <= j < words.len() ==> (#[trigger] words[j]).len() > 0
    &&& forall|j: int, k: int| 0 <= j < words.len() && 0 <= k < words[j].len() ==> !is_ws(#[trigger] words[j][k])
}

proof fn lemma_ws_end_at(s: Seq<char>, i: int, j: int)
    requires
        0 <= i <= j <= s.len(),
        forall|k: int| i <= k < j ==> is_ws(#[trigger] s[k]),
        j < s.len() ==> !is_ws(s[j]),
    ensures
        ws_end(s, i) == j,
    decreases j - i,
{
    if i < j {
        lemma_ws_end_at(s, i + 1, j);
    }
}

proof fn lemma_word_end_at(s: Seq<char>, i: int, j: int)
    requires
        0 <= i <= j <= s.len(),
        forall|k: int| i <= k < j ==> !is_ws(#[trigger] s[k]),
        j < s.len() ==> is_ws(s[j]),
    ensures
        word_end(s, i) == j,
    decreases j - i,
{
    if i < j {
        lemma_word_end_at(s, i + 1, j);
    }
}

proof fn lemma_words_from_skip_ws(s: Seq<char>, i: int, j: int)
    requires
        0 <= i <= j <= s.len(),
        forall|k: int| i <= k < j ==> is_ws(#[trigger] s[k]),
    ensures
        words_from(s, i) == words_from(s, j),
    decreases j - i,
{
    if i < j {
        lemma_words_from_skip_ws(s, i + 1, j);
    }
}

proof fn lemma_words_from_spaced(s: Seq<char>, i: int, seps: Seq<Seq<char>>, words: Seq<Seq<char>>)
    requires
        0 <= i <= s.len(),
        s.skip(i) == interleave(seps, words),
        spaced_words(seps, words),
    ensures
        words_from(s, i) == words,
    decreases words.len(),
{
    let x = s.skip(i);
    if words.len() == 0 {
        assert forall|k: int| i <= k < s.len() implies is_ws(#[trigger] s[k]) by {
            assert(s[k] == x[k - i]);
            assert(x[k - i] == seps[0][k - i]);
        }
        lemma_words_from_skip_ws(s, i, s.len() as int);
        assert(words_from(s, i) =~= words);
    } else {
        let a = seps[0].len() as int;
        let w = words[0].len() as int;
        let tail = interleave(seps.drop_first(), words.drop_first());
        assert(x == seps[0] + words[0] + tail);
        assert(x.len() == s.len() - i);
        let j = i + a;
        let y = j + w;
        assert(y + tail.len() == s.len());
        assert forall|k: int| i <= k < j implies is_ws(#[trigger] s[k]) by {
            assert(s[k] == x[k - i]);
            assert(x[k - i] == seps[0][k - i]);
        }
        assert forall|k: int| j <= k < y implies !is_ws(#[trigger] s[k]) by {
            assert(s[k] == x[k - i]);
            assert(x[k - i] == words[0][k - j]);
        }
        assert forall|k: int| 0 <= k < tail.len() implies #[trigger] s.skip(y)[k] == tail[k] by {
            assert(s.skip(y)[k] == s[y + k]);
            assert(s[y + k] == x[y + k - i]);
            assert(x[y + k - i] == tail[k]);
        }
        assert(s.skip(y) =~= tail);
        let seps2 = seps.drop_first();
        let words2 = words.drop_first();
        assert forall|j2: int, k: int| 0 <= j2 < seps2.len() && 0 <= k < seps2[j2].len() implies is_ws(#[trigger] seps2[j2][k]) by {
            assert(seps2[j2] == seps[j2 + 1]);
        }
        assert forall|j2: int| 0 < j2 < words2.len() implies (#[trigger] seps2[j2]).len() > 0 by {
            assert(seps2[j2] == seps[j2 + 1]);
        }
        assert forall|j2: int| 0 <= j2 < words2.len() implies (#[trigger] words2[j2]).len() > 0 by {
            assert(words2[j2] == words[j2 + 1]);
        }
        assert forall|j2: int, k: int| 0 <= j2 < words2.len() && 0 <= k < words2[j2].len() implies !is_ws(#[trigger] words2[j2][k]) by {
            assert(words2[j2] == words[j2 + 1]);
        }
        if y < s.len() {
            assert(s[y] == tail[0]);
            if words2.len() > 0 {
                assert(seps2[0] == seps[1]);
                assert(seps2[0].len() > 0);
                assert(tail[0] == seps2[0][0]);
            } else {
                assert(tail == seps2[0]);
                assert(tail[0] == seps2[0][0]);
            }
        }
        lemma_words_from_skip_ws(s, i, j);
        lemma_word_end_at(s, j + 1, y);
        lemma_words_from_spaced(s, y, seps2, words2);
        assert forall|k: int| 0 <= k < w implies #[trigger] s.subrange(j, y)[k] == words[0][k] by {
            assert(s[j + k] == x[j + k - i]);
        }
        assert(s.subrange(j, y) =~= words[0]);
        assert(words_from(s, j) == seq![s.subrange(j, y)] + words_from(s, y));
        assert(words =~= seq![words[0]] + words2);
    }
}

/// The arguments of an interact are its words, one each, in order: for a text made of
/// whitespace, a command character, and then words (non-empty, without whitespace) with
/// whitespace runs before, between (non-empty) and after them, the text is an interact exactly
/// when the command is `%`, `+` or `@`, and its arguments are the words, a one-character word
/// giving a character argument and a longer word a string argument.
pub proof fn lemma_interact_args_are_the_words(
    s: Seq<char>,
    lead: Seq<char>,
    cmd: char,
    seps: Seq<Seq<char>>,
    words: Seq<Seq<char>>,
)
    requires
        s == lead + seq![cmd] + interleave(seps, words),
        forall|k: int| 0 <= k < lead.len() ==> is_ws(#[trigger] lead[k]),
        !is_ws(cmd),
        seps.len() == words.len() + 1,
        forall|j: int, k: int| 0 <= j < seps.len() && 0 <= k < seps[j].len() ==> is_ws(#[trigger] seps[j][k]),
        forall|j: int| 0 < j < words.len() ==> (#[trigger] seps[j]).len() > 0,
        forall|j: int| 0 <= j < words.len() ==> (#[trigger] words[j]).len() > 0,
        forall|j: int, k: int| 0 <= j < words.len() && 0 <= k < words[j].len() ==> !is_ws(#[trigger] words[j][k]),
    ensures
        interact_of_str(s) is Some <==> (cmd == '%' || cmd == '+' || cmd == '@'),
        interact_of_str(s) matches Some((var, args)) ==> var == (if cmd == '%' {
            InteractVar::DB(DBInteract)
        } else if cmd == '+' {
            InteractVar::Agent(AgentInteract::Push)
        } else {
            InteractVar::Agent(AgentInteract::Prompt)
        }) && args.len() == words.len() && forall|j: int|
            0 <= j < words.len() ==> #[trigger] args[j] == (if words[j].len() == 1 {
                InteractArgView::Char(words[j][0])
            } else {
                InteractArgView::String(words[j])
            }),
{
    let p = lead.len() as int;
    assert forall|k: int| 0 <= k < p implies is_ws(#[trigger] s[k]) by {
        assert(s[k] == lead[k]);
    }
    assert(s[p] == cmd);
    lemma_ws_end_at(s, 0, p);
    assert(s.skip(p + 1) =~= interleave(seps, words));
    lemma_words_from_spaced(s, p + 1, seps, words);
    assert(words_from(s, p + 1) == words);
    assert forall|j: int| 0 <= j < words.len() implies #[trigger] args_from(s, p + 1)[j] == (if words[j].len() == 1 {
        InteractArgView::Char(words[j][0])
    } else {
        InteractArgView::String(words[j])
    }) by {
        assert(words_from(s, p + 1)[j] == words[j]);
    }
}

proof fn lemma_arg_views_push(s: Seq<InteractArg>, a: InteractArg)
    ensures
        arg_views(s.push(a)) == arg_views(s).push(a@),
{
    assert(arg_views(s.push(a)) =~= arg_views(s).push(a@));
}

/// The arguments of the words of `v[from..]`.
fn parse_args(v: &Vec<char>, from: usize) -> (r: Vec<InteractArg>)
    requires
        from <= v@.len(),
    ensures
        arg_views(r@) == args_from(v@, from as int),
{
    let ghost s = v@;
    let mut out: Vec<InteractArg> = Vec::new();
    let mut i = from;
    proof {
        assert(arg_views(out@) + args_from(s, i as int) =~= args_from(s, from as int));
    }
    while i < v.len()
        invariant
            s == v@,
            from <= i <= v@.len(),
            arg_views(out@) + args_from(s, i as int) == args_from(s, from as int),
        decreases v@.len() - i,
    {
        if is_whitespace(v[i]) {
            i += 1;
        } else {
            let start = i;
            i += 1;
            while i < v.len() && !is_whitespace(v[i])
                invariant
                    s == v@,
                    start < i <= v@.len(),
                    word_end(s, i as int) == word_end(s, start + 1),
                decreases v@.len() - i,
            {
                i += 1;
            }
            proof {
                lemma_word_end_bounds(s, start + 1);
            }
            let ghost before = arg_views(out@);
            let ghost out_before = out@;
            let ghost w = s.subrange(start as int, i as int);
            let arg = if i - start == 1 {
                assert(w.len() == 1 && w[0] == s[start as int]);
                InteractArg::Char(v[start])
            } else {
                let word = string_from_range(v, start, i);
                assert(word@ == w);
                InteractArg::String(word)
            };
            assert(arg@ == arg_of_word(w));
            let ghost arg_g = arg;
            out.push(arg);
            proof {
                lemma_arg_views_push(out_before, arg_g);
            }
            proof {
                assert(words_from(s, start as int) == seq![w] + words_from(s, i as int));
                assert(arg_views(out@) =~= before.push(arg_of_word(w)));
                assert(args_from(s, start as int) =~= seq![arg_of_word(w)] + args_from(s, i as int));
                assert(arg_views(out@) + args_from(s, i as int) =~= before + args_from(s, start as int));
            }
        }
    }
    proof {
        assert(arg_views(out@) =~= arg_views(out@) + args_from(s, i as int));
    }
    out
}

impl Interact {
    /// An interact of kind `variant` with the arguments `parsed_args`.
    pub fn new(variant: InteractVar, parsed_args: Vec<InteractArg>) -> (r: Self)
        ensures
            r.variant == variant,
            r.parsed_args == parsed_args,
    {
        Self { variant, parsed_args }
    }

    /// The interact written in `str`, if its first non-whitespace character is a command.
    pub fn try_from_str(str: &str) -> (r: Option<Self>)
        ensures
            match interact_of_str(str@) {
                None => r is None,
                Some((var, args)) => (r matches Some(i) && i.variant == var && arg_views(
                    i.parsed_args@,
                ) == args),
            },
    {
        let v = chars_of(str);
        let mut p: usize = 0;
        while p < v.len() && is_whitespace(v[p])
            invariant
                v@ == str@,
                p <= v@.len(),
                ws_end(v@, p as int) == ws_end(v@, 0),
            decreases v@.len() - p,
        {
            p += 1;
        }
        if p >= v.len() {
            return None;
        }
        let command_char = v[p];
        let agent = AgentInteract::try_from_char(command_char);
        let db = DBInteract::try_from_char(command_char);
        let variant = match db {
            Some(d) => InteractVar::DB(d),
            None => match agent {
                Some(a) => InteractVar::Agent(a),
                None => {
                    return None;
                },
            },
        };
        let parsed_args = parse_args(&v, p + 1);
        Some(Self::new(variant, parsed_args))
    }
}

} // verus!
