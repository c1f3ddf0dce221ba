//! What the server knows of a document: its tokens and the interacts found in them, and the
//! diagnostics published for it.
use crate::agents::{AgentID, AgentIDView, AgentsError};
use crate::diff::{align, diffs_terminate, lcs_walk_ends_within, seq_views, walk_lcs, Diff};
use crate::interact::agent::{lacks_agent_id, AgentInteractVarView};
use crate::interact::{interact_wrapper_of, InteractWrapper, InteractWrapperView};
use crate::position::{Diagnostic, DiagnosticSeverity, Range};
use crate::text::{chars_of, trim_bounds};
use crate::tokens::{Token, TokenVec, TokenView};
use vstd::prelude::*;
use vstd::string::StringExecFns;

verus! {

/// Knowledge of a document: its tokens and its interacts, keyed by range.
pub enum Knowledge {
    Document { tokens: TokenVec, interacts: Vec<(Range, InteractWrapper)> },
}

/// The views of a list of keyed interacts.
pub open spec fn pair_views(v: Seq<(Range, InteractWrapper)>) -> Seq<(Range, InteractWrapperView)> {
    v.map_values(|p: (Range, InteractWrapper)| (p.0, p.1@))
}

/// The map a list of keyed entries builds when inserted in order (a later entry replaces an
/// earlier one with the same key).
pub open spec fn as_map<K, W>(s: Seq<(K, W)>) -> Map<K, W>
    decreases s.len(),
{
    if s.len() == 0 {
        Map::empty()
    } else {
        as_map(s.drop_last()).insert(s.last().0, s.last().1)
    }
}

/// No two entries of `s` share a key.
pub open spec fn distinct_keys<K, W>(s: Seq<(K, W)>) -> bool {
    forall|a: int, b: int| 0 <= a < b < s.len() ==> #[trigger] s[a].0 != #[trigger] s[b].0
}

/// `v` with its entry for the key `e.0` replaced by `e`, or with `e` appended when it has none.
pub open spec fn upsert<K, W>(v: Seq<(K, W)>, e: (K, W)) -> Seq<(K, W)> {
    if exists|i: int| 0 <= i < v.len() && #[trigger] v[i].0 == e.0 {
        v.update(choose|i: int| 0 <= i < v.len() && #[trigger] v[i].0 == e.0, e)
    } else {
        v.push(e)
    }
}

/// The list the entries of `s` build when each is upserted in order: one entry per key, in
/// the order the keys first occur, each with the last value given for it.
pub open spec fn upsert_all<K, W>(s: Seq<(K, W)>) -> Seq<(K, W)>
    decreases s.len(),
{
    if s.len() == 0 {
        Seq::empty()
    } else {
        upsert(upsert_all(s.drop_last()), s.last())
    }
}

/// The position a difference names.
pub open spec fn diff_pos<V>(d: Diff<V>) -> int {
    match d {
        Diff::Insert(p, _) => p as int,
        Diff::Delete(p) => p as int,
        Diff::Change(p, _) => p as int,
    }
}

/// For each difference in turn, the comment of `old` at the position it names, with the
/// interact that comment holds, when it holds one.
pub open spec fn touched(old: Seq<TokenView>, diffs: Seq<Diff<TokenView>>) -> Seq<(Range, InteractWrapperView)>
    decreases diffs.len(),
{
    if diffs.len() == 0 {
        Seq::empty()
    } else {
        let rest = touched(old, diffs.drop_last());
        let idx = diff_pos(diffs.last());
        if 0 <= idx < old.len() {
            match old[idx] {
                TokenView::Comment(_, range) => match interact_wrapper_of(old, old[idx], idx) {
                    Some(w) => rest.push((range, w)),
                    None => rest,
                },
                _ => rest,
            }
        } else {
            rest
        }
    }
}

/// Every difference of an edit script brings in the interact of the old comment at the
/// position it names, whatever its kind (deletion, insertion or change): when the position `p`
/// of difference `t` holds a comment of `old` with range `r` and that comment holds the
/// interact `w`, the touched interacts have an entry for `r`; and when no later difference
/// names a comment with range `r` that holds an interact, that entry is `w`.
pub proof fn lemma_touched_has_every_named_comment(
    old: Seq<TokenView>,
    diffs: Seq<Diff<TokenView>>,
    t: int,
    p: int,
    r: Range,
    w: InteractWrapperView,
)
    requires
        0 <= t < diffs.len(),
        p == match diffs[t] {
            Diff::Insert(q, _) => q as int,
            Diff::Delete(q) => q as int,
            Diff::Change(q, _) => q as int,
        },
        0 <= p < old.len(),
        old[p] matches TokenView::Comment(_, range) && range == r,
        interact_wrapper_of(old, old[p], p) == Some(w),
    ensures
        touched(old, diffs).contains((r, w)),
        as_map(touched(old, diffs)).dom().contains(r),
        (forall|u: int|
            #![trigger diffs[u]]
            t < u < diffs.len() ==> {
                let q = match diffs[u] {
                    Diff::Insert(q, _) => q as int,
                    Diff::Delete(q) => q as int,
                    Diff::Change(q, _) => q as int,
                };
                !(0 <= q < old.len() && (old[q] matches TokenView::Comment(_, range) && range == r)
                    && interact_wrapper_of(old, old[q], q) is Some)
            }) ==> as_map(touched(old, diffs))[r] == w,
    decreases diffs.len(),
{
    let n = diffs.len();
    let init = diffs.drop_last();
    let rest = touched(old, init);
    if t == n - 1 {
        assert(diffs.last() == diffs[t]);
        assert(touched(old, diffs) == rest.push((r, w)));
        assert(rest.push((r, w)).drop_last() =~= rest);
        assert(rest.push((r, w))[rest.len() as int] == (r, w));
    } else {
        assert(init[t] == diffs[t]);
        lemma_touched_has_every_named_comment(old, init, t, p, r, w);
        let j = choose|j: int| 0 <= j < rest.len() && rest[j] == (r, w);
        let last = diffs.last();
        let q = diff_pos(last);
        if 0 <= q < old.len() && old[q] is Comment && interact_wrapper_of(old, old[q], q) is Some {
            let e = (old[q]->Comment_1, interact_wrapper_of(old, old[q], q)->0);
            assert(touched(old, diffs) == rest.push(e));
            assert(rest.push(e).drop_last() =~= rest);
            assert(rest.push(e)[j] == (r, w));
            if forall|u: int|
                #![trigger diffs[u]]
                t < u < diffs.len() ==> {
                    let q = match diffs[u] {
                        Diff::Insert(q, _) => q as int,
                        Diff::Delete(q) => q as int,
                        Diff::Change(q, _) => q as int,
                    };
                    !(0 <= q < old.len() && (old[q] matches TokenView::Comment(_, range) && range
                        == r) && interact_wrapper_of(old, old[q], q) is Some)
                } {
                assert(diffs[n - 1] == last);
                assert(e.0 != r);
                assert forall|u: int|
                    #![trigger init[u]]
                    t < u < init.len() implies {
                        let q = match init[u] {
                            Diff::Insert(q, _) => q as int,
                            Diff::Delete(q) => q as int,
                            Diff::Change(q, _) => q as int,
                        };
                        !(0 <= q < old.len() && (old[q] matches TokenView::Comment(_, range) && range
                            == r) && interact_wrapper_of(old, old[q], q) is Some)
                    } by {
                    assert(init[u] == diffs[u]);
                }
            }
        } else {
            assert(touched(old, diffs) == rest);
            if forall|u: int|
                #![trigger diffs[u]]
                t < u < diffs.len() ==> {
                    let q = match diffs[u] {
                        Diff::Insert(q, _) => q as int,
                        Diff::Delete(q) => q as int,
                        Diff::Change(q, _) => q as int,
                    };
                    !(0 <= q < old.len() && (old[q] matches TokenView::Comment(_, range) && range
                        == r) && interact_wrapper_of(old, old[q], q) is Some)
                } {
                assert forall|u: int|
                    #![trigger init[u]]
                    t < u < init.len() implies {
                        let q = match init[u] {
                            Diff::Insert(q, _) => q as int,
                            Diff::Delete(q) => q as int,
                            Diff::Change(q, _) => q as int,
                        };
                        !(0 <= q < old.len() && (old[q] matches TokenView::Comment(_, range) && range
                            == r) && interact_wrapper_of(old, old[q], q) is Some)
                    } by {
                    assert(init[u] == diffs[u]);
                }
            }
        }
    }
}

/// Each touched interact comes from a difference of the script: the position it names holds
/// a comment of `old` with the entry's range, and that comment holds the entry's interact.
pub proof fn lemma_touched_entries_come_from_script(old: Seq<TokenView>, diffs: Seq<Diff<TokenView>>)
    ensures
        forall|j: int|
            0 <= j < touched(old, diffs).len() ==> exists|t: int|
                #![trigger diffs[t]]
                0 <= t < diffs.len() && {
                    let q = match diffs[t] {
                        Diff::Insert(q, _) => q as int,
                        Diff::Delete(q) => q as int,
                        Diff::Change(q, _) => q as int,
                    };
                    0 <= q < old.len() && (old[q] matches TokenView::Comment(_, range) && range
                        == (#[trigger] touched(old, diffs)[j]).0) && interact_wrapper_of(old, old[q], q)
                        == Some(touched(old, diffs)[j].1)
                },
    decreases diffs.len(),
{
    if diffs.len() > 0 {
        let init = diffs.drop_last();
        let rest = touched(old, init);
        lemma_touched_entries_come_from_script(old, init);
        let n = diffs.len();
        assert(diffs.last() == diffs[n - 1]);
        assert forall|j: int| 0 <= j < touched(old, diffs).len() implies exists|t: int|
            #![trigger diffs[t]]
            0 <= t < diffs.len() && {
                let q = match diffs[t] {
                    Diff::Insert(q, _) => q as int,
                    Diff::Delete(q) => q as int,
                    Diff::Change(q, _) => q as int,
                };
                0 <= q < old.len() && (old[q] matches TokenView::Comment(_, range) && range
                    == (#[trigger] touched(old, diffs)[j]).0) && interact_wrapper_of(old, old[q], q)
                    == Some(touched(old, diffs)[j].1)
            } by {
            if j < rest.len() {
                assert(touched(old, diffs)[j] == rest[j]);
                let t = choose|t: int|
                    #![trigger init[t]]
                    0 <= t < init.len() && {
                        let q = match init[t] {
                            Diff::Insert(q, _) => q as int,
                            Diff::Delete(q) => q as int,
                            Diff::Change(q, _) => q as int,
                        };
                        0 <= q < old.len() && (old[q] matches TokenView::Comment(_, range) && range
                            == (#[trigger] rest[j]).0) && interact_wrapper_of(old, old[q], q)
                            == Some(rest[j].1)
                    };
                assert(init[t] == diffs[t]);
            } else {
                assert(j == n - 1 || j == rest.len());
                assert(diffs[n - 1] == diffs.last());
            }
        }
    }
}

/// The edit script of the tokens of a document.
pub open spec fn token_script(old: Seq<TokenView>, new: Seq<TokenView>) -> Seq<Diff<TokenView>> {
    align(old, new, walk_lcs(old, new), 0, 0)
}

/// No position the edit names holds a comment that names no agent.
pub open spec fn touched_comments_name_agents(old: Seq<TokenView>, new: Seq<TokenView>) -> bool {
    forall|t: int|
        0 <= t < token_script(old, new).len() && 0 <= diff_pos(#[trigger] token_script(old, new)[t])
            < old.len() ==> !lacks_agent_id(old[diff_pos(token_script(old, new)[t])])
}

proof fn lemma_as_map_update<K, W>(s: Seq<(K, W)>, p: int, k: K, w: W)
    requires
        0 <= p < s.len(),
        s[p].0 == k,
        distinct_keys(s),
    ensures
        as_map(s.update(p, (k, w))) == as_map(s).insert(k, w),
        distinct_keys(s.update(p, (k, w))),
    decreases s.len(),
{
    let u = s.update(p, (k, w));
    if p == s.len() - 1 {
        assert(u.drop_last() =~= s.drop_last());
        assert(as_map(s).insert(k, w) =~= as_map(s.drop_last()).insert(k, w));
    } else {
        assert(u.drop_last() =~= s.drop_last().update(p, (k, w)));
        assert(distinct_keys(s.drop_last()));
        lemma_as_map_update(s.drop_last(), p, k, w);
        assert(s.last().0 != k);
        assert(as_map(u) =~= as_map(s).insert(k, w));
    }
}

proof fn lemma_pair_views_update(v: Seq<(Range, InteractWrapper)>, p: int, e: (Range, InteractWrapper))
    requires
        0 <= p < v.len(),
    ensures
        pair_views(v.update(p, e)) == pair_views(v).update(p, (e.0, e.1@)),
{
    assert(pair_views(v.update(p, e)) =~= pair_views(v).update(p, (e.0, e.1@)));
}

proof fn lemma_pair_views_push(v: Seq<(Range, InteractWrapper)>, e: (Range, InteractWrapper))
    ensures
        pair_views(v.push(e)) == pair_views(v).push((e.0, e.1@)),
{
    assert(pair_views(v.push(e)) =~= pair_views(v).push((e.0, e.1@)));
}

/// Inserts `(range, w)` into the list of keyed interacts, replacing the entry with that range.
fn insert_interact(v: &mut Vec<(Range, InteractWrapper)>, range: Range, w: InteractWrapper)
    requires
        distinct_keys(pair_views(old(v)@)),
    ensures
        distinct_keys(pair_views(final(v)@)),
        as_map(pair_views(final(v)@)) == as_map(pair_views(old(v)@)).insert(range, w@),
        pair_views(final(v)@) == upsert(pair_views(old(v)@), (range, w@)),
{
    let ghost wv = w@;
    let mut i: usize = 0;
    while i < v.len()
        invariant
            v@ == old(v)@,
            distinct_keys(pair_views(old(v)@)),
            wv == w@,
            i <= v@.len(),
            forall|t: int| 0 <= t < i ==> (#[trigger] v@[t]).0 != range,
        decreases v@.len() - i,
    {
        if v[i].0 == range {
            let ghost before = pair_views(v@);
            let entry = (range, w);
            let ghost eg = entry;
            v.set(i, entry);
            proof {
                lemma_pair_views_update(old(v)@, i as int, eg);
                lemma_as_map_update(before, i as int, range, wv);
                assert(before[i as int].0 == range);
                let c = choose|c: int| 0 <= c < before.len() && #[trigger] before[c].0 == range;
                assert(0 <= c < before.len() && before[c].0 == range);
                if c != i as int {
                    if c < i as int {
                        assert(before[c].0 != before[i as int].0);
                    } else {
                        assert(before[i as int].0 != before[c].0);
                    }
                }
            }
            return;
        }
        i += 1;
    }
    let ghost before = pair_views(v@);
    let entry = (range, w);
    let ghost eg = entry;
    v.push(entry);
    proof {
        lemma_pair_views_push(old(v)@, eg);
        assert(!(exists|c: int| 0 <= c < before.len() && #[trigger] before[c].0 == range)) by {
            assert forall|c: int| 0 <= c < before.len() implies #[trigger] before[c].0 != range by {
                assert(old(v)@[c].0 != range);
            }
        }
        let after = pair_views(v@);
        assert(after.drop_last() =~= before);
        assert forall|a: int, b: int| 0 <= a < b < after.len() implies #[trigger] after[a].0
            != #[trigger] after[b].0 by {
            if b == after.len() - 1 {
                assert(old(v)@[a].0 != range);
            }
        }
    }
}

impl Knowledge {
    /// Knowledge of a document lexed into `new_tokens`: when the document was known before,
    /// the interacts of its old tokens at the positions the edit script from the old tokens
    /// to the new ones names, one per comment range (in the order the ranges are first met,
    /// the last interact met for a range winning); none otherwise.
    pub fn document_from_edit(old: Option<TokenVec>, new_tokens: TokenVec) -> (r: Knowledge)
        requires
            old matches Some(o) ==> diffs_terminate(o@.0, new_tokens@.0)
                && touched_comments_name_agents(o@.0, new_tokens@.0),
        ensures
            r matches Knowledge::Document { tokens, interacts } && tokens@ == new_tokens@
                && distinct_keys(pair_views(interacts@)) && as_map(pair_views(interacts@))
                == match old {
                Some(o) => as_map(touched(o@.0, token_script(o@.0, new_tokens@.0))),
                None => Map::empty(),
            } && pair_views(interacts@) == match old {
                Some(o) => upsert_all(touched(o@.0, token_script(o@.0, new_tokens@.0))),
                None => Seq::empty(),
            },
    {
        let mut interacts: Vec<(Range, InteractWrapper)> = Vec::new();
        proof {
            assert(pair_views(interacts@) =~= Seq::empty());
        }
        if let Some(old_tokens) = old {
            let ghost a = old_tokens@.0;
            let ghost b = new_tokens@.0;
            let old_vec = old_tokens.as_ref();
            let new_vec = new_tokens.as_ref();
            proof {
                assert(seq_views(old_vec@) =~= a);
                assert(seq_views(new_vec@) =~= b);
            }
            let diff = Diff::get_diffs(old_vec, new_vec);
            let ghost script = token_script(a, b);
            assert(crate::diff::diff_views(diff@) == script);
            let mut t: usize = 0;
            while t < diff.len()
                invariant
                    a == old_tokens@.0,
                    script == token_script(a, b),
                    crate::diff::diff_views(diff@) == script,
                    touched_comments_name_agents(a, b),
                    t <= diff@.len(),
                    distinct_keys(pair_views(interacts@)),
                    as_map(pair_views(interacts@)) == as_map(touched(a, script.take(t as int))),
                    pair_views(interacts@) == upsert_all(touched(a, script.take(t as int))),
                decreases diff@.len() - t,
            {
                proof {
                    assert(script.take(t + 1).drop_last() =~= script.take(t as int));
                    assert(script.take(t + 1).last() == script[t as int]);
                    assert(script[t as int] == diff@[t as int]@);
                }
                let idx = match &diff[t] {
                    Diff::Delete(idx) => *idx,
                    Diff::Insert(idx, _) => *idx,
                    Diff::Change(idx, _) => *idx,
                };
                let ghost prev = touched(a, script.take(t as int));
                proof {
                    assert(diff_pos(script[t as int]) == idx);
                }
                if let Some(tok) = old_tokens.get(idx) {
                    if let Token::Comment(c) = tok {
                        let range = c.range;
                        proof {
                            assert(tok@ == a[idx as int]);
                            assert(!lacks_agent_id(a[idx as int]));
                        }
                        match InteractWrapper::try_from(&old_tokens, tok, idx) {
                            Ok(w) => {
                                let ghost wg = w@;
                                proof {
                                    assert(touched(a, script.take(t + 1)) == prev.push((range, wg)));
                                    assert(prev.push((range, wg)).drop_last() =~= prev);
                                }
                                insert_interact(&mut interacts, range, w);
                            },
                            Err(_) => {
                                proof {
                                    assert(touched(a, script.take(t + 1)) == prev);
                                }
                            },
                        }
                    } else {
                        proof {
                            assert(touched(a, script.take(t + 1)) == prev);
                        }
                    }
                } else {
                    proof {
                        assert(touched(a, script.take(t + 1)) == prev);
                    }
                }
                t += 1;
            }
            proof {
                assert(script.take(t as int) =~= script);
            }
        }
        Knowledge::Document { tokens: new_tokens, interacts }
    }
}


/// Whether `tok` is a comment that is a lone `+` or `@`, naming no agent.
fn names_no_agent(tok: &Token) -> (r: bool)
    ensures
        r == lacks_agent_id(tok@),
{
    match tok {
        Token::Comment(c) => {
            let v = chars_of(c.content.as_str());
            let (a, b) = trim_bounds(&v);
            b - a == 1 && (v[a] == '+' || v[a] == '@')
        },
        _ => false,
    }
}

impl Knowledge {
    /// Whether `document_from_edit` can take in the edit from `old` to `new`: the edit script
    /// between them can be computed, and no position it names holds a lone `+` or `@`. The
    /// common subsequence is searched for with at most `max_steps` steps of its walk: `false`
    /// also where that walk needs more.
    pub fn edit_is_supported(old: &TokenVec, new: &TokenVec, max_steps: u64) -> (r: bool)
        ensures
            r ==> diffs_terminate(old@.0, new@.0) && touched_comments_name_agents(old@.0, new@.0),
            !r ==> !lcs_walk_ends_within(old@.0, new@.0, max_steps as nat) || !(diffs_terminate(
                old@.0,
                new@.0,
            ) && touched_comments_name_agents(old@.0, new@.0)),
    {
        let ghost a = old@.0;
        let ghost b = new@.0;
        let old_vec = old.as_ref();
        let new_vec = new.as_ref();
        proof {
            assert(seq_views(old_vec@) =~= a);
            assert(seq_views(new_vec@) =~= b);
        }
        if !Diff::walk_ends(old_vec, new_vec, max_steps) {
            return false;
        }
        let diff = Diff::get_diffs(old_vec, new_vec);
        let ghost script = token_script(a, b);
        assert(crate::diff::diff_views(diff@) == script);
        let mut t: usize = 0;
        while t < diff.len()
            invariant
                a == old@.0,
                b == new@.0,
                script == token_script(a, b),
                crate::diff::diff_views(diff@) == script,
                t <= diff@.len(),
                forall|u: int|
                    0 <= u < t && 0 <= diff_pos(#[trigger] script[u]) < a.len() ==> !lacks_agent_id(
                        a[diff_pos(script[u])],
                    ),
            decreases diff@.len() - t,
        {
            let idx = match &diff[t] {
                Diff::Delete(idx) => *idx,
                Diff::Insert(idx, _) => *idx,
                Diff::Change(idx, _) => *idx,
            };
            proof {
                assert(script[t as int] == diff@[t as int]@);
                assert(diff_pos(script[t as int]) == idx);
            }
            if let Some(tok) = old.get(idx) {
                if names_no_agent(tok) {
                    proof {
                        assert(tok@ == a[idx as int]);
                        assert(0 <= diff_pos(token_script(a, b)[t as int]) < a.len());
                        assert(lacks_agent_id(a[diff_pos(token_script(a, b)[t as int])]));
                    }
                    return false;
                }
            }
            t += 1;
        }
        true
    }
}

/// Diagnostics to send for a document: clear the old ones, or publish new ones.
pub enum LspDiagnostic {
    ClearDiagnostics(String),
    Publish(PublishDiagnosticsParams),
}

/// The diagnostics to publish for a document, and the document's version if known.
pub struct PublishDiagnosticsParams {
    pub uri: String,
    pub diagnostics: Vec<Diagnostic>,
    pub version: Option<i32>,
}

/// The range of the comment an interact stands in.
pub open spec fn interact_range(w: InteractWrapperView) -> Range {
    match w {
        InteractWrapperView::Agent(a) => a.range,
        InteractWrapperView::DB(d) => d.range,
    }
}

/// The hint an interact shows.
pub open spec fn interact_message(w: InteractWrapperView) -> Seq<char> {
    match w {
        InteractWrapperView::Agent(a) => match a.var {
            AgentInteractVarView::Push(_) => "Push"@,
            AgentInteractVarView::Prompt(_) => "Prompt"@,
        },
        InteractWrapperView::DB(_) => "Database Status"@,
    }
}

/// The agent of the first agent interact of `ws` that is not among `agents`.
pub open spec fn first_missing_agent(ws: Seq<InteractWrapperView>, agents: Seq<AgentIDView>) -> Option<AgentIDView>
    decreases ws.len(),
{
    if ws.len() == 0 {
        None
    } else {
        match ws[0] {
            InteractWrapperView::Agent(a) => if agents.contains(a.agent_id) {
                first_missing_agent(ws.drop_first(), agents)
            } else {
                Some(a.agent_id)
            },
            _ => first_missing_agent(ws.drop_first(), agents),
        }
    }
}

/// The search for a missing agent looks at every agent interact, whatever kind of identifier
/// it names: it finds nothing exactly when the agent of every agent interact is among
/// `agents`, and otherwise it finds the agent of the first agent interact whose agent is not.
pub proof fn lemma_first_missing_agent_is_first_unknown(ws: Seq<InteractWrapperView>, agents: Seq<AgentIDView>)
    ensures
        first_missing_agent(ws, agents) is None <==> forall|t: int|
            0 <= t < ws.len() ==> ((#[trigger] ws[t]) matches InteractWrapperView::Agent(a)
                ==> agents.contains(a.agent_id)),
        first_missing_agent(ws, agents) matches Some(x) ==> exists|t: int|
            0 <= t < ws.len() && ((#[trigger] ws[t]) matches InteractWrapperView::Agent(a)
                && a.agent_id == x) && !agents.contains(x) && forall|u: int|
                0 <= u < t ==> ((#[trigger] ws[u]) matches InteractWrapperView::Agent(b)
                    ==> agents.contains(b.agent_id)),
    decreases ws.len(),
{
    if ws.len() > 0 {
        let rest = ws.drop_first();
        lemma_first_missing_agent_is_first_unknown(rest, agents);
        assert forall|t: int| 1 <= t < ws.len() implies ws[t] == rest[t - 1] by {}
        match ws[0] {
            InteractWrapperView::Agent(a) => {
                if agents.contains(a.agent_id) {
                    if first_missing_agent(rest, agents) is None {
                        assert forall|t: int| 0 <= t < ws.len() implies ((#[trigger] ws[t]) matches InteractWrapperView::Agent(a)
                            ==> agents.contains(a.agent_id)) by {
                            if t > 0 {
                                assert(ws[t] == rest[t - 1]);
                            }
                        }
                    } else {
                        let x = first_missing_agent(rest, agents)->0;
                        let t = choose|t: int|
                            0 <= t < rest.len() && ((#[trigger] rest[t]) matches InteractWrapperView::Agent(a)
                                && a.agent_id == x) && !agents.contains(x) && forall|u: int|
                                0 <= u < t ==> ((#[trigger] rest[u]) matches InteractWrapperView::Agent(b)
                                    ==> agents.contains(b.agent_id));
                        assert(ws[t + 1] == rest[t]);
                        assert forall|u: int| 0 <= u < t + 1 implies ((#[trigger] ws[u]) matches InteractWrapperView::Agent(b)
                            ==> agents.contains(b.agent_id)) by {
                            if u > 0 {
                                assert(ws[u] == rest[u - 1]);
                            }
                        }
                        assert(!(forall|t: int|
                            0 <= t < ws.len() ==> ((#[trigger] ws[t]) matches InteractWrapperView::Agent(a)
                                ==> agents.contains(a.agent_id))));
                    }
                } else {
                    assert(ws[0] matches InteractWrapperView::Agent(b) && b.agent_id == a.agent_id);
                }
            },
            _ => {
                if first_missing_agent(rest, agents) is None {
                    assert forall|t: int| 0 <= t < ws.len() implies ((#[trigger] ws[t]) matches InteractWrapperView::Agent(a)
                        ==> agents.contains(a.agent_id)) by {
                        if t > 0 {
                            assert(ws[t] == rest[t - 1]);
                        }
                    }
                } else {
                    let x = first_missing_agent(rest, agents)->0;
                    let t = choose|t: int|
                        0 <= t < rest.len() && ((#[trigger] rest[t]) matches InteractWrapperView::Agent(a)
                            && a.agent_id == x) && !agents.contains(x) && forall|u: int|
                            0 <= u < t ==> ((#[trigger] rest[u]) matches InteractWrapperView::Agent(b)
                                ==> agents.contains(b.agent_id));
                    assert(ws[t + 1] == rest[t]);
                    assert forall|u: int| 0 <= u < t + 1 implies ((#[trigger] ws[u]) matches InteractWrapperView::Agent(b)
                        ==> agents.contains(b.agent_id)) by {
                        if u > 0 {
                            assert(ws[u] == rest[u - 1]);
                        }
                    }
                    assert(!(forall|t: int|
                        0 <= t < ws.len() ==> ((#[trigger] ws[t]) matches InteractWrapperView::Agent(a)
                            ==> agents.contains(a.agent_id))));
                }
            },
        }
    }
}

/// The interacts of a knowledge entry, in order.
pub open spec fn knowledge_interacts(k: Option<&Knowledge>) -> Seq<InteractWrapperView> {
    match k {
        Some(Knowledge::Document { interacts, .. }) => pair_views(interacts@).map_values(
            |p: (Range, InteractWrapperView)| p.1,
        ),
        None => Seq::empty(),
    }
}

/// The views of a list of agent identifiers.
pub open spec fn agent_views(v: Seq<AgentID>) -> Seq<AgentIDView> {
    v.map_values(|a: AgentID| a@)
}

/// Whether `id` is in `agents`.
fn contains_agent(agents: &Vec<AgentID>, id: &AgentID) -> (r: bool)
    ensures
        r == agent_views(agents@).contains(id@),
{
    let mut i: usize = 0;
    while i < agents.len()
        invariant
            i <= agents@.len(),
            forall|t: int| 0 <= t < i ==> (#[trigger] agents@[t])@ != id@,
        decreases agents@.len() - i,
    {
        if agents[i].same(id) {
            proof {
                assert(agent_views(agents@)[i as int] == id@);
            }
            return true;
        }
        i += 1;
    }
    proof {
        if agent_views(agents@).contains(id@) {
            let t = choose|t: int| 0 <= t < agent_views(agents@).len() && agent_views(agents@)[t] == id@;
            assert(agents@[t]@ == id@);
        }
    }
    false
}

impl LspDiagnostic {
    /// The diagnostics of a document: one hint per interact; clearing when there is none.
    /// Fails on the first agent interact whose agent the server does not have.
    pub fn diagnose_document(uri: String, knowledge: Option<&Knowledge>, agents: &Vec<AgentID>) -> (r: Result<LspDiagnostic, AgentsError>)
        ensures
            match first_missing_agent(knowledge_interacts(knowledge), agent_views(agents@)) {
                Some(id) => (r matches Err(AgentsError::AgentNotPresent(x)) && x@ == id),
                None => if knowledge_interacts(knowledge).len() == 0 {
                    (r matches Ok(LspDiagnostic::ClearDiagnostics(u)) && u@ == uri@)
                } else {
                    (r matches Ok(LspDiagnostic::Publish(p)) && p.uri@ == uri@ && p.version is None
                        && p.diagnostics@.len() == knowledge_interacts(knowledge).len() && forall|t: int|
                        0 <= t < p.diagnostics@.len() ==> (#[trigger] p.diagnostics@[t]).range
                            == interact_range(knowledge_interacts(knowledge)[t])
                            && p.diagnostics@[t].severity == Some(DiagnosticSeverity::Hint)
                            && p.diagnostics@[t].message@ == interact_message(
                            knowledge_interacts(knowledge)[t],
                        ))
                },
            },
    {
        let ghost ws = knowledge_interacts(knowledge);
        let ghost ags = agent_views(agents@);
        let mut all_diagnostics: Vec<Diagnostic> = Vec::new();
        if let Some(Knowledge::Document { interacts, .. }) = knowledge {
            let mut i: usize = 0;
            proof {
                assert(ws.skip(0) =~= ws);
            }
            while i < interacts.len()
                invariant
                    ws == knowledge_interacts(knowledge),
                    ws == pair_views(interacts@).map_values(|p: (Range, InteractWrapperView)| p.1),
                    ags == agent_views(agents@),
                    i <= interacts@.len(),
                    first_missing_agent(ws, ags) == first_missing_agent(ws.skip(i as int), ags),
                    all_diagnostics@.len() == i,
                    forall|t: int|
                        0 <= t < i ==> (#[trigger] all_diagnostics@[t]).range == interact_range(ws[t])
                            && all_diagnostics@[t].severity == Some(DiagnosticSeverity::Hint)
                            && all_diagnostics@[t].message@ == interact_message(ws[t]),
                decreases interacts@.len() - i,
            {
                proof {
                    assert(ws.skip(i as int).drop_first() =~= ws.skip(i + 1));
                    assert(ws.skip(i as int)[0] == ws[i as int]);
                    assert(ws[i as int] == interacts@[i as int].1@);
                }
                let mut d = match &interacts[i].1 {
                    InteractWrapper::Agent(a) => {
                        if !contains_agent(agents, &a.agent_id) {
                            proof {
                                assert(first_missing_agent(ws.skip(i as int), ags) == Some(a.agent_id@));
                            }
                            return Err(AgentsError::AgentNotPresent(a.agent_id.duplicate()));
                        }
                        a.diagnostics()
                    },
                    InteractWrapper::DB(db) => db.diagnostics(),
                };
                let ghost before = all_diagnostics@;
                let ghost dd = d@;
                proof {
                    if let InteractWrapper::Agent(a) = &interacts[i as int].1 {
                        assert(first_missing_agent(ws.skip(i as int), ags) == first_missing_agent(ws.skip(i + 1), ags));
                    }
                }
                all_diagnostics.append(&mut d);
                proof {
                    assert(all_diagnostics@[i as int] == dd[0]);
                    assert forall|t: int| 0 <= t < i implies all_diagnostics@[t] == before[t] by {}
                }
                i += 1;
            }
        }
        if all_diagnostics.len() == 0 {
            return Ok(LspDiagnostic::ClearDiagnostics(uri));
        }
        Ok(LspDiagnostic::Publish(PublishDiagnosticsParams { uri, diagnostics: all_diagnostics, version: None }))
    }
}

} // verus!
