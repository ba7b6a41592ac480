//! Records of turns.

use crate::agent::{events_model, TurnEvent, TurnOutcome};
use crate::gateway::TokenUsage;
use crate::session::Session;
use crate::text::{
    after_prefix, begins_with, copy_str, ends_with, finishes_with, in_order, parts_stand_in_the_whole, signed_decimal, signed_decimal_text, sort_strings,
    strip_prefix, texts,
};
use vstd::prelude::*;

verus! {

/// What is kept of a turn.
pub struct TraceRecord {
    pub session_id: String,
    pub workspace: String,
    pub model: String,
    pub prompt: String,
    pub started_at: String,
    pub duration_ms: u64,
    pub steps: usize,
    pub final_text: Option<String>,
    pub events: Vec<TurnEvent>,
    pub usage: TokenUsage,
}

/// A workspace without the mark of a long path.
pub open spec fn trace_workspace(w: Seq<char>) -> Seq<char> {
    match after_prefix(w, "\\\\?\\"@) {
        Some(rest) => rest,
        None => w,
    }
}

fn copy_event(e: &TurnEvent) -> (r: TurnEvent)
    ensures
        r@ == e@,
{
    match e {
        TurnEvent::ModelCall => TurnEvent::ModelCall,
        TurnEvent::TokenDelta { delta } => TurnEvent::TokenDelta { delta: delta.clone() },
        TurnEvent::Compaction { summary } => TurnEvent::Compaction { summary: summary.clone() },
        TurnEvent::PermissionRequest(q) => TurnEvent::PermissionRequest(q.clone()),
        TurnEvent::ToolStart { id, tool } => TurnEvent::ToolStart { id: id.clone(), tool: tool.clone() },
        TurnEvent::ToolResult { id, tool, ok, error } => TurnEvent::ToolResult {
            id: id.clone(),
            tool: tool.clone(),
            ok: *ok,
            error: error.clone(),
        },
        TurnEvent::Final { text } => TurnEvent::Final { text: text.clone() },
    }
}

impl TraceRecord {
    /// What is kept of a turn of a session.
    pub fn from_outcome(session: &Session, outcome: &TurnOutcome) -> (r: TraceRecord)
        ensures
            r.session_id == session.id,
            r.workspace@ == trace_workspace(session.workspace@),
            r.model == session.model,
            r.prompt == outcome.prompt,
            r.started_at == outcome.started_at,
            r.duration_ms == outcome.duration_ms,
            r.steps == outcome.steps,
            r.final_text == outcome.final_text,
            events_model(r.events@) == events_model(outcome.events@),
            r.usage == outcome.usage,
    {
        let workspace = match strip_prefix(session.workspace.as_str(), "\\\\?\\") {
            Some(rest) => rest,
            None => session.workspace.clone(),
        };
        let mut events: Vec<TurnEvent> = Vec::new();
        for i in 0..outcome.events.len()
            invariant
                events@.len() == i,
                forall|j: int| 0 <= j < i ==> (#[trigger] events@[j])@ == outcome.events@[j]@,
        {
            events.push(copy_event(&outcome.events[i]));
        }
        assert(events_model(events@) =~= events_model(outcome.events@));
        TraceRecord {
            session_id: session.id.clone(),
            workspace,
            model: session.model.clone(),
            prompt: outcome.prompt.clone(),
            started_at: outcome.started_at.clone(),
            duration_ms: outcome.duration_ms,
            steps: outcome.steps,
            final_text: outcome.final_text.clone(),
            events,
            usage: outcome.usage,
        }
    }
}

/// The name of the file that a record is kept in.
pub fn trace_file_name(session_id: &str, stamp: i64) -> (r: String)
    ensures
        r@ == session_id@ + "-"@ + signed_decimal(stamp as int) + ".json"@,
{
    let mut r = copy_str(session_id);
    r.append("-");
    r.append(signed_decimal_text(stamp).as_str());
    r.append(".json");
    r
}

/// A file of this name holds a record: its ending, behind a name, is that of
/// JSON.
pub open spec fn is_trace_file(name: Seq<char>) -> bool {
    finishes_with(name, ".json"@) && name.len() > ".json"@.len()
}

pub open spec fn trace_files(names: Seq<Seq<char>>) -> Seq<Seq<char>> {
    names.filter(|n: Seq<char>| is_trace_file(n))
}

/// The texts stand in the reverse of the order of code points.
pub open spec fn in_reverse_order(v: Seq<Seq<char>>) -> bool {
    in_order(v.reverse())
}

/// The files that hold records, the last name first.
pub fn list_traces(names: &Vec<String>) -> (r: Vec<String>)
    ensures
        in_reverse_order(texts(r@)),
        texts(r@).to_multiset() == trace_files(texts(names@)).to_multiset(),
{
    let mut found: Vec<String> = Vec::new();
    let ghost all = texts(names@);
    proof {
        reveal(Seq::filter);
        assert(texts(found@) =~= trace_files(all.take(0)));
    }
    for i in 0..names.len()
        invariant
            all == texts(names@),
            texts(found@) == trace_files(all.take(i as int)),
    {
        let ghost before = texts(found@);
        proof {
            reveal(Seq::filter);
            assert(all.take(i + 1).drop_last() =~= all.take(i as int));
            assert(all[i as int] == names@[i as int]@);
        }
        let n: usize = crate::text::chars_of(names[i].as_str()).len();
        let e: usize = crate::text::chars_of(".json").len();
        if ends_with(names[i].as_str(), ".json") && n > e {
            found.push(names[i].clone());
            assert(texts(found@) =~= before.push(all[i as int]));
        }
    }
    assert(all.take(all.len() as int) =~= all);
    let sorted = sort_strings(found);
    let ghost up = texts(sorted@);
    let mut r: Vec<String> = Vec::new();
    let n: usize = sorted.len();
    for i in 0..n
        invariant
            n == sorted@.len(),
            up == texts(sorted@),
            r@.len() == i,
            forall|j: int| 0 <= j < i ==> (#[trigger] r@[j])@ == up[n - 1 - j],
    {
        assert(up[n - 1 - i] == sorted@[n - 1 - i]@);
        r.push(sorted[n - 1 - i].clone());
    }
    proof {
        let down = texts(r@);
        assert(down =~= up.reverse());
        assert(down.reverse() =~= up);
        reverse_multiset(up);
    }
    r
}

proof fn reverse_multiset(s: Seq<Seq<char>>)
    ensures
        s.reverse().to_multiset() == s.to_multiset(),
    decreases s.len(),
{
    if s.len() == 0 {
        assert(s.reverse() =~= s);
    } else {
        let front = s.drop_last();
        reverse_multiset(front);
        let r = s.reverse();
        assert(r =~= seq![s.last()] + front.reverse());
        assert(r.remove(0) =~= front.reverse());
        r.to_multiset_ensures();
        s.to_multiset_ensures();
        assert(r.to_multiset().remove(r[0]) =~= front.reverse().to_multiset());
        assert(s.remove(s.len() - 1) =~= front);
        assert(s.to_multiset().remove(s[s.len() - 1]) =~= front.to_multiset());
        assert(r.contains(r[0]));
        assert(s.contains(s.last())) by {
            assert(s[s.len() - 1] == s.last());
        }
        assert(r.to_multiset().count(s.last()) > 0);
        assert(s.to_multiset().count(s.last()) > 0);
        assert(r.to_multiset() =~= front.to_multiset().insert(s.last()));
        assert(s.to_multiset() =~= front.to_multiset().insert(s.last()));
    }
}

/// The file that a record is kept in is listed among the records.
pub proof fn saved_records_are_listed(session_id: Seq<char>, stamp: int, others: Seq<Seq<char>>)
    ensures
        trace_files(others.push(session_id + "-"@ + signed_decimal(stamp) + ".json"@)).contains(
            session_id + "-"@ + signed_decimal(stamp) + ".json"@,
        ),
{
    let name = session_id + "-"@ + signed_decimal(stamp) + ".json"@;
    reveal_strlit("-");
    assert(name.skip(name.len() - ".json"@.len()) =~= ".json"@);
    assert(is_trace_file(name));
    reveal(Seq::filter);
    let all = others.push(name);
    assert(all.drop_last() =~= others);
    let found = trace_files(all);
    assert(found == trace_files(others).push(name));
    assert(found[found.len() - 1] == name);
}

/// A file is a record if its name ends in `.json` and has anything before it; records
/// are listed and nothing else is.
pub proof fn records_end_in_json(names: Seq<Seq<char>>, name: Seq<char>)
    ensures
        is_trace_file(name) <==> exists|stem: Seq<char>| stem.len() > 0 && name == #[trigger] (stem + ".json"@),
        trace_files(names).contains(name) <==> names.contains(name) && is_trace_file(name),
{
    if is_trace_file(name) {
        parts_stand_in_the_whole(name, ".json"@, name, name);
        let stem = name.take(name.len() - ".json"@.len());
        assert(name == stem + ".json"@);
    }
    if exists|stem: Seq<char>| stem.len() > 0 && name == #[trigger] (stem + ".json"@) {
        let stem = choose|stem: Seq<char>| stem.len() > 0 && name == #[trigger] (stem + ".json"@);
        parts_stand_in_the_whole(stem, ".json"@, stem, name);
    }
    kept_files(names, name);
}

proof fn kept_files(names: Seq<Seq<char>>, name: Seq<char>)
    ensures
        trace_files(names).contains(name) <==> names.contains(name) && is_trace_file(name),
    decreases names.len(),
{
    reveal(Seq::filter);
    if names.len() > 0 {
        let rest = names.drop_last();
        kept_files(rest, name);
        let front = trace_files(rest);
        let all = trace_files(names);
        assert(names[names.len() - 1] == names.last());
        assert(all == if is_trace_file(names.last()) {
            front.push(names.last())
        } else {
            front
        });
        if rest.contains(name) {
            let i = choose|i: int| 0 <= i < rest.len() && rest[i] == name;
            assert(names[i] == name);
        }
        if names.contains(name) {
            let i = choose|i: int| 0 <= i < names.len() && names[i] == name;
            if i < rest.len() {
                assert(rest[i] == name);
            } else if is_trace_file(name) {
                assert(all[front.len() as int] == name);
            }
        }
        if front.contains(name) {
            let i = choose|i: int| 0 <= i < front.len() && front[i] == name;
            assert(all[i] == name);
        }
        if all.contains(name) {
            let i = choose|i: int| 0 <= i < all.len() && all[i] == name;
            if i < front.len() {
                assert(front[i] == name);
            }
        }
    }
}

/// The mark of a long path is left out of the workspace that is on record; nothing else
/// is.
pub proof fn workspaces_are_recorded_plain(w: Seq<char>)
    ensures
        trace_workspace("\\\\?\\"@ + w) == w,
        !begins_with(w, "\\\\?\\"@) ==> trace_workspace(w) == w,
{
    parts_stand_in_the_whole(w, "\\\\?\\"@, w, w);
}

} // verus!
