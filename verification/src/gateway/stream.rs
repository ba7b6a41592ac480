//! Answers of the model that come in piece by piece.

use crate::chat::{calls_model, CallModel, ToolCall};
use crate::gateway::{
    function_text, in_first_choice, parsed_or_null, usage_of, usage_sum, ModelOutput, OutputModel, TokenUsage,
};
use crate::gateway::{find_function_text, find_in_first_choice, parse_usage_value};
use crate::json::{
    count_member, list_member, list_model, list_model_elements, member, parse_json, parsed_json, text_member, Json,
    JsonModel,
};
use crate::text::{
    after_prefix, begins_with, chars_of, copy_str, decimal, decimal_text, finishes_with, parts_stand_in_the_whole, same_text,
    string_of, strip_prefix, texts, trim, trimmed,
};
use vstd::prelude::*;

verus! {

// ---------------------------------------------------------------------------
// One event
// ---------------------------------------------------------------------------

/// What one event adds to the answer.
pub struct StreamDelta {
    pub content: Option<String>,
    /// Pieces of calls.
    pub tool_call_fragments: Vec<Json>,
    pub usage: Option<TokenUsage>,
}

/// What an event says.
pub struct DeltaModel {
    pub content: Option<Seq<char>>,
    pub fragments: Seq<JsonModel>,
    pub usage: Option<TokenUsage>,
}

impl View for StreamDelta {
    type V = DeltaModel;

    open spec fn view(&self) -> DeltaModel {
        DeltaModel {
            content: match self.content {
                Some(c) => Some(c@),
                None => None,
            },
            fragments: list_model(self.tool_call_fragments@),
            usage: self.usage,
        }
    }
}

/// The text that a delta adds; an empty one adds none.
pub open spec fn delta_content(delta: JsonModel) -> Option<Seq<char>> {
    match text_member(delta, "content"@) {
        Some(t) => if t.len() > 0 {
            Some(t)
        } else {
            None
        },
        None => None,
    }
}

/// The pieces of calls in a delta.
pub open spec fn delta_fragments(delta: JsonModel) -> Seq<JsonModel> {
    match list_member(delta, "tool_calls"@) {
        Some(l) => l,
        None => seq![],
    }
}

/// The usage that an event states, where it states any.
pub open spec fn stated_usage(value: JsonModel) -> Option<TokenUsage> {
    match member(value, "usage"@) {
        Some(u) => if usage_of(u).total_tokens > 0 || usage_of(u).prompt_tokens > 0 {
            Some(usage_of(u))
        } else {
            None
        },
        None => None,
    }
}

/// What the value of an event says, where it says anything.
pub open spec fn delta_of(value: JsonModel) -> Option<DeltaModel> {
    match in_first_choice(value, "delta"@) {
        None => None,
        Some(delta) => {
            let m = DeltaModel {
                content: delta_content(delta),
                fragments: delta_fragments(delta),
                usage: stated_usage(value),
            };
            if m.content is None && m.fragments.len() == 0 && m.usage is None {
                None
            } else {
                Some(m)
            }
        },
    }
}

/// What the payload of an event says. A blank payload, the mark of the end and
/// what is no JSON say nothing.
pub open spec fn payload_delta(payload: Seq<char>) -> Option<DeltaModel> {
    let t = trimmed(payload);
    if t.len() == 0 || t == "[DONE]"@ {
        None
    } else {
        match parsed_json(t) {
            Some(value) => delta_of(value),
            None => None,
        }
    }
}

/// Reads the value of an event.
pub fn read_delta(value: &Json) -> (r: Option<StreamDelta>)
    ensures
        match r {
            Some(d) => delta_of(value.model()) == Some(d@),
            None => delta_of(value.model()) is None,
        },
{
    let delta = match find_in_first_choice(value, "delta") {
        Some(d) => d,
        None => {
            return None;
        },
    };
    let content = match delta.text_at("content") {
        Some(t) => if t.as_str().is_empty() {
            None
        } else {
            Some(t.clone())
        },
        None => None,
    };
    let fragments = match delta.list_at("tool_calls") {
        Some(l) => copy_list(l),
        None => Vec::new(),
    };
    let usage = match value.get("usage") {
        Some(u) => {
            let parsed = parse_usage_value(u);
            if parsed.total_tokens > 0 || parsed.prompt_tokens > 0 {
                Some(parsed)
            } else {
                None
            }
        },
        None => None,
    };
    proof {
        list_model_elements(fragments@);
        assert(list_model(fragments@) =~= delta_fragments(delta.model()));
    }
    if content.is_none() && fragments.len() == 0 && usage.is_none() {
        return None;
    }
    Some(StreamDelta { content, tool_call_fragments: fragments, usage })
}

fn copy_list(v: &Vec<Json>) -> (r: Vec<Json>)
    ensures
        list_model(r@) == list_model(v@),
{
    let mut r: Vec<Json> = Vec::new();
    for i in 0..v.len()
        invariant
            r@.len() == i,
            forall|j: int| 0 <= j < i ==> (#[trigger] r@[j]).model() == v@[j].model(),
    {
        r.push(v[i].clone());
    }
    proof {
        list_model_elements(r@);
        list_model_elements(v@);
        assert(list_model(r@) =~= list_model(v@));
    }
    r
}

/// Reads the payload of an event.
pub fn parse_sse_payload(payload: &str) -> (r: Option<StreamDelta>)
    ensures
        match r {
            Some(d) => payload_delta(payload@) == Some(d@),
            None => payload_delta(payload@) is None,
        },
{
    let t = trim(payload);
    if t.as_str().is_empty() || same_text(t.as_str(), "[DONE]") {
        return None;
    }
    match parse_json(t.as_str()) {
        Some(value) => read_delta(&value),
        None => None,
    }
}

// ---------------------------------------------------------------------------
// Calls in pieces
// ---------------------------------------------------------------------------

/// A call as far as it has come in.
pub struct ToolCallAccumulator {
    pub id: String,
    pub name: String,
    pub arguments: String,
}

/// What has come in of a call.
pub struct PartialCall {
    pub id: Seq<char>,
    pub name: Seq<char>,
    pub arguments: Seq<char>,
}

impl View for ToolCallAccumulator {
    type V = PartialCall;

    open spec fn view(&self) -> PartialCall {
        PartialCall { id: self.id@, name: self.name@, arguments: self.arguments@ }
    }
}

/// The calls that are coming in, by their number.
pub struct ToolCallAccumulators {
    pub entries: Vec<(u64, ToolCallAccumulator)>,
}

impl View for ToolCallAccumulators {
    type V = Map<u64, PartialCall>;

    open spec fn view(&self) -> Map<u64, PartialCall> {
        partial_map(self.entries@)
    }
}

/// What the entries hold.
pub open spec fn partial_map(v: Seq<(u64, ToolCallAccumulator)>) -> Map<u64, PartialCall>
    decreases v.len(),
{
    if v.len() == 0 {
        Map::empty()
    } else {
        partial_map(v.drop_last()).insert(v.last().0, v.last().1@)
    }
}

pub open spec fn nothing_yet() -> PartialCall {
    PartialCall { id: Seq::empty(), name: Seq::empty(), arguments: Seq::empty() }
}

/// A call with another piece: its identifier and its name are replaced, its
/// arguments grow.
pub open spec fn with_fragment(p: PartialCall, f: JsonModel) -> PartialCall {
    PartialCall {
        id: match text_member(f, "id"@) {
            Some(t) => t,
            None => p.id,
        },
        name: match function_text(f, "name"@) {
            Some(t) => t,
            None => p.name,
        },
        arguments: match function_text(f, "arguments"@) {
            Some(t) => p.arguments + t,
            None => p.arguments,
        },
    }
}

/// The calls with another piece; one without a number is passed over.
pub open spec fn add_fragment(m: Map<u64, PartialCall>, f: JsonModel) -> Map<u64, PartialCall> {
    match count_member(f, "index"@) {
        Some(i) => m.insert(
            i as u64,
            with_fragment(
                if m.contains_key(i as u64) {
                    m[i as u64]
                } else {
                    nothing_yet()
                },
                f,
            ),
        ),
        None => m,
    }
}

/// The calls with further pieces.
pub open spec fn add_fragments(m: Map<u64, PartialCall>, v: Seq<JsonModel>) -> Map<u64, PartialCall>
    decreases v.len(),
{
    if v.len() == 0 {
        m
    } else {
        add_fragment(add_fragments(m, v.drop_last()), v.last())
    }
}

/// A call that has come in whole; one without an identifier is named after its
/// number.
pub open spec fn finished_call(index: u64, p: PartialCall) -> CallModel {
    CallModel {
        id: if p.id.len() == 0 {
            "call_"@ + decimal(index as nat)
        } else {
            p.id
        },
        name: p.name,
        arguments: parsed_or_null(Some(p.arguments)),
    }
}

/// The numbers ascend.
pub open spec fn ascending(v: Seq<(u64, ToolCallAccumulator)>) -> bool {
    forall|i: int, j: int| 0 <= i < j < v.len() ==> (#[trigger] v[i]).0 < (#[trigger] v[j]).0
}

/// What the entries hold under a number is the entry with that number.
pub proof fn partial_map_entries(v: Seq<(u64, ToolCallAccumulator)>)
    requires
        ascending(v),
    ensures
        forall|i: int|
            0 <= i < v.len() ==> partial_map(v).contains_key((#[trigger] v[i]).0) && partial_map(v)[v[i].0] == v[i].1@,
        forall|k: u64| #[trigger]
            partial_map(v).contains_key(k) ==> exists|i: int| 0 <= i < v.len() && (#[trigger] v[i]).0 == k,
    decreases v.len(),
{
    if v.len() > 0 {
        let front = v.drop_last();
        assert(ascending(front)) by {
            assert forall|i: int, j: int| 0 <= i < j < front.len() implies (#[trigger] front[i]).0 < (
            #[trigger] front[j]).0 by {
                assert(v[i].0 < v[j].0);
            }
        }
        partial_map_entries(front);
        assert forall|i: int| 0 <= i < v.len() implies partial_map(v).contains_key((#[trigger] v[i]).0)
            && partial_map(v)[v[i].0] == v[i].1@ by {
            if i < v.len() - 1 {
                assert(front[i] == v[i]);
                assert(v[i].0 < v[v.len() - 1].0);
            }
        }
        assert forall|k: u64| #[trigger] partial_map(v).contains_key(k) implies exists|i: int|
            0 <= i < v.len() && (#[trigger] v[i]).0 == k by {
            if partial_map(front).contains_key(k) {
                let i = choose|i: int| 0 <= i < front.len() && (#[trigger] front[i]).0 == k;
                assert(v[i].0 == k);
            } else {
                assert(v[v.len() - 1].0 == k);
            }
        }
    }
}

/// Two lists of entries with ascending numbers that hold the same are of the
/// same length and say the same at each place.
proof fn same_map(
    a: Seq<(u64, ToolCallAccumulator)>,
    b: Map<u64, PartialCall>,
)
    requires
        ascending(a),
        forall|i: int| 0 <= i < a.len() ==> b.contains_key((#[trigger] a[i]).0) && b[a[i].0] == a[i].1@,
        forall|k: u64| #[trigger] b.contains_key(k) ==> exists|i: int| 0 <= i < a.len() && (#[trigger] a[i]).0 == k,
    ensures
        partial_map(a) == b,
{
    partial_map_entries(a);
    assert forall|k: u64| partial_map(a).contains_key(k) <==> b.contains_key(k) by {
        if partial_map(a).contains_key(k) {
            let i = choose|i: int| 0 <= i < a.len() && (#[trigger] a[i]).0 == k;
            assert(b.contains_key(a[i].0));
        }
        if b.contains_key(k) {
            let i = choose|i: int| 0 <= i < a.len() && (#[trigger] a[i]).0 == k;
            assert(partial_map(a).contains_key(a[i].0));
        }
    }
    assert forall|k: u64| partial_map(a).contains_key(k) implies partial_map(a)[k] == b[k] by {
        let i = choose|i: int| 0 <= i < a.len() && (#[trigger] a[i]).0 == k;
        assert(b[a[i].0] == a[i].1@);
    }
    assert(partial_map(a) =~= b);
}

impl ToolCallAccumulators {
    /// Each number stands once, in order.
    pub open spec fn wf(self) -> bool {
        ascending(self.entries@)
    }

    /// No calls.
    pub fn new() -> (r: ToolCallAccumulators)
        ensures
            r.wf(),
            r@ == Map::<u64, PartialCall>::empty(),
            r.entries@.len() == 0,
    {
        ToolCallAccumulators { entries: Vec::new() }
    }

    /// Puts `acc` in place of what stands at position `at`, or before it where
    /// the number there is another.
    fn put(&mut self, at: usize, found: bool, index: u64, acc: ToolCallAccumulator)
        requires
            old(self).wf(),
            at <= old(self).entries@.len(),
            found ==> at < old(self).entries@.len() && old(self).entries@[at as int].0 == index,
            forall|j: int| 0 <= j < at ==> (#[trigger] old(self).entries@[j]).0 < index,
            !found ==> forall|j: int| at <= j < old(self).entries@.len() ==> index < (#[trigger] old(self).entries@[j]).0,
        ensures
            final(self).wf(),
            final(self)@ == old(self)@.insert(index, acc@),
    {
        let ghost before = self.entries@;
        let ghost acc_model = acc@;
        if found {
            let e = &mut self.entries[at];
            e.1 = acc;
        } else {
            self.entries.insert(at, (index, acc));
        }
        proof {
            let after = self.entries@;
            partial_map_entries(before);
            let target = partial_map(before).insert(index, acc_model);
            if found {
                assert forall|i: int, j: int| 0 <= i < j < after.len() implies (#[trigger] after[i]).0 < (
                #[trigger] after[j]).0 by {
                    assert(before[i].0 < before[j].0);
                }
                assert forall|i: int| 0 <= i < after.len() implies target.contains_key((#[trigger] after[i]).0)
                    && target[after[i].0] == after[i].1@ by {
                    assert(before[i].0 == after[i].0);
                    if i < at {
                        assert(before[i].0 < before[at as int].0);
                    }
                    if i > at {
                        assert(before[at as int].0 < before[i].0);
                    }
                }
                assert forall|k: u64| #[trigger] target.contains_key(k) implies exists|i: int|
                    0 <= i < after.len() && (#[trigger] after[i]).0 == k by {
                    if partial_map(before).contains_key(k) {
                        let i = choose|i: int| 0 <= i < before.len() && (#[trigger] before[i]).0 == k;
                        assert(after[i].0 == k);
                    } else {
                        assert(after[at as int].0 == k);
                    }
                }
            } else {
                assert forall|i: int, j: int| 0 <= i < j < after.len() implies (#[trigger] after[i]).0 < (
                #[trigger] after[j]).0 by {
                    let i2 = if i < at { i } else { i - 1 };
                    let j2 = if j < at { j } else { j - 1 };
                    if i == at {
                        assert(index < before[j2].0);
                    } else if j == at {
                        assert(before[i2].0 < index);
                    } else {
                        assert(before[i2].0 < before[j2].0);
                    }
                }
                assert forall|i: int| 0 <= i < after.len() implies target.contains_key((#[trigger] after[i]).0)
                    && target[after[i].0] == after[i].1@ by {
                    let i2 = if i < at { i } else { i - 1 };
                    if i != at {
                        assert(before[i2] == after[i]);
                    }
                }
                assert forall|k: u64| #[trigger] target.contains_key(k) implies exists|i: int|
                    0 <= i < after.len() && (#[trigger] after[i]).0 == k by {
                    if partial_map(before).contains_key(k) {
                        let i = choose|i: int| 0 <= i < before.len() && (#[trigger] before[i]).0 == k;
                        let i2 = if i < at { i } else { i + 1 };
                        assert(after[i2].0 == k);
                    } else {
                        assert(after[at as int].0 == k);
                    }
                }
            }
            same_map(after, target);
        }
    }

    fn add_one(&mut self, fragment: &Json)
        requires
            old(self).wf(),
        ensures
            final(self).wf(),
            final(self)@ == add_fragment(old(self)@, fragment.model()),
    {
        let index: u64 = match fragment.count_at("index") {
            Some(i) => i,
            None => {
                return;
            },
        };
        let mut at: usize = 0;
        while at < self.entries.len() && self.entries[at].0 < index
            invariant
                *self == *old(self),
                at <= self.entries@.len(),
                forall|j: int| 0 <= j < at ==> (#[trigger] self.entries@[j]).0 < index,
            decreases self.entries@.len() - at,
        {
            at += 1;
        }
        let found = at < self.entries.len() && self.entries[at].0 == index;
        let mut acc = if found {
            let e = &self.entries[at].1;
            ToolCallAccumulator { id: e.id.clone(), name: e.name.clone(), arguments: e.arguments.clone() }
        } else {
            ToolCallAccumulator { id: String::new(), name: String::new(), arguments: String::new() }
        };
        let ghost start = acc@;
        proof {
            partial_map_entries(self.entries@);
            if found {
                assert(self@.contains_key(index) && self@[index] == start);
            } else {
                assert(!self@.contains_key(index)) by {
                    if self@.contains_key(index) {
                        let i = choose|i: int| 0 <= i < self.entries@.len() && (#[trigger] self.entries@[i]).0 == index;
                        if i > at {
                            assert(self.entries@[at as int].0 < self.entries@[i].0);
                        }
                    }
                }
                assert(start == nothing_yet());
            }
            assert forall|j: int| !found && at <= j < self.entries@.len() implies index < (
            #[trigger] self.entries@[j]).0 by {
                if j > at {
                    assert(self.entries@[at as int].0 < self.entries@[j].0);
                }
            }
        }
        if let Some(id) = fragment.text_at("id") {
            acc.id = id.clone();
        }
        if let Some(name) = find_function_text(fragment, "name") {
            acc.name = name.clone();
        }
        if let Some(arguments) = find_function_text(fragment, "arguments") {
            acc.arguments.append(arguments.as_str());
        }
        assert(acc@ == with_fragment(start, fragment.model()));
        self.put(at, found, index, acc);
    }

    /// Takes in further pieces of calls.
    pub fn accumulate_tool_fragments(&mut self, fragments: &Vec<Json>)
        requires
            old(self).wf(),
        ensures
            final(self).wf(),
            final(self)@ == add_fragments(old(self)@, list_model(fragments@)),
    {
        let ghost all = list_model(fragments@);
        proof {
            list_model_elements(fragments@);
        }
        for i in 0..fragments.len()
            invariant
                self.wf(),
                all == list_model(fragments@),
                all.len() == fragments@.len(),
                forall|j: int| 0 <= j < fragments@.len() ==> #[trigger] all[j] == fragments@[j].model(),
                self@ == add_fragments(old(self)@, all.take(i as int)),
        {
            proof {
                assert(all.take(i + 1).drop_last() =~= all.take(i as int));
                assert(all[i as int] == fragments@[i as int].model());
            }
            self.add_one(&fragments[i]);
        }
        assert(all.take(all.len() as int) =~= all);
    }

    /// The calls that have come in, in the order of their numbers; none where no
    /// piece of one came in. The accumulators are empty afterwards.
    pub fn build_tool_calls(&mut self) -> (r: Option<Vec<ToolCall>>)
        requires
            old(self).wf(),
        ensures
            final(self).wf(),
            final(self).entries@.len() == 0,
            match r {
                Some(calls) => old(self).entries@.len() > 0 && calls_model(calls@) == finished_calls(
                    old(self).entries@,
                ),
                None => old(self).entries@.len() == 0,
            },
    {
        if self.entries.len() == 0 {
            return None;
        }
        let mut calls: Vec<ToolCall> = Vec::new();
        let n: usize = self.entries.len();
        for i in 0..n
            invariant
                *self == *old(self),
                n == self.entries@.len(),
                calls@.len() == i,
                forall|j: int|
                    0 <= j < i ==> (#[trigger] calls@[j])@ == finished_call(
                        self.entries@[j].0,
                        self.entries@[j].1@,
                    ),
        {
            let e = &self.entries[i];
            let id = if e.1.id.as_str().is_empty() {
                let mut t = copy_str("call_");
                t.append(decimal_text(e.0).as_str());
                t
            } else {
                e.1.id.clone()
            };
            let arguments = match parse_json(e.1.arguments.as_str()) {
                Some(j) => j,
                None => Json::Null,
            };
            calls.push(ToolCall { id, name: e.1.name.clone(), arguments });
        }
        assert(calls_model(calls@) =~= finished_calls(self.entries@));
        self.entries = Vec::new();
        Some(calls)
    }
}

/// The calls of the entries, in their order.
pub open spec fn finished_calls(v: Seq<(u64, ToolCallAccumulator)>) -> Seq<CallModel> {
    v.map_values(|e: (u64, ToolCallAccumulator)| finished_call(e.0, e.1@))
}

/// The entries are fixed by what they hold: each number once, in ascending
/// order.
pub proof fn entries_follow_numbers(v: Seq<(u64, ToolCallAccumulator)>, i: int)
    requires
        ascending(v),
        0 <= i < v.len(),
    ensures
        partial_map(v).contains_key(v[i].0),
        finished_calls(v)[i] == finished_call(v[i].0, partial_map(v)[v[i].0]),
{
    partial_map_entries(v);
}

// ---------------------------------------------------------------------------
// The stream
// ---------------------------------------------------------------------------

/// An answer as far as it has come in.
pub struct StreamReader {
    pub buffer: String,
    pub content: String,
    pub calls: ToolCallAccumulators,
}

/// What has come in of an answer, with what was used and what was shown.
pub struct StreamModel {
    /// What came in after the last line that was read.
    pub buffer: Seq<char>,
    pub content: Seq<char>,
    pub calls: Map<u64, PartialCall>,
    pub usage: TokenUsage,
    /// The pieces of text, as they are shown.
    pub shown: Seq<Seq<char>>,
}

/// What an event does to the answer.
pub open spec fn with_delta(m: StreamModel, d: DeltaModel) -> StreamModel {
    StreamModel {
        buffer: m.buffer,
        content: match d.content {
            Some(c) => m.content + c,
            None => m.content,
        },
        calls: add_fragments(m.calls, d.fragments),
        usage: match d.usage {
            Some(u) => usage_sum(m.usage, u),
            None => m.usage,
        },
        shown: match d.content {
            Some(c) => m.shown.push(c),
            None => m.shown,
        },
    }
}

/// The position of the first line end, from `i` on; the length where there is
/// none.
pub open spec fn line_end(s: Seq<char>, i: int) -> int
    decreases s.len() - i,
{
    if i >= s.len() || s[i] == '\n' {
        i
    } else {
        line_end(s, i + 1)
    }
}

/// The payload of a line.
pub open spec fn line_payload(line: Seq<char>) -> Option<Seq<char>> {
    after_prefix(trimmed(line), "data:"@)
}

/// What the complete lines in the buffer do to the answer. The mark of the end
/// leaves the lines after it unread for now.
pub open spec fn drained(m: StreamModel) -> StreamModel
    decreases m.buffer.len(),
{
    let e = line_end(m.buffer, 0);
    if !(0 <= e < m.buffer.len()) {
        m
    } else {
        let rest = StreamModel { buffer: m.buffer.skip(e + 1), ..m };
        match line_payload(m.buffer.take(e)) {
            None => drained(rest),
            Some(p) => if trimmed(p) == "[DONE]"@ {
                rest
            } else {
                match payload_delta(p) {
                    Some(d) => drained(with_delta(rest, d)),
                    None => drained(rest),
                }
            },
        }
    }
}

/// What is answered once nothing more comes in.
pub open spec fn stream_answer(content: Seq<char>, v: Seq<(u64, ToolCallAccumulator)>) -> OutputModel {
    if v.len() == 0 {
        OutputModel::Text(content)
    } else {
        OutputModel::ToolCalls(finished_calls(v))
    }
}

fn find_line_end(v: &Vec<char>) -> (r: usize)
    ensures
        r == line_end(v@, 0),
        r <= v@.len(),
{
    let mut i: usize = 0;
    while i < v.len() && v[i] != '\n'
        invariant
            i <= v@.len(),
            line_end(v@, 0) == line_end(v@, i as int),
        decreases v@.len() - i,
    {
        i += 1;
    }
    i
}

impl StreamReader {
    pub open spec fn wf(self) -> bool {
        self.calls.wf()
    }

    pub open spec fn with(self, usage: TokenUsage, shown: Seq<Seq<char>>) -> StreamModel {
        StreamModel { buffer: self.buffer@, content: self.content@, calls: self.calls@, usage, shown }
    }

    /// Nothing has come in.
    pub fn new() -> (r: StreamReader)
        ensures
            r.wf(),
            r.buffer@.len() == 0,
            r.content@.len() == 0,
            r.calls.entries@.len() == 0,
            r.calls@ == Map::<u64, PartialCall>::empty(),
    {
        StreamReader { buffer: String::new(), content: String::new(), calls: ToolCallAccumulators::new() }
    }

    fn apply(&mut self, delta: StreamDelta, usage: &mut TokenUsage, shown: &mut Vec<String>)
        requires
            old(self).wf(),
        ensures
            final(self).wf(),
            final(self).with(*final(usage), texts(final(shown)@)) == with_delta(
                old(self).with(*old(usage), texts(old(shown)@)),
                delta@,
            ),
    {
        let ghost shown0 = texts(shown@);
        let ghost content0 = delta.content;
        if let Some(u) = delta.usage {
            usage.add(&u);
        }
        self.calls.accumulate_tool_fragments(&delta.tool_call_fragments);
        if let Some(c) = delta.content {
            self.content.append(c.as_str());
            shown.push(c);
            assert(texts(shown@) =~= shown0.push(content0->0@));
        }
    }

    /// Takes in a piece of the stream: every line that is complete is read. What
    /// was used is added to `usage`; the result is what is to be shown, piece by
    /// piece.
    pub fn push_chunk(&mut self, chunk: &str, usage: &mut TokenUsage) -> (shown: Vec<String>)
        requires
            old(self).wf(),
        ensures
            final(self).wf(),
            final(self).with(*final(usage), texts(shown@)) == drained(
                StreamModel {
                    buffer: old(self).buffer@ + chunk@,
                    content: old(self).content@,
                    calls: old(self).calls@,
                    usage: *old(usage),
                    shown: Seq::<Seq<char>>::empty(),
                },
            ),
    {
        self.buffer.append(chunk);
        let mut shown: Vec<String> = Vec::new();
        let ghost start = self.with(*usage, texts(shown@));
        assert(texts(shown@) =~= Seq::<Seq<char>>::empty());
        loop
            invariant_except_break
                self.wf(),
                drained(start) == drained(self.with(*usage, texts(shown@))),
            ensures
                self.wf(),
                self.with(*usage, texts(shown@)) == drained(start),
            decreases self.buffer@.len(),
        {
            let v = chars_of(self.buffer.as_str());
            let e: usize = find_line_end(&v);
            if e >= v.len() {
                break;
            }
            let line = string_of(&v, 0, e);
            let rest = string_of(&v, e + 1, v.len());
            proof {
                assert(line@ =~= self.buffer@.take(e as int));
                assert(rest@ =~= self.buffer@.skip(e + 1));
            }
            self.buffer = rest;
            let t = trim(line.as_str());
            if let Some(payload) = strip_prefix(t.as_str(), "data:") {
                let inner = trim(payload.as_str());
                if same_text(inner.as_str(), "[DONE]") {
                    break;
                }
                if let Some(delta) = parse_sse_payload(payload.as_str()) {
                    let ghost kept = self.buffer@;
                    self.apply(delta, usage, &mut shown);
                    assert(self.buffer@ == kept);
                }
            }
        }
        shown
    }

    /// The answer, once nothing more comes in: the calls, where any came in, else
    /// the text.
    pub fn finish(self) -> (r: ModelOutput)
        requires
            self.wf(),
        ensures
            r.model() == stream_answer(self.content@, self.calls.entries@),
    {
        let mut calls = self.calls;
        match calls.build_tool_calls() {
            Some(v) => ModelOutput::ToolCalls(v),
            None => ModelOutput::Text(self.content),
        }
    }
}

/// The text of the answer is what was shown of it: the two grow together.
pub proof fn shown_is_content(m: StreamModel)
    ensures
        ({
            let d = drained(m);
            &&& d.shown.len() >= m.shown.len()
            &&& d.shown.take(m.shown.len() as int) == m.shown
            &&& d.content == m.content + run_together(d.shown.skip(m.shown.len() as int))
        }),
    decreases m.buffer.len(),
{
    let e = line_end(m.buffer, 0);
    let nothing = Seq::<Seq<char>>::empty();
    assert(m.shown.take(m.shown.len() as int) =~= m.shown);
    assert(m.shown.skip(m.shown.len() as int) =~= nothing);
    assert(m.content + run_together(nothing) =~= m.content);
    if 0 <= e < m.buffer.len() {
        let rest = StreamModel { buffer: m.buffer.skip(e + 1), ..m };
        match line_payload(m.buffer.take(e)) {
            None => {
                shown_is_content(rest);
            },
            Some(p) => {
                if trimmed(p) != "[DONE]"@ {
                    match payload_delta(p) {
                        Some(d) => {
                            let next = with_delta(rest, d);
                            shown_is_content(next);
                            let end = drained(next);
                            if d.content is Some {
                                let c = d.content->0;
                                let n = m.shown.len() as int;
                                assert(end.shown.take(n) =~= end.shown.take(n + 1).take(n));
                                assert(m.shown.push(c).take(n) =~= m.shown);
                                let tail = end.shown.skip(n);
                                assert(tail.skip(1) =~= end.shown.skip(n + 1));
                                assert(tail[0] == end.shown.take(n + 1)[n]);
                                run_together_front(tail);
                                assert(m.content + c + run_together(tail.skip(1)) =~= m.content + (c + run_together(
                                    tail.skip(1),
                                )));
                            }
                        },
                        None => {
                            shown_is_content(rest);
                        },
                    }
                }
            },
        }
    }
}

/// A complete line of the text is the mark of the end.
pub open spec fn marks_end(buffer: Seq<char>) -> bool
    decreases buffer.len(),
{
    let e = line_end(buffer, 0);
    if !(0 <= e < buffer.len()) {
        false
    } else {
        (line_payload(buffer.take(e)) matches Some(p) && trimmed(p) == "[DONE]"@) || marks_end(buffer.skip(e + 1))
    }
}

/// The answer with more of the stream.
pub open spec fn continued(m: StreamModel, more: Seq<char>) -> StreamModel {
    StreamModel { buffer: m.buffer + more, ..m }
}

proof fn line_end_stays(s: Seq<char>, more: Seq<char>, i: int)
    requires
        0 <= i,
        line_end(s, i) < s.len(),
    ensures
        line_end(s + more, i) == line_end(s, i),
        i <= line_end(s, i),
    decreases s.len() - i,
{
    if i < s.len() && s[i] != '\n' {
        line_end_stays(s, more, i + 1);
    }
}

/// How a stream is cut into pieces does not matter before the mark of its end:
/// piece by piece it is read as it is in one.
pub proof fn cuts_do_not_matter(m: StreamModel, more: Seq<char>)
    requires
        !marks_end(m.buffer),
    ensures
        drained(continued(drained(m), more)) == drained(continued(m, more)),
    decreases m.buffer.len(),
{
    let e = line_end(m.buffer, 0);
    if 0 <= e < m.buffer.len() {
        let all = m.buffer + more;
        line_end_stays(m.buffer, more, 0);
        assert(all.take(e) =~= m.buffer.take(e));
        assert(all.skip(e + 1) =~= m.buffer.skip(e + 1) + more);
        let rest = StreamModel { buffer: m.buffer.skip(e + 1), ..m };
        match line_payload(m.buffer.take(e)) {
            None => {
                cuts_do_not_matter(rest, more);
            },
            Some(p) => match payload_delta(p) {
                Some(d) => {
                    cuts_do_not_matter(with_delta(rest, d), more);
                },
                None => {
                    cuts_do_not_matter(rest, more);
                },
            },
        }
    }
}

/// Texts one after the other.
pub open spec fn run_together(v: Seq<Seq<char>>) -> Seq<char>
    decreases v.len(),
{
    if v.len() == 0 {
        Seq::<char>::empty()
    } else {
        run_together(v.drop_last()) + v.last()
    }
}

proof fn run_together_front(v: Seq<Seq<char>>)
    requires
        v.len() > 0,
    ensures
        run_together(v) == v[0] + run_together(v.skip(1)),
    decreases v.len(),
{
    if v.len() == 1 {
        assert(v.drop_last() =~= Seq::<Seq<char>>::empty());
        assert(v.skip(1) =~= Seq::<Seq<char>>::empty());
        assert(run_together(v) =~= v[0] + run_together(v.skip(1)));
    } else {
        run_together_front(v.drop_last());
        assert(v.skip(1).drop_last() =~= v.drop_last().skip(1));
        assert(run_together(v) =~= v[0] + run_together(v.skip(1)));
    }
}

// ---------------------------------------------------------------------------
// Laws of the pieces
// ---------------------------------------------------------------------------

/// A piece changes the call with its number and no other. That call's arguments grow
/// by those of the piece; its identifier and its name are those of the piece, where
/// it brings them.
pub proof fn a_piece_changes_its_own_call(
    m: Map<u64, PartialCall>,
    f: JsonModel,
    i: u64,
    function: JsonModel,
    t: Seq<char>,
)
    requires
        member(f, "index"@) == Some(JsonModel::Int(i as int)),
    ensures
        ({
            let after = add_fragment(m, f);
            let text = Some(JsonModel::Text(t));
            let before = if m.contains_key(i) {
                m[i].arguments
            } else {
                Seq::<char>::empty()
            };
            &&& after.contains_key(i)
            &&& forall|j: u64| j != i ==> (#[trigger] after.contains_key(j) <==> m.contains_key(j))
            &&& forall|j: u64| j != i && m.contains_key(j) ==> #[trigger] after[j] == m[j]
            &&& member(f, "function"@) == Some(function) && member(function, "arguments"@) == text
                ==> after[i].arguments == before + t
            &&& member(f, "function"@) == Some(function) && member(function, "name"@) == text ==> after[i].name == t
            &&& member(f, "id"@) == text ==> after[i].id == t
            &&& member(f, "function"@) is None ==> after[i].arguments == before
            &&& member(f, "function"@) == Some(function) && member(function, "arguments"@) is None
                ==> after[i].arguments == before
            &&& m.contains_key(i) && member(f, "function"@) is None ==> after[i].name == m[i].name
            &&& m.contains_key(i) && member(f, "id"@) is None ==> after[i].id == m[i].id
            &&& !m.contains_key(i) && member(f, "id"@) is None ==> after[i].id.len() == 0
            &&& !m.contains_key(i) && member(f, "function"@) is None ==> after[i].name.len() == 0
        }),
{
}

/// A piece without a number is passed over.
pub proof fn a_piece_without_a_number_is_passed_over(m: Map<u64, PartialCall>, f: JsonModel)
    requires
        member(f, "index"@) is None || !(member(f, "index"@)->0 is Int),
    ensures
        add_fragment(m, f) == m,
{
}

/// Pieces taken in one after the other are taken in as they are together.
pub proof fn pieces_in_two_goes(m: Map<u64, PartialCall>, a: Seq<JsonModel>, b: Seq<JsonModel>)
    ensures
        add_fragments(m, a + b) == add_fragments(add_fragments(m, a), b),
        a.len() == 1 ==> add_fragments(m, a) == add_fragment(m, a[0]),
    decreases b.len(),
{
    if b.len() == 0 {
        assert(a + b =~= a);
    } else {
        assert((a + b).drop_last() =~= a + b.drop_last());
        pieces_in_two_goes(m, a, b.drop_last());
    }
    if a.len() == 1 {
        assert(a.drop_last() =~= Seq::<JsonModel>::empty());
        assert(add_fragments(m, a.drop_last()) == m);
    }
}

/// There is a call for every number that a piece names, and for no other; so pieces
/// with so many numbers make so many calls.
pub proof fn every_number_is_a_call(m: Map<u64, PartialCall>, v: Seq<JsonModel>, i: u64)
    ensures
        add_fragments(m, v).contains_key(i) <==> m.contains_key(i) || exists|k: int|
            0 <= k < v.len() && member(#[trigger] v[k], "index"@) == Some(JsonModel::Int(i as int)),
    decreases v.len(),
{
    if v.len() > 0 {
        let front = v.drop_last();
        every_number_is_a_call(m, front, i);
        assert(v[v.len() - 1] == v.last());
        if exists|k: int| 0 <= k < v.len() && member(#[trigger] v[k], "index"@) == Some(JsonModel::Int(i as int)) {
            let k = choose|k: int|
                0 <= k < v.len() && member(#[trigger] v[k], "index"@) == Some(JsonModel::Int(i as int));
            if k < front.len() {
                assert(front[k] == v[k]);
            }
        }
        if exists|k: int| 0 <= k < front.len() && member(#[trigger] front[k], "index"@) == Some(JsonModel::Int(i as int)) {
            let k = choose|k: int|
                0 <= k < front.len() && member(#[trigger] front[k], "index"@) == Some(JsonModel::Int(i as int));
            assert(v[k] == front[k]);
        }
    }
}

/// Each call that came in is called, in the order of the numbers, under its name and
/// with the value of its arguments, or null where they are no JSON. It keeps its
/// identifier; one that has none is told from the others by its number.
pub proof fn calls_are_built_from_the_pieces(v: Seq<(u64, ToolCallAccumulator)>, content: Seq<char>, i: int)
    requires
        0 <= i < v.len(),
    ensures
        stream_answer(content, seq![]) == OutputModel::Text(content),
        stream_answer(content, v) matches OutputModel::ToolCalls(calls) && {
            &&& calls.len() == v.len()
            &&& calls[i].name == v[i].1.name@
            &&& v[i].1.id@.len() > 0 ==> calls[i].id == v[i].1.id@
            &&& v[i].1.id@.len() == 0 ==> finishes_with(calls[i].id, decimal(v[i].0 as nat)) && begins_with(
                calls[i].id,
                "call_"@,
            ) && calls[i].id.len() == 5 + decimal(v[i].0 as nat).len()
            &&& parsed_json(v[i].1.arguments@) matches Some(a) ==> calls[i].arguments == a
            &&& parsed_json(v[i].1.arguments@) is None ==> calls[i].arguments is Null
        },
{
    reveal_strlit("call_");
    let d = decimal(v[i].0 as nat);
    let t = "call_"@ + d;
    assert(t.take(5) =~= "call_"@);
    assert(t.skip(t.len() - d.len()) =~= d);
}

// ---------------------------------------------------------------------------
// Laws of the events and the lines
// ---------------------------------------------------------------------------

/// What an event says is read from the first of its choices: the text where it is
/// not empty, every piece of a call, and the usage where there is any. The mark of
/// the end, a blank payload and what is no JSON say nothing.
pub proof fn events_are_read_from_the_first_choice(
    payload: Seq<char>,
    value: JsonModel,
    choices: Seq<JsonModel>,
    delta: JsonModel,
    t: Seq<char>,
    l: Seq<JsonModel>,
)
    requires
        payload == trimmed(payload),
        payload.len() > 0,
        payload != "[DONE]"@,
        parsed_json(payload) == Some(value),
        member(value, "choices"@) == Some(JsonModel::List(choices)),
        choices.len() > 0,
        member(choices[0], "delta"@) == Some(delta),
    ensures
        member(delta, "content"@) == Some(JsonModel::Text(t)) && t.len() > 0 ==> (payload_delta(payload) matches Some(d)
            && d.content == Some(t)),
        member(delta, "tool_calls"@) == Some(JsonModel::List(l)) && l.len() > 0 ==> (payload_delta(payload) matches Some(d)
            && d.fragments == l),
        payload_delta(payload) matches Some(d) ==> {
            &&& d.content matches Some(t) ==> t.len() > 0 && member(delta, "content"@) == Some(JsonModel::Text(t))
            &&& d.fragments.len() > 0 ==> member(delta, "tool_calls"@) == Some(JsonModel::List(d.fragments))
            &&& d.usage is Some ==> (member(value, "usage"@) matches Some(u) && d.usage == Some(usage_of(u)))
        },
        (member(value, "usage"@) matches Some(u) && usage_of(u).total_tokens > 0) ==> (payload_delta(payload) matches Some(d)
            && d.usage is Some),
{
}

/// What says nothing to the reader: blank payloads, the mark of the end, what is no
/// JSON and what has no choices.
pub proof fn empty_events_say_nothing(payload: Seq<char>)
    ensures
        trimmed(payload).len() == 0 ==> payload_delta(payload) is None,
        trimmed(payload) == "[DONE]"@ ==> payload_delta(payload) is None,
        parsed_json(trimmed(payload)) is None ==> payload_delta(payload) is None,
        (parsed_json(trimmed(payload)) matches Some(v) && member(v, "choices"@) is None) ==> payload_delta(payload) is None,
{
}

/// An event adds its text to the answer and shows it, hands its pieces to the calls
/// and adds what was used; it takes back nothing.
pub proof fn events_add_to_the_answer(m: StreamModel, d: DeltaModel)
    ensures
        ({
            let after = with_delta(m, d);
            &&& d.content matches Some(c) ==> after.content == m.content + c && after.shown == m.shown.push(c)
            &&& d.content is None ==> after.content == m.content && after.shown == m.shown
            &&& d.fragments.len() == 0 ==> after.calls == m.calls
            &&& d.fragments.len() == 1 ==> after.calls == add_fragment(m.calls, d.fragments[0])
            &&& d.usage matches Some(u) ==> after.usage.total_tokens >= m.usage.total_tokens && (m.usage.total_tokens
                + u.total_tokens <= u64::MAX ==> after.usage.total_tokens == m.usage.total_tokens + u.total_tokens)
            &&& d.usage is None ==> after.usage == m.usage
            &&& after.buffer == m.buffer
        }),
{
    pieces_in_two_goes(m.calls, d.fragments, seq![]);
}

proof fn line_end_is(s: Seq<char>, i: int, n: int)
    requires
        0 <= i <= n <= s.len(),
        forall|j: int| i <= j < n ==> #[trigger] s[j] != '\n',
        n < s.len() ==> s[n] == '\n',
    ensures
        line_end(s, i) == n,
    decreases n - i,
{
    if i < n {
        assert(s[i] != '\n');
        line_end_is(s, i + 1, n);
    }
}

/// A stream is read line by line: a line with a payload adds what it says, the mark
/// of the end stops the reading, and any other line is passed over. What has no line
/// end yet waits.
pub proof fn streams_are_read_by_lines(m: StreamModel, line: Seq<char>, rest: Seq<char>, payload: Seq<char>)
    requires
        !line.contains('\n'),
    ensures
        ({
            let whole = StreamModel { buffer: line + seq!['\n'] + rest, ..m };
            let then = StreamModel { buffer: rest, ..m };
            &&& drained(StreamModel { buffer: line, ..m }) == (StreamModel { buffer: line, ..m })
            &&& !begins_with(trimmed(line), "data:"@) ==> drained(whole) == drained(then)
            &&& trimmed(line) == "data:"@ + payload && trimmed(payload) == "[DONE]"@ ==> drained(whole) == then
            &&& trimmed(line) == "data:"@ + payload && trimmed(payload) != "[DONE]"@ ==> {
                &&& payload_delta(payload) matches Some(d) ==> drained(whole) == drained(with_delta(then, d))
                &&& payload_delta(payload) is None ==> drained(whole) == drained(then)
            }
        }),
{
    let whole = StreamModel { buffer: line + seq!['\n'] + rest, ..m };
    let n = line.len() as int;
    assert forall|j: int| 0 <= j < n implies #[trigger] line[j] != '\n' by {
        if line[j] == '\n' {
            assert(line.contains('\n'));
        }
    }
    line_end_is(line, 0, n);
    assert forall|j: int| 0 <= j < n implies #[trigger] whole.buffer[j] != '\n' by {
        assert(whole.buffer[j] == line[j]);
    }
    line_end_is(whole.buffer, 0, n);
    assert(whole.buffer.take(n) =~= line);
    assert(whole.buffer.skip(n + 1) =~= rest);
    parts_stand_in_the_whole(line, "data:"@, payload, trimmed(line));
}

} // verus!
