//! Suggestions: sequences of actions that are repeated often enough are offered
//! for learning. A suggestion is never carried out by itself.

use crate::clock::{day_of, is_id, now_reading, random_id, Moment, MAX_SHIFT_DAYS};
use crate::settings::{ProactiveSettings, Ratio};
use crate::table::Table;
use crate::text::{
    contains_string, copy_str, copy_strings, decimal, decimal_text, join, joined, less_text, same_text, text_less, texts,
};
use vstd::prelude::*;

verus! {

/// An offer to learn what is done again and again.
pub struct ProactiveSuggestion {
    pub id: String,
    pub app_id: String,
    pub summary: String,
    pub sequence: Vec<String>,
    pub created_at: String,
    /// Whether it is carried out without being asked for.
    pub auto_exec: bool,
}

/// What the user makes of a suggestion.
#[derive(Debug, Clone, Copy, PartialEq, Eq, Structural)]
pub enum SuggestionAction {
    Learn,
    ExecuteOnce,
    Ignore,
    MuteForever,
}

/// A sequence of actions that was seen.
pub struct SequenceRecord {
    pub app_id: String,
    pub actions: Vec<String>,
    pub day: String,
}

/// What a sequence says.
pub struct SequenceModel {
    pub app_id: Seq<char>,
    pub actions: Seq<Seq<char>>,
    pub day: Seq<char>,
}

impl View for SequenceRecord {
    type V = SequenceModel;

    open spec fn view(&self) -> SequenceModel {
        SequenceModel { app_id: self.app_id@, actions: texts(self.actions@), day: self.day@ }
    }
}

/// What a list of sequences says.
pub open spec fn history_model(v: Seq<SequenceRecord>) -> Seq<SequenceModel> {
    v.map_values(|r: SequenceRecord| r@)
}

/// What has been seen, offered and answered.
pub struct ProactiveEngine {
    pub settings: ProactiveSettings,
    pub history: Vec<SequenceRecord>,
    pub suggestions: Vec<ProactiveSuggestion>,
    /// How often each sequence was ignored.
    pub ignored: Table<u32>,
    /// Until which day each sequence is not offered.
    pub muted_until: Table<String>,
    /// When each sequence was last offered, in microseconds.
    pub last_shown: Table<Moment>,
    pub shown_today: u32,
    pub current_day: String,
    pub suppressed: bool,
}

/// Sequences seen longer ago than this count no more, in days.
pub const HISTORY_DAYS: i64 = 7;

/// The day until which a sequence is muted for good.
pub const NEVER_AGAIN: &'static str = "9999-12-31";

/// The key of a sequence.
pub open spec fn key_of(app_id: Seq<char>, actions: Seq<Seq<char>>) -> Seq<char> {
    app_id + ":"@ + joined(actions, "|"@)
}

/// The key of a sequence.
pub fn sequence_key(app_id: &str, actions: &Vec<String>) -> (r: String)
    ensures
        r@ == key_of(app_id@, texts(actions@)),
{
    let mut s = copy_str(app_id);
    s.append(":");
    let list = join(actions, "|");
    s.append(list.as_str());
    s
}

/// The greater of two numbers.
pub open spec fn greater(a: nat, b: nat) -> nat {
    if a > b {
        a
    } else {
        b
    }
}

/// The sequences are the same, or share enough different actions.
pub open spec fn alike(left: Seq<Seq<char>>, right: Seq<Seq<char>>, share: Ratio) -> bool {
    left == right || share.met_by(
        left.to_set().intersect(right.to_set()).len(),
        greater(greater(left.to_set().len(), right.to_set().len()), 1),
    )
}

/// The different strings of `v`, in the order in which they first occur.
fn distinct(v: &Vec<String>) -> (r: Vec<String>)
    ensures
        texts(r@).no_duplicates(),
        texts(r@).to_set() == texts(v@).to_set(),
        r@.len() == texts(v@).to_set().len(),
{
    let mut r: Vec<String> = Vec::new();
    let ghost all = texts(v@);
    for i in 0..v.len()
        invariant
            all == texts(v@),
            texts(r@).no_duplicates(),
            forall|k: Seq<char>| #[trigger] texts(r@).contains(k) <==> all.take(i as int).contains(k),
    {
        let ghost before = texts(r@);
        let ghost x = all[i as int];
        assert(x == v@[i as int]@);
        assert(all.take(i + 1) =~= all.take(i as int).push(x));
        let known = contains_string(&r, v[i].as_str());
        if !known {
            r.push(v[i].clone());
            assert(texts(r@) =~= before.push(x));
        }
        assert forall|k: Seq<char>| #[trigger] texts(r@).contains(k) <==> all.take(i + 1).contains(k) by {
            push_contains(all.take(i as int), x, k);
            push_contains(before, x, k);
            assert(before.contains(k) <==> all.take(i as int).contains(k));
        }
    }
    proof {
        assert(all.take(all.len() as int) =~= all);
        assert(texts(r@).to_set() =~= all.to_set());
        texts(r@).unique_seq_to_set();
    }
    r
}

proof fn push_contains(s: Seq<Seq<char>>, x: Seq<char>, k: Seq<char>)
    ensures
        s.push(x).contains(k) <==> s.contains(k) || k == x,
{
    if s.contains(k) {
        let i = choose|i: int| 0 <= i < s.len() && s[i] == k;
        assert(s.push(x)[i] == k);
    }
    if k == x {
        assert(s.push(x)[s.len() as int] == k);
    }
}

fn same_list(a: &Vec<String>, b: &Vec<String>) -> (r: bool)
    ensures
        r == (texts(a@) == texts(b@)),
{
    if a.len() != b.len() {
        assert(texts(a@).len() != texts(b@).len());
        return false;
    }
    for i in 0..a.len()
        invariant
            a@.len() == b@.len(),
            forall|j: int| 0 <= j < i ==> #[trigger] a@[j]@ == b@[j]@,
    {
        if !same_text(a[i].as_str(), b[i].as_str()) {
            assert(texts(a@)[i as int] != texts(b@)[i as int]);
            return false;
        }
    }
    assert(texts(a@) =~= texts(b@));
    true
}

/// The number of strings of `a` that `b` holds too.
fn count_common(a: &Vec<String>, b: &Vec<String>) -> (r: usize)
    requires
        texts(a@).no_duplicates(),
    ensures
        r == texts(a@).to_set().intersect(texts(b@).to_set()).len(),
        r <= a@.len(),
{
    let ghost all = texts(a@);
    let ghost other = texts(b@).to_set();
    let mut common: Vec<String> = Vec::new();
    for i in 0..a.len()
        invariant
            all == texts(a@),
            all.no_duplicates(),
            other == texts(b@).to_set(),
            common@.len() <= i,
            texts(common@).no_duplicates(),
            forall|k: Seq<char>| #[trigger] texts(common@).contains(k) <==> all.take(i as int).contains(k) && other.contains(k),
    {
        let ghost before = texts(common@);
        let ghost x = all[i as int];
        assert(x == a@[i as int]@);
        assert(all.take(i + 1) =~= all.take(i as int).push(x));
        assert(!all.take(i as int).contains(x)) by {
            if all.take(i as int).contains(x) {
                let j = choose|j: int| 0 <= j < all.take(i as int).len() && all.take(i as int)[j] == x;
                assert(all[j] == all[i as int]);
            }
        }
        if contains_string(b, a[i].as_str()) {
            common.push(a[i].clone());
            assert(texts(common@) =~= before.push(x));
            assert(!before.contains(x));
        }
        assert forall|k: Seq<char>| #[trigger] texts(common@).contains(k) <==> all.take(i + 1).contains(k) && other.contains(k) by {
            push_contains(all.take(i as int), x, k);
            push_contains(before, x, k);
            assert(before.contains(k) <==> all.take(i as int).contains(k) && other.contains(k));
        }
    }
    proof {
        assert(all.take(all.len() as int) =~= all);
        assert(texts(common@).to_set() =~= all.to_set().intersect(other));
        texts(common@).unique_seq_to_set();
    }
    common.len()
}

/// Whether two sequences are alike.
pub fn similar(left: &Vec<String>, right: &Vec<String>, share: Ratio) -> (r: bool)
    ensures
        r == alike(texts(left@), texts(right@), share),
{
    if same_list(left, right) {
        return true;
    }
    let a = distinct(left);
    let b = distinct(right);
    let part: usize = count_common(&a, &b);
    let whole: usize = if a.len() > b.len() {
        a.len()
    } else {
        b.len()
    };
    let whole: usize = if whole > 1 {
        whole
    } else {
        1
    };
    proof {
        assert(part * share.den <= u128::MAX) by (nonlinear_arith)
            requires
                part <= u64::MAX,
                share.den <= u32::MAX,
        ;
        assert(share.num * whole <= u128::MAX) by (nonlinear_arith)
            requires
                whole <= u64::MAX,
                share.num <= u32::MAX,
        ;
    }
    part as u128 * share.den as u128 >= share.num as u128 * whole as u128
}

/// How many of the sequences are of this application, alike and, where a day is
/// given, of this day.
pub open spec fn count_alike(
    v: Seq<SequenceModel>,
    app_id: Seq<char>,
    actions: Seq<Seq<char>>,
    share: Ratio,
    day: Option<Seq<char>>,
) -> nat
    decreases v.len(),
{
    if v.len() == 0 {
        0
    } else {
        let r = v.last();
        count_alike(v.drop_last(), app_id, actions, share, day) + if r.app_id == app_id && (day matches Some(d) ==> r.day
            == d) && alike(r.actions, actions, share) {
            1nat
        } else {
            0nat
        }
    }
}

/// The sequences that are not of a day before `cutoff`.
pub open spec fn recent(v: Seq<SequenceModel>, cutoff: Seq<char>) -> Seq<SequenceModel>
    decreases v.len(),
{
    if v.len() == 0 {
        seq![]
    } else if text_less(v.last().day, cutoff) {
        recent(v.drop_last(), cutoff)
    } else {
        recent(v.drop_last(), cutoff).push(v.last())
    }
}

/// An hour in nanoseconds.
pub const HOUR_NANOS: i128 = 3_600_000_000_000;

/// What the engine knows, as far as the decisions go by it.
pub struct EngineModel {
    pub history: Seq<SequenceModel>,
    pub ignored: Map<Seq<char>, u32>,
    pub muted_until: Map<Seq<char>, Seq<char>>,
    pub last_shown: Map<Seq<char>, Moment>,
    pub shown_today: u32,
    pub current_day: Seq<char>,
}

/// The engine after a sequence was noted: old ones are forgotten, and a new day
/// begins with nothing offered.
pub open spec fn noted(m: EngineModel, s: SequenceModel, cutoff: Seq<char>) -> EngineModel {
    EngineModel {
        history: recent(m.history, cutoff).push(s),
        current_day: s.day,
        shown_today: if m.current_day != s.day {
            0
        } else {
            m.shown_today
        },
        ..m
    }
}

/// Nothing stands against an offer of this sequence now.
pub open spec fn may_offer(m: EngineModel, settings: ProactiveSettings, suppressed: bool, s: SequenceModel, now: Moment) -> bool {
    let key = key_of(s.app_id, s.actions);
    &&& settings.enabled
    &&& !suppressed
    &&& s.actions.len() > 0
    &&& !(m.muted_until.contains_key(key) && !text_less(m.muted_until[key], s.day))
    &&& !(m.last_shown.contains_key(key) && now.nanos_at() - m.last_shown[key].nanos_at() < settings.cooldown_hours * HOUR_NANOS)
    &&& m.shown_today < settings.daily_cap
}

/// The sequence was seen often enough, today or in the days before.
pub open spec fn often_enough(m: EngineModel, settings: ProactiveSettings, s: SequenceModel) -> bool {
    count_alike(m.history, s.app_id, s.actions, settings.similarity, Some(s.day)) >= settings.daily_threshold
        || count_alike(m.history, s.app_id, s.actions, settings.similarity, None) >= settings.weekly_threshold
}

/// The engine after the sequence was offered.
pub open spec fn offered(m: EngineModel, s: SequenceModel, now: Moment) -> EngineModel {
    EngineModel {
        last_shown: m.last_shown.insert(key_of(s.app_id, s.actions), now),
        shown_today: (m.shown_today + 1) as u32,
        ..m
    }
}

/// The offer of this sequence.
pub open spec fn is_offer(o: ProactiveSuggestion, m: EngineModel, settings: ProactiveSettings, s: SequenceModel) -> bool {
    &&& o.app_id@ == s.app_id
    &&& texts(o.sequence@) == s.actions
    &&& o.summary@ == "检测到重复操作（近 7 天 "@ + decimal(
        count_alike(m.history, s.app_id, s.actions, settings.similarity, None),
    ) + " 次，今天 "@ + decimal(count_alike(m.history, s.app_id, s.actions, settings.similarity, Some(s.day)))
        + " 次），是否沉淀为技能或下次帮你完成？"@
    &&& !o.auto_exec
}

/// A sequence was noted, and offered where it was to be. What is kept of an offer
/// is what is handed out; only its `id` and `created_at` are left open.
pub open spec fn observed(
    before: ProactiveEngine,
    after: ProactiveEngine,
    r: Option<ProactiveSuggestion>,
    s: SequenceModel,
    cutoff: Seq<char>,
    now: Moment,
) -> bool {
    let m = noted(before.model(), s, cutoff);
    if may_offer(m, before.settings, before.suppressed, s, now) && often_enough(m, before.settings, s) {
        &&& r matches Some(o) && is_offer(o, m, before.settings, s) && after.suggestions@.last().id == o.id
            && after.suggestions@.last().created_at == o.created_at
        &&& after.model() == offered(m, s, now)
        &&& after.suggestions@.len() == before.suggestions@.len() + 1
        &&& after.suggestions@.drop_last() == before.suggestions@
        &&& is_offer(after.suggestions@.last(), m, before.settings, s)
    } else {
        r is None && after.model() == m && after.suggestions == before.suggestions
    }
}

impl Clone for ProactiveSuggestion {
    fn clone(&self) -> (r: ProactiveSuggestion)
        ensures
            r.id == self.id,
            r.app_id == self.app_id,
            r.summary == self.summary,
            r.sequence@ == self.sequence@,
            r.created_at == self.created_at,
            r.auto_exec == self.auto_exec,
    {
        ProactiveSuggestion {
            id: self.id.clone(),
            app_id: self.app_id.clone(),
            summary: self.summary.clone(),
            sequence: copy_strings(&self.sequence),
            created_at: self.created_at.clone(),
            auto_exec: self.auto_exec,
        }
    }
}

impl ProactiveEngine {
    /// No key stands twice in a table.
    pub open spec fn wf(self) -> bool {
        self.ignored.wf() && self.muted_until.wf() && self.last_shown.wf()
    }

    /// What the engine knows.
    pub open spec fn model(self) -> EngineModel {
        EngineModel {
            history: history_model(self.history@),
            ignored: self.ignored@,
            muted_until: self.muted_until@.map_values(|s: String| s@),
            last_shown: self.last_shown@,
            shown_today: self.shown_today,
            current_day: self.current_day@,
        }
    }

    /// An engine that has seen nothing, as of today.
    pub fn new(settings: ProactiveSettings) -> (r: ProactiveEngine)
        ensures
            r.wf(),
            r.settings == settings,
            r.history@.len() == 0,
            r.suggestions@.len() == 0,
            r.model().muted_until == Map::<Seq<char>, Seq<char>>::empty(),
            r.last_shown@ == Map::<Seq<char>, Moment>::empty(),
            r.ignored@ == Map::<Seq<char>, u32>::empty(),
            r.shown_today == 0,
            !r.suppressed,
            exists|now: Moment| r.current_day@ == #[trigger] day_of(now.secs, 0),
    {
        let (now, today, _, _) = now_reading(0);
        assert(today@ == day_of(now.secs, 0));
        let r = ProactiveEngine {
            settings,
            history: Vec::new(),
            suggestions: Vec::new(),
            ignored: Table::new(),
            muted_until: Table::new(),
            last_shown: Table::new(),
            shown_today: 0,
            current_day: today,
            suppressed: false,
        };
        assert(r.model().muted_until =~= Map::<Seq<char>, Seq<char>>::empty());
        r
    }

    /// Switches offers off or on.
    pub fn set_suppressed(&mut self, suppressed: bool)
        ensures
            *final(self) == (ProactiveEngine { suppressed, ..*old(self) }),
    {
        self.suppressed = suppressed;
    }

    fn count(&self, app_id: &str, actions: &Vec<String>, day: Option<&String>) -> (r: usize)
        ensures
            r == count_alike(
                history_model(self.history@),
                app_id@,
                texts(actions@),
                self.settings.similarity,
                match day {
                    Some(d) => Some(d@),
                    None => None,
                },
            ),
    {
        let ghost all = history_model(self.history@);
        let ghost d = match day {
            Some(d) => Some(d@),
            None => None,
        };
        let mut n: usize = 0;
        for i in 0..self.history.len()
            invariant
                all == history_model(self.history@),
                d == (match day {
                    Some(d) => Some(d@),
                    None => None,
                }),
                n <= i,
                n == count_alike(all.take(i as int), app_id@, texts(actions@), self.settings.similarity, d),
        {
            let rec = &self.history[i];
            assert(all.take(i + 1).drop_last() =~= all.take(i as int));
            assert(all.take(i + 1).last() == self.history@[i as int]@);
            let on_day = match day {
                Some(d) => same_text(rec.day.as_str(), d.as_str()),
                None => true,
            };
            if same_text(rec.app_id.as_str(), app_id) && on_day && similar(&rec.actions, actions, self.settings.similarity) {
                n += 1;
            }
        }
        assert(all.take(all.len() as int) =~= all);
        n
    }

    fn forget_before(&mut self, cutoff: &str)
        ensures
            history_model(final(self).history@) == recent(history_model(old(self).history@), cutoff@),
            *final(self) == (ProactiveEngine { history: final(self).history, ..*old(self) }),
    {
        let ghost all = history_model(self.history@);
        let mut old_history: Vec<SequenceRecord> = Vec::new();
        std::mem::swap(&mut old_history, &mut self.history);
        let ghost source = old_history@;
        let mut kept: Vec<SequenceRecord> = Vec::new();
        assert(history_model(kept@) =~= recent(all.skip(0).take(0), cutoff@));
        let mut n: usize = 0;
        let total: usize = old_history.len();
        assert(all.take(0) =~= all.skip(0).take(0));
        while old_history.len() > 0
            invariant
                n + old_history@.len() == source.len(),
                total == source.len(),
                old_history@ == source.skip(n as int),
                all == history_model(source),
                history_model(kept@) == recent(all.take(n as int), cutoff@),
            decreases old_history@.len(),
        {
            let ghost kept0 = kept@;
            let rec = old_history.remove(0);
            let ghost m = rec@;
            proof {
                assert(rec == source[n as int]);
                assert(old_history@ =~= source.skip(n + 1));
                assert(all.take(n + 1).drop_last() =~= all.take(n as int));
                assert(all.take(n + 1).last() == m);
            }
            if !less_text(rec.day.as_str(), cutoff) {
                kept.push(rec);
                assert(history_model(kept@) =~= history_model(kept0).push(m));
            }
            n += 1;
        }
        assert(all.take(all.len() as int) =~= all);
        self.history = kept;
    }

    /// Notes a sequence of actions at the time `now` of the day `day`, and offers
    /// it where it is repeated often enough and nothing stands against it.
    pub fn observe_at(
        &mut self,
        app_id: &str,
        actions: Vec<String>,
        now: Moment,
        day: &str,
        cutoff: &str,
        id: String,
        created_at: String,
    ) -> (r: Option<ProactiveSuggestion>)
        requires
            old(self).wf(),
        ensures
            final(self).wf(),
            final(self).settings == old(self).settings,
            final(self).suppressed == old(self).suppressed,
            observed(
                *old(self),
                *final(self),
                r,
                SequenceModel { app_id: app_id@, actions: texts(actions@), day: day@ },
                cutoff@,
                now,
            ),
            r matches Some(o) ==> o.id == id && o.created_at == created_at,
    {
        let ghost before = *self;
        let ghost s = SequenceModel { app_id: app_id@, actions: texts(actions@), day: day@ };
        let ghost m = noted(before.model(), s, cutoff@);
        if !same_text(self.current_day.as_str(), day) {
            self.current_day = copy_str(day);
            self.shown_today = 0;
        }
        self.forget_before(cutoff);
        let ghost kept = self.history@;
        self.history.push(SequenceRecord { app_id: copy_str(app_id), actions: copy_strings(&actions), day: copy_str(day) });
        proof {
            assert(history_model(self.history@) =~= history_model(kept).push(s));
            assert(self.model() == m);
        }
        if !self.settings.enabled || self.suppressed || actions.len() == 0 {
            return None;
        }
        let key = sequence_key(app_id, &actions);
        match self.muted_until.get(key.as_str()) {
            Some(until) => {
                if !less_text(until.as_str(), day) {
                    return None;
                }
            },
            None => {},
        }
        match self.last_shown.get(key.as_str()) {
            Some(last) => {
                if now.nanos_since(last) < (self.settings.cooldown_hours as i128) * HOUR_NANOS {
                    return None;
                }
            },
            None => {},
        }
        if self.shown_today >= self.settings.daily_cap {
            return None;
        }
        let today_text = copy_str(day);
        let same_today: usize = self.count(app_id, &actions, Some(&today_text));
        let same_week: usize = self.count(app_id, &actions, None);
        if !(same_today as u64 >= self.settings.daily_threshold as u64 || same_week as u64
            >= self.settings.weekly_threshold as u64) {
            return None;
        }
        let mut summary = copy_str("检测到重复操作（近 7 天 ");
        let week = decimal_text(same_week as u64);
        summary.append(week.as_str());
        summary.append(" 次，今天 ");
        let today = decimal_text(same_today as u64);
        summary.append(today.as_str());
        summary.append(" 次），是否沉淀为技能或下次帮你完成？");
        let suggestion = ProactiveSuggestion {
            id,
            app_id: copy_str(app_id),
            summary,
            sequence: actions,
            created_at,
            auto_exec: false,
        };
        self.last_shown.insert(key, now);
        self.shown_today = self.shown_today + 1;
        let ghost listed = self.suggestions@;
        self.suggestions.push(suggestion.clone());
        assert(self.suggestions@.drop_last() =~= listed);
        Some(suggestion)
    }

    /// Notes a sequence of actions now, and offers it where it is repeated often
    /// enough and nothing stands against it.
    pub fn observe(&mut self, app_id: &str, actions: Vec<String>) -> (r: Option<ProactiveSuggestion>)
        requires
            old(self).wf(),
        ensures
            final(self).wf(),
            final(self).settings == old(self).settings,
            final(self).suppressed == old(self).suppressed,
            r matches Some(o) ==> is_id(o.id@),
            exists|now: Moment|
                observed(
                    *old(self),
                    *final(self),
                    r,
                    SequenceModel { app_id: app_id@, actions: texts(actions@), day: day_of(now.secs, 0) },
                    #[trigger] day_of(now.secs, (-HISTORY_DAYS) as i64),
                    now,
                ),
    {
        let (now, day, cutoff, created_at) = now_reading(-HISTORY_DAYS);
        assert(cutoff@ == day_of(now.secs, (-HISTORY_DAYS) as i64));
        self.observe_at(app_id, actions, now, day.as_str(), cutoff.as_str(), random_id(), created_at)
    }

    /// Takes in what the user makes of a suggestion. One that is ignored twice is
    /// muted until `silence_end`, or for good where the user says so.
    pub fn decide_at(&mut self, suggestion_id: &str, action: SuggestionAction, silence_end: &str) -> (r: Result<(), String>)
        requires
            old(self).wf(),
        ensures
            final(self).wf(),
            final(self).settings == old(self).settings,
            final(self).suppressed == old(self).suppressed,
            final(self).suggestions == old(self).suggestions,
            ({
                let i = find_suggestion(old(self).suggestions@, suggestion_id@, 0);
                let m = old(self).model();
                if i < 0 {
                    &&& r matches Err(e) && e@ == "建议不存在："@ + suggestion_id@
                    &&& final(self).model() == m
                } else {
                    let o = old(self).suggestions@[i];
                    &&& r is Ok
                    &&& final(self).model() == decided(m, key_of(o.app_id@, texts(o.sequence@)), action, silence_end@)
                }
            }),
    {
        let ghost before = *self;
        let mut found: Option<usize> = None;
        let mut i: usize = 0;
        while i < self.suggestions.len() && found.is_none()
            invariant
                *self == before,
                i <= self.suggestions@.len(),
                match found {
                    Some(k) => k < self.suggestions@.len() && find_suggestion(self.suggestions@, suggestion_id@, 0) == k,
                    None => find_suggestion(self.suggestions@, suggestion_id@, 0) == find_suggestion(
                        self.suggestions@,
                        suggestion_id@,
                        i as int,
                    ),
                },
            decreases self.suggestions@.len() - i,
        {
            if same_text(self.suggestions[i].id.as_str(), suggestion_id) {
                found = Some(i);
            }
            i += 1;
        }
        let k: usize = match found {
            Some(k) => k,
            None => {
                let mut e = copy_str("建议不存在：");
                e.append(suggestion_id);
                return Err(e);
            },
        };
        let key = sequence_key(self.suggestions[k].app_id.as_str(), &self.suggestions[k].sequence);
        let ghost kk = key@;
        match action {
            SuggestionAction::Ignore => {
                let count: u32 = match self.ignored.get(key.as_str()) {
                    Some(n) => if *n < u32::MAX {
                        *n + 1
                    } else {
                        u32::MAX
                    },
                    None => 1,
                };
                self.ignored.insert(key.clone(), count);
                if count >= 2 {
                    self.muted_until.insert(key, copy_str(silence_end));
                    assert(self.model().muted_until =~= before.model().muted_until.insert(kk, silence_end@));
                }
            },
            SuggestionAction::MuteForever => {
                self.muted_until.insert(key, copy_str(NEVER_AGAIN));
                assert(self.model().muted_until =~= before.model().muted_until.insert(kk, NEVER_AGAIN@));
            },
            SuggestionAction::Learn | SuggestionAction::ExecuteOnce => {
                self.last_shown.remove(key.as_str());
            },
        }
        Ok(())
    }

    /// The answer mutes the sequence for a while: it is ignored once more.
    pub open spec fn silences(self, suggestion_id: Seq<char>, action: SuggestionAction) -> bool {
        let i = find_suggestion(self.suggestions@, suggestion_id, 0);
        let o = self.suggestions@[i];
        action is Ignore && i >= 0 && ignored_count(self.model(), key_of(o.app_id@, texts(o.sequence@))) >= 2
    }

    /// Takes in what the user makes of a suggestion, now.
    pub fn decide(&mut self, suggestion_id: &str, action: SuggestionAction) -> (r: Result<(), String>)
        requires
            old(self).wf(),
            old(self).silences(suggestion_id@, action) ==> old(self).settings.auto_silence_days <= MAX_SHIFT_DAYS,
        ensures
            final(self).wf(),
            final(self).settings == old(self).settings,
            final(self).suppressed == old(self).suppressed,
            final(self).suggestions == old(self).suggestions,
            ({
                let i = find_suggestion(old(self).suggestions@, suggestion_id@, 0);
                let m = old(self).model();
                if i < 0 {
                    (r matches Err(e) && e@ == "建议不存在："@ + suggestion_id@) && final(self).model() == m
                } else {
                    let o = old(self).suggestions@[i];
                    r is Ok && exists|now: Moment|
                        final(self).model() == decided(
                            m,
                            key_of(o.app_id@, texts(o.sequence@)),
                            action,
                            #[trigger] day_of(now.secs, old(self).settings.auto_silence_days as i64),
                        )
                }
            }),
    {
        let days: i64 = self.settings.auto_silence_days as i64;
        if days > MAX_SHIFT_DAYS {
            let (now, _, _, _) = now_reading(0);
            proof {
                let i = find_suggestion(self.suggestions@, suggestion_id@, 0);
                if i >= 0 {
                    let o = self.suggestions@[i];
                    let key = key_of(o.app_id@, texts(o.sequence@));
                    assert(decided(self.model(), key, action, ""@) == decided(
                        self.model(),
                        key,
                        action,
                        day_of(now.secs, days),
                    ));
                }
            }
            return self.decide_at(suggestion_id, action, "");
        }
        let (now, _, silence_end, _) = now_reading(days);
        assert(silence_end@ == day_of(now.secs, old(self).settings.auto_silence_days as i64));
        self.decide_at(suggestion_id, action, silence_end.as_str())
    }

    /// The offers that were made.
    pub fn suggestions(&self) -> (r: &Vec<ProactiveSuggestion>)
        ensures
            *r == self.suggestions,
    {
        &self.suggestions
    }

    /// The number of sequences that are remembered.
    pub fn history_len(&self) -> (r: usize)
        ensures
            r == self.history@.len(),
    {
        self.history.len()
    }
}

/// The position of the first suggestion with this id, or `-1`.
pub open spec fn find_suggestion(v: Seq<ProactiveSuggestion>, id: Seq<char>, from: int) -> int
    decreases v.len() - from,
{
    if from < 0 || from >= v.len() {
        -1
    } else if v[from].id@ == id {
        from
    } else {
        find_suggestion(v, id, from + 1)
    }
}

/// How often a sequence was ignored, with this time.
pub open spec fn ignored_count(m: EngineModel, key: Seq<char>) -> u32 {
    if m.ignored.contains_key(key) {
        if m.ignored[key] < u32::MAX {
            (m.ignored[key] + 1) as u32
        } else {
            u32::MAX
        }
    } else {
        1
    }
}

/// The engine after the user's answer to a sequence.
pub open spec fn decided(m: EngineModel, key: Seq<char>, action: SuggestionAction, silence_end: Seq<char>) -> EngineModel {
    match action {
        SuggestionAction::Ignore => EngineModel {
            ignored: m.ignored.insert(key, ignored_count(m, key)),
            muted_until: if ignored_count(m, key) >= 2 {
                m.muted_until.insert(key, silence_end)
            } else {
                m.muted_until
            },
            ..m
        },
        SuggestionAction::MuteForever => EngineModel { muted_until: m.muted_until.insert(key, NEVER_AGAIN@), ..m },
        _ => EngineModel { last_shown: m.last_shown.remove(key), ..m },
    }
}

// ---------------------------------------------------------------------------
// Laws
// ---------------------------------------------------------------------------

/// Within a day no more is offered than the cap allows.
pub proof fn daily_cap_holds(m: EngineModel, settings: ProactiveSettings, suppressed: bool, s: SequenceModel, now: Moment)
    requires
        may_offer(m, settings, suppressed, s, now),
    ensures
        offered(m, s, now).shown_today <= settings.daily_cap,
        offered(m, s, now).shown_today == m.shown_today + 1,
{
}

/// What was just offered is not offered again before the cooldown is over.
pub proof fn cooldown_holds(
    m: EngineModel,
    settings: ProactiveSettings,
    suppressed: bool,
    s: SequenceModel,
    cutoff: Seq<char>,
    shown: Moment,
    now: Moment,
)
    requires
        now.nanos_at() - shown.nanos_at() < settings.cooldown_hours * HOUR_NANOS,
    ensures
        !may_offer(noted(offered(m, s, shown), s, cutoff), settings, suppressed, s, now),
{
}

/// What the user never wants to see again is not offered on any day up to the
/// last that there is.
pub proof fn muted_for_good(
    m: EngineModel,
    settings: ProactiveSettings,
    suppressed: bool,
    s: SequenceModel,
    cutoff: Seq<char>,
    end: Seq<char>,
    now: Moment,
)
    requires
        !text_less(NEVER_AGAIN@, s.day),
    ensures
        ({
            let key = key_of(s.app_id, s.actions);
            !may_offer(
                noted(decided(m, key, SuggestionAction::MuteForever, end), s, cutoff),
                settings,
                suppressed,
                s,
                now,
            )
        }),
{
}

/// Whoever ignores an offer twice does not see it until the silence is over.
pub proof fn ignored_twice_is_silent(
    m: EngineModel,
    settings: ProactiveSettings,
    suppressed: bool,
    s: SequenceModel,
    cutoff: Seq<char>,
    end: Seq<char>,
    now: Moment,
)
    requires
        !text_less(end, s.day),
    ensures
        ({
            let key = key_of(s.app_id, s.actions);
            let once = decided(m, key, SuggestionAction::Ignore, end);
            let twice = decided(once, key, SuggestionAction::Ignore, end);
            !may_offer(noted(twice, s, cutoff), settings, suppressed, s, now)
        }),
{
}

/// Sequences count as alike where they are the same, and where the actions that both
/// have make up the share that is asked for of the longer one; in whichever order they
/// are held against each other.
pub proof fn likeness_goes_both_ways(left: Seq<Seq<char>>, right: Seq<Seq<char>>, share: Ratio)
    ensures
        alike(left, left, share),
        alike(left, right, share) == alike(right, left, share),
        left != right && left.len() > 0 && right.len() > 0 && share.num > 0 && share.den > 0 && left.to_set().disjoint(
            right.to_set(),
        ) ==> !alike(left, right, share),
        left != right && left.to_set() == right.to_set() && left.len() > 0 && share.num <= share.den ==> alike(
            left,
            right,
            share,
        ),
{
    let a = left.to_set();
    let b = right.to_set();
    vstd::seq_lib::seq_to_set_is_finite(left);
    vstd::seq_lib::seq_to_set_is_finite(right);
    assert(a.intersect(b) =~= b.intersect(a));
    if a.disjoint(b) {
        assert(a.intersect(b) =~= Set::<Seq<char>>::empty());
        let n = share.num as int;
        let w = greater(greater(a.len(), b.len()), 1) as int;
        assert(n > 0 && w >= 1 ==> n * w > 0) by (nonlinear_arith);
        assert(0 * share.den == 0) by (nonlinear_arith);
    }
    if a == b && left.len() > 0 {
        assert(a.intersect(b) =~= a);
        assert(a.contains(left[0]));
        assert(a.len() >= 1) by {
            if a.len() == 0 {
                a.lemma_len0_is_empty();
            }
        }
        let n = share.num as int;
        let d = share.den as int;
        let w = a.len() as int;
        assert(n <= d && w >= 0 ==> w * d >= n * w) by (nonlinear_arith);
    }
}

/// What counts is how often something alike was done in the same application, on the
/// day where a day is asked for, and in all of the time else.
pub proof fn likes_are_counted(
    v: Seq<SequenceModel>,
    r: SequenceModel,
    app_id: Seq<char>,
    actions: Seq<Seq<char>>,
    share: Ratio,
    day: Seq<char>,
)
    ensures
        count_alike(seq![], app_id, actions, share, None) == 0,
        r.app_id == app_id && alike(r.actions, actions, share) ==> count_alike(v.push(r), app_id, actions, share, None)
            == count_alike(v, app_id, actions, share, None) + 1,
        r.app_id != app_id || !alike(r.actions, actions, share) ==> count_alike(v.push(r), app_id, actions, share, None)
            == count_alike(v, app_id, actions, share, None),
        r.app_id == app_id && r.day == day && alike(r.actions, actions, share) ==> count_alike(
            v.push(r),
            app_id,
            actions,
            share,
            Some(day),
        ) == count_alike(v, app_id, actions, share, Some(day)) + 1,
        r.app_id != app_id || r.day != day || !alike(r.actions, actions, share) ==> count_alike(
            v.push(r),
            app_id,
            actions,
            share,
            Some(day),
        ) == count_alike(v, app_id, actions, share, Some(day)),
{
    assert(v.push(r).drop_last() =~= v);
}

/// What is older than the first day that counts is forgotten, and nothing else; what was
/// just done is remembered, and a new day begins with nothing offered.
pub proof fn old_sequences_are_forgotten(v: Seq<SequenceModel>, r: SequenceModel, m: EngineModel, s: SequenceModel, cutoff: Seq<char>)
    ensures
        recent(seq![], cutoff) == Seq::<SequenceModel>::empty(),
        text_less(r.day, cutoff) ==> recent(v.push(r), cutoff) == recent(v, cutoff),
        !text_less(r.day, cutoff) ==> recent(v.push(r), cutoff) == recent(v, cutoff).push(r),
        noted(m, s, cutoff).history.last() == s && noted(m, s, cutoff).history.drop_last() == recent(m.history, cutoff),
        noted(m, s, cutoff).current_day == s.day,
        m.current_day == s.day ==> noted(m, s, cutoff).shown_today == m.shown_today,
        m.current_day != s.day ==> noted(m, s, cutoff).shown_today == 0,
        noted(m, s, cutoff).ignored == m.ignored && noted(m, s, cutoff).muted_until == m.muted_until && noted(
            m,
            s,
            cutoff,
        ).last_shown == m.last_shown,
{
    assert(v.push(r).drop_last() =~= v);
    assert(noted(m, s, cutoff).history.drop_last() =~= recent(m.history, cutoff));
}

/// Nothing is offered where that is switched off or held back, where nothing was done,
/// on the days on which it is silenced, during the cooldown, or above the cap of the
/// day; and nothing else stands against it.
pub proof fn offers_are_held_back_for_six_reasons(
    m: EngineModel,
    settings: ProactiveSettings,
    suppressed: bool,
    s: SequenceModel,
    now: Moment,
)
    ensures
        ({
            let key = key_of(s.app_id, s.actions);
            &&& !settings.enabled ==> !may_offer(m, settings, suppressed, s, now)
            &&& suppressed ==> !may_offer(m, settings, suppressed, s, now)
            &&& s.actions.len() == 0 ==> !may_offer(m, settings, suppressed, s, now)
            &&& m.muted_until.contains_key(key) && !text_less(m.muted_until[key], s.day) ==> !may_offer(
                m,
                settings,
                suppressed,
                s,
                now,
            )
            &&& m.shown_today >= settings.daily_cap ==> !may_offer(m, settings, suppressed, s, now)
            &&& settings.enabled && !suppressed && s.actions.len() > 0 && !m.muted_until.contains_key(key)
                && !m.last_shown.contains_key(key) && m.shown_today < settings.daily_cap ==> may_offer(
                m,
                settings,
                suppressed,
                s,
                now,
            )
            &&& settings.enabled && !suppressed && s.actions.len() > 0 && m.muted_until.contains_key(key) && text_less(
                m.muted_until[key],
                s.day,
            ) && m.last_shown.contains_key(key) && now.nanos_at() - m.last_shown[key].nanos_at()
                >= settings.cooldown_hours * 3_600_000_000_000 && m.shown_today < settings.daily_cap ==> may_offer(
                m,
                settings,
                suppressed,
                s,
                now,
            )
        }),
{
}

/// Something is done often enough if it was on the day as often as a day asks for, or
/// in all as often as a week does.
pub proof fn a_day_or_a_week_is_enough(m: EngineModel, settings: ProactiveSettings, s: SequenceModel)
    ensures
        often_enough(m, settings, s) <==> count_alike(m.history, s.app_id, s.actions, settings.similarity, Some(s.day))
            >= settings.daily_threshold || count_alike(m.history, s.app_id, s.actions, settings.similarity, None)
            >= settings.weekly_threshold,
{
}

/// An offer is for the application and the actions that were seen, says how often they
/// were, and does nothing by itself.
pub proof fn offers_say_what_was_seen(o: ProactiveSuggestion, m: EngineModel, settings: ProactiveSettings, s: SequenceModel)
    requires
        is_offer(o, m, settings, s),
    ensures
        o.app_id@ == s.app_id && texts(o.sequence@) == s.actions && !o.auto_exec,
        crate::text::has_text(
            o.summary@,
            decimal(count_alike(m.history, s.app_id, s.actions, settings.similarity, None)),
        ),
        crate::text::has_text(
            o.summary@,
            decimal(count_alike(m.history, s.app_id, s.actions, settings.similarity, Some(s.day))),
        ),
{
    let a = "检测到重复操作（近 7 天 "@;
    let b = " 次，今天 "@;
    let c = " 次），是否沉淀为技能或下次帮你完成？"@;
    let w = decimal(count_alike(m.history, s.app_id, s.actions, settings.similarity, None));
    let d = decimal(count_alike(m.history, s.app_id, s.actions, settings.similarity, Some(s.day)));
    let t = o.summary@;
    assert(t =~= a + w + (b + d + c));
    crate::text::parts_stand_in_the_whole(a, w, b + d + c, t);
    assert(t =~= (a + w + b) + d + c);
    crate::text::parts_stand_in_the_whole(a + w + b, d, c, t);
}

/// An offer that is made is remembered with its moment and counts for the day; nothing
/// else changes.
pub proof fn offers_are_remembered(m: EngineModel, s: SequenceModel, now: Moment, other: Seq<char>)
    requires
        m.shown_today < u32::MAX,
    ensures
        ({
            let key = key_of(s.app_id, s.actions);
            let after = offered(m, s, now);
            &&& after.last_shown.contains_key(key) && after.last_shown[key] == now
            &&& after.shown_today == m.shown_today + 1
            &&& other != key && m.last_shown.contains_key(other) ==> after.last_shown.contains_key(other)
                && after.last_shown[other] == m.last_shown[other]
            &&& after.history == m.history && after.ignored == m.ignored && after.muted_until == m.muted_until
                && after.current_day == m.current_day
        }),
{
}

/// Ignoring an offer is counted, and from the second time on it silences it; muting it
/// silences it for good; taking it up lets it be offered again at once. What is decided
/// of one offer leaves the others as they are.
pub proof fn decisions_concern_their_offer(m: EngineModel, key: Seq<char>, action: SuggestionAction, end: Seq<char>, other: Seq<char>)
    requires
        other != key,
    ensures
        ({
            let after = decided(m, key, action, end);
            &&& action is Ignore && !m.ignored.contains_key(key) ==> after.ignored[key] == 1 && after.muted_until
                == m.muted_until
            &&& action is Ignore && m.ignored.contains_key(key) && 1 <= m.ignored[key] < u32::MAX ==> after.ignored[key]
                == m.ignored[key] + 1 && after.muted_until.contains_key(key) && after.muted_until[key] == end
            &&& action is MuteForever ==> after.muted_until.contains_key(key) && after.muted_until[key] == NEVER_AGAIN@
                && after.ignored == m.ignored && after.last_shown == m.last_shown
            &&& !(action is Ignore) && !(action is MuteForever) ==> !after.last_shown.contains_key(key) && after.muted_until
                == m.muted_until && after.ignored == m.ignored
            &&& action is Ignore ==> after.last_shown == m.last_shown
            &&& after.ignored.contains_key(other) <==> m.ignored.contains_key(other)
            &&& after.muted_until.contains_key(other) <==> m.muted_until.contains_key(other)
            &&& after.last_shown.contains_key(other) <==> m.last_shown.contains_key(other)
            &&& m.muted_until.contains_key(other) ==> after.muted_until[other] == m.muted_until[other]
            &&& m.last_shown.contains_key(other) ==> after.last_shown[other] == m.last_shown[other]
            &&& after.history == m.history && after.shown_today == m.shown_today && after.current_day == m.current_day
        }),
{
}

/// An offer is found by its identifier, the first that has it.
pub proof fn offers_are_found_by_identifier(v: Seq<ProactiveSuggestion>, id: Seq<char>, from: int)
    requires
        0 <= from,
    ensures
        find_suggestion(v, id, from) >= 0 ==> from <= find_suggestion(v, id, from) < v.len() && v[find_suggestion(
            v,
            id,
            from,
        )].id@ == id && forall|j: int| from <= j < find_suggestion(v, id, from) ==> (#[trigger] v[j]).id@ != id,
        find_suggestion(v, id, from) < 0 <==> forall|j: int| from <= j < v.len() ==> (#[trigger] v[j]).id@ != id,
    decreases v.len() - from,
{
    if from < v.len() && v[from].id@ != id {
        offers_are_found_by_identifier(v, id, from + 1);
    }
}

/// What is offered goes by the application and the actions, in their order.
pub proof fn keys_tell_applications_and_actions(app_id: Seq<char>, actions: Seq<Seq<char>>, other: Seq<Seq<char>>)
    ensures
        crate::text::begins_with(key_of(app_id, actions), app_id),
        crate::text::finishes_with(key_of(app_id, actions), joined(actions, "|"@)),
        key_of(app_id, actions) == key_of(app_id, other) ==> joined(actions, "|"@) == joined(other, "|"@),
{
    let k = key_of(app_id, actions);
    let j = joined(actions, "|"@);
    let o = joined(other, "|"@);
    let head = app_id + ":"@;
    assert(k.take(app_id.len() as int) =~= app_id);
    assert(k.skip(k.len() - j.len()) =~= j);
    assert(k.skip(head.len() as int) =~= j);
    assert(key_of(app_id, other).skip(head.len() as int) =~= o);
}

/// Seeing a sequence makes at most one offer, which is the last on the list; those that
/// were made before stay as they are.
pub proof fn seeing_makes_at_most_one_offer(
    before: ProactiveEngine,
    after: ProactiveEngine,
    r: Option<ProactiveSuggestion>,
    s: SequenceModel,
    cutoff: Seq<char>,
    now: Moment,
    i: int,
)
    requires
        observed(before, after, r, s, cutoff, now),
    ensures
        after.suggestions@.len() == before.suggestions@.len() + if r is Some { 1int } else { 0int },
        0 <= i < before.suggestions@.len() ==> after.suggestions@[i] == before.suggestions@[i],
        r matches Some(o) ==> after.suggestions@.last().id == o.id && after.suggestions@.last().created_at == o.created_at
            && !before.suppressed && before.settings.enabled,
        before.suppressed || !before.settings.enabled ==> r is None,
{
    if r is Some && 0 <= i < before.suggestions@.len() {
        assert(after.suggestions@.drop_last()[i] == after.suggestions@[i]);
    }
}

} // verus!
