//! The record of what was done and decided.

use crate::clock::now_text;
use crate::text::copy_str;
use vstd::prelude::*;

verus! {

/// One entry of the record.
pub struct AuditEntry {
    /// When the entry was made.
    pub ts: String,
    /// The session or goal that the entry belongs to.
    pub session_id: String,
    pub event: String,
    pub tool: Option<String>,
    pub approved: Option<bool>,
    pub detail: String,
}

/// What an entry says, but for its time.
pub struct AuditModel {
    pub session_id: Seq<char>,
    pub event: Seq<char>,
    pub tool: Option<Seq<char>>,
    pub approved: Option<bool>,
    pub detail: Seq<char>,
}

/// The text behind an optional string.
pub open spec fn opt_text(s: Option<String>) -> Option<Seq<char>> {
    match s {
        Some(t) => Some(t@),
        None => None,
    }
}

impl View for AuditEntry {
    type V = AuditModel;

    open spec fn view(&self) -> AuditModel {
        AuditModel {
            session_id: self.session_id@,
            event: self.event@,
            tool: opt_text(self.tool),
            approved: self.approved,
            detail: self.detail@,
        }
    }
}

/// Entries in the order in which they were made.
pub struct AuditLog {
    pub entries: Vec<AuditEntry>,
}

impl View for AuditLog {
    type V = Seq<AuditModel>;

    open spec fn view(&self) -> Seq<AuditModel> {
        self.entries@.map_values(|e: AuditEntry| e@)
    }
}

impl AuditLog {
    /// This record goes on from the other: what stood there stands here unchanged,
    /// its times among it.
    pub open spec fn continues(self, earlier: AuditLog) -> bool {
        earlier.entries@.is_prefix_of(self.entries@)
    }

    /// A record without entries.
    pub fn new() -> (r: AuditLog)
        ensures
            r@ == Seq::<AuditModel>::empty(),
    {
        let r = AuditLog { entries: Vec::new() };
        assert(r@ =~= Seq::<AuditModel>::empty());
        r
    }

    /// Adds an entry at the end, with the time of the call.
    pub fn record(&mut self, session_id: &str, event: &str, tool: Option<String>, approved: Option<bool>, detail: &str)
        ensures
            final(self)@ == old(self)@.push(
                AuditModel {
                    session_id: session_id@,
                    event: event@,
                    tool: opt_text(tool),
                    approved,
                    detail: detail@,
                },
            ),
            final(self).continues(*old(self)),
    {
        let ghost before = self@;
        let ghost made = self.entries@;
        let e = AuditEntry {
            ts: now_text(),
            session_id: copy_str(session_id),
            event: copy_str(event),
            tool,
            approved,
            detail: copy_str(detail),
        };
        let ghost m = e@;
        self.entries.push(e);
        assert(self@ =~= before.push(m));
        assert(self.entries@.subrange(0, made.len() as int) =~= made);
    }
}

/// What is once on record stays there: a record that goes on from one that goes on
/// from another goes on from that.
pub proof fn the_record_only_grows(a: AuditLog, b: AuditLog, c: AuditLog)
    ensures
        a.continues(a),
        b.continues(a) && c.continues(b) ==> c.continues(a),
{
    assert(a.entries@.subrange(0, a.entries@.len() as int) =~= a.entries@);
    if b.continues(a) && c.continues(b) {
        let n = a.entries@.len() as int;
        assert forall|i: int| 0 <= i < n implies a.entries@[i] == c.entries@[i] by {
            assert(a.entries@[i] == b.entries@.subrange(0, n)[i]);
            assert(b.entries@[i] == c.entries@.subrange(0, b.entries@.len() as int)[i]);
        }
        assert(c.entries@.subrange(0, n) =~= a.entries@);
    }
}

} // verus!
