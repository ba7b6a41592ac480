//! The commands of the program: what a turn tells on the console, and where
//! things are kept.

use crate::agent::TurnEvent;
use crate::permissions::{Decision, PermissionRequest};
use crate::text::{
    copy_str, decimal, decimal_text, finishes_with, has_text, lowercase, parts_stand_in_the_whole, same_text, trim, trimmed,
    unicode_lower,
};
use vstd::prelude::*;

verus! {

/// How long an answer to a request for permission is waited for, in
/// milliseconds.
pub const APPROVAL_WAIT_MS: u64 = 300_000;

/// The decision on a request, once there is one: the answer, or a denial when
/// none came in time.
pub fn approval_after(answer: Option<Decision>, waited_ms: u64) -> (r: Option<Decision>)
    ensures
        r == (match answer {
            Some(d) => Some(d),
            None => if waited_ms >= APPROVAL_WAIT_MS {
                Some(Decision::Deny)
            } else {
                None
            },
        }),
{
    match answer {
        Some(d) => Some(d),
        None => if waited_ms >= APPROVAL_WAIT_MS {
            Some(Decision::Deny)
        } else {
            None
        },
    }
}

/// The question on the console whether a tool may run.
pub fn console_question(request: &PermissionRequest) -> (r: String)
    ensures
        r@ == "  允许 "@ + request.level.label_of() + " 执行 "@ + request.tool@ + " ? [y/N] "@,
{
    let mut r = copy_str("  允许 ");
    r.append(request.level.label());
    r.append(" 执行 ");
    r.append(request.tool.as_str());
    r.append(" ? [y/N] ");
    r
}

/// The decision that was typed: `y` and `yes` in any case allow, all else denies,
/// as does a line that could not be read.
pub fn console_decision(line: Option<&String>) -> (r: Decision)
    ensures
        r == (match line {
            Some(t) => {
                let w = unicode_lower(trimmed(t@));
                if w == "y"@ || w == "yes"@ {
                    Decision::Allow
                } else {
                    Decision::Deny
                }
            },
            None => Decision::Deny,
        }),
{
    match line {
        Some(t) => {
            let w = lowercase(trim(t.as_str()).as_str());
            if same_text(w.as_str(), "y") || same_text(w.as_str(), "yes") {
                Decision::Allow
            } else {
                Decision::Deny
            }
        },
        None => Decision::Deny,
    }
}

/// What an event of a turn tells on the console.
pub open spec fn console_words(event: TurnEvent) -> Option<Seq<char>> {
    match event {
        TurnEvent::ModelCall => Some("[model] 调用模型…"@),
        TurnEvent::PermissionRequest(q) => Some(
            "[审批] 需要 "@ + q.level.label_of() + " 权限："@ + q.tool@ + "（"@ + q.reason@ + "）"@,
        ),
        TurnEvent::ToolStart { id, tool } => Some("[工具] "@ + tool@ + " …"@),
        TurnEvent::ToolResult { id, tool, ok, error } => Some(
            if ok {
                "[工具] "@ + tool@ + " 完成"@
            } else {
                "[工具] "@ + tool@ + " 失败："@ + (match error {
                    Some(e) => e@,
                    None => "未知错误"@,
                })
            },
        ),
        TurnEvent::Final { text } => Some("\n=== 最终结果 ===\n"@ + text@),
        TurnEvent::TokenDelta { delta } => None,
        TurnEvent::Compaction { summary } => None,
    }
}

/// The line on the console for an event of a turn.
pub fn console_line(event: &TurnEvent) -> (r: Option<String>)
    ensures
        match r {
            Some(t) => console_words(*event) == Some(t@),
            None => console_words(*event) is None,
        },
{
    match event {
        TurnEvent::ModelCall => Some(copy_str("[model] 调用模型…")),
        TurnEvent::PermissionRequest(q) => {
            let mut r = copy_str("[审批] 需要 ");
            r.append(q.level.label());
            r.append(" 权限：");
            r.append(q.tool.as_str());
            r.append("（");
            r.append(q.reason.as_str());
            r.append("）");
            Some(r)
        },
        TurnEvent::ToolStart { id: _, tool } => {
            let mut r = copy_str("[工具] ");
            r.append(tool.as_str());
            r.append(" …");
            Some(r)
        },
        TurnEvent::ToolResult { id: _, tool, ok, error } => {
            let mut r = copy_str("[工具] ");
            r.append(tool.as_str());
            if *ok {
                r.append(" 完成");
            } else {
                r.append(" 失败：");
                match error {
                    Some(e) => {
                        r.append(e.as_str());
                    },
                    None => {
                        r.append("未知错误");
                    },
                }
            }
            Some(r)
        },
        TurnEvent::Final { text } => {
            let mut r = copy_str("\n=== 最终结果 ===\n");
            r.append(text.as_str());
            Some(r)
        },
        TurnEvent::TokenDelta { .. } => None,
        TurnEvent::Compaction { .. } => None,
    }
}

/// The line at the end of a turn.
pub fn turn_summary(steps: usize, has_text: bool) -> (r: String)
    ensures
        r@ == "\n[完成] 工具步数："@ + decimal(steps as nat) + "，最终文本："@ + (if has_text {
            "true"@
        } else {
            "false"@
        }),
{
    let mut r = copy_str("\n[完成] 工具步数：");
    r.append(decimal_text(steps as u64).as_str());
    r.append("，最终文本：");
    if has_text {
        r.append("true");
    } else {
        r.append("false");
    }
    r
}

/// The model to ask: the one that is named, else the one of the environment, else
/// the usual one.
pub fn resolve_model(named: Option<String>, of_environment: Option<String>) -> (r: String)
    ensures
        match (named, of_environment) {
            (Some(m), _) => r == m,
            (None, Some(m)) => r == m,
            (None, None) => r@ == "gpt-5.1-codex"@,
        },
{
    match named {
        Some(m) => m,
        None => match of_environment {
            Some(m) => m,
            None => copy_str("gpt-5.1-codex"),
        },
    }
}

/// A folder and the folders below it that lead to a place.
pub struct Place {
    pub base: String,
    pub below: Vec<String>,
}

/// Where the program keeps its data: the folder that is named, else one in the
/// user's own, else one below the current folder.
pub fn data_root(named: Option<String>, local_app_data: Option<String>) -> (r: Place)
    ensures
        match (named, local_app_data) {
            (Some(d), _) => r.base == d && r.below@.len() == 0,
            (None, Some(d)) => r.base == d && crate::text::texts(r.below@) == seq!["OwO"@, "Agent"@],
            (None, None) => r.base@ == "data/agent"@ && r.below@.len() == 0,
        },
{
    let mut below: Vec<String> = Vec::new();
    match named {
        Some(d) => Place { base: d, below },
        None => match local_app_data {
            Some(d) => {
                below.push(copy_str("OwO"));
                below.push(copy_str("Agent"));
                assert(crate::text::texts(below@) =~= seq!["OwO"@, "Agent"@]);
                Place { base: d, below }
            },
            None => Place { base: copy_str("data/agent"), below },
        },
    }
}

// ---------------------------------------------------------------------------
// Laws
// ---------------------------------------------------------------------------

/// What happens in a turn is said: which tool runs, how it ended and why it failed, what
/// is asked for and why, and the answer. Only what is shown elsewhere is not.
pub proof fn events_are_said(event: TurnEvent)
    ensures
        console_words(event) is None <==> event is TokenDelta || event is Compaction,
        event matches TurnEvent::ToolStart { id, tool } ==> has_text(console_words(event)->0, tool@),
        event matches TurnEvent::ToolResult { id, tool, ok, error } ==> has_text(console_words(event)->0, tool@) && (!ok
            && error is Some ==> finishes_with(console_words(event)->0, error->0@)),
        event matches TurnEvent::PermissionRequest(q) ==> has_text(console_words(event)->0, q.tool@) && has_text(
            console_words(event)->0,
            q.reason@,
        ) && has_text(console_words(event)->0, q.level.label_of()),
        event matches TurnEvent::Final { text } ==> finishes_with(console_words(event)->0, text@),
{
    match event {
        TurnEvent::ToolStart { id, tool } => {
            parts_stand_in_the_whole("[工具] "@, tool@, " …"@, tool@);
        },
        TurnEvent::ToolResult { id, tool, ok, error } => {
            let t = console_words(event)->0;
            if ok {
                parts_stand_in_the_whole("[工具] "@, tool@, " 完成"@, tool@);
            } else {
                let e = match error {
                    Some(e) => e@,
                    None => "未知错误"@,
                };
                assert(t =~= "[工具] "@ + tool@ + (" 失败："@ + e));
                parts_stand_in_the_whole("[工具] "@, tool@, " 失败："@ + e, tool@);
                assert(t.skip(t.len() - e.len()) =~= e);
            }
        },
        TurnEvent::PermissionRequest(q) => {
            let t = console_words(event)->0;
            let l = q.level.label_of();
            let a = "[审批] 需要 "@;
            let b = " 权限："@;
            assert(t =~= a + l + (b + q.tool@ + "（"@ + q.reason@ + "）"@));
            parts_stand_in_the_whole(a, l, b + q.tool@ + "（"@ + q.reason@ + "）"@, t);
            assert(t =~= (a + l + b) + q.tool@ + ("（"@ + q.reason@ + "）"@));
            parts_stand_in_the_whole(a + l + b, q.tool@, "（"@ + q.reason@ + "）"@, t);
            parts_stand_in_the_whole(a + l + b + q.tool@ + "（"@, q.reason@, "）"@, t);
        },
        TurnEvent::Final { text } => {
            let t = "\n=== 最终结果 ===\n"@ + text@;
            assert(t.skip(t.len() - text@.len()) =~= text@);
        },
        _ => {},
    }
}

} // verus!
