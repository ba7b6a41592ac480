//! What the application makes of the work that is done outside for it: turns,
//! sessions, changed files, skills and servers of tools.

use crate::chat::{chat_model, ChatModel};
use crate::clock::is_id;
use crate::mcp::McpServerConfig;
use crate::number::{parse_unsigned, unsigned_value};
use crate::session::{diff_models, fork_end, redone, rewound, shown_paths, DiffModel, FileDiff, History, Session};
use crate::share::{export_html, export_markdown, html_text, markdown_text};
use crate::skill::Skill;
use crate::text::{
    begins_with, copy_str, decimal, decimal_text, finishes_with, has_text, join, joined, lines_of, parts_stand_in_the_whole,
    same_text, split_lines, texts,
};
use crate::tui::{all_said, entries, said, Style, TuiApp, TuiModel};
use vstd::prelude::*;

verus! {

/// A turn begins.
pub open spec fn begun(m: TuiModel, prompt: Seq<char>) -> TuiModel {
    said(
        TuiModel {
            session: None,
            abort: false,
            pending: Seq::empty(),
            scroll: 0,
            running: true,
            status: "调用模型…"@,
            streaming: Seq::empty(),
            ..m
        },
        "▶ "@ + prompt,
        Style::Cyan,
    )
}

/// A turn has come to an end.
pub open spec fn ended(
    m: TuiModel,
    result: Result<(usize, Option<String>), String>,
    session: Session,
    changed: nat,
) -> TuiModel {
    let back = TuiModel { running: false, session: Some(session), ..m };
    match result {
        Ok(done) => {
            let told = said(
                back,
                "✓ 完成：工具 "@ + decimal(done.0 as nat) + " 步，改动 "@ + decimal(changed)
                    + " 个文件（/diff 查看，/undo 回滚）"@,
                Style::Green,
            );
            TuiModel {
                status: "就绪"@,
                ..match done.1 {
                    Some(text) => said(said(told, "── 结果 ──"@, Style::Bold), text@, Style::Plain),
                    None => told,
                }
            }
        },
        Err(e) => TuiModel { status: "出错"@, ..said(back, "回合失败："@ + e@, Style::Red) },
    }
}

/// A session as it is listed, where it could be read.
pub struct ListedSession {
    pub id: String,
    pub session: Option<Session>,
}

/// The session is the one that is worked on.
pub open spec fn is_active(m: TuiModel, id: Seq<char>) -> bool {
    m.session matches Some(s) && s.id@ == id
}

/// The mark before a session.
pub open spec fn mark(m: TuiModel, id: Seq<char>) -> Seq<char> {
    if is_active(m, id) {
        "▶ "@
    } else {
        "  "@
    }
}

/// The line of a session in the list.
pub open spec fn session_line(m: TuiModel, id: Seq<char>, s: Session) -> (Seq<char>, Style) {
    (
        mark(m, id) + id + "  model="@ + s.model@ + "  msgs="@ + decimal(s.messages@.len()),
        if is_active(m, id) {
            Style::Green
        } else {
            Style::Plain
        },
    )
}

/// The lines of the first `n` sessions in the list.
pub open spec fn session_lines(m: TuiModel, v: Seq<ListedSession>, n: int) -> Seq<(Seq<char>, Style)>
    decreases n,
{
    if n <= 0 {
        seq![]
    } else {
        match v[n - 1].session {
            Some(s) => session_lines(m, v, n - 1).push(session_line(m, v[n - 1].id@, s)),
            None => session_lines(m, v, n - 1),
        }
    }
}

/// The line of a session in the tree.
pub open spec fn tree_line(m: TuiModel, id: Seq<char>, s: Session) -> (Seq<char>, Style) {
    (
        mark(m, id) + id + " parent="@ + (match s.parent_id {
            Some(p) => p@,
            None => "(根)"@,
        }) + " fork@"@ + (match s.fork_point {
            Some(p) => decimal(p as nat),
            None => "-"@,
        }) + " msgs="@ + decimal(s.messages@.len()),
        Style::Plain,
    )
}

/// The lines of the first `n` sessions in the tree.
pub open spec fn tree_lines(m: TuiModel, v: Seq<ListedSession>, n: int) -> Seq<(Seq<char>, Style)>
    decreases n,
{
    if n <= 0 {
        seq![]
    } else {
        match v[n - 1].session {
            Some(s) => tree_lines(m, v, n - 1).push(tree_line(m, v[n - 1].id@, s)),
            None => tree_lines(m, v, n - 1),
        }
    }
}

/// The lines of a text, each with a sign before it.
pub open spec fn signed_lines(lines: Seq<Seq<char>>, sign: Seq<char>, style: Style) -> Seq<(Seq<char>, Style)> {
    lines.map_values(|l: Seq<char>| (sign + l, style))
}

/// The lines of a changed file.
pub open spec fn diff_entry(d: DiffModel) -> Seq<(Seq<char>, Style)> {
    seq![("● "@ + d.path, Style::Cyan)] + (match d.before {
        Some(t) => signed_lines(lines_of(t), "- "@, Style::Red),
        None => seq![("(新建文件)"@, Style::Green)],
    }) + (match d.after {
        Some(t) => signed_lines(lines_of(t), "+ "@, Style::Green),
        None => seq![("(已删除)"@, Style::Red)],
    })
}

/// The lines of the first `n` changed files.
pub open spec fn diff_lines(v: Seq<DiffModel>, n: int) -> Seq<(Seq<char>, Style)>
    decreases n,
{
    if n <= 0 {
        seq![]
    } else {
        diff_lines(v, n - 1) + diff_entry(v[n - 1])
    }
}

/// The lines of skills.
pub open spec fn skill_lines(v: Seq<Skill>) -> Seq<(Seq<char>, Style)> {
    v.map_values(|s: Skill| (s.name@ + "："@ + s.description@, Style::Plain))
}

/// A server with the names of its tools; nothing where it is busy.
pub struct ListedServer {
    pub name: String,
    pub tools: Option<Vec<String>>,
}

/// The lines of servers.
pub open spec fn server_lines(v: Seq<ListedServer>) -> Seq<(Seq<char>, Style)> {
    v.map_values(
        |s: ListedServer|
            (
                s.name@ + "："@ + (match s.tools {
                    Some(t) => joined(texts(t@), ", "@),
                    None => "（忙碌）"@,
                }),
                Style::Plain,
            ),
    )
}

/// The lines that say how things are.
pub open spec fn status_lines(m: TuiModel, changed: nat, audited: nat) -> Seq<(Seq<char>, Style)> {
    seq![
        ("工作区："@ + m.workspace, Style::Plain),
        ("模型："@ + m.model, Style::Plain),
        ("模式："@ + (if m.read_only { "plan（只读）"@ } else { "build"@ }), Style::Plain),
    ] + (match m.session {
        Some(s) => seq![
            ("会话："@ + s.id@, Style::Plain),
            ("消息数："@ + decimal(s.messages@.len()), Style::Plain),
            ("未回滚改动："@ + decimal(changed), Style::Plain),
        ],
        None => seq![("会话：无（任务时自动创建）"@, Style::Dim)],
    }) + seq![("审计记录："@ + decimal(audited) + " 条"@, Style::Plain)]
}

/// The servers without those of the name.
pub open spec fn without_server(v: Seq<McpServerConfig>, name: Seq<char>) -> Seq<McpServerConfig>
    decreases v.len(),
{
    if v.len() == 0 {
        seq![]
    } else if v.last().name@ == name {
        without_server(v.drop_last(), name)
    } else {
        without_server(v.drop_last(), name).push(v.last())
    }
}

/// The first place of a name, from `i` on, or `-1`.
pub open spec fn place_of(v: Seq<Seq<char>>, name: Seq<char>, i: int) -> int
    decreases v.len() - i,
{
    if i >= v.len() {
        -1
    } else if v[i] == name {
        i
    } else {
        place_of(v, name, i + 1)
    }
}

/// A document that is written for others to read.
pub struct SharedDocument {
    pub file_name: String,
    pub content: String,
}

fn line2(a: &str, b: &str) -> (r: String)
    ensures
        r@ == a@ + b@,
{
    let mut r = copy_str(a);
    r.append(b);
    r
}

fn push_signed(lines: &mut Vec<(String, Style)>, text: &str, sign: &str, style: Style)
    ensures
        entries(final(lines)@) == entries(old(lines)@) + signed_lines(lines_of(text@), sign@, style),
{
    let v = split_lines(text);
    let ghost all = lines_of(text@);
    let ghost before = entries(lines@);
    for i in 0..v.len()
        invariant
            texts(v@) == all,
            entries(lines@) == before + signed_lines(all.take(i as int), sign@, style),
    {
        let ghost now = entries(lines@);
        let line = line2(sign, v[i].as_str());
        proof {
            assert(all[i as int] == v@[i as int]@);
            assert(signed_lines(all.take(i + 1), sign@, style) =~= signed_lines(all.take(i as int), sign@, style).push(
                (sign@ + all[i as int], style),
            ));
        }
        let ghost said = line@;
        lines.push((line, style));
        assert(entries(lines@) =~= now.push((said, style)));
        assert(entries(lines@) =~= before + signed_lines(all.take(i + 1), sign@, style));
    }
    assert(all.take(all.len() as int) =~= all);
}

fn push_diff(lines: &mut Vec<(String, Style)>, d: &FileDiff)
    ensures
        entries(final(lines)@) == entries(old(lines)@) + diff_entry(d@),
{
    let ghost before = entries(lines@);
    lines.push((line2("● ", d.path.as_str()), Style::Cyan));
    let ghost head = seq![("● "@ + d.path@, Style::Cyan)];
    assert(entries(lines@) =~= before + head);
    match &d.before {
        Some(t) => {
            push_signed(lines, t.as_str(), "- ", Style::Red);
        },
        None => {
            let ghost now = entries(lines@);
            lines.push((copy_str("(新建文件)"), Style::Green));
            assert(entries(lines@) =~= now + seq![("(新建文件)"@, Style::Green)]);
        },
    }
    let ghost middle = entries(lines@);
    match &d.after {
        Some(t) => {
            push_signed(lines, t.as_str(), "+ ", Style::Green);
        },
        None => {
            lines.push((copy_str("(已删除)"), Style::Red));
            assert(entries(lines@) =~= middle + seq![("(已删除)"@, Style::Red)]);
        },
    }
    assert(entries(lines@) =~= before + diff_entry(d@));
}

impl TuiApp {
    /// Begins a turn: the session to work on is handed out. Where there is none,
    /// the one that was just made is taken.
    pub fn start_turn(&mut self, prompt: &str, created: Option<Result<Session, String>>) -> (r: Option<Session>)
        requires
            old(self).session is Some || created is Some,
        ensures
            match (old(self).session, created) {
                (Some(s), _) => r == Some(s) && final(self).model() == begun(old(self).model(), prompt@),
                (None, Some(Ok(s))) => r == Some(s) && final(self).model() == begun(
                    said(old(self).model(), "新会话："@ + s.id@, Style::Green),
                    prompt@,
                ),
                (None, Some(Err(e))) => r is None && final(self).model() == said(
                    old(self).model(),
                    "创建会话失败："@ + e@,
                    Style::Red,
                ),
                (None, None) => true,
            },
    {
        let session = match self.session.take() {
            Some(s) => s,
            None => match created {
                Some(Ok(s)) => {
                    self.push_line(line2("新会话：", s.id.as_str()), Style::Green);
                    s
                },
                Some(Err(e)) => {
                    self.push_line(line2("创建会话失败：", e.as_str()), Style::Red);
                    return None;
                },
                None => {
                    return None;
                },
            },
        };
        self.abort = false;
        self.pending_order = Vec::new();
        self.scroll = 0;
        self.running = true;
        self.status = copy_str("调用模型…");
        self.streaming = String::new();
        let ghost m = self.model();
        assert(m.pending =~= Seq::<Seq<char>>::empty());
        assert(m.streaming =~= Seq::<char>::empty());
        self.push_line(line2("▶ ", prompt), Style::Cyan);
        Some(session)
    }

    /// While a turn runs and nothing waits for an answer, the status says so.
    pub fn note_running(&mut self)
        ensures
            final(self).model() == (if old(self).running && old(self).pending_order@.len() == 0 {
                TuiModel { status: "回合进行中（Ctrl+C 中止）"@, ..old(self).model() }
            } else {
                old(self).model()
            }),
    {
        if self.running && self.pending_order.len() == 0 {
            self.status = copy_str("回合进行中（Ctrl+C 中止）");
        }
    }

    /// Takes the session back at the end of a turn, and tells how it went.
    pub fn finished(&mut self, result: Result<(usize, Option<String>), String>, session: Session, changed: usize)
        ensures
            final(self).model() == ended(old(self).model(), result, session, changed as nat),
    {
        self.running = false;
        self.session = Some(session);
        match result {
            Ok((steps, text)) => {
                let mut line = copy_str("✓ 完成：工具 ");
                line.append(decimal_text(steps as u64).as_str());
                line.append(" 步，改动 ");
                line.append(decimal_text(changed as u64).as_str());
                line.append(" 个文件（/diff 查看，/undo 回滚）");
                self.push_line(line, Style::Green);
                if let Some(t) = text {
                    self.push_line(copy_str("── 结果 ──"), Style::Bold);
                    self.push_line(t, Style::Plain);
                }
                self.status = copy_str("就绪");
            },
            Err(e) => {
                self.push_line(line2("回合失败：", e.as_str()), Style::Red);
                self.status = copy_str("出错");
            },
        }
    }

    /// Works on a session that was just made.
    pub fn new_session(&mut self, session: Session)
        ensures
            final(self).model() == said(
                TuiModel { session: Some(session), ..old(self).model() },
                "新会话："@ + session.id@,
                Style::Green,
            ),
    {
        let line = line2("新会话：", session.id.as_str());
        self.session = Some(session);
        self.push_line(line, Style::Green);
    }

    /// Works on a session that was kept.
    pub fn resumed(&mut self, session: Session, id: &str)
        ensures
            final(self).model() == said(
                TuiModel { session: Some(session), ..old(self).model() },
                "已恢复会话："@ + id@,
                Style::Green,
            ),
    {
        self.session = Some(session);
        self.push_line(line2("已恢复会话：", id), Style::Green);
    }

    fn is_current(&self, id: &str) -> (r: bool)
        ensures
            r == is_active(self.model(), id@),
    {
        match &self.session {
            Some(s) => same_text(s.id.as_str(), id),
            None => false,
        }
    }

    fn mark_of(&self, id: &str) -> (r: String)
        ensures
            r@ == mark(self.model(), id@),
    {
        if self.is_current(id) {
            copy_str("▶ ")
        } else {
            copy_str("  ")
        }
    }

    /// Lists the sessions.
    pub fn show_sessions(&mut self, listed: &Vec<ListedSession>)
        ensures
            final(self).model() == (if listed@.len() == 0 {
                said(old(self).model(), "暂无会话（/new 创建）"@, Style::Dim)
            } else {
                all_said(old(self).model(), session_lines(old(self).model(), listed@, listed@.len() as int))
            }),
    {
        if listed.len() == 0 {
            self.push_line(copy_str("暂无会话（/new 创建）"), Style::Dim);
            return;
        }
        let mut lines: Vec<(String, Style)> = Vec::new();
        assert(entries(lines@) =~= session_lines(self.model(), listed@, 0));
        for i in 0..listed.len()
            invariant
                *self == *old(self),
                entries(lines@) == session_lines(self.model(), listed@, i as int),
        {
            let id = listed[i].id.as_str();
            if let Some(s) = &listed[i].session {
                let ghost before = entries(lines@);
                let mut line = self.mark_of(id);
                line.append(id);
                line.append("  model=");
                line.append(s.model.as_str());
                line.append("  msgs=");
                line.append(decimal_text(s.messages.len() as u64).as_str());
                let style = if self.is_current(id) {
                    Style::Green
                } else {
                    Style::Plain
                };
                let ghost e = (line@, style);
                lines.push((line, style));
                assert(entries(lines@) =~= before.push(e));
            }
        }
        self.push_lines(lines);
    }

    fn tree_text(&self, id: &str, s: &Session) -> (r: String)
        ensures
            r@ == tree_line(self.model(), id@, *s).0,
    {
        let mut line = self.mark_of(id);
        line.append(id);
        line.append(" parent=");
        match &s.parent_id {
            Some(p) => {
                line.append(p.as_str());
            },
            None => {
                line.append("(根)");
            },
        }
        line.append(" fork@");
        match s.fork_point {
            Some(p) => {
                line.append(decimal_text(p as u64).as_str());
            },
            None => {
                line.append("-");
            },
        }
        line.append(" msgs=");
        line.append(decimal_text(s.messages.len() as u64).as_str());
        line
    }

    /// Lists the sessions with what they were split off from.
    pub fn show_tree(&mut self, listed: &Vec<ListedSession>)
        ensures
            ({
                let lines = tree_lines(old(self).model(), listed@, listed@.len() as int);
                final(self).model() == (if lines.len() == 0 {
                    said(old(self).model(), "暂无会话"@, Style::Dim)
                } else {
                    all_said(old(self).model(), lines)
                })
            }),
    {
        let mut lines: Vec<(String, Style)> = Vec::new();
        assert(entries(lines@) =~= tree_lines(self.model(), listed@, 0));
        for i in 0..listed.len()
            invariant
                *self == *old(self),
                entries(lines@) == tree_lines(self.model(), listed@, i as int),
        {
            if let Some(s) = &listed[i].session {
                let ghost before = entries(lines@);
                let line = self.tree_text(listed[i].id.as_str(), s);
                let ghost e = (line@, Style::Plain);
                lines.push((line, Style::Plain));
                assert(entries(lines@) =~= before.push(e));
            }
        }
        assert(entries(lines@).len() == lines@.len());
        if lines.len() == 0 {
            self.push_line(copy_str("暂无会话"), Style::Dim);
        } else {
            self.push_lines(lines);
        }
    }

    /// Shows the files that were changed.
    pub fn show_diff(&mut self, diffs: &Vec<FileDiff>)
        ensures
            final(self).model() == (if diffs@.len() == 0 {
                said(old(self).model(), "当前会话没有未回滚的改动"@, Style::Dim)
            } else {
                all_said(old(self).model(), diff_lines(diff_models(diffs@), diffs@.len() as int))
            }),
    {
        if diffs.len() == 0 {
            self.push_line(copy_str("当前会话没有未回滚的改动"), Style::Dim);
            return;
        }
        let mut lines: Vec<(String, Style)> = Vec::new();
        assert(entries(lines@) =~= diff_lines(diff_models(diffs@), 0));
        for i in 0..diffs.len()
            invariant
                *self == *old(self),
                entries(lines@) == diff_lines(diff_models(diffs@), i as int),
        {
            push_diff(&mut lines, &diffs[i]);
        }
        self.push_lines(lines);
    }

    /// What was changed has been undone: the session forgets it, and the files are
    /// named.
    pub fn undone(&mut self)
        requires
            old(self).session is Some,
        ensures
            ({
                let s = old(self).session->0;
                let shown = shown_paths(s.workspace@, s.snapshots.entries@);
                &&& final(self).session matches Some(t)
                &&& t.wf()
                &&& t.snapshots.entries@.len() == 0
                &&& t.history() == s.history()
                &&& t.same_session(s)
                &&& final(self).model() == said(
                    TuiModel { session: final(self).session, ..old(self).model() },
                    if shown.len() == 0 {
                        "没有可回滚的改动"@
                    } else {
                        "已回滚："@ + joined(shown, ", "@)
                    },
                    if shown.len() == 0 {
                        Style::Dim
                    } else {
                        Style::Green
                    },
                )
            }),
    {
        if let Some(session) = self.session.take() {
            let mut session = session;
            let restored = session.revert();
            self.session = Some(session);
            assert(texts(restored@).len() == restored@.len());
            if restored.len() == 0 {
                self.push_line(copy_str("没有可回滚的改动"), Style::Dim);
            } else {
                self.push_line(line2("已回滚：", join(&restored, ", ").as_str()), Style::Green);
            }
        }
    }

    /// Splits a session off after a message, the last where none is named, and
    /// works on it.
    pub fn fork_session(&mut self, index: Option<String>) -> (r: Result<(), String>)
        requires
            old(self).session matches Some(s) && s.messages@.len() > 0,
        ensures
            ({
                let s = old(self).session->0;
                let at = match index {
                    Some(t) => unsigned_value(t@),
                    None => Some((s.messages@.len() - 1) as nat),
                };
                match at {
                    Some(n) if n <= usize::MAX => {
                        &&& r is Ok
                        &&& final(self).session matches Some(c)
                        &&& c.wf()
                        &&& c.parent_id matches Some(p)
                        &&& p@ == s.id@
                        &&& c.fork_point == Some(fork_end(s.messages@.len(), n as usize) as usize)
                        &&& c.history() == (History {
                            messages: s.history().messages.take(fork_end(s.messages@.len(), n as usize) + 1),
                            redo: Seq::<Seq<ChatModel>>::empty(),
                            message_redo: Seq::<Seq<ChatModel>>::empty(),
                        })
                        &&& is_id(c.id@)
                        &&& c.workspace == s.workspace
                        &&& c.model == s.model
                        &&& c.system_prompt == s.system_prompt
                        &&& c.snapshots.entries@.len() == 0
                        &&& c.created_at@ == c.updated_at@
                        &&& c.title is None
                        &&& !c.archived
                        &&& !c.pinned
                        &&& final(self).model() == said(
                            TuiModel { session: Some(c), ..old(self).model() },
                            "已创建子会话 "@ + c.id@ + "（消息 "@ + decimal(n) + " 处 fork）"@,
                            Style::Green,
                        )
                    },
                    _ => r matches Err(e) && e@ == "消息序号需为数字"@ && *final(self) == *old(self),
                }
            }),
    {
        let (child, at): (Session, usize) = match &self.session {
            Some(current) => {
                let at: usize = match index {
                    Some(t) => match parse_unsigned(t.as_str()) {
                        Some(n) => {
                            if n > usize::MAX as u64 {
                                return Err(copy_str("消息序号需为数字"));
                            }
                            n as usize
                        },
                        None => {
                            return Err(copy_str("消息序号需为数字"));
                        },
                    },
                    None => current.messages.len() - 1,
                };
                (current.fork(at), at)
            },
            None => {
                return Ok(());
            },
        };
        let mut line = copy_str("已创建子会话 ");
        line.append(child.id.as_str());
        line.append("（消息 ");
        line.append(decimal_text(at as u64).as_str());
        line.append(" 处 fork）");
        self.session = Some(child);
        self.push_line(line, Style::Green);
        Ok(())
    }

    /// Goes back to the first messages.
    pub fn rewind_session(&mut self, keep: &str) -> (r: Result<(), String>)
        requires
            old(self).session matches Some(s) && s.wf(),
        ensures
            ({
                let s = old(self).session->0;
                match unsigned_value(keep@) {
                    Some(n) if n <= usize::MAX => {
                        &&& r is Ok
                        &&& final(self).session matches Some(t)
                        &&& t.wf()
                        &&& t.history() == rewound(s.history(), n as int)
                        &&& t.same_session(s)
                        &&& if n < s.messages@.len() {
                            t.snapshots.entries@.len() == 0
                        } else {
                            t == s
                        }
                        &&& final(self).model() == said(
                            TuiModel { session: Some(t), ..old(self).model() },
                            "已回退到 "@ + decimal(n) + " 条消息（移除 "@ + decimal(
                                (s.messages@.len() - t.messages@.len()) as nat,
                            ) + " 条，/redo 可恢复）"@,
                            Style::Yellow,
                        )
                    },
                    _ => r matches Err(e) && e@ == "保留消息数需为数字"@ && *final(self) == *old(self),
                }
            }),
    {
        let n: usize = match parse_unsigned(keep) {
            Some(n) => {
                if n > usize::MAX as u64 {
                    return Err(copy_str("保留消息数需为数字"));
                }
                n as usize
            },
            None => {
                return Err(copy_str("保留消息数需为数字"));
            },
        };
        if let Some(session) = self.session.take() {
            let mut session = session;
            let ghost before = session;
            let removed = session.rewind(n);
            proof {
                assert(before.history().messages.len() == before.messages@.len());
                assert(session.history().messages.len() == session.messages@.len());
                assert(chat_model(removed@).len() == removed@.len());
            }
            self.session = Some(session);
            let mut line = copy_str("已回退到 ");
            line.append(decimal_text(n as u64).as_str());
            line.append(" 条消息（移除 ");
            line.append(decimal_text(removed.len() as u64).as_str());
            line.append(" 条，/redo 可恢复）");
            self.push_line(line, Style::Yellow);
        }
        Ok(())
    }

    /// Puts back what was cut off last.
    pub fn redo_session(&mut self)
        requires
            old(self).session is Some,
        ensures
            ({
                let s = old(self).session->0;
                let n = if s.history().redo.len() == 0 {
                    0
                } else {
                    s.history().redo.last().len()
                };
                &&& final(self).session matches Some(t)
                &&& t.history() == redone(s.history())
                &&& t.same_session(s)
                &&& t.snapshots == s.snapshots
                &&& final(self).model() == said(
                    TuiModel { session: Some(t), ..old(self).model() },
                    if n == 0 {
                        "没有可恢复的历史"@
                    } else {
                        "已恢复 "@ + decimal(n) + " 条消息"@
                    },
                    if n == 0 {
                        Style::Dim
                    } else {
                        Style::Green
                    },
                )
            }),
    {
        if let Some(session) = self.session.take() {
            let mut session = session;
            let tail = session.redo();
            let restored: usize = match &tail {
                Some(t) => {
                    assert(chat_model(t@).len() == t@.len());
                    t.len()
                },
                None => 0,
            };
            self.session = Some(session);
            if restored == 0 {
                self.push_line(copy_str("没有可恢复的历史"), Style::Dim);
            } else {
                let mut line = copy_str("已恢复 ");
                line.append(decimal_text(restored as u64).as_str());
                line.append(" 条消息");
                self.push_line(line, Style::Green);
            }
        }
    }

    /// The document that others can read: a page where `html` is asked for, else
    /// Markdown. Its name holds the time in seconds.
    pub fn share_session(&self, format: Option<&String>, stamp: u64) -> (r: Option<SharedDocument>)
        ensures
            match self.session {
                None => r is None,
                Some(s) => {
                    let html = format matches Some(f) && f@ == "html"@;
                    &&& r matches Some(d)
                    &&& d.file_name@ == s.id@ + "-"@ + decimal(stamp as nat) + (if html {
                        ".html"@
                    } else {
                        ".md"@
                    })
                    &&& d.content@ == (if html {
                        html_text(s)
                    } else {
                        markdown_text(s)
                    })
                },
            },
    {
        match &self.session {
            None => None,
            Some(s) => {
                let html = match format {
                    Some(f) => same_text(f.as_str(), "html"),
                    None => false,
                };
                let mut file_name = copy_str(s.id.as_str());
                file_name.append("-");
                file_name.append(decimal_text(stamp).as_str());
                if html {
                    file_name.append(".html");
                    Some(SharedDocument { file_name, content: export_html(s) })
                } else {
                    file_name.append(".md");
                    Some(SharedDocument { file_name, content: export_markdown(s) })
                }
            },
        }
    }

    /// The document was written.
    pub fn shared(&mut self, path: &str)
        ensures
            final(self).model() == said(old(self).model(), "已导出会话分享："@ + path@, Style::Green),
    {
        self.push_line(line2("已导出会话分享：", path), Style::Green);
    }

    /// Tells whether the file with instructions was written or was there.
    pub fn initialized(&mut self, existed: bool, path: &str)
        ensures
            final(self).model() == (if existed {
                said(old(self).model(), "AGENTS.md 已存在："@ + path@, Style::Yellow)
            } else {
                said(old(self).model(), "已生成 "@ + path@, Style::Green)
            }),
    {
        if existed {
            self.push_line(line2("AGENTS.md 已存在：", path), Style::Yellow);
        } else {
            self.push_line(line2("已生成 ", path), Style::Green);
        }
    }

    /// Lists the skills.
    pub fn list_skills(&mut self, skills: &Vec<Skill>)
        ensures
            final(self).model() == (if skills@.len() == 0 {
                said(
                    old(self).model(),
                    "暂无技能（放置到 "@ + old(self).data_root@
                        + "/skills 或 .agents/skills/，每技能一个含 SKILL.md 的目录）"@,
                    Style::Dim,
                )
            } else {
                all_said(old(self).model(), skill_lines(skills@))
            }),
    {
        if skills.len() == 0 {
            let mut line = copy_str("暂无技能（放置到 ");
            line.append(self.data_root.as_str());
            line.append("/skills 或 .agents/skills/，每技能一个含 SKILL.md 的目录）");
            self.push_line(line, Style::Dim);
            return;
        }
        let mut lines: Vec<(String, Style)> = Vec::new();
        for i in 0..skills.len()
            invariant
                *self == *old(self),
                lines@.len() == i,
                forall|j: int| 0 <= j < i ==> entries(lines@)[j] == #[trigger] skill_lines(skills@)[j],
        {
            let ghost before = lines@;
            let mut line = line2(skills[i].name.as_str(), "：");
            line.append(skills[i].description.as_str());
            lines.push((line, Style::Plain));
            assert forall|j: int| 0 <= j < i + 1 implies entries(lines@)[j] == #[trigger] skill_lines(skills@)[j] by {
                if j < i {
                    assert(entries(before)[j] == skill_lines(skills@)[j]);
                }
            }
        }
        assert(entries(lines@) =~= skill_lines(skills@));
        self.push_lines(lines);
    }

    /// Says how things are.
    pub fn push_status(&mut self, changed: usize, audited: usize)
        ensures
            final(self).model() == all_said(
                old(self).model(),
                status_lines(old(self).model(), changed as nat, audited as nat),
            ),
    {
        let mut lines: Vec<(String, Style)> = Vec::new();
        lines.push((line2("工作区：", self.workspace.as_str()), Style::Plain));
        lines.push((line2("模型：", self.model.as_str()), Style::Plain));
        let mode = if self.read_only {
            "plan（只读）"
        } else {
            "build"
        };
        lines.push((line2("模式：", mode), Style::Plain));
        match &self.session {
            Some(s) => {
                lines.push((line2("会话：", s.id.as_str()), Style::Plain));
                lines.push((line2("消息数：", decimal_text(s.messages.len() as u64).as_str()), Style::Plain));
                lines.push((line2("未回滚改动：", decimal_text(changed as u64).as_str()), Style::Plain));
            },
            None => {
                lines.push((copy_str("会话：无（任务时自动创建）"), Style::Dim));
            },
        }
        let mut last = line2("审计记录：", decimal_text(audited as u64).as_str());
        last.append(" 条");
        lines.push((last, Style::Plain));
        assert(entries(lines@) =~= status_lines(self.model(), changed as nat, audited as nat));
        self.push_lines(lines);
    }

    /// A server of tools was connected.
    pub fn mcp_added(&mut self, config: McpServerConfig)
        ensures
            final(self).model() == (TuiModel {
                servers: old(self).model().servers.push(config),
                clients: old(self).model().clients.push(config.name@),
                ..old(self).model()
            }),
    {
        self.mcp_clients.push(config.name.clone());
        assert(texts(self.mcp_clients@) =~= old(self).model().clients.push(config.name@));
        self.mcp_configs.push(config);
    }

    /// A server of tools could not be connected.
    pub fn mcp_failed(&mut self, name: &str, error: &str)
        ensures
            final(self).model() == said(
                old(self).model(),
                "MCP "@ + name@ + " 连接失败："@ + error@,
                Style::Red,
            ),
    {
        let mut line = line2("MCP ", name);
        line.append(" 连接失败：");
        line.append(error);
        self.push_line(line, Style::Red);
    }

    /// Lists the servers of tools.
    pub fn show_servers(&mut self, servers: &Vec<ListedServer>)
        ensures
            final(self).model() == all_said(old(self).model(), server_lines(servers@)),
    {
        let mut lines: Vec<(String, Style)> = Vec::new();
        for i in 0..servers.len()
            invariant
                *self == *old(self),
                lines@.len() == i,
                forall|j: int| 0 <= j < i ==> entries(lines@)[j] == #[trigger] server_lines(servers@)[j],
        {
            let ghost before = lines@;
            let mut line = line2(servers[i].name.as_str(), "：");
            match &servers[i].tools {
                Some(t) => {
                    line.append(join(t, ", ").as_str());
                },
                None => {
                    line.append("（忙碌）");
                },
            }
            lines.push((line, Style::Plain));
            assert forall|j: int| 0 <= j < i + 1 implies entries(lines@)[j] == #[trigger] server_lines(
                servers@,
            )[j] by {
                if j < i {
                    assert(entries(before)[j] == server_lines(servers@)[j]);
                }
            }
        }
        assert(entries(lines@) =~= server_lines(servers@));
        self.push_lines(lines);
    }

    fn find_client(&self, name: &str) -> (r: Option<usize>)
        ensures
            match r {
                Some(i) => i < self.mcp_clients@.len() && place_of(self.model().clients, name@, 0) == i,
                None => place_of(self.model().clients, name@, 0) == -1,
            },
    {
        let ghost all = self.model().clients;
        let mut i: usize = 0;
        while i < self.mcp_clients.len()
            invariant
                i <= self.mcp_clients@.len(),
                all == texts(self.mcp_clients@),
                place_of(all, name@, 0) == place_of(all, name@, i as int),
            decreases self.mcp_clients@.len() - i,
        {
            assert(all[i as int] == self.mcp_clients@[i as int]@);
            if same_text(self.mcp_clients[i].as_str(), name) {
                return Some(i);
            }
            i += 1;
        }
        None
    }

    /// Forgets the servers of a name; the place of the first that is connected is
    /// handed out, to be shut down.
    pub fn mcp_removed(&mut self, name: &str) -> (r: Option<usize>)
        ensures
            ({
                let m = old(self).model();
                let at = place_of(m.clients, name@, 0);
                &&& match r {
                    Some(i) => at == i && i < m.clients.len(),
                    None => at == -1,
                }
                &&& final(self).model() == (TuiModel {
                    servers: without_server(m.servers, name@),
                    clients: if at == -1 {
                        m.clients
                    } else {
                        m.clients.remove(at)
                    },
                    ..m
                })
            }),
    {
        let ghost m = self.model();
        let at = self.find_client(name);
        if let Some(i) = at {
            let _gone = self.mcp_clients.remove(i);
            assert(texts(self.mcp_clients@) =~= m.clients.remove(i as int));
        }
        let mut kept: Vec<McpServerConfig> = Vec::new();
        let ghost all = self.mcp_configs@;
        let mut rest: Vec<McpServerConfig> = Vec::new();
        rest.append(&mut self.mcp_configs);
        proof {
            assert(rest@ =~= all.skip(0));
            assert(kept@ =~= without_server(all.take(0), name@));
        }
        let mut i: usize = 0;
        let n: usize = rest.len();
        while i < n
            invariant
                i <= n,
                n == all.len(),
                rest@ == all.skip(i as int),
                kept@ == without_server(all.take(i as int), name@),
            decreases n - i,
        {
            assert(all.take(i + 1).drop_last() =~= all.take(i as int));
            let c = rest.remove(0);
            assert(rest@ =~= all.skip(i + 1));
            if !same_text(c.name.as_str(), name) {
                kept.push(c);
            }
            i += 1;
        }
        assert(all.take(all.len() as int) =~= all);
        self.mcp_configs = kept;
        at
    }
}

// ---------------------------------------------------------------------------
// Laws
// ---------------------------------------------------------------------------

/// A turn begins with nothing left of the one before: no question waits, nothing is
/// given up, nothing is half said. What was said stays, and the prompt is said.
pub proof fn turns_begin_afresh(m: TuiModel, prompt: Seq<char>)
    ensures
        ({
            let b = begun(m, prompt);
            &&& b.running && !b.abort && b.pending.len() == 0 && b.streaming.len() == 0 && b.scroll == 0 && b.session is None
            &&& b.transcript.len() == m.transcript.len() + 1 && b.transcript.drop_last() == m.transcript
            &&& finishes_with(b.transcript.last().0, prompt)
            &&& b.input == m.input && b.model == m.model && b.read_only == m.read_only && b.servers == m.servers && b.clients
                == m.clients && b.workspace == m.workspace
        }),
{
    assert(begun(m, prompt).transcript.drop_last() =~= m.transcript);
    let t = "▶ "@ + prompt;
    assert(t.skip(t.len() - prompt.len()) =~= prompt);
}

/// A turn that ends gives the session back. It is told how many steps it took and how
/// many files it changed, and its answer; one that failed is told with its error.
pub proof fn turns_end_with_their_session(
    m: TuiModel,
    result: Result<(usize, Option<String>), String>,
    session: Session,
    changed: nat,
)
    ensures
        ({
            let e = ended(m, result, session, changed);
            &&& !e.running && e.session == Some(session)
            &&& e.transcript.len() > m.transcript.len() && e.transcript.take(m.transcript.len() as int) == m.transcript
            &&& result matches Ok(done) ==> has_text(e.transcript[m.transcript.len() as int].0, decimal(done.0 as nat))
                && has_text(e.transcript[m.transcript.len() as int].0, decimal(changed)) && (done.1 matches Some(text)
                ==> e.transcript.last().0 == text@)
            &&& result matches Err(x) ==> finishes_with(e.transcript.last().0, x@)
            &&& e.input == m.input && e.model == m.model && e.read_only == m.read_only
        }),
{
    let e = ended(m, result, session, changed);
    assert(e.transcript.take(m.transcript.len() as int) =~= m.transcript);
    match result {
        Ok(done) => {
            let a = "✓ 完成：工具 "@;
            let d = decimal(done.0 as nat);
            let b = " 步，改动 "@;
            let c = decimal(changed);
            let z = " 个文件（/diff 查看，/undo 回滚）"@;
            let t = a + d + b + c + z;
            assert(t =~= a + d + (b + c + z));
            parts_stand_in_the_whole(a, d, b + c + z, t);
            parts_stand_in_the_whole(a + d + b, c, z, t);
        },
        Err(x) => {
            let t = "回合失败："@ + x@;
            assert(t.skip(t.len() - x@.len()) =~= x@);
        },
    }
}

/// Every session that could be read is listed, in order, by its identifier; the one that
/// is worked on is marked, and no other.
pub proof fn sessions_are_listed(m: TuiModel, v: Seq<ListedSession>, n: int)
    requires
        0 <= n < v.len(),
    ensures
        session_lines(m, v, 0).len() == 0 && tree_lines(m, v, 0).len() == 0,
        v[n].session is None ==> session_lines(m, v, n + 1) == session_lines(m, v, n) && tree_lines(m, v, n + 1)
            == tree_lines(m, v, n),
        v[n].session matches Some(s) ==> {
            let l = session_lines(m, v, n + 1);
            let t = tree_lines(m, v, n + 1);
            &&& l.len() == session_lines(m, v, n).len() + 1 && l.drop_last() == session_lines(m, v, n)
            &&& t.len() == tree_lines(m, v, n).len() + 1 && t.drop_last() == tree_lines(m, v, n)
            &&& has_text(l.last().0, v[n].id@) && has_text(t.last().0, v[n].id@)
            &&& has_text(l.last().0, decimal(s.messages@.len())) && has_text(l.last().0, s.model@)
            &&& begins_with(l.last().0, "▶ "@) <==> (m.session matches Some(c) && c.id@ == v[n].id@)
            &&& s.parent_id matches Some(p) ==> has_text(t.last().0, p@)
        },
{
    if v[n].session is Some {
        let s = v[n].session->0;
        let id = v[n].id@;
        let l = session_lines(m, v, n + 1);
        let t = tree_lines(m, v, n + 1);
        assert(l.drop_last() =~= session_lines(m, v, n));
        assert(t.drop_last() =~= tree_lines(m, v, n));
        let k = mark(m, id);
        let a = "  model="@;
        let b = "  msgs="@;
        let d = decimal(s.messages@.len());
        let x = l.last().0;
        assert(x == k + id + a + s.model@ + b + d);
        assert(x =~= k + id + (a + s.model@ + b + d));
        parts_stand_in_the_whole(k, id, a + s.model@ + b + d, x);
        assert(x =~= (k + id + a) + s.model@ + (b + d));
        parts_stand_in_the_whole(k + id + a, s.model@, b + d, x);
        assert(x =~= (k + id + a + s.model@ + b) + d + Seq::<char>::empty());
        parts_stand_in_the_whole(k + id + a + s.model@ + b, d, Seq::<char>::empty(), x);
        reveal_strlit("▶ ");
        reveal_strlit("  ");
        assert(x.take(2) =~= k);
        assert("▶ "@[0] != "  "@[0]);
        let y = t.last().0;
        let p = match s.parent_id {
            Some(p) => p@,
            None => "(根)"@,
        };
        let f = match s.fork_point {
            Some(p) => decimal(p as nat),
            None => "-"@,
        };
        let rest = " fork@"@ + f + " msgs="@ + d;
        assert(y =~= k + id + (" parent="@ + p + rest));
        parts_stand_in_the_whole(k, id, " parent="@ + p + rest, y);
        assert(y =~= (k + id + " parent="@) + p + rest);
        parts_stand_in_the_whole(k + id + " parent="@, p, rest, y);
    }
}

/// A change is shown with its path, every line that was there behind a minus sign and
/// every line that is there now behind a plus sign; all changes are shown in order.
pub proof fn changes_are_shown_line_by_line(v: Seq<DiffModel>, n: int, d: DiffModel, i: int)
    requires
        0 <= n < v.len(),
    ensures
        diff_lines(v, 0).len() == 0,
        diff_lines(v, n + 1) == diff_lines(v, n) + diff_entry(v[n]),
        finishes_with(diff_entry(d)[0].0, d.path),
        (d.before is Some && d.after is Some) ==> {
            let b = lines_of(d.before->0);
            let a = lines_of(d.after->0);
            &&& diff_entry(d).len() == 1 + b.len() + a.len()
            &&& 0 <= i < b.len() ==> diff_entry(d)[1 + i].0 == "- "@ + b[i]
            &&& 0 <= i < a.len() ==> diff_entry(d)[1 + b.len() + i].0 == "+ "@ + a[i]
        },
        (d.before is None && d.after is Some) ==> diff_entry(d).len() == 2 + lines_of(d.after->0).len() && (0 <= i
            < lines_of(d.after->0).len() ==> diff_entry(d)[2 + i].0 == "+ "@ + lines_of(d.after->0)[i]),
        (d.before is Some && d.after is None) ==> diff_entry(d).len() == 2 + lines_of(d.before->0).len() && (0 <= i
            < lines_of(d.before->0).len() ==> diff_entry(d)[1 + i].0 == "- "@ + lines_of(d.before->0)[i]),
{
    let t = "● "@ + d.path;
    assert(t.skip(t.len() - d.path.len()) =~= d.path);
}

/// Skills and servers are all listed, in order, by their names, with what they are for
/// or offer.
pub proof fn skills_and_servers_are_listed(v: Seq<Skill>, s: Seq<ListedServer>, i: int)
    ensures
        skill_lines(v).len() == v.len() && server_lines(s).len() == s.len(),
        0 <= i < v.len() ==> begins_with(skill_lines(v)[i].0, v[i].name@) && finishes_with(
            skill_lines(v)[i].0,
            v[i].description@,
        ),
        0 <= i < s.len() ==> begins_with(server_lines(s)[i].0, s[i].name@) && (s[i].tools matches Some(t) ==> finishes_with(
            server_lines(s)[i].0,
            joined(texts(t@), ", "@),
        )),
{
    if 0 <= i < v.len() {
        let l = skill_lines(v)[i].0;
        assert(l.take(v[i].name@.len() as int) =~= v[i].name@);
        assert(l.skip(l.len() - v[i].description@.len()) =~= v[i].description@);
    }
    if 0 <= i < s.len() {
        let l = server_lines(s)[i].0;
        assert(l.take(s[i].name@.len() as int) =~= s[i].name@);
        if s[i].tools is Some {
            let j = joined(texts(s[i].tools->0@), ", "@);
            assert(l.skip(l.len() - j.len()) =~= j);
        }
    }
}

/// The status tells the workspace, the model and the mode, the session with its messages
/// and changes, and how much is on record.
pub proof fn the_status_tells_all(m: TuiModel, changed: nat, audited: nat)
    ensures
        ({
            let l = status_lines(m, changed, audited);
            &&& finishes_with(l[0].0, m.workspace) && finishes_with(l[1].0, m.model)
            &&& finishes_with(l[2].0, "build"@) <==> !m.read_only
            &&& m.session matches Some(s) ==> l.len() == 7 && finishes_with(l[3].0, s.id@) && finishes_with(
                l[4].0,
                decimal(s.messages@.len()),
            ) && finishes_with(l[5].0, decimal(changed))
            &&& m.session is None ==> l.len() == 5
            &&& has_text(l.last().0, decimal(audited))
        }),
{
    let l = status_lines(m, changed, audited);
    behind("工作区："@, m.workspace);
    behind("模型："@, m.model);
    behind("模式："@, "build"@);
    reveal_strlit("build");
    reveal_strlit("plan（只读）");
    if m.read_only && finishes_with(l[2].0, "build"@) {
        let t = "模式："@ + "plan（只读）"@;
        assert(t.skip(t.len() - 5)[4] == t[t.len() - 1]);
    }
    behind("未回滚改动："@, decimal(changed));
    if m.session is Some {
        let s = m.session->0;
        behind("会话："@, s.id@);
        behind("消息数："@, decimal(s.messages@.len()));
    }
    parts_stand_in_the_whole("审计记录："@, decimal(audited), " 条"@, m.model);
}

proof fn behind(a: Seq<char>, b: Seq<char>)
    ensures
        finishes_with(a + b, b),
{
    let t = a + b;
    assert(t.skip(t.len() - b.len()) =~= b);
}

/// A server that is removed is gone, under its name and wherever it stood; the others
/// stay in their order.
pub proof fn removed_servers_are_gone(v: Seq<McpServerConfig>, c: McpServerConfig, name: Seq<char>)
    ensures
        without_server(seq![], name).len() == 0,
        c.name@ == name ==> without_server(v.push(c), name) == without_server(v, name),
        c.name@ != name ==> without_server(v.push(c), name) == without_server(v, name).push(c),
{
    assert(v.push(c).drop_last() =~= v);
}

/// A name is found where it first stands, and nowhere where it does not.
pub proof fn names_are_found_where_they_stand(v: Seq<Seq<char>>, name: Seq<char>, from: int)
    requires
        0 <= from,
    ensures
        place_of(v, name, from) >= 0 ==> from <= place_of(v, name, from) < v.len() && v[place_of(v, name, from)] == name
            && forall|j: int| from <= j < place_of(v, name, from) ==> #[trigger] v[j] != name,
        place_of(v, name, from) < 0 <==> forall|j: int| from <= j < v.len() ==> #[trigger] v[j] != name,
    decreases v.len() - from,
{
    if from < v.len() && v[from] != name {
        names_are_found_where_they_stand(v, name, from + 1);
    }
}

} // verus!
