//! The full-screen terminal application: what it shows, and what it makes of
//! keys, commands and the events of a turn.

use crate::agent::{request_event, TurnEvent};
use crate::mcp::McpServerConfig;
use crate::permissions::PermissionRequest;
use crate::session::Session;
use crate::text::{
    chars_of, copy_str, decimal, decimal_text, finishes_with, has_text, occurs_at, parts_stand_in_the_whole, same_text, slice,
    strip_prefix, texts, trim, trimmed,
};
use vstd::prelude::*;

use self::command::{command_of, parse_command, Command, CommandModel, McpCommand, McpCommandModel};

pub mod command;
pub mod screen;
pub mod work;

verus! {

/// How a text is painted.
#[derive(Debug, Clone, Copy, PartialEq, Eq, Structural)]
pub enum Style {
    Plain,
    Dim,
    Cyan,
    Blue,
    Green,
    Yellow,
    Red,
    Bold,
    /// The name of the application.
    Badge,
    /// What the model is still saying.
    Streaming,
}

/// The texts with how they are painted.
pub open spec fn entries(v: Seq<(String, Style)>) -> Seq<(Seq<char>, Style)> {
    v.map_values(|e: (String, Style)| (e.0@, e.1))
}

/// What the application was started with.
pub struct TuiArgs {
    pub workspace: String,
    pub model: Option<String>,
    /// `plan` only reads; any other works.
    pub agent: String,
    pub no_approval: bool,
    pub data_dir: Option<String>,
}

impl TuiArgs {
    /// Whether the agent only reads.
    pub fn read_only(&self) -> (r: bool)
        ensures
            r == (self.agent@ == "plan"@),
    {
        same_text(self.agent.as_str(), "plan")
    }
}

/// The state of the application.
pub struct TuiApp {
    pub workspace: String,
    pub model: String,
    pub read_only: bool,
    pub no_approval: bool,
    pub data_root: String,
    pub session: Option<Session>,
    /// The turn is to end.
    pub abort: bool,
    /// The requests that wait for an answer, the latest last.
    pub pending_order: Vec<String>,
    pub input: String,
    pub transcript: Vec<(String, Style)>,
    /// What the model is still saying.
    pub streaming: String,
    /// How many of the last lines are scrolled out of sight.
    pub scroll: usize,
    pub running: bool,
    pub status: String,
    pub mcp_configs: Vec<McpServerConfig>,
    /// The names of the servers that are connected.
    pub mcp_clients: Vec<String>,
}

/// What the application holds.
#[verifier::ext_equal]
pub struct TuiModel {
    pub workspace: Seq<char>,
    pub model: Seq<char>,
    pub read_only: bool,
    pub no_approval: bool,
    pub data_root: Seq<char>,
    pub session: Option<Session>,
    pub abort: bool,
    pub pending: Seq<Seq<char>>,
    pub input: Seq<char>,
    pub transcript: Seq<(Seq<char>, Style)>,
    pub streaming: Seq<char>,
    pub scroll: int,
    pub running: bool,
    pub status: Seq<char>,
    pub servers: Seq<McpServerConfig>,
    pub clients: Seq<Seq<char>>,
}

/// A key.
pub enum Key {
    Char(char),
    Enter,
    Backspace,
    Tab,
    Esc,
    PageUp,
    PageDown,
    Other,
}

/// Why the agent is built anew.
pub enum Switch {
    /// Another model.
    Model,
    /// The other mode.
    Mode,
    /// A server of tools was connected.
    ServerAdded { name: String, tools: usize },
    /// A server of tools was removed.
    ServerRemoved { name: String },
}

/// Why the agent is built anew.
pub enum SwitchModel {
    Model,
    Mode,
    ServerAdded(Seq<char>, nat),
    ServerRemoved(Seq<char>),
}

impl Switch {
    pub open spec fn model(self) -> SwitchModel {
        match self {
            Switch::Model => SwitchModel::Model,
            Switch::Mode => SwitchModel::Mode,
            Switch::ServerAdded { name, tools } => SwitchModel::ServerAdded(name@, tools as nat),
            Switch::ServerRemoved { name } => SwitchModel::ServerRemoved(name@),
        }
    }
}

/// What is to be done outside.
pub enum Action {
    /// Nothing.
    Stay,
    /// Leave the application.
    Quit,
    /// Build the agent anew.
    Rebuild(Switch),
    /// Answer a request for permission.
    Answer { request_id: String, allow: bool },
    /// Begin a turn.
    Turn(String),
    /// Carry out the rest of a command.
    Work(Command),
}

/// What is to be done outside.
pub enum ActionModel {
    Stay,
    Quit,
    Rebuild(SwitchModel),
    Answer(Seq<char>, bool),
    Turn(Seq<char>),
    Work(CommandModel),
}

impl Action {
    /// What is to be done.
    pub open spec fn model(self) -> ActionModel {
        match self {
            Action::Stay => ActionModel::Stay,
            Action::Quit => ActionModel::Quit,
            Action::Rebuild(w) => ActionModel::Rebuild(w.model()),
            Action::Answer { request_id, allow } => ActionModel::Answer(request_id@, allow),
            Action::Turn(p) => ActionModel::Turn(p@),
            Action::Work(c) => ActionModel::Work(c.model()),
        }
    }

    pub open spec fn wf(self) -> bool {
        self matches Action::Work(c) ==> c.wf()
    }
}

/// What comes of a key or a command: an error ends the application.
pub open spec fn outcome_model(r: Result<Action, String>) -> Result<ActionModel, Seq<char>> {
    match r {
        Ok(a) => Ok(a.model()),
        Err(e) => Err(e@),
    }
}

// ---------------------------------------------------------------------------
// Steps
// ---------------------------------------------------------------------------

/// With one more line.
pub open spec fn said(m: TuiModel, text: Seq<char>, style: Style) -> TuiModel {
    TuiModel { transcript: m.transcript.push((text, style)), ..m }
}

/// With more lines.
pub open spec fn all_said(m: TuiModel, lines: Seq<(Seq<char>, Style)>) -> TuiModel {
    TuiModel { transcript: m.transcript + lines, ..m }
}

/// What the model was saying is a line of its own.
pub open spec fn flushed(m: TuiModel) -> TuiModel {
    if m.streaming.len() == 0 {
        m
    } else {
        TuiModel { streaming: Seq::empty(), ..said(m, m.streaming, Style::Plain) }
    }
}

/// The other mode.
pub open spec fn toggled(m: TuiModel) -> TuiModel {
    TuiModel { read_only: !m.read_only, ..m }
}

/// What is said once the agent was built anew.
pub open spec fn rebuilt(m: TuiModel, why: SwitchModel) -> TuiModel {
    match why {
        SwitchModel::Model => said(m, "模型已切换："@ + m.model, Style::Green),
        SwitchModel::Mode => said(
            m,
            if m.read_only {
                "已切换 plan（只读）"@
            } else {
                "已切换 build"@
            },
            Style::Yellow,
        ),
        SwitchModel::ServerAdded(name, tools) => said(
            m,
            "已添加 MCP "@ + name + "（"@ + decimal(tools) + " 个工具）"@,
            Style::Green,
        ),
        SwitchModel::ServerRemoved(name) => said(m, "已移除 MCP 服务器："@ + name, Style::Green),
    }
}

/// The lines of help.
pub open spec fn help_lines() -> Seq<(Seq<char>, Style)> {
    seq![
        ("  直接输入文字 发起任务"@, Style::Dim),
        ("  /new /sessions /resume <id>  会话管理"@, Style::Dim),
        ("  /fork [序号] /rewind <条数> /redo /tree  会话分支/回退/恢复/树"@, Style::Dim),
        ("  /share [html]  导出会话分享"@, Style::Dim),
        ("  /model [名称]  查看/切换模型"@, Style::Dim),
        ("  /plan /build  切换只读/执行模式（或 Tab）"@, Style::Dim),
        ("  /diff /undo  查看改动 / 回滚"@, Style::Dim),
        ("  /mcp add/list/remove  MCP 服务器"@, Style::Dim),
        ("  /skills  列出已加载技能"@, Style::Dim),
        ("  /status /init /clear"@, Style::Dim),
        ("  /exit 退出（或 Ctrl+C）"@, Style::Dim),
    ]
}

/// Nothing more is to be done, where there is no session to work on.
pub open spec fn on_session(m: TuiModel, c: CommandModel) -> (TuiModel, Result<ActionModel, Seq<char>>) {
    if m.session is None {
        (said(m, "暂无会话"@, Style::Dim), Ok(ActionModel::Stay))
    } else {
        (m, Ok(ActionModel::Work(c)))
    }
}

/// What comes of a command that could be read.
pub open spec fn obeyed(m: TuiModel, c: CommandModel) -> (TuiModel, Result<ActionModel, Seq<char>>) {
    match c {
        CommandModel::Help => (all_said(m, help_lines()), Ok(ActionModel::Stay)),
        CommandModel::Model(Some(name)) => (
            TuiModel { model: name, ..m },
            Ok(ActionModel::Rebuild(SwitchModel::Model)),
        ),
        CommandModel::Model(None) => (said(m, "当前模型："@ + m.model, Style::Dim), Ok(ActionModel::Stay)),
        CommandModel::Undo => on_session(m, c),
        CommandModel::Fork(_) => on_session(m, c),
        CommandModel::Rewind(_) => on_session(m, c),
        CommandModel::Redo => on_session(m, c),
        CommandModel::Share(_) => on_session(m, c),
        CommandModel::Mcp(McpCommandModel::Usage) => (
            said(
                m,
                "用法：/mcp add <名称> <命令> [参数...] | /mcp list | /mcp remove <名称>"@,
                Style::Dim,
            ),
            Ok(ActionModel::Stay),
        ),
        CommandModel::Mcp(McpCommandModel::List) => if m.clients.len() == 0 {
            (said(m, "未配置 MCP 服务器（/mcp add <名称> <命令>）"@, Style::Dim), Ok(ActionModel::Stay))
        } else {
            (m, Ok(ActionModel::Work(c)))
        },
        CommandModel::Plan => if m.read_only {
            (m, Ok(ActionModel::Stay))
        } else {
            (toggled(m), Ok(ActionModel::Rebuild(SwitchModel::Mode)))
        },
        CommandModel::Build => if m.read_only {
            (toggled(m), Ok(ActionModel::Rebuild(SwitchModel::Mode)))
        } else {
            (m, Ok(ActionModel::Stay))
        },
        CommandModel::Clear => (TuiModel { transcript: Seq::empty(), ..m }, Ok(ActionModel::Stay)),
        CommandModel::Unknown(w) => (
            said(m, "未知命令：/"@ + w + "（/help 查看）"@, Style::Red),
            Ok(ActionModel::Stay),
        ),
        _ => (m, Ok(ActionModel::Work(c))),
    }
}

/// What comes of a command.
pub open spec fn commanded(m: TuiModel, text: Seq<char>) -> (TuiModel, Result<ActionModel, Seq<char>>) {
    match command_of(text) {
        Ok(c) => obeyed(m, c),
        Err(e) => (m, Err(e)),
    }
}

/// What comes of the line that was typed.
pub open spec fn submitted(m: TuiModel) -> (TuiModel, Result<ActionModel, Seq<char>>) {
    let line = trimmed(m.input);
    let cleared = TuiModel { input: Seq::empty(), ..m };
    if line.len() == 0 {
        (cleared, Ok(ActionModel::Stay))
    } else if line[0] == '/' {
        commanded(cleared, line.skip(1))
    } else {
        (cleared, Ok(ActionModel::Turn(line)))
    }
}

/// The latest request is answered.
pub open spec fn answered(m: TuiModel, allow: bool) -> (TuiModel, Result<ActionModel, Seq<char>>) {
    if m.pending.len() == 0 {
        (m, Ok(ActionModel::Stay))
    } else {
        (
            TuiModel { pending: m.pending.drop_last(), ..m },
            Ok(ActionModel::Answer(m.pending.last(), allow)),
        )
    }
}

/// What comes of a key while a turn runs.
pub open spec fn keyed_running(m: TuiModel, key: Key, control: bool) -> (TuiModel, Result<
    ActionModel,
    Seq<char>,
>) {
    match key {
        Key::Char(c) => if c == 'y' || c == 'Y' {
            answered(m, true)
        } else if c == 'n' || c == 'N' {
            answered(m, false)
        } else if c == 'c' && control {
            (
                said(TuiModel { abort: true, ..m }, "正在中止当前回合…"@, Style::Yellow),
                Ok(ActionModel::Stay),
            )
        } else {
            (m, Ok(ActionModel::Stay))
        },
        _ => (m, Ok(ActionModel::Stay)),
    }
}

/// What comes of a key.
pub open spec fn keyed(m: TuiModel, key: Key, control: bool) -> (TuiModel, Result<ActionModel, Seq<char>>) {
    if m.running {
        keyed_running(m, key, control)
    } else {
        match key {
            Key::Enter => submitted(m),
            Key::Char(c) => if c == 'c' && control {
                (m, Ok(ActionModel::Quit))
            } else if c == 'l' && control {
                (TuiModel { transcript: Seq::empty(), ..m }, Ok(ActionModel::Stay))
            } else {
                (TuiModel { input: m.input.push(c), ..m }, Ok(ActionModel::Stay))
            },
            Key::Backspace => (
                TuiModel {
                    input: if m.input.len() == 0 {
                        m.input
                    } else {
                        m.input.drop_last()
                    },
                    ..m
                },
                Ok(ActionModel::Stay),
            ),
            Key::Tab => (toggled(m), Ok(ActionModel::Rebuild(SwitchModel::Mode))),
            Key::Esc => (TuiModel { input: Seq::empty(), ..m }, Ok(ActionModel::Stay)),
            Key::PageUp => (TuiModel { scroll: m.scroll + 8, ..m }, Ok(ActionModel::Stay)),
            Key::PageDown => (
                TuiModel {
                    scroll: if m.scroll < 8 {
                        0
                    } else {
                        m.scroll - 8
                    },
                    ..m
                },
                Ok(ActionModel::Stay),
            ),
            Key::Other => (m, Ok(ActionModel::Stay)),
        }
    }
}

/// The line that asks for permission.
pub open spec fn request_line(q: PermissionRequest) -> Seq<char> {
    "审批：需要 "@ + q.level.label_of() + " 权限执行 "@ + q.tool@ + "（"@ + q.reason@
        + "）— 按 y 允许 / n 拒绝"@
}

/// What comes of an event of the turn.
pub open spec fn witnessed(m: TuiModel, event: TurnEvent) -> TuiModel {
    match event {
        TurnEvent::ModelCall => said(flushed(m), "↻ 调用模型…"@, Style::Dim),
        TurnEvent::TokenDelta { delta } => TuiModel { streaming: m.streaming + delta@, ..m },
        TurnEvent::Compaction { summary } => said(
            flushed(m),
            "✦ 上下文已压缩："@ + summary@,
            Style::Yellow,
        ),
        TurnEvent::PermissionRequest(q) => {
            let f = flushed(m);
            TuiModel {
                status: "等待审批（y/n）"@,
                ..said(
                    TuiModel { pending: f.pending.push(q.request_id@), ..f },
                    request_line(q),
                    Style::Yellow,
                )
            }
        },
        TurnEvent::ToolStart { id, tool } => said(flushed(m), "▶ "@ + tool@ + " …"@, Style::Blue),
        TurnEvent::ToolResult { id, tool, ok, error } => if ok {
            said(flushed(m), "✔ "@ + tool@, Style::Green)
        } else {
            said(
                flushed(m),
                "✘ "@ + tool@ + "："@ + (match error {
                    Some(e) => e@,
                    None => "未知错误"@,
                }),
                Style::Red,
            )
        },
        TurnEvent::Final { text } => if m.streaming.len() == 0 {
            said(said(m, "── 结果 ──"@, Style::Bold), text@, Style::Plain)
        } else {
            flushed(m)
        },
    }
}

/// The part of the lines that is in sight.
pub open spec fn in_sight(m: TuiModel, height: int) -> Seq<(Seq<char>, Style)> {
    let viewport = if height < 3 {
        1
    } else {
        height - 2
    };
    let n = m.transcript.len() as int;
    let end = if m.scroll > n {
        0
    } else {
        n - m.scroll
    };
    let start = if viewport > end {
        0
    } else {
        end - viewport
    };
    m.transcript.subrange(start, end)
}

impl TuiApp {
    /// What the application holds.
    pub open spec fn model(self) -> TuiModel {
        TuiModel {
            workspace: self.workspace@,
            model: self.model@,
            read_only: self.read_only,
            no_approval: self.no_approval,
            data_root: self.data_root@,
            session: self.session,
            abort: self.abort,
            pending: texts(self.pending_order@),
            input: self.input@,
            transcript: entries(self.transcript@),
            streaming: self.streaming@,
            scroll: self.scroll as int,
            running: self.running,
            status: self.status@,
            servers: self.mcp_configs@,
            clients: texts(self.mcp_clients@),
        }
    }

    /// The application at its start.
    pub fn new(
        workspace: String,
        model: String,
        read_only: bool,
        no_approval: bool,
        data_root: String,
        mcp_configs: Vec<McpServerConfig>,
        mcp_clients: Vec<String>,
    ) -> (r: TuiApp)
        ensures
            r.model() == (TuiModel {
                workspace: workspace@,
                model: model@,
                read_only,
                no_approval,
                data_root: data_root@,
                session: None,
                abort: false,
                pending: Seq::empty(),
                input: Seq::empty(),
                transcript: seq![
                    (
                        "OwO Agent TUI — 输入文字开始任务，Tab 切换 build/plan，Ctrl+C 中止/退出，/help 查看命令"@,
                        Style::Dim,
                    ),
                ],
                streaming: Seq::empty(),
                scroll: 0,
                running: false,
                status: "就绪"@,
                servers: mcp_configs@,
                clients: texts(mcp_clients@),
            }),
    {
        let mut transcript: Vec<(String, Style)> = Vec::new();
        transcript.push(
            (
                copy_str("OwO Agent TUI — 输入文字开始任务，Tab 切换 build/plan，Ctrl+C 中止/退出，/help 查看命令"),
                Style::Dim,
            ),
        );
        TuiApp {
            workspace,
            model,
            read_only,
            no_approval,
            data_root,
            session: None,
            abort: false,
            pending_order: Vec::new(),
            input: String::new(),
            transcript,
            streaming: String::new(),
            scroll: 0,
            running: false,
            status: copy_str("就绪"),
            mcp_configs,
            mcp_clients,
        }
    }

    /// Adds a line.
    pub fn push_line(&mut self, text: String, style: Style)
        ensures
            final(self).model() == said(old(self).model(), text@, style),
    {
        self.transcript.push((text, style));
        assert(self.model() =~= said(old(self).model(), text@, style));
    }

    /// Adds lines.
    fn push_lines(&mut self, lines: Vec<(String, Style)>)
        ensures
            final(self).model() == all_said(old(self).model(), entries(lines@)),
    {
        let mut rest = lines;
        self.transcript.append(&mut rest);
        assert(self.model() =~= all_said(old(self).model(), entries(lines@)));
    }

    /// The part of the lines that is in sight.
    pub fn visible_lines(&self, height: usize) -> (r: Vec<(String, Style)>)
        ensures
            entries(r@) == in_sight(self.model(), height as int),
    {
        let viewport: usize = if height < 3 {
            1
        } else {
            height - 2
        };
        let n: usize = self.transcript.len();
        let end: usize = n.saturating_sub(self.scroll);
        let start: usize = end.saturating_sub(viewport);
        let mut r: Vec<(String, Style)> = Vec::new();
        for i in start..end
            invariant
                start <= end <= self.transcript@.len(),
                r@.len() == i - start,
                forall|j: int|
                    0 <= j < i - start ==> (#[trigger] r@[j]).0@ == self.transcript@[start + j].0@ && r@[j].1
                        == self.transcript@[start + j].1,
        {
            r.push((self.transcript[i].0.clone(), self.transcript[i].1));
        }
        assert(entries(r@) =~= in_sight(self.model(), height as int));
        r
    }

    fn flush_streaming(&mut self)
        ensures
            final(self).model() == flushed(old(self).model()),
    {
        if !self.streaming.as_str().is_empty() {
            let text = self.streaming.clone();
            self.streaming = String::new();
            self.push_line(text, Style::Plain);
            assert(self.model() =~= flushed(old(self).model()));
        }
    }

    /// What comes of an event of the turn: what the model was saying becomes a
    /// line before anything else does.
    pub fn push_event(&mut self, event: TurnEvent)
        ensures
            final(self).model() == witnessed(old(self).model(), event),
    {
        match event {
            TurnEvent::ModelCall => {
                self.flush_streaming();
                self.push_line(copy_str("↻ 调用模型…"), Style::Dim);
            },
            TurnEvent::TokenDelta { delta } => {
                self.streaming.append(delta.as_str());
            },
            TurnEvent::Compaction { summary } => {
                self.flush_streaming();
                let mut line = copy_str("✦ 上下文已压缩：");
                line.append(summary.as_str());
                self.push_line(line, Style::Yellow);
            },
            TurnEvent::PermissionRequest(q) => {
                self.flush_streaming();
                self.queue_request(&q);
            },
            TurnEvent::ToolStart { id: _, tool } => {
                self.flush_streaming();
                let mut line = copy_str("▶ ");
                line.append(tool.as_str());
                line.append(" …");
                self.push_line(line, Style::Blue);
            },
            TurnEvent::ToolResult { id: _, tool, ok, error } => {
                self.flush_streaming();
                if ok {
                    let mut line = copy_str("✔ ");
                    line.append(tool.as_str());
                    self.push_line(line, Style::Green);
                } else {
                    let mut line = copy_str("✘ ");
                    line.append(tool.as_str());
                    line.append("：");
                    match error {
                        Some(e) => {
                            line.append(e.as_str());
                        },
                        None => {
                            line.append("未知错误");
                        },
                    }
                    self.push_line(line, Style::Red);
                }
            },
            TurnEvent::Final { text } => {
                if self.streaming.as_str().is_empty() {
                    self.push_line(copy_str("── 结果 ──"), Style::Bold);
                    self.push_line(text, Style::Plain);
                } else {
                    self.flush_streaming();
                }
            },
        }
    }

    fn queue_request(&mut self, q: &PermissionRequest)
        ensures
            final(self).model() == (TuiModel {
                status: "等待审批（y/n）"@,
                ..said(
                    TuiModel { pending: old(self).model().pending.push(q.request_id@), ..old(self).model() },
                    request_line(*q),
                    Style::Yellow,
                )
            }),
    {
        self.pending_order.push(q.request_id.clone());
        assert(texts(self.pending_order@) =~= old(self).model().pending.push(q.request_id@));
        let mut line = copy_str("审批：需要 ");
        line.append(q.level.label());
        line.append(" 权限执行 ");
        line.append(q.tool.as_str());
        line.append("（");
        line.append(q.reason.as_str());
        line.append("）— 按 y 允许 / n 拒绝");
        self.push_line(line, Style::Yellow);
        self.status = copy_str("等待审批（y/n）");
    }

    /// Takes the latest request off, to be answered.
    pub fn respond_approval(&mut self, allow: bool) -> (r: Result<Action, String>)
        ensures
            (final(self).model(), outcome_model(r)) == answered(old(self).model(), allow),
            r matches Ok(a) && a.wf(),
    {
        match self.pending_order.pop() {
            Some(request_id) => {
                assert(self.model() =~= answered(old(self).model(), allow).0);
                Ok(Action::Answer { request_id, allow })
            },
            None => {
                assert(self.model() =~= old(self).model());
                Ok(Action::Stay)
            },
        }
    }

    /// The answer has reached the one who asked.
    pub fn approval_sent(&mut self, allow: bool)
        ensures
            final(self).model() == (TuiModel {
                status: "执行中…"@,
                ..said(
                    old(self).model(),
                    if allow {
                        "→ 已允许"@
                    } else {
                        "→ 已拒绝"@
                    },
                    if allow {
                        Style::Green
                    } else {
                        Style::Red
                    },
                )
            }),
    {
        if allow {
            self.push_line(copy_str("→ 已允许"), Style::Green);
        } else {
            self.push_line(copy_str("→ 已拒绝"), Style::Red);
        }
        self.status = copy_str("执行中…");
    }

    fn toggle_mode(&mut self)
        ensures
            final(self).model() == toggled(old(self).model()),
    {
        self.read_only = !self.read_only;
        assert(self.model() =~= toggled(old(self).model()));
    }

    /// Says that the agent was built anew, and why.
    pub fn rebuilt(&mut self, why: &Switch)
        ensures
            final(self).model() == rebuilt(old(self).model(), why.model()),
    {
        match why {
            Switch::Model => {
                let mut line = copy_str("模型已切换：");
                line.append(self.model.as_str());
                self.push_line(line, Style::Green);
            },
            Switch::Mode => {
                if self.read_only {
                    self.push_line(copy_str("已切换 plan（只读）"), Style::Yellow);
                } else {
                    self.push_line(copy_str("已切换 build"), Style::Yellow);
                }
            },
            Switch::ServerAdded { name, tools } => {
                let mut line = copy_str("已添加 MCP ");
                line.append(name.as_str());
                line.append("（");
                line.append(decimal_text(*tools as u64).as_str());
                line.append(" 个工具）");
                self.push_line(line, Style::Green);
            },
            Switch::ServerRemoved { name } => {
                let mut line = copy_str("已移除 MCP 服务器：");
                line.append(name.as_str());
                self.push_line(line, Style::Green);
            },
        }
    }

    fn clear_transcript(&mut self)
        ensures
            final(self).model() == (TuiModel { transcript: Seq::empty(), ..old(self).model() }),
    {
        self.transcript = Vec::new();
        assert(self.model() =~= (TuiModel { transcript: Seq::empty(), ..old(self).model() }));
    }

    fn push_help(&mut self)
        ensures
            final(self).model() == all_said(old(self).model(), help_lines()),
    {
        let mut lines: Vec<(String, Style)> = Vec::new();
        lines.push((copy_str("  直接输入文字 发起任务"), Style::Dim));
        lines.push((copy_str("  /new /sessions /resume <id>  会话管理"), Style::Dim));
        lines.push((copy_str("  /fork [序号] /rewind <条数> /redo /tree  会话分支/回退/恢复/树"), Style::Dim));
        lines.push((copy_str("  /share [html]  导出会话分享"), Style::Dim));
        lines.push((copy_str("  /model [名称]  查看/切换模型"), Style::Dim));
        lines.push((copy_str("  /plan /build  切换只读/执行模式（或 Tab）"), Style::Dim));
        lines.push((copy_str("  /diff /undo  查看改动 / 回滚"), Style::Dim));
        lines.push((copy_str("  /mcp add/list/remove  MCP 服务器"), Style::Dim));
        lines.push((copy_str("  /skills  列出已加载技能"), Style::Dim));
        lines.push((copy_str("  /status /init /clear"), Style::Dim));
        lines.push((copy_str("  /exit 退出（或 Ctrl+C）"), Style::Dim));
        assert(entries(lines@) =~= help_lines());
        self.push_lines(lines);
    }

    /// Says that there is no session, where there is none; else the command is to
    /// be carried out.
    fn with_session(&mut self, command: Command) -> (r: Result<Action, String>)
        requires
            command.wf(),
        ensures
            (final(self).model(), outcome_model(r)) == on_session(old(self).model(), command.model()),
            r matches Ok(a) && a.wf(),
    {
        if self.session.is_none() {
            self.push_line(copy_str("暂无会话"), Style::Dim);
            Ok(Action::Stay)
        } else {
            Ok(Action::Work(command))
        }
    }

    fn say(&mut self, head: &str, body: &str, tail: &str, style: Style) -> (r: Result<Action, String>)
        ensures
            final(self).model() == said(old(self).model(), head@ + body@ + tail@, style),
            outcome_model(r) == Ok::<ActionModel, Seq<char>>(ActionModel::Stay),
            r matches Ok(a) && a.wf(),
    {
        let mut line = copy_str(head);
        line.append(body);
        line.append(tail);
        self.push_line(line, style);
        Ok(Action::Stay)
    }

    /// What comes of a command: an error ends the application.
    pub fn handle_command(&mut self, text: &str) -> (r: Result<Action, String>)
        ensures
            (final(self).model(), outcome_model(r)) == commanded(old(self).model(), text@),
            r matches Ok(a) ==> a.wf(),
    {
        match parse_command(text) {
            Ok(command) => self.obey(command),
            Err(e) => Err(e),
        }
    }

    fn obey(&mut self, command: Command) -> (r: Result<Action, String>)
        requires
            command.wf(),
        ensures
            (final(self).model(), outcome_model(r)) == obeyed(old(self).model(), command.model()),
            r matches Ok(a) ==> a.wf(),
    {
        match command {
            Command::Help => {
                self.push_help();
                Ok(Action::Stay)
            },
            Command::Model(Some(name)) => {
                self.model = name;
                assert(self.model() =~= obeyed(old(self).model(), CommandModel::Model(Some(self.model@))).0);
                Ok(Action::Rebuild(Switch::Model))
            },
            Command::Model(None) => {
                let mut line = copy_str("当前模型：");
                line.append(self.model.as_str());
                self.push_line(line, Style::Dim);
                Ok(Action::Stay)
            },
            Command::Undo => self.with_session(Command::Undo),
            Command::Fork(i) => self.with_session(Command::Fork(i)),
            Command::Rewind(k) => self.with_session(Command::Rewind(k)),
            Command::Redo => self.with_session(Command::Redo),
            Command::Share(f) => self.with_session(Command::Share(f)),
            Command::Mcp(c) => self.obey_mcp(c),
            Command::Plan => {
                if self.read_only {
                    Ok(Action::Stay)
                } else {
                    self.toggle_mode();
                    Ok(Action::Rebuild(Switch::Mode))
                }
            },
            Command::Build => {
                if self.read_only {
                    self.toggle_mode();
                    Ok(Action::Rebuild(Switch::Mode))
                } else {
                    Ok(Action::Stay)
                }
            },
            Command::Clear => {
                self.clear_transcript();
                Ok(Action::Stay)
            },
            Command::Unknown(w) => self.say("未知命令：/", w.as_str(), "（/help 查看）", Style::Red),
            other => Ok(Action::Work(other)),
        }
    }

    fn obey_mcp(&mut self, command: McpCommand) -> (r: Result<Action, String>)
        requires
            command.wf(),
        ensures
            (final(self).model(), outcome_model(r)) == obeyed(
                old(self).model(),
                CommandModel::Mcp(command.model()),
            ),
            r matches Ok(a) && a.wf(),
    {
        match command {
            McpCommand::Usage => {
                self.push_line(
                    copy_str("用法：/mcp add <名称> <命令> [参数...] | /mcp list | /mcp remove <名称>"),
                    Style::Dim,
                );
                Ok(Action::Stay)
            },
            McpCommand::List => {
                if self.mcp_clients.len() == 0 {
                    self.push_line(copy_str("未配置 MCP 服务器（/mcp add <名称> <命令>）"), Style::Dim);
                    Ok(Action::Stay)
                } else {
                    Ok(Action::Work(Command::Mcp(McpCommand::List)))
                }
            },
            other => Ok(Action::Work(Command::Mcp(other))),
        }
    }

    /// Takes the line that was typed: a command after a slash, else the prompt of
    /// a turn.
    fn submit(&mut self) -> (r: Result<Action, String>)
        ensures
            (final(self).model(), outcome_model(r)) == submitted(old(self).model()),
            r matches Ok(a) ==> a.wf(),
    {
        proof {
            reveal_strlit("/");
        }
        let line = trim(self.input.as_str());
        self.input = String::new();
        assert(self.model() =~= (TuiModel { input: Seq::empty(), ..old(self).model() }));
        if line.as_str().is_empty() {
            return Ok(Action::Stay);
        }
        proof {
            assert("/"@ =~= seq!['/']);
            assert(line@.take(1) =~= seq![line@[0]]);
            assert(line@.take(1)[0] == line@[0]);
            assert("/"@[0] == '/');
        }
        match strip_prefix(line.as_str(), "/") {
            Some(text) => self.handle_command(text.as_str()),
            None => Ok(Action::Turn(line)),
        }
    }

    /// What comes of a key: an error ends the application.
    pub fn handle_key(&mut self, key: Key, control: bool) -> (r: Result<Action, String>)
        requires
            key is PageUp && !old(self).running ==> old(self).scroll + 8 <= usize::MAX,
        ensures
            (final(self).model(), outcome_model(r)) == keyed(old(self).model(), key, control),
            r matches Ok(a) ==> a.wf(),
    {
        if self.running {
            return match key {
                Key::Char(c) => if c == 'y' || c == 'Y' {
                    self.respond_approval(true)
                } else if c == 'n' || c == 'N' {
                    self.respond_approval(false)
                } else if c == 'c' && control {
                    self.abort = true;
                    self.push_line(copy_str("正在中止当前回合…"), Style::Yellow);
                    Ok(Action::Stay)
                } else {
                    Ok(Action::Stay)
                },
                _ => Ok(Action::Stay),
            };
        }
        match key {
            Key::Enter => self.submit(),
            Key::Char(c) => {
                if c == 'c' && control {
                    return Ok(Action::Quit);
                }
                if c == 'l' && control {
                    self.clear_transcript();
                } else {
                    self.input.push(c);
                    assert(self.model() =~= keyed(old(self).model(), key, control).0);
                }
                Ok(Action::Stay)
            },
            Key::Backspace => {
                let n: usize = chars_of(self.input.as_str()).len();
                if n > 0 {
                    assert(self.input@.subrange(0, n - 1) =~= self.input@.drop_last());
                    self.input = slice(self.input.as_str(), 0, n - 1);
                }
                assert(self.model() =~= keyed(old(self).model(), key, control).0);
                Ok(Action::Stay)
            },
            Key::Tab => {
                self.toggle_mode();
                Ok(Action::Rebuild(Switch::Mode))
            },
            Key::Esc => {
                self.input = String::new();
                assert(self.model() =~= keyed(old(self).model(), key, control).0);
                Ok(Action::Stay)
            },
            Key::PageUp => {
                self.scroll = self.scroll + 8;
                Ok(Action::Stay)
            },
            Key::PageDown => {
                self.scroll = self.scroll.saturating_sub(8);
                Ok(Action::Stay)
            },
            Key::Other => Ok(Action::Stay),
        }
    }
}

// ---------------------------------------------------------------------------
// Laws
// ---------------------------------------------------------------------------

/// While a turn runs, no key leaves the application, begins a turn or carries
/// out a command, and the line that is typed, the session and the mode stay as
/// they are.
pub proof fn keys_wait_for_the_turn(m: TuiModel, key: Key, control: bool)
    requires
        m.running,
    ensures
        ({
            let (after, outcome) = keyed(m, key, control);
            &&& outcome matches Ok(a)
            &&& a is Stay || a is Answer
            &&& after.running
            &&& after.input == m.input
            &&& after.session == m.session
            &&& after.read_only == m.read_only
        }),
{
}

/// Changing the mode twice leads back to where it began.
pub proof fn toggling_twice_is_no_change(m: TuiModel)
    ensures
        toggled(toggled(m)) == m,
{
}

/// An event takes back nothing that was said.
pub proof fn events_keep_what_was_said(m: TuiModel, event: TurnEvent)
    ensures
        m.transcript.len() <= witnessed(m, event).transcript.len(),
        witnessed(m, event).transcript.take(m.transcript.len() as int) == m.transcript,
{
    assert(witnessed(m, event).transcript.take(m.transcript.len() as int) =~= m.transcript);
}

/// What the model was saying is a line of its own once anything else happens.
pub proof fn no_words_are_lost(m: TuiModel, event: TurnEvent)
    requires
        m.streaming.len() > 0,
        !(event is TokenDelta),
    ensures
        m.transcript.len() < witnessed(m, event).transcript.len(),
        witnessed(m, event).transcript[m.transcript.len() as int] == (m.streaming, Style::Plain),
        witnessed(m, event).streaming.len() == 0,
{
}

/// A request that came in and is then answered leaves the others waiting as they
/// were.
pub proof fn answer_meets_the_latest_request(m: TuiModel, q: PermissionRequest, allow: bool)
    ensures
        ({
            let asked = witnessed(m, TurnEvent::PermissionRequest(q));
            let (after, outcome) = answered(asked, allow);
            outcome == Ok::<ActionModel, Seq<char>>(ActionModel::Answer(q.request_id@, allow)) && after.pending
                == m.pending
        }),
{
    let asked = witnessed(m, TurnEvent::PermissionRequest(q));
    assert(asked.pending.drop_last() =~= m.pending);
}

/// The answer of the user meets the request that waits: what a turn shows of a
/// request that it asks for leads back to that very request.
pub proof fn answer_reaches_the_waiting_request(m: TuiModel, shown: TurnEvent, waiting: PermissionRequest, allow: bool)
    requires
        shown@ == request_event(waiting),
    ensures
        ({
            let (after, outcome) = answered(witnessed(m, shown), allow);
            outcome == Ok::<ActionModel, Seq<char>>(ActionModel::Answer(waiting.request_id@, allow)) && after.pending
                == m.pending
        }),
{
    let q = shown->PermissionRequest_0;
    answer_meets_the_latest_request(m, q, allow);
}

/// No more lines are in sight than fit, and they are the ones that follow each
/// other in the transcript.
pub proof fn sight_is_bounded(m: TuiModel, height: int)
    requires
        m.scroll >= 0,
    ensures
        in_sight(m, height).len() <= (if height < 3 {
            1
        } else {
            height - 2
        }),
        m.transcript.len() > m.scroll ==> in_sight(m, height).len() > 0 && in_sight(m, height).last()
            == m.transcript[m.transcript.len() - 1 - m.scroll],
{
}

/// While no turn runs, what is typed stands at the end of the line, character by
/// character; the last is taken back by the backspace and all by the escape key. Nothing
/// but the line changes.
pub proof fn typing_edits_the_line(m: TuiModel, c: char)
    requires
        !m.running,
    ensures
        keyed(m, Key::Char(c), false) == (TuiModel { input: m.input.push(c), ..m }, Ok::<ActionModel, Seq<char>>(
            ActionModel::Stay,
        )),
        keyed(keyed(m, Key::Char(c), false).0, Key::Backspace, false).0 == m,
        m.input.len() == 0 ==> keyed(m, Key::Backspace, false).0 == m,
        keyed(m, Key::Esc, false).0.input.len() == 0,
        keyed(m, Key::Esc, false).0 == (TuiModel { input: keyed(m, Key::Esc, false).0.input, ..m }),
        keyed(m, Key::Esc, false).1 == Ok::<ActionModel, Seq<char>>(ActionModel::Stay),
{
    assert(m.input.push(c).drop_last() =~= m.input);
}

/// The line that is sent is what was typed, without the white space around it: it begins
/// a turn, or, behind a slash, is a command; a blank line does nothing. The line is empty
/// afterwards.
pub proof fn lines_are_sent_whole(m: TuiModel, control: bool)
    requires
        !m.running,
    ensures
        trimmed(m.input).len() > 0 && trimmed(m.input)[0] != '/' ==> keyed(m, Key::Enter, control).1 == Ok::<
            ActionModel,
            Seq<char>,
        >(ActionModel::Turn(trimmed(m.input))),
        trimmed(m.input).len() == 0 ==> keyed(m, Key::Enter, control).1 == Ok::<ActionModel, Seq<char>>(ActionModel::Stay),
        trimmed(m.input).len() == 0 || trimmed(m.input)[0] != '/' ==> keyed(m, Key::Enter, control).0.input.len() == 0
            && keyed(m, Key::Enter, control).0.transcript == m.transcript && keyed(m, Key::Enter, control).0.session
            == m.session,
        trimmed(m.input).len() > 0 && trimmed(m.input)[0] == '/' ==> (command_of(trimmed(m.input).skip(1)) matches Err(e)
            ==> keyed(m, Key::Enter, control).1 == Err::<ActionModel, Seq<char>>(e)),
{
}

/// Ctrl+C leaves the application where no turn runs and gives the turn up where one
/// does; Ctrl+L clears what was said.
pub proof fn control_keys_stop_and_clear(m: TuiModel)
    ensures
        !m.running ==> keyed(m, Key::Char('c'), true).1 == Ok::<ActionModel, Seq<char>>(ActionModel::Quit),
        m.running ==> keyed(m, Key::Char('c'), true).0.abort && keyed(m, Key::Char('c'), true).1 == Ok::<
            ActionModel,
            Seq<char>,
        >(ActionModel::Stay),
        !m.running ==> keyed(m, Key::Char('l'), true).0.transcript.len() == 0 && keyed(m, Key::Char('l'), true).0.input
            == m.input,
{
}

/// While a turn runs, y allows and n refuses what was asked for last; without a question
/// they do nothing.
pub proof fn y_allows_and_n_refuses(m: TuiModel, control: bool)
    requires
        m.running,
    ensures
        m.pending.len() > 0 ==> keyed(m, Key::Char('y'), control).1 == Ok::<ActionModel, Seq<char>>(
            ActionModel::Answer(m.pending.last(), true),
        ) && keyed(m, Key::Char('n'), control).1 == Ok::<ActionModel, Seq<char>>(
            ActionModel::Answer(m.pending.last(), false),
        ) && keyed(m, Key::Char('Y'), control).1 == keyed(m, Key::Char('y'), control).1 && keyed(
            m,
            Key::Char('N'),
            control,
        ).1 == keyed(m, Key::Char('n'), control).1,
        m.pending.len() > 0 ==> keyed(m, Key::Char('y'), control).0.pending.push(m.pending.last()) == m.pending,
        m.pending.len() == 0 ==> keyed(m, Key::Char('y'), control) == (m, Ok::<ActionModel, Seq<char>>(ActionModel::Stay)),
{
    if m.pending.len() > 0 {
        assert(m.pending.drop_last().push(m.pending.last()) =~= m.pending);
    }
}

/// Scrolling up and down again leads back; down it stops at the end.
pub proof fn scrolling_leads_back(m: TuiModel, control: bool)
    requires
        !m.running,
        m.scroll >= 0,
    ensures
        keyed(m, Key::PageUp, control).0.scroll > m.scroll,
        keyed(keyed(m, Key::PageUp, control).0, Key::PageDown, control).0 == m,
        0 <= keyed(m, Key::PageDown, control).0.scroll <= m.scroll,
        m.scroll > 0 ==> keyed(m, Key::PageDown, control).0.scroll < m.scroll,
        keyed(m, Key::PageDown, control).0 == (TuiModel { scroll: keyed(m, Key::PageDown, control).0.scroll, ..m }),
{
}

/// The mode is the one that was asked for: plan only reads, build works, and the tab key
/// changes from one to the other. The agent is built anew exactly where it changes.
pub proof fn modes_are_those_asked_for(m: TuiModel, control: bool)
    ensures
        obeyed(m, CommandModel::Plan).0.read_only && !obeyed(m, CommandModel::Build).0.read_only,
        obeyed(m, CommandModel::Plan).1 == Ok::<ActionModel, Seq<char>>(
            if m.read_only {
                ActionModel::Stay
            } else {
                ActionModel::Rebuild(SwitchModel::Mode)
            },
        ),
        obeyed(m, CommandModel::Build).1 == Ok::<ActionModel, Seq<char>>(
            if m.read_only {
                ActionModel::Rebuild(SwitchModel::Mode)
            } else {
                ActionModel::Stay
            },
        ),
        !m.running ==> keyed(m, Key::Tab, control).0.read_only == !m.read_only && keyed(m, Key::Tab, control).1 == Ok::<
            ActionModel,
            Seq<char>,
        >(ActionModel::Rebuild(SwitchModel::Mode)),
{
}

/// A model that is named is taken, and the agent built anew with it; without a name the
/// one in use is said, and nothing changes.
pub proof fn models_are_switched_by_name(m: TuiModel, name: Seq<char>)
    ensures
        obeyed(m, CommandModel::Model(Some(name))).0.model == name,
        obeyed(m, CommandModel::Model(Some(name))).1 == Ok::<ActionModel, Seq<char>>(
            ActionModel::Rebuild(SwitchModel::Model),
        ),
        obeyed(m, CommandModel::Model(None)).0.model == m.model,
        obeyed(m, CommandModel::Model(None)).0.transcript.len() == m.transcript.len() + 1,
        finishes_with(obeyed(m, CommandModel::Model(None)).0.transcript.last().0, m.model),
        obeyed(m, CommandModel::Model(None)).1 == Ok::<ActionModel, Seq<char>>(ActionModel::Stay),
        obeyed(m, CommandModel::Clear).0.transcript.len() == 0,
{
    let t = "当前模型："@ + m.model;
    assert(t.skip(t.len() - m.model.len()) =~= m.model);
}

/// What works on a session is not done without one; with one it is handed on as it was
/// asked for. A word that is no command is said to be none.
pub proof fn session_commands_need_a_session(m: TuiModel, c: CommandModel, w: Seq<char>)
    ensures
        (c is Undo || c is Fork || c is Rewind || c is Redo || c is Share) && m.session is None ==> obeyed(m, c).1 == Ok::<
            ActionModel,
            Seq<char>,
        >(ActionModel::Stay),
        (c is Undo || c is Fork || c is Rewind || c is Redo || c is Share) && m.session is Some ==> obeyed(m, c) == (m, Ok::<
            ActionModel,
            Seq<char>,
        >(ActionModel::Work(c))),
        c is Exit || c is New || c is Sessions || c is Resume || c is Diff || c is Skills || c is Tree || c is Status || c
            is Init ==> obeyed(m, c) == (m, Ok::<ActionModel, Seq<char>>(ActionModel::Work(c))),
        obeyed(m, CommandModel::Unknown(w)).1 == Ok::<ActionModel, Seq<char>>(ActionModel::Stay) && has_text(
            obeyed(m, CommandModel::Unknown(w)).0.transcript.last().0,
            w,
        ),
{
    parts_stand_in_the_whole("未知命令：/"@, w, "（/help 查看）"@, w);
}

/// What happens in a turn is shown: the words of the model as they come, a tool by its
/// name, why one failed, and what is asked for, which then waits for an answer.
pub proof fn events_are_shown(m: TuiModel, event: TurnEvent)
    ensures
        event matches TurnEvent::TokenDelta { delta } ==> witnessed(m, event) == (TuiModel {
            streaming: m.streaming + delta@,
            ..m
        }),
        event matches TurnEvent::PermissionRequest(q) ==> {
            let w = witnessed(m, event);
            &&& w.pending == m.pending.push(q.request_id@)
            &&& has_text(w.transcript.last().0, q.tool@) && has_text(w.transcript.last().0, q.reason@) && has_text(
                w.transcript.last().0,
                q.level.label_of(),
            )
        },
        event matches TurnEvent::ToolStart { id, tool } ==> has_text(witnessed(m, event).transcript.last().0, tool@),
        event matches TurnEvent::ToolResult { id, tool, ok, error } ==> {
            let l = witnessed(m, event).transcript.last();
            &&& has_text(l.0, tool@)
            &&& !ok && error is Some ==> finishes_with(l.0, error->0@)
            &&& ok <==> l.1 is Green
        },
        event matches TurnEvent::Final { text } ==> (m.streaming.len() == 0 ==> witnessed(m, event).transcript.last().0
            == text@),
        !(event is PermissionRequest) ==> witnessed(m, event).pending == m.pending,
        witnessed(m, event).input == m.input && witnessed(m, event).session == m.session && witnessed(m, event).running
            == m.running && witnessed(m, event).read_only == m.read_only && witnessed(m, event).model == m.model,
{
    let none = Seq::<char>::empty();
    match event {
        TurnEvent::PermissionRequest(q) => {
            let t = request_line(q);
            let a = "审批：需要 "@;
            let b = " 权限执行 "@;
            let c = "）— 按 y 允许 / n 拒绝"@;
            let l = q.level.label_of();
            assert(t =~= a + l + (b + q.tool@ + "（"@ + q.reason@ + c));
            parts_stand_in_the_whole(a, l, b + q.tool@ + "（"@ + q.reason@ + c, t);
            assert(t =~= (a + l + b) + q.tool@ + ("（"@ + q.reason@ + c));
            parts_stand_in_the_whole(a + l + b, q.tool@, "（"@ + q.reason@ + c, t);
            parts_stand_in_the_whole(a + l + b + q.tool@ + "（"@, q.reason@, c, t);
        },
        TurnEvent::ToolStart { id, tool } => {
            parts_stand_in_the_whole("▶ "@, tool@, " …"@, tool@);
        },
        TurnEvent::ToolResult { id, tool, ok, error } => {
            if ok {
                assert("✔ "@ + tool@ =~= "✔ "@ + tool@ + none);
                parts_stand_in_the_whole("✔ "@, tool@, none, tool@);
            } else {
                let e = match error {
                    Some(e) => e@,
                    None => "未知错误"@,
                };
                let t = "✘ "@ + tool@ + "："@ + e;
                assert(t =~= "✘ "@ + tool@ + ("："@ + e));
                parts_stand_in_the_whole("✘ "@, tool@, "："@ + e, tool@);
                assert(t.skip(t.len() - e.len()) =~= e);
            }
        },
        _ => {},
    }
}

/// What is in sight is a stretch of what was said that ends where it was scrolled to, as
/// long as there is room and anything to show.
pub proof fn sight_is_a_stretch(m: TuiModel, height: int, i: int)
    requires
        0 <= m.scroll <= m.transcript.len(),
        height >= 3,
    ensures
        ({
            let shown = in_sight(m, height);
            let end = m.transcript.len() - m.scroll;
            &&& shown.len() == if end < height - 2 { end } else { height - 2 }
            &&& 0 <= i < shown.len() ==> shown[i] == m.transcript[end - shown.len() + i]
        }),
{
}

/// Once the agent was built anew, one line says what has changed; nothing else does.
pub proof fn rebuilding_is_said(m: TuiModel, why: SwitchModel)
    ensures
        rebuilt(m, why).transcript.len() == m.transcript.len() + 1,
        rebuilt(m, why).transcript.drop_last() == m.transcript,
        rebuilt(m, why) == (TuiModel { transcript: rebuilt(m, why).transcript, ..m }),
        why is Model ==> finishes_with(rebuilt(m, why).transcript.last().0, m.model),
        why matches SwitchModel::ServerAdded(name, tools) ==> has_text(rebuilt(m, why).transcript.last().0, name)
            && has_text(rebuilt(m, why).transcript.last().0, decimal(tools)),
        why matches SwitchModel::ServerRemoved(name) ==> finishes_with(rebuilt(m, why).transcript.last().0, name),
        why is Mode ==> (m.read_only <==> has_text(rebuilt(m, why).transcript.last().0, "plan"@)),
{
    assert(rebuilt(m, why).transcript.drop_last() =~= m.transcript);
    match why {
        SwitchModel::Model => {
            let t = "模型已切换："@ + m.model;
            assert(t.skip(t.len() - m.model.len()) =~= m.model);
        },
        SwitchModel::ServerAdded(name, tools) => {
            let a = "已添加 MCP "@;
            let d = decimal(tools);
            let z = " 个工具）"@;
            let t = a + name + "（"@ + d + z;
            assert(t =~= a + name + ("（"@ + d + z));
            parts_stand_in_the_whole(a, name, "（"@ + d + z, t);
            parts_stand_in_the_whole(a + name + "（"@, d, z, t);
        },
        SwitchModel::ServerRemoved(name) => {
            let t = "已移除 MCP 服务器："@ + name;
            assert(t.skip(t.len() - name.len()) =~= name);
        },
        SwitchModel::Mode => {
            reveal_strlit("已切换 plan（只读）");
            reveal_strlit("已切换 build");
            reveal_strlit("plan");
            let a = "已切换 plan（只读）"@;
            assert(a.subrange(4, 8) =~= "plan"@);
            assert(occurs_at(a, "plan"@, 4));
            let b = "已切换 build"@;
            if has_text(b, "plan"@) {
                let i = choose|i: int| occurs_at(b, "plan"@, i);
                assert(b.subrange(i, i + 4)[0] == b[i]);
                assert(b.subrange(i, i + 4)[0] == 'p');
            }
        },
    }
}

} // verus!
