use owo_agent_core::agent::TurnEvent;
use owo_agent_core::chat::ChatMessage;
use owo_agent_core::cli::{approval_after, console_decision, console_line, data_root, resolve_model, turn_summary};
use owo_agent_core::json::read_json;
use owo_agent_core::mcp::McpServerConfig;
use owo_agent_core::permissions::{Decision, Level, PermissionRequest};
use owo_agent_core::session::{FileDiff, Session};
use owo_agent_core::tui::command::{parse_command, Command, McpCommand};
use owo_agent_core::tui::work::{ListedServer, ListedSession};
use owo_agent_core::tui::{Action, Key, Style, Switch, TuiApp, TuiArgs};

fn test_app() -> TuiApp {
    TuiApp::new(
        "/tmp".to_string(),
        "mock".to_string(),
        false,
        true,
        "/tmp/owo-tui-test-root".to_string(),
        Vec::new(),
        Vec::new(),
    )
}

fn request() -> PermissionRequest {
    PermissionRequest {
        request_id: "req-1".to_string(),
        tool: "write_file".to_string(),
        args: read_json("{ \"path\": \"a.txt\" }").unwrap(),
        level: Level::Write,
        reason: "测试".to_string(),
    }
}

fn type_line(app: &mut TuiApp, line: &str) -> Result<Action, String> {
    for c in line.chars() {
        app.handle_key(Key::Char(c), false).unwrap_or_else(|e| panic!("{}", e));
    }
    app.handle_key(Key::Enter, false)
}

#[test]
fn permission_request_queues_approval_and_responds() {
    let mut app = test_app();
    app.pending_order.push(request().request_id);
    match app.respond_approval(true) {
        Ok(Action::Answer { request_id, allow }) => {
            assert_eq!(request_id, "req-1");
            assert!(allow);
        }
        _ => panic!("an answer is due"),
    }
    assert!(app.pending_order.is_empty());
    app.approval_sent(true);
    assert_eq!(app.status, "执行中…");
}

#[test]
fn transcript_visible_lines_respects_scroll() {
    let mut app = test_app();
    for index in 0..20 {
        app.push_line(format!("line {index}"), Style::Plain);
    }
    app.scroll = 0;
    assert_eq!(app.visible_lines(5).last().unwrap().0, "line 19");
    app.scroll = 5;
    assert_eq!(app.visible_lines(5).last().unwrap().0, "line 14");
    assert_eq!(app.visible_lines(5).len(), 3);
}

#[test]
fn keys_edit_the_line_and_switch_the_mode() {
    let mut app = test_app();
    app.handle_key(Key::Char('a'), false).unwrap_or_else(|e| panic!("{}", e));
    app.handle_key(Key::Char('b'), false).unwrap_or_else(|e| panic!("{}", e));
    app.handle_key(Key::Backspace, false).unwrap_or_else(|e| panic!("{}", e));
    assert_eq!(app.input, "a");
    app.handle_key(Key::Esc, false).unwrap_or_else(|e| panic!("{}", e));
    assert_eq!(app.input, "");
    let said = app.transcript.len();
    assert!(matches!(app.handle_key(Key::Tab, false), Ok(Action::Rebuild(Switch::Mode))));
    assert!(app.read_only);
    assert_eq!(app.transcript.len(), said);
    app.rebuilt(&Switch::Mode);
    assert_eq!(app.transcript.last().unwrap().0, "已切换 plan（只读）");
    app.handle_key(Key::PageUp, false).unwrap_or_else(|e| panic!("{}", e));
    assert_eq!(app.scroll, 8);
    app.handle_key(Key::PageDown, false).unwrap_or_else(|e| panic!("{}", e));
    assert_eq!(app.scroll, 0);
    assert!(matches!(app.handle_key(Key::Char('c'), true), Ok(Action::Quit)));
    app.handle_key(Key::Char('l'), true).unwrap_or_else(|e| panic!("{}", e));
    assert!(app.transcript.is_empty());
}

#[test]
fn running_turn_takes_only_answers_and_the_abort() {
    let mut app = test_app();
    app.running = true;
    app.push_event(TurnEvent::PermissionRequest(request()));
    assert_eq!(app.status, "等待审批（y/n）");
    assert!(matches!(app.handle_key(Key::Char('x'), false), Ok(Action::Stay)));
    assert_eq!(app.input, "");
    assert!(matches!(app.handle_key(Key::Char('n'), false), Ok(Action::Answer { allow: false, .. })));
    assert!(matches!(app.handle_key(Key::Char('c'), true), Ok(Action::Stay)));
    assert!(app.abort);
    app.note_running();
    assert_eq!(app.status, "回合进行中（Ctrl+C 中止）");
}

#[test]
fn line_without_a_slash_begins_a_turn() {
    let mut app = test_app();
    match type_line(&mut app, "  do it ") {
        Ok(Action::Turn(prompt)) => assert_eq!(prompt, "do it"),
        _ => panic!("a turn is due"),
    }
    let session = Session::new("/tmp".to_string(), "mock".to_string(), None);
    let id = session.id.clone();
    let handed = app.start_turn("do it", Some(Ok(session))).unwrap();
    assert_eq!(handed.id, id);
    assert!(app.running);
    assert_eq!(app.transcript.last().unwrap().0, "▶ do it");
    app.finished(Ok((2, Some("fine".to_string()))), handed, 1);
    assert!(!app.running);
    assert_eq!(app.transcript.last().unwrap().0, "fine");
    let n = app.transcript.len();
    assert_eq!(app.transcript[n - 3].0, "✓ 完成：工具 2 步，改动 1 个文件（/diff 查看，/undo 回滚）");
    let mut other = test_app();
    assert!(other.start_turn("x", Some(Err("disk".to_string()))).is_none());
    assert!(!other.running);
}

#[test]
fn failed_turn_is_told() {
    let mut app = test_app();
    let session = Session::new("/tmp".to_string(), "mock".to_string(), None);
    app.finished(Err("offline".to_string()), session, 0);
    assert_eq!(app.transcript.last().unwrap().0, "回合失败：offline");
    assert_eq!(app.status, "出错");
}

#[test]
fn words_of_the_model_become_a_line() {
    let mut app = test_app();
    app.push_event(TurnEvent::TokenDelta { delta: "he".to_string() });
    app.push_event(TurnEvent::TokenDelta { delta: "llo".to_string() });
    assert_eq!(app.streaming, "hello");
    assert_eq!(app.draw(10).lines.last().unwrap().0, "▍hello");
    app.push_event(TurnEvent::ToolStart { id: "1".to_string(), tool: "read_file".to_string() });
    let n = app.transcript.len();
    assert_eq!(app.transcript[n - 2].0, "hello");
    assert_eq!(app.transcript[n - 1].0, "▶ read_file …");
    app.push_event(TurnEvent::ToolResult { id: "1".to_string(), tool: "read_file".to_string(), ok: false, error: None });
    assert_eq!(app.transcript.last().unwrap().0, "✘ read_file：未知错误");
    app.push_event(TurnEvent::Final { text: "end".to_string() });
    assert_eq!(app.transcript.last().unwrap().0, "end");
}

#[test]
fn commands_are_read() {
    assert!(matches!(parse_command("help"), Ok(Command::Help)));
    assert!(matches!(parse_command(" quit "), Ok(Command::Exit)));
    assert!(matches!(parse_command("resume"), Err(_)));
    assert!(matches!(parse_command("rewind"), Err(_)));
    assert!(matches!(parse_command("fork"), Ok(Command::Fork(None))));
    assert!(matches!(parse_command("nonsense"), Ok(Command::Unknown(_))));
    match parse_command("mcp add files npx -y server") {
        Ok(Command::Mcp(McpCommand::Add(config))) => {
            assert_eq!(config.name, "files");
            assert_eq!(config.command, "npx");
            assert_eq!(config.args, vec!["-y", "server"]);
            assert_eq!(config.transport, "stdio");
        }
        _ => panic!("a server is to be added"),
    }
    assert!(matches!(parse_command("mcp add"), Err(_)));
    assert!(matches!(parse_command("mcp add x"), Err(_)));
    assert!(matches!(parse_command("mcp"), Ok(Command::Mcp(McpCommand::Usage))));
}

#[test]
fn commands_are_obeyed() {
    let mut app = test_app();
    assert!(matches!(type_line(&mut app, "/model gpt"), Ok(Action::Rebuild(Switch::Model))));
    assert_eq!(app.model, "gpt");
    app.rebuilt(&Switch::Model);
    assert_eq!(app.transcript.last().unwrap().0, "模型已切换：gpt");
    assert!(matches!(type_line(&mut app, "/undo"), Ok(Action::Stay)));
    assert_eq!(app.transcript.last().unwrap().0, "暂无会话");
    assert!(matches!(type_line(&mut app, "/what"), Ok(Action::Stay)));
    assert_eq!(app.transcript.last().unwrap().0, "未知命令：/what（/help 查看）");
    assert!(matches!(type_line(&mut app, "/plan"), Ok(Action::Rebuild(Switch::Mode))));
    assert!(matches!(type_line(&mut app, "/plan"), Ok(Action::Stay)));
    assert!(matches!(type_line(&mut app, "/exit"), Ok(Action::Work(Command::Exit))));
    assert!(type_line(&mut app, "/resume").is_err());
    assert!(matches!(type_line(&mut app, "/clear"), Ok(Action::Stay)));
    assert!(app.transcript.is_empty());
    assert!(matches!(type_line(&mut app, "/help"), Ok(Action::Stay)));
    assert_eq!(app.transcript.len(), 11);
}

#[test]
fn session_is_split_rewound_and_restored() {
    let mut app = test_app();
    let mut session = Session::new("/tmp".to_string(), "mock".to_string(), None);
    for index in 0..4 {
        session.push(ChatMessage::user(format!("m{index}")));
    }
    app.new_session(session);
    app.rewind_session("1").unwrap();
    assert_eq!(app.transcript.last().unwrap().0, "已回退到 1 条消息（移除 3 条，/redo 可恢复）");
    app.redo_session();
    assert_eq!(app.transcript.last().unwrap().0, "已恢复 3 条消息");
    app.redo_session();
    assert_eq!(app.transcript.last().unwrap().0, "没有可恢复的历史");
    assert_eq!(app.rewind_session("x").unwrap_err(), "保留消息数需为数字");
    assert_eq!(app.fork_session(Some("x".to_string())).unwrap_err(), "消息序号需为数字");
    app.fork_session(Some("1".to_string())).unwrap();
    assert_eq!(app.session.as_ref().unwrap().messages.len(), 2);
    app.undone();
    assert_eq!(app.transcript.last().unwrap().0, "没有可回滚的改动");
    let page = app.share_session(Some(&"html".to_string()), 9).unwrap();
    assert!(page.file_name.ends_with("-9.html"));
    assert!(page.content.starts_with("<!DOCTYPE html>"));
    assert!(app.share_session(None, 9).unwrap().file_name.ends_with("-9.md"));
}

#[test]
fn lists_are_shown() {
    let mut app = test_app();
    app.show_sessions(&Vec::new());
    assert_eq!(app.transcript.last().unwrap().0, "暂无会话（/new 创建）");
    let session = Session::new("/tmp".to_string(), "mock".to_string(), None);
    app.show_sessions(&vec![ListedSession { id: "s".to_string(), session: Some(session) }]);
    assert_eq!(app.transcript.last().unwrap().0, "  s  model=mock  msgs=0");
    let session = Session::new("/tmp".to_string(), "mock".to_string(), None);
    app.show_tree(&vec![ListedSession { id: "s".to_string(), session: Some(session) }]);
    assert_eq!(app.transcript.last().unwrap().0, "  s parent=(根) fork@- msgs=0");
    app.show_diff(&vec![FileDiff { path: "a".to_string(), before: Some("x\ny".to_string()), after: None }]);
    let n = app.transcript.len();
    let tail: Vec<&str> = app.transcript[n - 4..].iter().map(|l| l.0.as_str()).collect();
    assert_eq!(tail, vec!["● a", "- x", "- y", "(已删除)"]);
    app.push_status(0, 3);
    assert_eq!(app.transcript.last().unwrap().0, "审计记录：3 条");
    app.list_skills(&Vec::new());
    assert!(app.transcript.last().unwrap().0.starts_with("暂无技能"));
}

#[test]
fn servers_come_and_go() {
    let mut app = test_app();
    app.mcp_added(McpServerConfig::stdio("files".to_string(), "npx".to_string(), Vec::new()));
    assert_eq!((app.mcp_configs.len(), app.mcp_clients.len()), (1, 1));
    app.rebuilt(&Switch::ServerAdded { name: "files".to_string(), tools: 2 });
    assert_eq!(app.transcript.last().unwrap().0, "已添加 MCP files（2 个工具）");
    app.show_servers(&vec![ListedServer { name: "files".to_string(), tools: Some(vec!["a".to_string(), "b".to_string()]) }]);
    assert_eq!(app.transcript.last().unwrap().0, "files：a, b");
    assert_eq!(app.mcp_removed("files"), Some(0));
    assert!(app.mcp_configs.is_empty() && app.mcp_clients.is_empty());
    app.rebuilt(&Switch::ServerRemoved { name: "files".to_string() });
    assert_eq!(app.transcript.last().unwrap().0, "已移除 MCP 服务器：files");
    assert_eq!(app.mcp_removed("files"), None);
    app.mcp_failed("x", "refused");
    assert_eq!(app.transcript.last().unwrap().0, "MCP x 连接失败：refused");
}

#[test]
fn screen_shows_mode_and_status() {
    let app = test_app();
    let screen = app.draw(10);
    assert_eq!(screen.title[6], ("build".to_string(), Style::Green));
    assert_eq!(screen.input_title, " 输入（build） ");
    assert_eq!(screen.status[6].0, "就绪");
    let args = TuiArgs {
        workspace: ".".to_string(),
        model: None,
        agent: "plan".to_string(),
        no_approval: false,
        data_dir: None,
    };
    assert!(args.read_only());
}

#[test]
fn console_asks_and_tells() {
    assert_eq!(console_decision(Some(&" YES\n".to_string())), Decision::Allow);
    assert_eq!(console_decision(Some(&"no".to_string())), Decision::Deny);
    assert_eq!(console_decision(None), Decision::Deny);
    assert_eq!(approval_after(None, 1), None);
    assert_eq!(approval_after(None, 300_000), Some(Decision::Deny));
    assert_eq!(console_line(&TurnEvent::ModelCall).as_deref(), Some("[model] 调用模型…"));
    assert_eq!(console_line(&TurnEvent::TokenDelta { delta: "x".to_string() }), None);
    assert_eq!(turn_summary(3, true), "\n[完成] 工具步数：3，最终文本：true");
    assert_eq!(resolve_model(None, None), "gpt-5.1-codex");
    assert_eq!(data_root(None, None).base, "data/agent");
    assert_eq!(data_root(None, Some("C:".to_string())).below, vec!["OwO", "Agent"]);
}
