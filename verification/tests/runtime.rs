use owo_agent_core::agent::{
    compact_truncate, estimate_tokens, system_prompt, AgentConfig, CallStep, RoundStep, Turn, TurnEvent,
};
use owo_agent_core::audit::AuditLog;
use owo_agent_core::chat::{messages_to_text, ChatMessage, ToolCall};
use owo_agent_core::cloud_exec::{
    compute_diff, ApplyStep, CloudTaskResult, CloudTaskSpec, CommandEnd, DiffKind, FileAction, LocalSimExecutor,
    RevertStep, RunNext, RunState, Snapshot,
};
use owo_agent_core::eval::{builtin_suite, case_folder_name, judge_case, suite_report, CaseRun, EvalCase};
use owo_agent_core::gateway::{ModelOutput, TokenUsage};
use owo_agent_core::goal::{
    AfterAttempt, Goal, GoalBudget, GoalRunState, GoalRunner, GoalStatus, JoinedStep, RunnerConfig, StepAttempts,
    StepOutcome, StepResult, Wave,
};
use owo_agent_core::json::{parse_json, read_json, Json};
use owo_agent_core::mcp::{
    extract_result, is_event_stream, open_channel, read_call_result, read_event_stream, read_http_reply, read_tools,
    ConnectAction, ConnectEvent, HttpReply, McpClient, McpServerConfig, MCP_PROTOCOL_VERSION,
};
use owo_agent_core::permissions::{canonicalize_existing_parent, resolve_within, Decision, PathFacts, Policy};
use owo_agent_core::plan::{depends_on_any, Plan, StepSpec, StepStatus, VerificationSpec};
use owo_agent_core::remote_step::{
    approve_transport_task, submission_task, submit_next, EvidenceItem, RemoteStep, RemoteStepEvent, RemoteStepKind,
    SubmitAction, SubmitEvent, SubmitWait,
};
use owo_agent_core::skill::{Skill, SkillRegistry};
use owo_agent_core::subagent::{SubagentRunner, MAX_SUBAGENT_DEPTH};
use owo_agent_core::table::Table;
use owo_agent_core::text::{
    decimal_text, hex_text, join, sort_strings, split_lines, split_words, trim,
};
use owo_agent_core::tools::{
    list_dir_result, read_file_result, resolve_session_path, sanitize_tool_name, use_skill, DirEntry, FileSearch,
    SessionPath, ToolRegistry,
};
use owo_agent_core::transport::TransportStatus;
use owo_agent_core::tui::{Action, Key, TuiApp};

fn json(text: &str) -> Json {
    read_json(text).unwrap_or_else(|e| panic!("{}", e))
}

// Turns

fn turn() -> Turn {
    Turn::begin(AgentConfig::default(), "s1", "system".to_string(), &Vec::new(), "read it")
}

#[test]
fn turn_calls_a_tool_and_ends_with_text() {
    let mut turn = turn();
    let policy = Policy::new("/w");
    assert!(matches!(turn.begin_round(false), RoundStep::AskModel));
    turn.ask_model();
    let call = ToolCall { id: "c1".to_string(), name: "read_file".to_string(), arguments: json(r#"{"path":"a.txt"}"#) };
    turn.model_said(ModelOutput::ToolCalls(vec![call]));
    assert!(turn.has_call());
    match turn.judge_call(&policy, &Ok("/w/a.txt".to_string()), false) {
        CallStep::Decided(request, decision) => {
            assert_eq!(decision, Decision::Allow);
            assert!(turn.decided(&request, decision));
        }
        _ => panic!("reading is allowed"),
    }
    turn.tool_done(Ok(json(r#"{"content":"x"}"#)));
    assert!(!turn.has_call());
    turn.ask_model();
    turn.model_said(ModelOutput::Text("done".to_string()));
    assert!(matches!(turn.begin_round(false), RoundStep::Finish));
    let (outcome, messages, audit) = turn.finish("read it".to_string(), "t".to_string(), 5, TokenUsage::default());
    assert_eq!(outcome.final_text.as_deref(), Some("done"));
    assert_eq!(outcome.steps, 1);
    assert_eq!(messages.last().unwrap().content.as_deref(), Some("done"));
    assert!(!audit.entries.is_empty());
    assert!(matches!(outcome.events.last(), Some(TurnEvent::Final { .. })));
}

#[test]
fn denied_tool_does_not_run() {
    let mut turn = turn();
    let policy = Policy::read_only("/w");
    turn.ask_model();
    let call = ToolCall { id: "c1".to_string(), name: "write_file".to_string(), arguments: json(r#"{"path":"a.txt"}"#) };
    turn.model_said(ModelOutput::ToolCalls(vec![call]));
    match turn.judge_call(&policy, &Ok("/w/a.txt".to_string()), false) {
        CallStep::Decided(request, decision) => {
            assert_eq!(decision, Decision::Deny);
            assert!(!turn.decided(&request, decision));
        }
        _ => panic!("writing is denied"),
    }
    assert!(!turn.has_call());
}

#[test]
fn answer_of_the_user_finds_the_request_that_waits() {
    let mut turn = turn();
    let call = ToolCall { id: "c1".to_string(), name: "run_command".to_string(), arguments: json(r#"{"command":"ls"}"#) };
    turn.ask_model();
    turn.model_said(ModelOutput::ToolCalls(vec![call]));
    let waiting = match turn.judge_call(&Policy::new("/w"), &Ok(String::new()), false) {
        CallStep::Approve(request) => request,
        _ => panic!("a command is asked for"),
    };
    assert_eq!(waiting.request_id.len(), 36);
    let shown = match turn.events.last() {
        Some(TurnEvent::PermissionRequest(q)) => q.clone(),
        _ => panic!("the request is shown"),
    };
    assert_eq!(shown.request_id, waiting.request_id);
    let mut app =
        TuiApp::new("/w".to_string(), "m".to_string(), false, false, "/d".to_string(), Vec::new(), Vec::new());
    app.running = true;
    app.push_event(TurnEvent::PermissionRequest(shown));
    match app.handle_key(Key::Char('y'), false) {
        Ok(Action::Answer { request_id, allow }) => assert!(allow && request_id == waiting.request_id),
        _ => panic!("the request is answered"),
    }
}

#[test]
fn abort_ends_the_turn() {
    assert!(matches!(turn().begin_round(true), RoundStep::Aborted));
}

#[test]
fn long_conversation_is_cut() {
    let mut messages = vec![ChatMessage::system("s".to_string())];
    for i in 0..20 {
        messages.push(ChatMessage::user(format!("message {i}")));
    }
    let before = estimate_tokens(&messages);
    compact_truncate(&mut messages, 5);
    assert!(messages.len() <= 6);
    assert!(estimate_tokens(&messages) < before);
    assert_eq!(messages[0].role, "system");
    assert!(messages_to_text(&messages).contains("message 19"));
    assert!(system_prompt("base", &Vec::new()).starts_with("base"));
}

#[test]
fn audit_keeps_what_was_recorded() {
    let mut log = AuditLog::new();
    log.record("s1", "tool_call", Some("read_file".to_string()), None, "ok");
    assert_eq!(log.entries.len(), 1);
    assert_eq!(log.entries[0].event, "tool_call");
    assert_eq!(log.entries[0].tool.as_deref(), Some("read_file"));
}

// Goals

#[test]
fn goal_status_machine_transitions() {
    let mut goal = Goal::new("g1", "测试目标");
    assert!(matches!(goal.status, GoalStatus::Pending));
    goal.transition(GoalStatus::Planning);
    goal.transition(GoalStatus::Running);
    goal.transition(GoalStatus::Verifying);
    goal.transition(GoalStatus::Succeeded);
    assert!(goal.status.is_terminal());
    assert!(!GoalStatus::Running.is_terminal());
}

fn step(id: &str, depends_on: Vec<&str>) -> StepSpec {
    StepSpec {
        id: id.to_string(),
        worker: "w".to_string(),
        input: Json::Null,
        depends_on: depends_on.iter().map(|d| d.to_string()).collect(),
        retries: 0,
        verify: None,
    }
}

fn runner(allow_replan: bool) -> GoalRunner {
    let mut plan = Plan::new("p1", "g1");
    plan.steps.push(step("a", vec![]));
    plan.steps.push(step("b", vec!["a"]));
    let config = RunnerConfig { allow_replan, ..RunnerConfig::default() };
    GoalRunner::new(Goal::new("g1", "目标"), plan, config)
}

fn passed(id: &str) -> JoinedStep {
    JoinedStep::Done(StepOutcome {
        step_id: id.to_string(),
        attempts: 1,
        result: StepResult::Passed { output: "ok".to_string() },
    })
}

#[test]
fn goal_runs_its_steps_in_order() {
    let mut r = runner(false);
    assert!(r.start().is_none());
    for (i, id) in ["a", "b"].iter().enumerate() {
        match r.begin_wave(0) {
            Wave::Run(ready) => assert_eq!(ready, vec![i]),
            _ => panic!("a step is ready"),
        }
        r.step_started(i);
        let mut failed = Vec::new();
        r.merge_step_outcome(passed(id), &mut failed).unwrap();
        assert!(r.end_wave(&failed).is_none());
    }
    assert!(matches!(r.begin_wave(0), Wave::Verify));
    assert!(matches!(r.verify_goal(&Vec::new()), GoalStatus::Succeeded));
    assert_eq!(r.state.records.len(), 2);
}

#[test]
fn goal_with_an_unmet_condition_fails() {
    let mut r = runner(false);
    r.state.goal.acceptance.push(VerificationSpec { rule: Json::Null });
    r.state.goal.acceptance.push(VerificationSpec { rule: Json::Null });
    r.start();
    let mut failed = Vec::new();
    r.merge_step_outcome(passed("a"), &mut failed).unwrap();
    r.merge_step_outcome(passed("b"), &mut failed).unwrap();
    assert!(matches!(r.begin_wave(0), Wave::Verify));
    assert_eq!(r.acceptance_summary(), "ok\nok");
    let status = r.verify_goal(&vec![Ok(()), Err("no".to_string())]);
    assert!(matches!(status, GoalStatus::Failed));
    assert_eq!(r.state.goal.error.as_deref(), Some("目标验收失败：no"));
    assert!(r.state.records.entries.iter().all(|e| e.1.status == StepStatus::Succeeded));
}

#[test]
fn stored_run_is_taken_up_only_with_a_record_for_each_step() {
    let mut r = runner(true);
    let mut failed = Vec::new();
    r.start();
    r.merge_step_outcome(passed("a"), &mut failed).unwrap();
    let mut again = GoalRunner::resume(r.state, RunnerConfig::default()).expect("the records are in order");
    match again.begin_wave(0) {
        Wave::Run(ready) => assert_eq!(ready, vec![1]),
        _ => panic!("the second step is ready"),
    }
    let mut state = again.state;
    state.records.entries.swap(0, 1);
    assert!(GoalRunner::resume(state, RunnerConfig::default()).is_none());
    let mut state = runner(true).state;
    state.records.entries.pop();
    assert!(GoalRunner::resume(state, RunnerConfig::default()).is_none());
}

#[test]
fn failed_step_fails_the_goal_without_a_new_plan() {
    let mut r = runner(false);
    r.start();
    r.step_started(0);
    let mut failed = Vec::new();
    let outcome = StepOutcome {
        step_id: "a".to_string(),
        attempts: 1,
        result: StepResult::Retried { error: "boom".to_string() },
    };
    r.merge_step_outcome(JoinedStep::Done(outcome), &mut failed).unwrap();
    assert_eq!(failed, vec!["a"]);
    assert!(matches!(r.end_wave(&failed), Some(GoalStatus::Failed)));
    assert!(r.state.goal.error.as_deref().unwrap().contains("replan 未启用"));
}

#[test]
fn aborted_goal_stays_aborted() {
    let mut r = runner(false);
    r.start();
    r.abort();
    assert!(matches!(r.begin_wave(0), Wave::End(GoalStatus::Aborted)));
}

#[test]
fn goal_stops_when_its_time_is_over() {
    let mut r = runner(false);
    r.state.goal.budget.max_duration_secs = 10;
    r.start();
    assert!(matches!(r.begin_wave(10), Wave::End(GoalStatus::Failed)));
    assert_eq!(r.state.goal.error.as_deref(), Some("预算熔断：执行时长超过 10s"));
}

#[test]
fn step_is_tried_again_as_often_as_allowed() {
    let mut s = step("a", vec![]);
    s.retries = 1;
    let mut attempts = match StepAttempts::begin(&s, GoalBudget::default(), true) {
        Ok(a) => a,
        Err(_) => panic!("the worker is known"),
    };
    assert!(attempts.next(false).is_none());
    assert!(matches!(attempts.worker_done(Err("x".to_string())), AfterAttempt::Again));
    assert!(attempts.next(false).is_none());
    assert!(matches!(attempts.worker_done(Err("x".to_string())), AfterAttempt::End(_)));
    assert!(StepAttempts::begin(&s, GoalBudget::default(), false).is_err());
}

#[test]
fn run_state_is_new_and_named() {
    let state = GoalRunState::new(Goal::new("g1", "目标"), Plan::new("p1", "g1"));
    assert_eq!(state.records.len(), 0);
    assert!(state.file_name().contains(&state.run_id));
}

#[test]
fn dependents_are_found_through_others() {
    let mut plan = Plan::new("p", "g");
    plan.steps.push(step("a", vec![]));
    plan.steps.push(step("b", vec!["a"]));
    plan.steps.push(step("c", vec!["b"]));
    assert!(depends_on_any(&plan, &vec!["b".to_string()], &vec!["a".to_string()]));
    assert!(!depends_on_any(&plan, &vec!["a".to_string()], &vec!["c".to_string()]));
    assert_eq!(plan.find("c"), Some(2));
}

// Work elsewhere

fn files(entries: Vec<(&str, &str)>) -> Table<String> {
    let mut t: Table<String> = Table::new();
    for (k, v) in entries {
        t.insert_sorted(k.to_string(), v.to_string());
    }
    t
}

#[test]
fn difference_of_two_states_leads_from_one_to_the_other() {
    let before = files(vec![("a", "1"), ("b", "2")]);
    let after = files(vec![("b", "3"), ("c", "4")]);
    let (diff, truncated) = compute_diff(&before, &after);
    assert!(!truncated);
    assert_eq!(diff.len(), 3);
    let deleted = diff.iter().find(|d| d.path == "a").unwrap();
    assert!(matches!(deleted.change, DiffKind::Deleted));
    assert!(matches!(deleted.apply(), FileAction::Remove { .. }));
    match deleted.reverse() {
        FileAction::Write { path, content } => assert_eq!((path.as_str(), content.as_str()), ("a", "1")),
        _ => panic!("the file comes back"),
    }
}

#[test]
fn changes_stand_in_the_order_of_their_paths() {
    let (diff, cut) = compute_diff(&files(vec![("a", "1")]), &files(vec![("b", "2")]));
    assert!(!cut);
    assert_eq!(diff.len(), 2);
    assert_eq!(diff[0].path, "a");
    assert!(matches!(diff[0].change, DiffKind::Deleted));
    assert_eq!((diff[0].old.as_deref(), diff[0].new.as_deref()), (Some("1"), None));
    assert_eq!(diff[1].path, "b");
    assert!(matches!(diff[1].change, DiffKind::Added));
    assert_eq!((diff[1].old.as_deref(), diff[1].new.as_deref()), (None, Some("2")));
    let before = files(vec![("b", "1"), ("d", "1"), ("e", "1")]);
    let after = files(vec![("a", "1"), ("c", "1"), ("d", "2"), ("e", "1"), ("f", "1")]);
    let paths: Vec<String> = compute_diff(&before, &after).0.into_iter().map(|d| d.path).collect();
    assert_eq!(paths, vec!["a", "b", "c", "d", "f"]);
}

#[test]
fn only_the_first_changes_by_path_are_listed() {
    let mut before: Table<String> = Table::new();
    let mut after: Table<String> = Table::new();
    for i in 0..201 {
        if i % 2 == 0 {
            before.insert_sorted(format!("f{i:03}"), "x".to_string());
        } else {
            after.insert_sorted(format!("f{i:03}"), "y".to_string());
        }
    }
    let (diff, cut) = compute_diff(&before, &after);
    assert!(cut);
    assert_eq!(diff.len(), 200);
    for (i, d) in diff.iter().enumerate() {
        assert_eq!(d.path, format!("f{i:03}"));
    }
}

fn cloud_spec(commands: Vec<&str>) -> CloudTaskSpec {
    CloudTaskSpec {
        name: "t".to_string(),
        workspace_dir: "/w".to_string(),
        commands: commands.iter().map(|c| c.to_string()).collect(),
        env_passthrough: Vec::new(),
        timeout_secs: 60,
    }
}

#[test]
fn task_is_submitted_run_and_taken_back() {
    let mut executor = LocalSimExecutor::new();
    assert!(executor.submit(&cloud_spec(vec![]), true, Ok(())).is_err());
    assert!(executor.submit(&cloud_spec(vec!["x"]), false, Ok(())).is_err());
    let mut inline = cloud_spec(vec!["x"]);
    inline.env_passthrough.push("A=1".to_string());
    assert!(executor.submit(&inline, true, Ok(())).is_err());
    let id = executor.submit(&cloud_spec(vec!["x"]), true, Ok(())).unwrap();
    let id = executor.submitted(id, cloud_spec(vec!["x"]), "/scratch".to_string(), Ok(())).unwrap();
    assert!(executor.begin_run("nobody").is_err());
    assert!(executor.begin_run(&id).is_ok());
    let mut state = RunState::new();
    let end = CommandEnd::Output { stdout: "out".to_string(), stderr: String::new(), code: Some(0) };
    assert!(matches!(state.command_done(1, end), RunNext::Finished));
    let result = executor
        .run(&id, state, 60, &files(vec![("a", "1")]), &files(vec![("a", "2")]))
        .unwrap_or_else(|e| panic!("{}", e));
    assert_eq!(result.exit_code, Some(0));
    match result.apply_to(0, Ok(())) {
        ApplyStep::Perform { position: 0, action: FileAction::Write { path, content } } => {
            assert_eq!((path.as_str(), content.as_str()), ("a", "2"));
        }
        _ => panic!("the file is written"),
    }
    assert!(matches!(result.apply_to(1, Ok(())), ApplyStep::Done { count: 1 }));
    assert_eq!(executor.revert(&id).unwrap().as_deref(), Some("/scratch"));
    assert!(executor.reverted(&id, Ok(())).is_ok());
}

#[test]
fn first_failing_change_ends_the_application() {
    let (diff, _) = compute_diff(&files(vec![("a", "1"), ("b", "1")]), &files(vec![("a", "2"), ("c", "3")]));
    let result = CloudTaskResult {
        task_id: "t".to_string(),
        exit_code: Some(0),
        stdout: String::new(),
        stderr: String::new(),
        diff,
        diff_truncated: false,
    };
    assert!(matches!(result.apply_to(0, Ok(())), ApplyStep::Perform { position: 0, .. }));
    match result.apply_to(1, Ok(())) {
        ApplyStep::Perform { position: 1, action: FileAction::Remove { path } } => assert_eq!(path, "b"),
        _ => panic!("the second change is next"),
    }
    match result.apply_to(2, Err("disk".to_string())) {
        ApplyStep::Failed { position, error } => assert_eq!((position, error.as_str()), (1, "disk")),
        _ => panic!("the failure ends it"),
    }
    assert!(matches!(result.apply_to(3, Ok(())), ApplyStep::Done { count: 3 }));
    match result.revert_from(0, Ok(())) {
        RevertStep::Perform(FileAction::Remove { path }) => assert_eq!(path, "c"),
        _ => panic!("the last change is taken back first"),
    }
    match result.revert_from(2, Err("disk".to_string())) {
        RevertStep::Failed(error) => assert_eq!(error, "回滚 b 失败:disk"),
        _ => panic!("the failure ends it"),
    }
    assert!(matches!(result.revert_from(3, Ok(())), RevertStep::Done { count: 3 }));
}

#[test]
fn failing_command_ends_the_run() {
    let mut state = RunState::new();
    let end = CommandEnd::Output { stdout: String::new(), stderr: "bad".to_string(), code: Some(1) };
    assert!(matches!(state.command_done(2, end), RunNext::Finished));
    assert_eq!(state.exit_code, Some(1));
    assert!(matches!(RunState::new().command_done(1, CommandEnd::Unstarted("x".to_string())), RunNext::Fail(_)));
}

#[test]
fn snapshot_has_a_size_limit() {
    let mut snapshot = Snapshot::new();
    assert!(snapshot.measure("a", 10).is_ok());
    assert!(snapshot.measure("big", 3 * 1024 * 1024).is_err());
}

// Evaluation

#[test]
fn case_passes_with_all_that_is_expected() {
    let case = || EvalCase {
        name: "c 1".to_string(),
        prompt: "p".to_string(),
        expected: vec!["yes".to_string()],
        setup_files: Vec::new(),
    };
    let passed = judge_case(&case(), CaseRun::Ended { final_text: Some("oh yes".to_string()), steps: 2 }, 5);
    assert!(passed.passed);
    let failed = judge_case(&case(), CaseRun::Ended { final_text: Some("no".to_string()), steps: 2 }, 5);
    assert!(!failed.passed);
    let broken = judge_case(&case(), CaseRun::Broken("offline".to_string()), 5);
    assert!(broken.error.is_some());
    let suite = builtin_suite();
    assert!(!suite.cases.is_empty());
    let report = suite_report(&suite, vec![passed, failed, broken], 15);
    assert_eq!((report.total, report.passed), (3, 1));
    assert_eq!(case_folder_name("c 1/é"), "c_1_é");
}

// Servers of tools

#[test]
fn server_is_greeted_and_its_tools_listed() {
    let mut client = McpClient::new();
    let hello = match client.connect_next(ConnectEvent::Opened, "0.4.1") {
        ConnectAction::Request(j) => j,
        _ => panic!("a request is due"),
    };
    assert_eq!(hello.text_at("method").unwrap(), "initialize");
    assert!(hello.to_text().contains(MCP_PROTOCOL_VERSION));
    assert!(matches!(
        client.connect_next(ConnectEvent::Reply(Ok(json("{}"))), "0.4.1"),
        ConnectAction::Notice(_)
    ));
    assert!(matches!(
        client.connect_next(ConnectEvent::Noticed(Ok(())), "0.4.1"),
        ConnectAction::Request(_)
    ));
    let tools = json(r#"{"tools":[{"name":"echo","description":"d","inputSchema":{}}]}"#);
    assert!(matches!(client.connect_next(ConnectEvent::Reply(Ok(tools)), "0.4.1"), ConnectAction::Ready));
    assert_eq!(client.tools().len(), 1);
    assert_eq!(client.tools()[0].name, "echo");
    let call = client.call_tool("echo", json(r#"{"a":1}"#));
    assert_eq!(call.text_at("method").unwrap(), "tools/call");
    let id = call.count_at("id").unwrap();
    let answer = format!("{{\"jsonrpc\":\"2.0\",\"id\":{id},\"result\":{{\"x\":1}}}}");
    let (answered, value) = client.line_received(&answer).unwrap();
    assert_eq!(answered, id);
    assert_eq!(extract_result(&value).unwrap_or_else(|e| panic!("{}", e)).count_at("x"), Some(1));
    assert!(client.line_received(&answer).is_none());
    assert!(client.line_received("noise").is_none());
    let call = client.call_tool("echo", json("{}"));
    let id = call.count_at("id").unwrap();
    let reply = HttpReply::Value(json(r#"{"result":{"x":2}}"#));
    let read = client.http_replied(id, "tools/call", &reply).unwrap_or_else(|e| panic!("{}", e));
    assert_eq!(read.count_at("x"), Some(2));
    assert!(client.line_received(&format!("{{\"id\":{id},\"result\":{{}}}}")).is_none());
}

#[test]
fn failed_greeting_ends_the_connection() {
    let mut client = McpClient::new();
    client.connect_next(ConnectEvent::Opened, "v");
    assert!(matches!(
        client.connect_next(ConnectEvent::Reply(Err("no".to_string())), "v"),
        ConnectAction::Fail(_)
    ));
}

#[test]
fn replies_over_http_are_read() {
    assert!(is_event_stream("text/event-stream; charset=utf-8"));
    assert!(read_http_reply("m", &HttpReply::Unsent("x".to_string())).is_err());
    assert!(read_http_reply("m", &HttpReply::Refused("500".to_string(), "x".to_string())).is_err());
    assert!(read_http_reply("m", &HttpReply::Unreadable("x".to_string())).is_err());
    let ok = read_http_reply("m", &HttpReply::Value(json(r#"{"result":{"a":1}}"#))).unwrap_or_else(|e| panic!("{}", e));
    assert_eq!(ok.count_at("a"), Some(1));
    let streamed = read_event_stream("m", "event: message\ndata: {\"result\":{\"a\":2}}\n\n");
    assert_eq!(streamed.unwrap_or_else(|e| panic!("{}", e)).count_at("a"), Some(2));
    assert!(extract_result(&json(r#"{"error":{"message":"bad"}}"#)).is_err());
    assert!(read_call_result(&json(r#"{"isError":true,"content":[{"type":"text","text":"bad"}]}"#)).is_err());
    assert_eq!(read_tools(&json("{}")).len(), 0);
    let mut config = McpServerConfig::http("n".to_string(), "http://h".to_string());
    assert!(open_channel(&config).is_ok());
    config.url = None;
    assert!(open_channel(&config).is_err());
}

// Tools

#[test]
fn sanitizes_tool_names_for_model_api() {
    assert_eq!(sanitize_tool_name("owo.plugin.example-hello"), "owo_plugin_example-hello");
    assert_eq!(sanitize_tool_name("echo"), "echo");
    assert_eq!(sanitize_tool_name("a b/c"), "a_b_c");
}

#[test]
fn registry_knows_its_tools() {
    let registry = ToolRegistry::new();
    assert!(registry.execute("read_file").is_ok());
    assert!(registry.execute("nothing").is_err());
    assert!(ToolRegistry::read_only().execute("write_file").is_err());
    assert_eq!(registry.specs().len(), registry.tools.len());
}

#[test]
fn tools_answer_with_what_they_found() {
    assert_eq!(
        read_file_result("a", "你").to_text(),
        r#"{"bytes":3,"content":"你","path":"a"}"#
    );
    let entries = vec![DirEntry { name: "x".to_string(), is_dir: true }];
    assert!(list_dir_result(".", &entries).to_text().contains("x"));
    let mut search = FileSearch::new("rs");
    assert!(search.enters(0));
    search.visit_file("lib.rs", "src/lib.rs");
    search.visit_file("readme", "readme");
    assert_eq!(search.matches, vec!["src/lib.rs"]);
    let skills = SkillRegistry {
        skills: vec![Skill {
            name: "demo".to_string(),
            description: "d".to_string(),
            path: "p".to_string(),
            instructions: "i".to_string(),
        }],
    };
    assert!(use_skill(&skills, &json("{}")).is_err());
    assert!(use_skill(&skills, &json(r#"{"name":"x"}"#)).is_err());
    let used = use_skill(&skills, &json(r#"{"name":"demo"}"#)).unwrap_or_else(|e| panic!("{}", e));
    assert_eq!(used.text_at("instructions").unwrap(), "i");
}

#[test]
fn path_outside_the_workspace_is_refused() {
    let facts = |parts: Vec<&str>| SessionPath {
        candidate: Ok(("/w/a".to_string(), parts.iter().map(|p| p.to_string()).collect())),
        policy_workspace: vec!["w".to_string()],
    };
    assert_eq!(resolve_session_path("a", &facts(vec!["w", "a"])).unwrap(), "/w/a");
    assert_eq!(resolve_session_path("../x", &facts(vec!["x"])).unwrap_err(), "路径越界：../x");
    assert!(resolve_session_path("m/../../x", &facts(vec!["w", "m", "..", "..", "x"])).is_err());
    assert!(resolve_session_path("m/../a", &facts(vec!["w", "m", "..", "a"])).is_ok());
}

#[test]
fn path_below_a_missing_folder_is_judged_by_where_it_leads() {
    let text = |parts: &[&str]| -> Vec<String> { parts.iter().map(|p| p.to_string()).collect() };
    let facts = |missing: &[&str]| PathFacts {
        candidate: "/home/w/candidate".to_string(),
        workspace: Ok(text(&["/", "home", "w"])),
        existing: Ok((text(&["/", "home", "w"]), text(missing))),
    };
    let outside = "missing/../../outside.txt";
    let policy = Policy::new("/home/w");
    assert_eq!(
        policy.resolve_within_workspace(outside, &facts(&["missing", "..", "..", "outside.txt"])).unwrap_err(),
        "路径位于工作区之外：missing/../../outside.txt"
    );
    assert!(resolve_within("missing/../in.txt", &facts(&["missing", "..", "in.txt"])).is_ok());
    assert!(resolve_within("missing/in.txt", &facts(&["missing", "in.txt"])).is_ok());
    assert!(resolve_within("../../../w", &facts(&["..", "..", "..", "..", "w"])).is_err());
    assert_eq!(
        canonicalize_existing_parent(&text(&["w"]), &text(&["m", "..", "n"])),
        vec!["w".to_string(), "n".to_string()]
    );
}

#[test]
fn depth_limit_blocks_nested_run() {
    let runner = SubagentRunner { depth: MAX_SUBAGENT_DEPTH, max_turns: 5, model: "mock".to_string() };
    match runner.run("/tmp", true) {
        Err(e) => assert!(e.contains("深度超限")),
        Ok(_) => panic!("too deep"),
    }
    let outer = SubagentRunner { depth: 0, max_turns: 5, model: "mock".to_string() };
    let plan = outer.run("/tmp", true).unwrap_or_else(|e| panic!("{}", e));
    assert!(plan.policy.is_read_only());
}

// Steps on other devices

#[test]
fn remote_step_is_submitted_and_its_result_stored() {
    let step = RemoteStep::new("s1", RemoteStepKind::Act, "w1", "c1")
        .with_evidence(vec![EvidenceItem::new("shot", "before")])
        .with_impact_preview("sends a message");
    assert_eq!(submission_task(&step).worker, "w1");
    let (wait, action) = submit_next(&step, SubmitWait::Accepted, SubmitEvent::Accepted(Ok(())));
    assert!(matches!(action, SubmitAction::LookAtClock));
    let (wait, action) = submit_next(&step, wait, SubmitEvent::Clock { timed_out: false });
    assert!(matches!(action, SubmitAction::AskStatus));
    let (_, action) = submit_next(&step, wait, SubmitEvent::Status(Ok(TransportStatus::Succeeded)));
    assert!(matches!(action, SubmitAction::AskEvents));
    let (_, action) = submit_next(&step, SubmitWait::Accepted, SubmitEvent::Accepted(Err("down".to_string())));
    assert!(matches!(action, SubmitAction::End(Err(_))));
}

#[test]
fn approval_asks_for_its_material() {
    let bare = RemoteStep::new("s1", RemoteStepKind::Act, "w1", "c1");
    let refused = |step: &RemoteStep, status: TransportStatus| match approve_transport_task(step, status, "phone") {
        Err(e) => e,
        Ok(_) => panic!("not granted"),
    };
    let missing = "任务 rs-s1 审批材料不齐备（影响预览与结构化证据），无法审批";
    assert_eq!(refused(&bare, TransportStatus::AwaitingApproval), missing);
    let shown = bare.with_impact_preview("sends a message");
    assert_eq!(refused(&shown, TransportStatus::AwaitingApproval), missing);
    let step = shown.with_evidence(vec![EvidenceItem::new("shot", "before")]);
    assert_eq!(refused(&step, TransportStatus::Cancelled), "任务 rs-s1 已终态，无法审批");
    match approve_transport_task(&step, TransportStatus::AwaitingApproval, "phone") {
        Ok(RemoteStepEvent::ApprovalGranted { step_id, approved_by, correlation_id }) => {
            assert_eq!((step_id.as_str(), approved_by.as_str(), correlation_id.as_str()), ("s1", "phone", "c1"));
        }
        _ => panic!("granted"),
    }
}

// Text and JSON

#[test]
fn text_is_taken_apart_and_put_together() {
    assert_eq!(trim("  a\u{3000}"), "a");
    assert_eq!(split_lines("a\r\nb\n"), vec!["a", "b"]);
    assert_eq!(split_words(" a  b\tc "), vec!["a", "b", "c"]);
    assert_eq!(join(&vec!["a".to_string(), "b".to_string()], ", "), "a, b");
    assert_eq!(decimal_text(0), "0");
    assert_eq!(decimal_text(1024), "1024");
    assert_eq!(hex_text(255, 4), "00ff");
    assert_eq!(sort_strings(vec!["b".to_string(), "a".to_string()]), vec!["a", "b"]);
}

#[test]
fn json_is_read_and_written() {
    let value = json(r#"{"b":[1,-2,1.5,null,true],"a":"x"}"#);
    assert_eq!(value.to_text(), r#"{"a":"x","b":[1,-2,1.5,null,true]}"#);
    assert!(parse_json("{").is_none());
    assert!(read_json("{").is_err());
    assert_eq!(value.list_at("b").unwrap().len(), 5);
    assert_eq!(value.text_at("b"), None);
}
