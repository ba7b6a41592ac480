use owo_agent_core::agent::{TurnEvent, TurnOutcome};
use owo_agent_core::chat::ChatMessage;
use owo_agent_core::gateway::TokenUsage;
use owo_agent_core::session::{
    ensure_session_columns, list_sessions, JsonSessionStore, relative_display, session_file_name, session_id_of, DatedSession, Restore, Session,
};
use owo_agent_core::settings::{EgressSettings, ProactiveSettings, Settings, SttSettings};
use owo_agent_core::share::{export_html, export_markdown, html_escape};
use owo_agent_core::skill::{parse_frontmatter, Skill, SkillRegistry};
use owo_agent_core::skill_pack::{
    discover_builtin_packages, install_builtin_packages, validate_skill_package, BuiltinSkillManifest, ManifestFile,
    PackageFolder,
};
use owo_agent_core::stt::LocalStt;
use owo_agent_core::table::Table;
use owo_agent_core::trace::{list_traces, trace_file_name, TraceRecord};

fn session() -> Session {
    Session::new(".".to_string(), "mock".to_string(), None)
}

#[test]
fn session_store_round_trip_and_list() {
    let s = session();
    let file = session_file_name(&s.id);
    assert_eq!(session_id_of(&file), Some(s.id.clone()));
    assert_eq!(session_id_of("notes.txt"), None);
    let listed = list_sessions(vec![
        DatedSession { id: "old".to_string(), updated_at: "2026-01-01".to_string() },
        DatedSession { id: "new".to_string(), updated_at: "2026-02-01".to_string() },
    ]);
    assert_eq!(listed, vec!["new", "old"]);
}

#[test]
fn fork_creates_child_with_history() {
    let mut session = session();
    session.push(ChatMessage::user("a".to_string()));
    session.push(ChatMessage::assistant_text("b".to_string()));
    session.push(ChatMessage::user("c".to_string()));
    let child = session.fork(1);
    assert_eq!(child.messages.len(), 2);
    assert_eq!(child.parent_id.as_deref(), Some(session.id.as_str()));
    assert_eq!(child.fork_point, Some(1));
    assert!(child.snapshots.len() == 0);
    assert!(child.redo_stack.is_empty());
    assert_eq!(session.fork(99).messages.len(), 3);
}

#[test]
fn rewind_and_redo_round_trip() {
    let mut session = session();
    for index in 0..5 {
        session.push(ChatMessage::user(format!("m{index}")));
    }
    let removed = session.rewind(2);
    assert_eq!(removed.len(), 3);
    assert_eq!(session.messages.len(), 2);
    let restored = session.redo().expect("存在可恢复历史");
    assert_eq!(restored.len(), 3);
    assert_eq!(session.messages.len(), 5);
    assert_eq!(session.messages[4].content.as_deref(), Some("m4"));
    assert!(session.redo().is_none());
}

#[test]
fn message_undo_and_redo_round_trip() {
    let mut session = session();
    for index in 0..4 {
        session.push(ChatMessage::user(format!("m{index}")));
    }
    let removed = session.undo_message(2).expect("存在可撤销消息");
    assert_eq!(removed.len(), 2);
    assert_eq!(session.messages.len(), 2);
    assert!(session.undo_message(0).is_none());
    let restored = session.redo_message().expect("存在可恢复消息");
    assert_eq!(restored.len(), 2);
    assert_eq!(session.messages.len(), 4);
    assert!(session.redo_message().is_none());
}

#[test]
fn changed_file_is_shown_and_restored() {
    let mut s = Session::new("/w".to_string(), "mock".to_string(), None);
    let before = b"old".to_vec();
    s.take_snapshot("/w/a.txt".to_string(), Some(&before));
    s.take_snapshot("/w/b.txt".to_string(), None);
    let mut files: Table<Vec<u8>> = Table::new();
    files.insert("/w/a.txt".to_string(), b"new".to_vec());
    files.insert("/w/b.txt".to_string(), b"made".to_vec());
    let diffs = s.diff(&files);
    assert_eq!(diffs.len(), 2);
    assert_eq!(diffs[0].path, "a.txt");
    assert_eq!(diffs[0].before.as_deref(), Some("old"));
    assert_eq!(diffs[0].after.as_deref(), Some("new"));
    assert!(diffs[1].before.is_none());
    match s.revert_step(0) {
        Ok(Restore::Write(bytes)) => assert_eq!(bytes, b"old".to_vec()),
        _ => panic!("the file is written back"),
    }
    assert!(matches!(s.revert_step(1), Ok(Restore::Remove)));
    assert_eq!(s.revert(), vec!["a.txt", "b.txt"]);
    assert_eq!(s.snapshots.len(), 0);
}

#[test]
fn unreadable_snapshot_cannot_be_restored() {
    let mut s = session();
    s.take_snapshot("a".to_string(), None);
    s.snapshots.entries[0].1.original_b64 = Some("***".to_string());
    assert!(s.revert_step(0).is_err());
}

#[test]
fn path_below_the_workspace_is_shown_short() {
    assert_eq!(relative_display("/w", "/w/x/y.txt"), "x/y.txt");
    assert_eq!(relative_display("/w", "/other/y.txt"), "/other/y.txt");
}

#[test]
fn session_keeps_name_and_marks() {
    let mut s = session();
    s.rename("SQLite 会话".to_string());
    s.set_pinned(true);
    s.set_archived(true);
    s.push(ChatMessage::user("你好".to_string()));
    s.push(ChatMessage::assistant_text("收到".to_string()));
    let child = s.fork(1);
    assert_eq!(s.title.as_deref(), Some("SQLite 会话"));
    assert!(s.pinned && s.archived);
    assert!(child.title.is_none() && !child.pinned && !child.archived);
}

#[test]
fn markdown_export_contains_messages() {
    let mut session = session();
    session.push(ChatMessage::user("你好".to_string()));
    session.push(ChatMessage::assistant_text("收到".to_string()));
    session.push(ChatMessage::tool("c1".to_string(), r#"{"text":"ok"}"#.to_string()));
    let markdown = export_markdown(&session);
    assert!(markdown.contains("你好"));
    assert!(markdown.contains("收到"));
    assert!(markdown.contains(r#"{"text":"ok"}"#));
    assert!(markdown.contains("模型"));
}

#[test]
fn html_export_escapes_and_is_self_contained() {
    let mut session = session();
    session.push(ChatMessage::user("<script>alert(1)</script>".to_string()));
    let html = export_html(&session);
    assert!(html.starts_with("<!DOCTYPE html>"));
    assert!(html.contains("&lt;script&gt;"));
    assert!(!html.contains("<script>alert"));
    assert_eq!(html_escape("a<b>&\"c\""), "a&lt;b&gt;&amp;&quot;c&quot;");
}

#[test]
fn parses_frontmatter_and_body() {
    let content = "---\nname: demo\ndescription: 测试技能\n---\n执行 A 步骤。";
    let (name, description, instructions) = parse_frontmatter(content);
    assert_eq!(name.as_deref(), Some("demo"));
    assert_eq!(description, "测试技能");
    assert!(instructions.contains("执行 A 步骤"));
}

#[test]
fn discovers_skills_from_workspace_and_data() {
    let demo = Skill::load(
        "---\nname: demo\ndescription: 测试技能\n---\n执行 A。",
        "w/.agents/skills/demo/SKILL.md",
        Some("demo".to_string()),
    );
    let global = Skill::load("全局技能正文", "d/skills/global-skill/SKILL.md", Some("global-skill".to_string()));
    let registry = SkillRegistry::discover(vec![demo, global]);
    let names: Vec<&str> = registry.list().iter().map(|skill| skill.name.as_str()).collect();
    assert!(names.contains(&"demo"));
    assert!(names.contains(&"global-skill"));
    assert!(registry.get("demo").unwrap().instructions.contains("执行 A"));
}

fn builtin(name: &str) -> BuiltinSkillManifest {
    BuiltinSkillManifest {
        id: format!("com.example.{name}"),
        name: name.to_string(),
        version: "1.0.0".to_string(),
        description: "测试技能".to_string(),
        permissions: vec!["files:read".to_string()],
        min_app_version: "0.4.0".to_string(),
        tools: Vec::new(),
    }
}

#[test]
fn validates_package_contract() {
    let skill = Ok("---\nname: documents\ndescription: 测试技能\n---\n执行步骤。".to_string());
    let info = validate_skill_package("r/documents", &skill, ManifestFile::Read(builtin("documents")), true)
        .unwrap_or_else(|e| panic!("{}", e));
    assert_eq!(info.name, "documents");
    assert!(info.has_tests);
    assert_eq!(info.permissions, vec!["files:read"]);
    let unreadable = ManifestFile::Unreadable { file: "m.json".to_string(), error: "gone".to_string() };
    let unparsed = ManifestFile::Unparsed { file: "m.json".to_string(), error: "bad".to_string() };
    assert!(validate_skill_package("r/documents", &skill, unreadable, true).is_err());
    assert!(validate_skill_package("r/documents", &skill, unparsed, true).is_err());
}

#[test]
fn discovers_and_installs_builtin_packages() {
    let folder = |path: &str, ok: bool| PackageFolder {
        path: path.to_string(),
        has_skill_file: ok,
        has_manifest: ok,
        is_valid: ok,
    };
    let found = discover_builtin_packages(&vec![folder("documents", true), folder("pdf", true), folder("x", false)]);
    assert_eq!(found.len(), 2);
    let names = vec!["documents".to_string(), "pdf".to_string()];
    assert_eq!(install_builtin_packages(&names, &Vec::new()).len(), 2);
    assert_eq!(install_builtin_packages(&names, &names).len(), 0);
}

#[test]
fn model_absent_returns_clear_error() {
    let stt = LocalStt::new(&SttSettings::default(), "C:\\owo-nonexistent-data-root");
    assert!(!stt.is_ready(false, false));
    assert_eq!(stt.engine(), "SenseVoice-Small");
    let error = match stt.transcribe_wav(false, false, Ok("text".to_string()), 1) {
        Ok(_) => panic!("the model is not there"),
        Err(e) => e,
    };
    assert!(error.contains("模型未就绪"));
}

#[test]
fn missing_settings_returns_defaults() {
    let settings = Settings::load(None);
    assert!(settings.model.is_none());
    assert!(!settings.read_only);
    assert!(settings.deny_commands.is_empty());
    assert!(settings.theme.is_none());
    assert!(settings.keybinds.len() == 0);
    assert_eq!(settings.stt.model, "SenseVoice-Small");
    assert!(!settings.stt.enable_high_accuracy);
    assert_eq!(settings.explore.default_tier, "S0");
    assert_eq!(settings.explore.action_budget, 50);
    assert!(!settings.explore.allow_s1);
    assert!(settings.proactive.enabled);
    assert_eq!(settings.proactive.weekly_threshold, 5);
    assert_eq!(settings.proactive.similarity.num as f64 / settings.proactive.similarity.den as f64, 0.9);
    assert_eq!(settings.skills.share_format, "owskill");
    assert!(!settings.skills.require_signature);
    assert!(settings.whitelist.is_empty());
    assert!(settings.egress.cloud_enabled);
}

#[test]
fn save_and_load_round_trip_preserves_all_groups() {
    let settings = Settings {
        model: Some("deepseek-v4-flash".to_string()),
        read_only: true,
        stt: SttSettings {
            model: "Other-Model".to_string(),
            language: "zh".to_string(),
            itn: false,
            ..SttSettings::default()
        },
        proactive: ProactiveSettings { enabled: false, ..ProactiveSettings::default() },
        egress: EgressSettings { cloud_enabled: false },
        ..Settings::default()
    };
    let loaded = Settings::load(Some(settings));
    assert_eq!(loaded.model.as_deref(), Some("deepseek-v4-flash"));
    assert!(loaded.read_only);
    assert_eq!(loaded.stt.model, "Other-Model");
    assert_eq!(loaded.stt.language, "zh");
    assert!(!loaded.stt.itn);
    assert!(!loaded.proactive.enabled);
    assert!(!loaded.egress.cloud_enabled);
}

#[test]
fn trace_round_trip_and_persistence() {
    let mut session = session();
    session.push(ChatMessage::user("你好".to_string()));
    let outcome = TurnOutcome {
        final_text: Some("收到".to_string()),
        steps: 1,
        events: vec![TurnEvent::ModelCall, TurnEvent::Final { text: "收到".to_string() }],
        prompt: "你好".to_string(),
        started_at: "2026-08-11T00:00:00Z".to_string(),
        duration_ms: 42,
        usage: TokenUsage { prompt_tokens: 100, completion_tokens: 50, total_tokens: 150 },
    };
    let record = TraceRecord::from_outcome(&session, &outcome);
    assert_eq!(record.final_text.as_deref(), Some("收到"));
    assert_eq!(record.events.len(), 2);
    assert_eq!(record.usage.total_tokens, 150);
    assert_eq!(record.session_id, session.id);
    let name = trace_file_name(&record.session_id, 7);
    assert_eq!(list_traces(&vec![name, "notes.txt".to_string()]).len(), 1);
}

#[test]
fn table_of_sessions_gets_what_it_misses() {
    let old: Vec<String> = vec!["id".to_string(), "title".to_string()];
    let added = ensure_session_columns(&old);
    let names: Vec<&str> = added.iter().map(|c| c.0.as_str()).collect();
    assert_eq!(names, vec!["message_redo_json", "archived", "pinned"]);
    assert_eq!(added[0].1, "TEXT NOT NULL DEFAULT '[]'");
    let mut all = old;
    all.extend(added.into_iter().map(|c| c.0));
    assert!(ensure_session_columns(&all).is_empty());
}

#[test]
fn sessions_have_files_of_their_own() {
    let store = JsonSessionStore::new("/data/sessions");
    assert_eq!(store.path("s1"), "/data/sessions/s1.json");
    assert_eq!(store.temporary_path("s1"), "/data/sessions/s1.tmp");
    assert_eq!(JsonSessionStore::new("").path("s1"), "s1.json");
    assert_eq!(store.path("/s1"), "/s1.json");
    assert_ne!(store.path("s1"), store.path("s2"));
    let id = session().id;
    assert_eq!((id.len(), id.matches('-').count()), (36, 4));
    assert_ne!(id, session().id);
}
