use owo_agent_core::clock::Moment;
use owo_agent_core::learn::{
    generalize_to_graph, keyword_breaks, ActionEdge, ActionGraph, ActionType, FlowSkillManifest, FlowSkillPackage,
    FlowSkillStore, FolderEntry, LearnPipeline, LearnRecorder, LearnState, RecordedAction, SemanticAnchor, Sensitivity,
};
use owo_agent_core::proactive::{sequence_key, similar, ProactiveEngine, SuggestionAction};
use owo_agent_core::settings::{ProactiveSettings, Ratio};

fn anchor(role: Option<&str>, name: &str) -> SemanticAnchor {
    SemanticAnchor { app_id: Some("qq".to_string()), role: role.map(|r| r.to_string()), name: name.to_string() }
}

fn graph_with_contact() -> ActionGraph {
    let mut graph = ActionGraph::new();
    graph.add_node(
        "find",
        ActionType::Click,
        anchor(Some("search_box"), "联系人搜索框"),
        None,
        Some("窗口标题变化".to_string()),
    );
    graph.add_node("type", ActionType::Type, anchor(Some("input"), "搜索输入"), Some("{contact}".to_string()), None);
    graph.add_edge("find", "type", None, None);
    graph
}

#[test]
fn action_graph_validation_and_variables() {
    let graph = graph_with_contact();
    assert!(graph.validate().is_ok());
    assert_eq!(graph.variables(), vec!["contact"]);
    let mut broken = graph.clone();
    broken.edges.push(ActionEdge {
        from: "type".to_string(),
        to: "missing".to_string(),
        precondition: None,
        verify: None,
    });
    assert!(broken.validate().is_err());
}

fn package(sensitivity: Sensitivity, variables: Vec<String>) -> FlowSkillPackage {
    FlowSkillPackage {
        manifest: FlowSkillManifest {
            id: "com.example.send-file".to_string(),
            name: "send-file".to_string(),
            version: "1.0.0".to_string(),
            min_app_version: "0.4.0".to_string(),
            target_apps: vec!["qq".to_string()],
            permissions: vec!["text:inject".to_string()],
            variables,
            sensitivity,
        },
        graph: graph_with_contact(),
        skill_md: "---\nname: send-file\ndescription: 发送文件\n---\n流程".to_string(),
    }
}

#[test]
fn flow_skill_package_requires_sensitivity_and_declared_variables() {
    assert!(package(Sensitivity::Low, vec!["contact".to_string()]).validate().is_ok());
    assert!(package(Sensitivity::Undeclared, vec!["contact".to_string()]).validate().is_err());
    assert!(package(Sensitivity::Low, Vec::new()).validate().is_err());
}

#[test]
fn flow_skill_store_round_trip_list_and_delete() {
    let store = FlowSkillStore::new("skills/user");
    let mut demo = package(Sensitivity::Medium, vec!["contact".to_string()]);
    demo.manifest.id = "com.example.demo".to_string();
    demo.manifest.name = "demo-flow".to_string();
    demo.skill_md = "---\nname: demo-flow\n---\nbody".to_string();
    let dir = store.save(&demo).unwrap();
    assert_eq!(dir, store.package_dir("demo-flow").unwrap());
    assert!(store.package_dir("../x").is_err());
    assert_eq!(store.delete("demo-flow", true).unwrap(), dir);
    assert_eq!(store.delete("demo-flow", false).unwrap_err(), "技能包不存在：demo-flow");
    assert_eq!(store.delete("../x", true).unwrap_err(), "非法技能名：../x");
    let entries = vec![
        FolderEntry { name: "demo-flow".to_string(), is_dir: true, has_skill: true },
        FolderEntry { name: "notes.txt".to_string(), is_dir: false, has_skill: false },
    ];
    assert_eq!(FlowSkillStore::list(&entries), vec!["demo-flow"]);
    let loaded = FlowSkillStore::load(demo.manifest, demo.graph, demo.skill_md).unwrap_or_else(|e| panic!("{}", e));
    assert_eq!(loaded.manifest.name, "demo-flow");
    assert_eq!(loaded.graph.nodes.len(), 2);
    assert!(FlowSkillStore::list(&Vec::new()).is_empty());
}

fn action(name: &str, action_type: ActionType, sensitive: bool) -> RecordedAction {
    RecordedAction {
        app_id: "qq".to_string(),
        anchor: anchor(None, name),
        action_type,
        value_masked: true,
        sensitive,
        at: "now".to_string(),
    }
}

#[test]
fn recorder_requires_start_and_breaks_on_sensitive() {
    let mut recorder = LearnRecorder::new();
    assert!(recorder.record(action("发送按钮", ActionType::Click, false)).is_err());
    recorder.start();
    recorder.record(action("发送按钮", ActionType::Click, false)).unwrap();
    assert_eq!(recorder.samples(), 1);
    assert!(recorder.record(action("密码输入框", ActionType::Type, true)).is_err());
    assert!(recorder.sensitive_break());
    recorder.pause();
    assert!(matches!(recorder.state(), LearnState::Paused));
    recorder.resume();
    let samples = recorder.stop();
    assert_eq!(samples.len(), 1);
    assert!(matches!(recorder.state(), LearnState::Idle));
}

#[test]
fn anchor_that_asks_for_a_password_is_sensitive() {
    assert!(keyword_breaks(&anchor(None, "密码输入框")));
    assert!(!keyword_breaks(&anchor(None, "发送按钮")));
}

#[test]
fn proactive_engine_thresholds_cooldown_and_ignore_silence() {
    let settings = ProactiveSettings {
        enabled: true,
        weekly_threshold: 5,
        daily_threshold: 3,
        similarity: Ratio { num: 9, den: 10 },
        cooldown_hours: 24,
        daily_cap: 3,
        auto_silence_days: 30,
    };
    let mut engine = ProactiveEngine::new(settings);
    let actions = vec!["focus".to_string(), "select_conversation".to_string(), "click_send".to_string()];
    assert!(engine.observe("qq", actions.clone()).is_none());
    assert!(engine.observe("qq", actions.clone()).is_none());
    let suggestion = engine.observe("qq", actions.clone()).expect("daily threshold");
    assert!(!suggestion.auto_exec);
    assert!(engine.observe("qq", actions.clone()).is_none());
    engine.decide(&suggestion.id, SuggestionAction::Ignore).unwrap();
    engine.decide(&suggestion.id, SuggestionAction::Ignore).unwrap();
    assert!(engine.muted_until.len() > 0);
    let key = "qq:focus|select_conversation|click_send";
    assert!(engine.muted_until.contains(key));
    assert_eq!(sequence_key("qq", &actions), key);
}

#[test]
fn proactive_engine_can_be_suppressed_and_muted_forever() {
    let settings = ProactiveSettings {
        enabled: true,
        weekly_threshold: 3,
        daily_threshold: 3,
        similarity: Ratio { num: 1, den: 1 },
        cooldown_hours: 0,
        daily_cap: 10,
        auto_silence_days: 30,
    };
    let mut engine = ProactiveEngine::new(settings);
    engine.set_suppressed(true);
    let actions = vec!["a".to_string(), "b".to_string()];
    assert!(engine.observe("app", actions.clone()).is_none());
    engine.set_suppressed(false);
    assert!(engine.observe("app", actions.clone()).is_none());
    let suggestion = engine.observe("app", actions.clone()).unwrap();
    engine.decide(&suggestion.id, SuggestionAction::MuteForever).unwrap();
    assert_eq!(engine.muted_until.get("app:a|b").map(String::as_str), Some("9999-12-31"));
    assert!(engine.decide("nobody", SuggestionAction::Learn).is_err());
}

#[test]
fn offer_waits_for_the_cooldown_to_the_nanosecond() {
    let settings = ProactiveSettings {
        enabled: true,
        weekly_threshold: 1,
        daily_threshold: 1,
        similarity: Ratio { num: 1, den: 1 },
        cooldown_hours: 1,
        daily_cap: 10,
        auto_silence_days: u32::MAX,
    };
    let mut engine = ProactiveEngine::new(settings);
    let observe = |engine: &mut ProactiveEngine, secs: i64, nanos: u32, id: &str| {
        let now = Moment { secs, nanos };
        let actions = vec!["a".to_string()];
        engine.observe_at("app", actions, now, "2026-01-02", "2025-12-26", id.to_string(), format!("t-{id}"))
    };
    let first = observe(&mut engine, 1000, 5, "one").expect("the first is offered");
    assert_eq!((first.id.as_str(), first.created_at.as_str()), ("one", "t-one"));
    assert_eq!(engine.suggestions()[0].created_at, "t-one");
    assert!(observe(&mut engine, 4600, 4, "two").is_none());
    assert!(observe(&mut engine, 4600, 5, "three").is_some());
    engine.decide("one", SuggestionAction::Ignore).unwrap();
    assert_eq!(engine.muted_until.len(), 0);
    engine.decide("one", SuggestionAction::Learn).unwrap();
    assert!(!engine.suppressed);
    assert!(observe(&mut engine, 4600, 6, "four").is_some());
}

#[test]
fn similarity_is_a_share_of_equal_actions() {
    let a = vec!["x".to_string(), "y".to_string()];
    let b = vec!["x".to_string(), "z".to_string()];
    assert!(similar(&a, &a, Ratio { num: 1, den: 1 }));
    assert!(!similar(&a, &b, Ratio { num: 9, den: 10 }));
}

fn typed(anchor_name: &str, at: &str) -> RecordedAction {
    RecordedAction {
        app_id: "qq".to_string(),
        anchor: anchor(Some("edit"), anchor_name),
        action_type: ActionType::Type,
        value_masked: true,
        sensitive: false,
        at: at.to_string(),
    }
}

fn clicked(at: &str) -> RecordedAction {
    RecordedAction {
        app_id: "qq".to_string(),
        anchor: anchor(Some("button"), "发送按钮"),
        action_type: ActionType::Click,
        value_masked: true,
        sensitive: false,
        at: at.to_string(),
    }
}

#[test]
fn generalizes_repeated_typed_anchor_to_variable() {
    let samples = vec![typed("搜索输入", "t1"), typed("搜索输入", "t2"), clicked("t3")];
    let graph = generalize_to_graph(&samples).unwrap_or_else(|e| panic!("{}", e));
    assert_eq!(graph.nodes.len(), 3);
    assert_eq!(graph.variables(), vec!["value"]);
    assert!(graph.validate().is_ok());
    assert!(generalize_to_graph(&Vec::new()).is_err());
}

#[test]
fn pipeline_sinks_skill_package() {
    let mut pipeline = LearnPipeline::new("skills/user");
    pipeline.recorder.start();
    pipeline.recorder.record(typed("搜索输入", "t1")).unwrap();
    pipeline.recorder.record(clicked("t2")).unwrap();
    pipeline.stop_recording();
    let (package, dir) = pipeline
        .sink_skill("send-file", vec!["qq".to_string()], Sensitivity::Low, "在 QQ 发送文件")
        .unwrap_or_else(|e| panic!("{}", e));
    assert!(package.validate().is_ok());
    assert_eq!(package.manifest.name, "send-file");
    assert_eq!(dir, pipeline.store.package_dir("send-file").unwrap());
}
