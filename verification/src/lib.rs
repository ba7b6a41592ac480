//! Core of an agent runtime: message bus, supervision, goal running, plugin
//! vetting, flow learning, sessions and the decisions of an agent turn.
//!
//! Every function states its result over mathematical models. Text is modelled
//! as a sequence of characters, tables as sequences without repeated keys.

pub mod agent;
pub mod audit;
pub mod autoreview;
pub mod bus_store;
pub mod chat;
pub mod cli;
pub mod clock;
pub mod cloud_exec;
pub mod computer_use;
pub mod critic;
pub mod crypto;
pub mod digraph;
pub mod eval;
pub mod experience;
pub mod fleet;
pub mod gateway;
pub mod goal;
pub mod json;
pub mod learn;
pub mod mcp;
pub mod number;
pub mod ocr;
pub mod permissions;
pub mod plan;
pub mod platform;
pub mod plugin;
pub mod proactive;
pub mod remote_step;
pub mod session;
pub mod settings;
pub mod share;
pub mod skill;
pub mod skill_pack;
pub mod stt;
pub mod subagent;
pub mod table;
pub mod text;
pub mod tools;
pub mod trace;
pub mod transport;
pub mod tui;
pub mod version;
pub mod vision;

pub use agent::{estimate_tokens, AgentConfig, AgentError, TurnEvent, TurnOutcome};
pub use audit::{AuditEntry, AuditLog};
pub use autoreview::{parse_verdict, AutoReviewChain, HeuristicReviewer, ModelReviewer, ReviewVerdict};
pub use chat::{ChatMessage, ToolCall};
pub use cloud_exec::{CloudTask, CloudTaskResult, CloudTaskSpec, DiffKind, FileDiff, LocalSimExecutor};
pub use computer_use::{
    desktop_click, desktop_key, desktop_launch, desktop_scroll, desktop_shortcut, desktop_type,
};
pub use eval::{builtin_suite, EvalCase, EvalReport, EvalSuite};
pub use gateway::{budget_violation, parse_usage_value, ModelOutput, OpenAiCompatibleConfig, TokenUsage};
pub use goal::{Goal, GoalBudget, GoalRunState, GoalRunner, GoalStatus, RunnerConfig};
pub use learn::{
    generalize_to_graph, ActionGraph, ActionNode, ActionType, FlowSkillManifest, FlowSkillPackage, FlowSkillStore,
    LearnPipeline, LearnRecorder, LearnState, RecordedAction, SemanticAnchor, Sensitivity,
};
pub use mcp::{McpClient, McpServerConfig, McpTool};
pub use ocr::{ocr_bmp, ocr_bmp_detailed, ocr_engine_status, OcrBox, OcrEngineStatus, OcrSummary};
pub use permissions::{Decision, Level, PermissionRequest, Policy};
pub use plan::{Plan, StepSpec, StepStatus, VerificationSpec};
pub use platform::{capture_screen, clipboard_sequence, poll_foreground_app};
pub use plugin::install::{
    plugin_mcp_config, verify_plugin_signature, MarketPluginEntry, MarketUpdateManifest, PluginInstallReport,
    PluginInstallState, PluginManager, PluginReviewState, PluginSubmission,
};
pub use plugin::{
    discover_plugins, scan_plugin_for_risks, PluginManifest, PluginSignature, PluginStateStore, VersionsJson,
};
pub use proactive::{ProactiveEngine, ProactiveSuggestion, SuggestionAction};
pub use session::Session;
pub use settings::{EgressSettings, Settings};
pub use share::{export_html, export_markdown};
pub use skill::{Skill, SkillRegistry};
pub use skill_pack::{
    discover_builtin_packages, install_builtin_packages, validate_skill_package, BuiltinSkillManifest,
    SkillPackageInfo,
};
pub use stt::{LocalStt, SttOutcome};
pub use tools::{ToolRegistry, ToolSpec};
pub use trace::{list_traces, TraceRecord};
pub use vision::{bmp_to_png, ollama_models, parse_verification, VisionConfig};
