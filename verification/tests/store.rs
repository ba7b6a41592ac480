use owo_agent_core::bus_store::{
    is_critical, persist_node_status, persist_remote_event, BusPersistPolicy, BusStore, LogLine, StoredMessage,
};
use owo_agent_core::fleet::bus::OverflowPolicy;
use owo_agent_core::fleet::message::{message_dedup_key, BusMessage, MessageKind};
use owo_agent_core::json::{read_json, Json};
use owo_agent_core::remote_step::RemoteStepEvent;

fn msg(kind: MessageKind, correlation_id: &str, payload: &str) -> BusMessage {
    BusMessage {
        id: 1,
        from: "a".to_string(),
        to: "b".to_string(),
        kind,
        correlation_id: correlation_id.to_string(),
        payload: read_json(payload).unwrap(),
    }
}

#[test]
fn critical_kinds_persist_by_default() {
    let store = BusStore::in_memory();
    assert!(store.should_persist(MessageKind::Task));
    assert!(store.should_persist(MessageKind::Result));
    assert!(store.should_persist(MessageKind::Review));
    assert!(store.should_persist(MessageKind::Refusal));
    assert!(!store.should_persist(MessageKind::Progress), "进度类默认不落盘");
    let with_progress = BusStore::in_memory().with_policy(BusPersistPolicy { persist_progress: true });
    assert!(with_progress.should_persist(MessageKind::Progress));
    assert!(is_critical(MessageKind::Task));
    assert!(!is_critical(MessageKind::Progress));
}

#[test]
fn persist_is_idempotent_by_dedup_key() {
    let mut store = BusStore::in_memory();
    let m = msg(MessageKind::Task, "c1", "{\"q\": 1}");
    assert!(store.persist(&m), "首次写入");
    assert!(!store.persist(&m), "同 key 重复写入以首次为准");
    let m2 = msg(MessageKind::Task, "c1", "{\"q\": 2}");
    assert!(store.persist(&m2), "载荷不同 → 不同 key");
    assert_eq!(store.len(), 2);
    assert_eq!(store.replay_messages().len(), 2);
}

fn line_of(m: BusMessage) -> LogLine {
    LogLine {
        text: Some("{}".to_string()),
        stored: Some(StoredMessage {
            dedup_key: message_dedup_key(&m),
            msg: m,
            ts: "2026-01-01T00:00:00Z".to_string(),
        }),
    }
}

#[test]
fn replay_recovers_messages_in_order() {
    let mut store = BusStore::in_memory();
    let first = store.persist_record(&msg(MessageKind::Task, "c1", "{\"n\": 1}")).unwrap();
    let second = store.persist_record(&msg(MessageKind::Result, "c1", "{\"n\": 2}")).unwrap();
    let restored = BusStore::new(vec![line_of(first.msg), line_of(second.msg)]);
    let msgs = restored.replay_messages();
    assert_eq!(msgs.len(), 2, "重放恢复全部消息");
    assert_eq!(msgs[0].correlation_id, "c1");
    assert!(matches!(msgs[0].kind, MessageKind::Task));
    assert!(matches!(msgs[1].kind, MessageKind::Result));
    let mut again = BusStore::new(vec![]);
    again.replay(vec![line_of(msg(MessageKind::Task, "c1", "{\"n\": 1}"))]);
    again.replay(vec![line_of(msg(MessageKind::Task, "c1", "{\"n\": 1}"))]);
    assert_eq!(again.replay_messages().len(), 1);
}

#[test]
fn corrupt_log_lines_are_skipped() {
    let bad = LogLine { text: Some("not-json".to_string()), stored: None };
    let store = BusStore::new(vec![bad, line_of(msg(MessageKind::Task, "c-ok", "{}"))]);
    assert_eq!(store.len(), 1);
    assert_eq!(store.bad_log_lines(), 1);
    assert!(!store.is_empty());
}

#[test]
fn overflow_policy_import_compiles() {
    let _ = OverflowPolicy::Reject;
}

#[test]
fn remote_events_and_node_status_are_kept_once() {
    let mut store = BusStore::in_memory();
    let event = RemoteStepEvent::Submitted {
        step_id: "s1".to_string(),
        correlation_id: "c1".to_string(),
        worker: "w1".to_string(),
    };
    assert!(persist_remote_event(&mut store, &event));
    assert!(!persist_remote_event(&mut store, &event));
    assert!(persist_node_status(&mut store, "n1", true, "up"));
    assert!(!persist_node_status(&mut store, "n1", true, "up"));
    assert!(persist_node_status(&mut store, "n1", false, "down"));
    assert_eq!(store.len(), 3);
    let _ = Json::Null;
}
