use owo_agent_core::fleet::bus::{AgentBus, BusError, Mailbox, OverflowPolicy, PushOutcome};
use owo_agent_core::fleet::fan_out::{FanOutRun, FanOutStatus, WorkerEnd, WorkerFit};
use owo_agent_core::fleet::message::{
    dedupe_messages, message_dedup_key, BusMessage, MessageKind, WorkerEvent, WorkerEventKind,
};
use owo_agent_core::fleet::supervisor::{
    backoff_secs, Budget, RestartPolicy, RestartRule, SupervisionState, Supervisor,
};
use owo_agent_core::fleet::wait_graph::{arbitrate_wait_cycle, detect_cycle, detect_wait_cycle, WaitEdge, WaitGraph};
use owo_agent_core::bus_store::BusStore;
use owo_agent_core::json::{read_json, Json};
use owo_agent_core::table::Table;

fn msg(id: u64, kind: MessageKind) -> BusMessage {
    BusMessage {
        id,
        from: "a".to_string(),
        to: "b".to_string(),
        kind,
        correlation_id: "c1".to_string(),
        payload: Json::Null,
    }
}

#[test]
fn mailbox_overflow_drops_mergeable_keeps_critical() {
    let mut mb = Mailbox::new(2);
    assert!(matches!(
        mb.push(msg(1, MessageKind::Task), OverflowPolicy::DropMergeable),
        Ok(PushOutcome::Pushed)
    ));
    assert!(matches!(
        mb.push(msg(2, MessageKind::Progress), OverflowPolicy::DropMergeable),
        Ok(PushOutcome::Pushed)
    ));
    assert!(matches!(
        mb.push(msg(3, MessageKind::Progress), OverflowPolicy::DropMergeable),
        Ok(PushOutcome::Dropped)
    ));
    assert!(matches!(
        mb.push(msg(4, MessageKind::Review), OverflowPolicy::DropMergeable),
        Err(BusError::MailboxFull(2))
    ));
    assert_eq!(mb.len(), 2);
}

#[test]
fn mailbox_reject_policy_returns_full_error() {
    let mut mb = Mailbox::new(1);
    assert!(matches!(
        mb.push(msg(1, MessageKind::Progress), OverflowPolicy::Reject),
        Ok(PushOutcome::Pushed)
    ));
    assert!(matches!(
        mb.push(msg(2, MessageKind::Progress), OverflowPolicy::Reject),
        Err(BusError::MailboxFull(1))
    ));
}

#[test]
fn bus_send_drain_and_unregister() {
    let mut bus = AgentBus::new();
    bus.register("worker-a", 4);
    bus.register("worker-b", 4);
    let id = match bus.send(
        "core",
        "worker-a",
        MessageKind::Task,
        "corr-1",
        read_json("{\"q\":1}").unwrap(),
        OverflowPolicy::Reject,
    ) {
        Ok(id) => id,
        Err(e) => panic!("{}", e.message()),
    };
    assert_eq!(bus.pending("worker-a"), 1);
    let drained = bus.drain("worker-a");
    assert_eq!(drained.len(), 1);
    assert_eq!(drained[0].id, id);
    assert_eq!(drained[0].correlation_id, "corr-1");
    assert!(bus.unregister("worker-a"));
    assert!(!bus.contains("worker-a"));
}

#[test]
fn bus_send_unknown_agent_errors() {
    let mut bus = AgentBus::new();
    bus.register("worker-a", 4);
    let sent = bus.send("core", "nobody", MessageKind::Task, "c", Json::Null, OverflowPolicy::Reject);
    match sent {
        Err(BusError::UnknownAgent(id)) => assert_eq!(id, "nobody"),
        _ => panic!("the agent is not known"),
    }
}

#[test]
fn broadcast_delivers_to_registered_agents() {
    let mut bus = AgentBus::new();
    bus.register("w1", 4);
    bus.register("w2", 4);
    let delivered = bus.broadcast(
        "core",
        "topic",
        MessageKind::Progress,
        "corr-x",
        read_json("{\"n\":1}").unwrap(),
        OverflowPolicy::Reject,
    );
    assert_eq!(delivered.len(), 2);
    assert!(delivered.contains(&"w1".to_string()));
    assert!(delivered.contains(&"w2".to_string()));
    assert_eq!(bus.pending("w1"), 1);
    assert_eq!(bus.pending("w2"), 1);
}

#[test]
fn budget_exceeded_flags() {
    let b = Budget { max_turns: 2, max_steps: 5, max_duration_secs: 10 };
    assert!(!b.exceeded(1, 1, 1));
    assert!(b.exceeded(2, 1, 1));
    assert!(b.exceeded(1, 5, 1));
    assert!(b.exceeded(1, 1, 10));
}

#[test]
fn backoff_secs_grows_and_caps() {
    assert_eq!(backoff_secs(1, 0), 1);
    assert_eq!(backoff_secs(1, 2), 4);
    assert_eq!(backoff_secs(2, 3), 16);
    assert_eq!(backoff_secs(1, 100), 60);
}

#[test]
fn supervisor_fuses_after_max_restarts() {
    let rule = RestartRule { max_restarts: 2, base_backoff_secs: 1, policy: RestartPolicy::OneForOne };
    let mut sup = Supervisor::new(rule);
    assert_eq!(sup.on_crash(), SupervisionState::Restarting { attempts: 1, next_retry_secs: 1 });
    assert_eq!(sup.on_crash(), SupervisionState::Restarting { attempts: 2, next_retry_secs: 2 });
    assert_eq!(sup.on_crash(), SupervisionState::Fused { attempts: 3 });
    assert_eq!(sup.attempts(), 3);
}

#[test]
fn supervisor_resets_on_healthy() {
    let mut sup = Supervisor::new(RestartRule::default());
    let _ = sup.on_crash();
    sup.mark_healthy();
    assert_eq!(sup.attempts(), 0);
    assert_eq!(sup.on_crash(), SupervisionState::Restarting { attempts: 1, next_retry_secs: 1 });
}

#[test]
fn detect_cycle_finds_handoff_loop() {
    let edges: Vec<(String, String)> =
        vec![("a".into(), "b".into()), ("b".into(), "c".into()), ("c".into(), "a".into())];
    let cycle = detect_cycle(&edges).expect("cycle found");
    assert!(cycle.len() >= 3);
    assert_eq!(cycle.first(), cycle.last());
}

#[test]
fn detect_cycle_clean_dag_none() {
    let edges: Vec<(String, String)> =
        vec![("a".into(), "b".into()), ("a".into(), "c".into()), ("b".into(), "d".into())];
    assert_eq!(detect_cycle(&edges), None);
}

fn run_all(
    workers: Vec<String>,
    max_parallel: usize,
    budget: Budget,
    elapsed_secs: u64,
    answer: fn(&str) -> Result<String, String>,
) -> (Vec<owo_agent_core::fleet::fan_out::FanOutOutcome>, usize) {
    let mut run = FanOutRun::new(workers, max_parallel, budget);
    let mut active: Vec<String> = Vec::new();
    let mut peak = 0;
    loop {
        if run.begin_round(false, elapsed_secs) {
            break;
        }
        while let Some(worker) = run.take_next() {
            if run.start_or_refuse(&worker, &WorkerFit::Full).is_none() {
                active.push(worker);
            }
        }
        if active.len() > peak {
            peak = active.len();
        }
        if active.is_empty() {
            break;
        }
        let worker = active.remove(0);
        let result = answer(&worker);
        run.joined(WorkerEnd::Finished { worker, result });
    }
    (run.report("c").outcomes, peak)
}

#[test]
fn fan_out_respects_max_parallel() {
    let workers: Vec<String> = vec!["w1".into(), "w2".into(), "w3".into(), "w4".into()];
    let (outcomes, peak) = run_all(workers, 2, Budget::default(), 0, |_id| Ok("done".to_string()));
    assert!(peak <= 2);
    assert!(outcomes.iter().all(|o| o.ok));
    assert_eq!(outcomes.len(), 4);
}

#[test]
fn fan_out_partial_failure_and_order() {
    let workers: Vec<String> = vec!["w1".into(), "w2".into(), "w3".into()];
    let (outcomes, _) = run_all(workers, 2, Budget::default(), 0, |id| {
        if id == "w2" {
            Err("boom".to_string())
        } else {
            Ok(format!("ok:{id}"))
        }
    });
    assert_eq!(outcomes.len(), 3);
    assert_eq!(outcomes[0].worker, "w1");
    assert!(outcomes[0].ok);
    assert_eq!(outcomes[0].output.as_deref(), Some("ok:w1"));
    assert_eq!(outcomes[1].worker, "w2");
    assert!(!outcomes[1].ok);
    assert_eq!(outcomes[1].error.as_deref(), Some("boom"));
    assert_eq!(outcomes[2].worker, "w3");
    assert!(outcomes[2].ok);
}

#[test]
fn fan_out_zero_budget_aborts_all() {
    let workers: Vec<String> = vec!["w1".into(), "w2".into()];
    let budget = Budget { max_turns: 50, max_steps: 1000, max_duration_secs: 0 };
    let (outcomes, _) = run_all(workers, 2, budget, 0, |id| Ok(format!("ok:{id}")));
    assert_eq!(outcomes.len(), 2);
    assert!(outcomes.iter().all(|o| !o.ok));
    assert!(outcomes.iter().all(|o| o.error.as_deref() == Some("budget exceeded: task aborted")));
}

#[test]
fn unfit_worker_is_refused() {
    let mut run = FanOutRun::new(vec!["w1".to_string()], 1, Budget::default());
    run.begin_round(false, 0);
    let worker = run.take_next().unwrap();
    let refused = run
        .start_or_refuse(&worker, &WorkerFit::Unfit { reasons: vec!["no gpu".to_string()] })
        .unwrap();
    assert!(!refused.ok);
    assert!(matches!(refused.status, FanOutStatus::Unfit));
    assert!(run.is_idle());
}

#[test]
fn panicked_worker_is_reported() {
    let mut run = FanOutRun::new(vec!["w1".to_string(), "w2".to_string()], 2, Budget::default());
    run.begin_round(false, 0);
    while let Some(worker) = run.take_next() {
        assert!(run.start_or_refuse(&worker, &WorkerFit::Full).is_none());
    }
    run.joined(WorkerEnd::Panicked);
    run.joined(WorkerEnd::Finished { worker: "w2".to_string(), result: Ok("x".to_string()) });
    let report = run.report("c");
    assert_eq!(report.outcomes.len(), 2);
    assert!(!report.outcome("w1").unwrap().ok);
    assert!(report.outcome("w2").unwrap().ok);
    assert!(!report.all_succeeded());
    assert_eq!(report.failed().len(), 1);
}

#[test]
fn timed_out_worker_has_an_error_and_no_output() {
    let mut run = FanOutRun::new(vec!["w1".to_string()], 1, Budget::default());
    run.begin_round(false, 0);
    let worker = run.take_next().unwrap();
    assert!(run.start_or_refuse(&worker, &WorkerFit::Full).is_none());
    run.joined(WorkerEnd::TimedOut { worker });
    let report = run.report("c");
    let o = report.outcome("w1").unwrap();
    assert!(matches!(o.status, FanOutStatus::TimedOut));
    assert!(!o.ok);
    assert_eq!(o.error.as_deref(), Some("worker timed out"));
    assert_eq!(o.output, None);
    assert_eq!(report.retryable().len(), 1);
}

#[test]
fn cancelled_run_starts_nothing_more() {
    let mut run = FanOutRun::new(vec!["w1".to_string()], 1, Budget::default());
    assert!(run.begin_round(true, 0));
    let report = run.report("c");
    assert!(matches!(report.outcomes[0].status, FanOutStatus::Cancelled));
}

#[test]
fn equal_messages_share_a_key_and_are_kept_once() {
    let first = msg(1, MessageKind::Task);
    let second = msg(2, MessageKind::Task);
    assert_eq!(message_dedup_key(&first), message_dedup_key(&second));
    let other = msg(1, MessageKind::Result);
    assert_ne!(message_dedup_key(&first), message_dedup_key(&other));
    let kept = dedupe_messages(&vec![first, second, other]);
    assert_eq!(kept.len(), 2);
    assert_eq!(kept[0].id, 1);
}

#[test]
fn full_mailbox_error_says_its_capacity() {
    assert!(BusError::MailboxFull(3).message().contains('3'));
    assert!(BusError::UnknownAgent("x".to_string()).message().contains('x'));
    assert!(BusError::Persist("disk".to_string()).message().contains("disk"));
}

#[test]
fn replayed_messages_reach_their_mailboxes() {
    let mut store = BusStore::in_memory();
    let mut m = msg(7, MessageKind::Task);
    m.to = "w".to_string();
    assert!(store.persist(&m));
    let mut bus = AgentBus::new();
    bus.attach_store(store);
    bus.register("w", 4);
    assert_eq!(bus.store_len(), 1);
    assert_eq!(bus.replay_store(), 1);
    assert_eq!(bus.pending("w"), 1);
}

#[test]
fn worker_event_travels_as_a_message() {
    let mut bus = AgentBus::new();
    bus.register("core", 4);
    let event = WorkerEvent::new("w1", WorkerEventKind::Crashed, "boom", "c1");
    assert!(bus.send_worker_event("w1", "core", &event).is_ok());
    let drained = bus.drain("core");
    assert_eq!(drained.len(), 1);
    assert_eq!(drained[0].payload.to_text(), event.to_json().to_text());
}

#[test]
fn wait_cycle_gives_up_the_one_with_the_highest_number() {
    let edges = vec![WaitEdge::new("a", "b"), WaitEdge::new("b", "a")];
    assert!(detect_wait_cycle(&edges).is_some());
    let mut priority: Table<u32> = Table::new();
    priority.insert("a".to_string(), 9);
    priority.insert("b".to_string(), 1);
    assert_eq!(arbitrate_wait_cycle(&vec!["a".to_string(), "b".to_string()], &priority), "a");
    let mut graph = WaitGraph::new();
    graph.add("a", "b", None);
    assert!(graph.resolve().is_none());
    graph.add("b", "a", None);
    graph.set_priority("a", 9);
    graph.set_priority("b", 1);
    let resolution = graph.resolve().unwrap();
    assert_eq!(resolution.cancel, "a");
    assert_eq!(graph.edges().len(), 2);
}
