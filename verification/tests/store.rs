use planned_agent::flexible::run_service::store::{text_less, RunStore};
use planned_agent::flexible::run_service::types::{RunSnapshot, RunUpdate, SessionFilter};
use planned_agent::flexible::template::{FlexiblePlanTemplate, PlanStep};

fn template() -> FlexiblePlanTemplate {
    FlexiblePlanTemplate {
        output_schema: None,
        task: "t".to_string(),
        inputs: vec![],
        steps: vec![PlanStep {
            result_reference: "#E1".to_string(),
            intent: "i".to_string(),
            expected_output: "o".to_string(),
            dependencies: vec![],
        }],
    }
}

fn snapshot(session_id: &str, run_id: u64) -> RunSnapshot {
    RunSnapshot::started(session_id.to_string(), run_id, &template())
}

fn snapshot_at(session_id: &str, started_at_ms: u64) -> RunSnapshot {
    let mut s = snapshot(session_id, 1);
    s.started_at_ms = started_at_ms;
    s
}

#[test]
fn snapshot_returns_none_for_unknown_session() {
    let store: RunStore<()> = RunStore::new();
    assert!(store.snapshot("nope").is_none());
    assert!(store.snapshots().is_empty());
}

#[test]
fn update_inserts_then_deletes() {
    let mut store: RunStore<()> = RunStore::new();

    let written = store.update("s1", |_| Some(snapshot("s1", 1)));
    assert_eq!(written.map(|s| s.run_id), Some(1));
    assert_eq!(store.snapshot("s1").map(|s| s.run_id), Some(1));

    // a closure that returns None deletes the entry
    let removed = store.update("s1", |current| {
        assert!(current.is_some(), "the closure receives the current value");
        None
    });
    assert!(removed.is_none());
    assert!(store.snapshot("s1").is_none());
}

#[test]
fn subscribe_replays_current_snapshot_immediately() {
    let mut store: RunStore<()> = RunStore::new();
    store.update("s1", |_| Some(snapshot("s1", 3)));

    let (_id, replayed) = store.subscribe(SessionFilter::One("s1".to_string()), ());

    assert_eq!(replayed.len(), 1, "registering replays one update at once");
    assert_eq!(replayed[0].session_id, "s1");
    assert_eq!(replayed[0].snapshot.run_id, 3);
}

#[test]
fn subscriber_only_gets_matching_session() {
    let mut store: RunStore<()> = RunStore::new();
    let (id, replayed) = store.subscribe(SessionFilter::One("s2".to_string()), ());
    assert!(replayed.is_empty());

    store.update("s1", |_| Some(snapshot("s1", 1)));
    assert!(store.recipients("s1").is_empty(), "another session must not leak through");

    store.update("s2", |_| Some(snapshot("s2", 1)));
    assert_eq!(store.recipients("s2"), vec![id]);
}

#[test]
fn all_filter_receives_every_session() {
    let mut store: RunStore<()> = RunStore::new();
    let (id, _) = store.subscribe(SessionFilter::All, ());

    store.update("s1", |_| Some(snapshot("s1", 1)));
    assert_eq!(store.recipients("s1"), vec![id]);
    store.update("s2", |_| Some(snapshot("s2", 1)));
    assert_eq!(store.recipients("s2"), vec![id]);
}

#[test]
fn unsubscribe_stops_delivery() {
    let mut store: RunStore<()> = RunStore::new();
    let (id, _) = store.subscribe(SessionFilter::All, ());
    assert_eq!(store.subscriber_count(), 1);

    assert!(store.unsubscribe(id));
    assert!(!store.unsubscribe(id), "a second unsubscribe answers false");
    assert_eq!(store.subscriber_count(), 0);

    store.update("s1", |_| Some(snapshot("s1", 1)));
    assert!(store.recipients("s1").is_empty(), "no delivery after unsubscribing");
}

#[test]
fn dropped_receiver_is_reclaimed() {
    let mut store: RunStore<tokio::sync::mpsc::UnboundedSender<RunUpdate>> = RunStore::new();
    let (tx, rx) = tokio::sync::mpsc::unbounded_channel();
    let (id, _) = store.subscribe(SessionFilter::All, tx);
    drop(rx);

    let written = store.update("s1", |_| Some(snapshot("s1", 1))).unwrap();
    let mut stale = Vec::new();
    for to in store.recipients("s1") {
        let update = RunUpdate { session_id: "s1".to_string(), snapshot: written.clone() };
        if store.sink(to).unwrap().send(update).is_err() {
            stale.push(to);
        }
    }
    for to in stale {
        store.unsubscribe(to);
    }

    assert_eq!(store.subscriber_count(), 0, "a failed delivery reclaims the registration");
    assert!(!store.unsubscribe(id));
}

#[test]
fn subscriber_numbers_count_up_from_one() {
    let mut store: RunStore<()> = RunStore::new();
    let (a, _) = store.subscribe(SessionFilter::All, ());
    let (b, _) = store.subscribe(SessionFilter::All, ());
    assert_eq!((a, b), (1, 2));
    assert!(store.unsubscribe(a));
    let (c, _) = store.subscribe(SessionFilter::All, ());
    assert_eq!(c, 3, "numbers are never handed out twice");
    assert!(store.sink(a).is_none());
    assert!(store.sink(c).is_some());
}

#[test]
fn snapshots_are_ordered_by_start_then_session() {
    let mut store: RunStore<()> = RunStore::new();
    store.update("b", |_| Some(snapshot_at("b", 20)));
    store.update("c", |_| Some(snapshot_at("c", 10)));
    store.update("a", |_| Some(snapshot_at("a", 20)));
    let order: Vec<String> = store.snapshots().into_iter().map(|s| s.session_id).collect();
    assert_eq!(order, vec!["c".to_string(), "a".to_string(), "b".to_string()]);
}

#[test]
fn rewriting_a_session_keeps_one_entry() {
    let mut store: RunStore<()> = RunStore::new();
    store.update("s1", |_| Some(snapshot("s1", 1)));
    store.update("s2", |_| Some(snapshot("s2", 1)));
    let seen = store.update("s1", |current| {
        let mut next = current.unwrap();
        next.run_id = 7;
        Some(next)
    });
    assert_eq!(seen.map(|s| s.run_id), Some(7));
    assert_eq!(store.snapshots().len(), 2);
    assert_eq!(store.snapshot("s1").map(|s| s.run_id), Some(7));
    assert_eq!(store.snapshot("s2").map(|s| s.run_id), Some(1));
}

#[test]
fn replay_covers_only_matching_sessions() {
    let mut store: RunStore<()> = RunStore::new();
    store.update("s1", |_| Some(snapshot("s1", 1)));
    store.update("s2", |_| Some(snapshot("s2", 2)));
    let (_, all) = store.subscribe(SessionFilter::All, ());
    assert_eq!(all.len(), 2);
    let (_, one) = store.subscribe(SessionFilter::One("s2".to_string()), ());
    assert_eq!(one.len(), 1);
    assert_eq!(one[0].snapshot.run_id, 2);
}

#[test]
fn text_order_is_by_character_then_length() {
    assert!(text_less(&"a".to_string(), &"b".to_string()));
    assert!(text_less(&"ab".to_string(), &"abc".to_string()));
    assert!(!text_less(&"abc".to_string(), &"ab".to_string()));
    assert!(!text_less(&"x".to_string(), &"x".to_string()));
    assert!(text_less(&"Z".to_string(), &"a".to_string()));
}

#[test]
fn recipients_come_in_registration_order() {
    let mut store: RunStore<()> = RunStore::new();
    let (a, _) = store.subscribe(SessionFilter::All, ());
    let (b, _) = store.subscribe(SessionFilter::One("s1".to_string()), ());
    let (c, _) = store.subscribe(SessionFilter::All, ());
    let (_d, _) = store.subscribe(SessionFilter::One("s2".to_string()), ());
    assert_eq!(store.recipients("s1"), vec![a, b, c]);
    assert!(store.unsubscribe(b));
    let (e, _) = store.subscribe(SessionFilter::One("s1".to_string()), ());
    assert_eq!(store.recipients("s1"), vec![a, c, e]);
}

#[test]
fn counts_follow_subscribe_and_unsubscribe() {
    let mut store: RunStore<()> = RunStore::new();
    assert_eq!(store.subscriber_count(), 0);
    let (a, _) = store.subscribe(SessionFilter::All, ());
    let (b, _) = store.subscribe(SessionFilter::All, ());
    assert_eq!(store.subscriber_count(), 2);
    assert!(store.unsubscribe(a));
    assert_eq!(store.subscriber_count(), 1);
    assert!(!store.unsubscribe(a));
    assert_eq!(store.subscriber_count(), 1, "an unknown number changes nothing");
    assert!(store.unsubscribe(b));
    assert_eq!(store.subscriber_count(), 0);
}
