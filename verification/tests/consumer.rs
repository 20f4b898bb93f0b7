use esrs::application::{AppState, BroadcastHub, JobsiteBroadcast};
use esrs::events::consumer::{Database, Disposition, JobsiteReadModelHandler, Settlement};
use esrs::events::jobsite::{JobsiteCreated, JobsiteEvent, JobsiteUpdated};
use esrs::projections::jobsite::{Jobsite, ProjectionError, ReadModel};
use esrs::projections::snapshot_position::{
    SnapshotPosition, SnapshotPositionKey, SnapshotPositions,
};
use esrs::stream::{
    EventLog, Position, RecordedEvent, ResolvedEvent, StreamPosition, SubscriptionFilter,
};

const U1: u128 = 0x67e55044_10b1_426f_9247_bb680e5fe0c8;
const U1_TEXT: &str = "67e55044-10b1-426f-9247-bb680e5fe0c8";
const U2: u128 = 0x0000_0000_0000_0000_0000_0000_0000_0002;
const U2_TEXT: &str = "00000000-0000-0000-0000-000000000002";

fn handler() -> JobsiteReadModelHandler {
    JobsiteReadModelHandler::new(
        Database { jobsites: ReadModel::new(), snapshot_positions: SnapshotPositions::new() },
        AppState { jobsite_tx: BroadcastHub::new(16) },
    )
}

fn restarted(old: JobsiteReadModelHandler) -> JobsiteReadModelHandler {
    JobsiteReadModelHandler::new(old.db_pool, old.app_state)
}

fn append(log: &mut EventLog, id_text: &str, event_type: &str, name: &str) -> Position {
    log.append(
        format!("jobsite-{}", id_text),
        event_type.to_string(),
        format!(r#"{{"id":"{}","name":"{}"}}"#, id_text, name).into_bytes(),
    )
}

fn checkpoint(handler: &JobsiteReadModelHandler) -> Option<i64> {
    SnapshotPosition::get_by_key(&handler.db_pool.snapshot_positions, SnapshotPositionKey::Jobsite)
        .map(|c| c.value)
}

fn rows(handler: &JobsiteReadModelHandler) -> Vec<Jobsite> {
    Jobsite::get_list(&handler.db_pool.jobsites)
}

fn site(id: u128, name: &str) -> Jobsite {
    Jobsite { id, name: name.to_string() }
}

#[test]
fn created_then_updated_is_materialized_announced_and_checkpointed() {
    let mut log = EventLog::new();
    let mut handler = handler();
    let worker = handler.app_state.jobsite_tx.subscribe();

    let first = append(&mut log, U1_TEXT, "JobsiteCreated", "Site A");
    handler.subscribe(&log);
    assert_eq!(rows(&handler), vec![site(U1, "Site A")]);
    assert_eq!(checkpoint(&handler), Some(first.commit as i64));

    let second = append(&mut log, U1_TEXT, "JobsiteUpdated", "Site B");
    handler.subscribe(&log);
    assert_eq!(rows(&handler), vec![site(U1, "Site B")]);
    assert_eq!(checkpoint(&handler), Some(second.commit as i64));
    assert_eq!(second.commit, 1);

    let hub = &mut handler.app_state.jobsite_tx;
    assert_eq!(hub.pending(worker), 2);
    assert_eq!(hub.recv(worker), Some(JobsiteBroadcast::JobsiteCreated(site(U1, "Site A"))));
    assert_eq!(hub.recv(worker), Some(JobsiteBroadcast::JobsiteUpdated(site(U1, "Site B"))));
    assert_eq!(hub.recv(worker), None);
}

#[test]
fn a_handler_without_checkpoint_starts_at_the_start_of_the_log() {
    let handler = handler();
    assert_eq!(handler.get_snapshot_position(), StreamPosition::Start);
    assert!(!handler.stalled);
}

#[test]
fn a_stored_checkpoint_is_where_the_subscription_resumes() {
    let mut handler = handler();
    handler.set_snapshot_position(Some(41));
    assert_eq!(checkpoint(&handler), Some(41));
    assert_eq!(
        handler.get_snapshot_position(),
        StreamPosition::Position(Position { commit: 41, prepare: 41 })
    );
    handler.set_snapshot_position(None);
    assert_eq!(checkpoint(&handler), Some(41));
}

#[test]
fn the_checkpoint_does_not_fall_while_records_are_handled() {
    let mut log = EventLog::new();
    append(&mut log, U1_TEXT, "JobsiteCreated", "A");
    append(&mut log, U1_TEXT, "JobsiteUpdated", "B");
    append(&mut log, U2_TEXT, "JobsiteCreated", "C");
    append(&mut log, U2_TEXT, "JobsiteUpdated", "D");
    let mut handler = handler();
    let mut last: Option<i64> = None;
    for i in 0..log.len() {
        handler.handle(log.resolve(i));
        let now = checkpoint(&handler);
        assert!(now >= last);
        assert_eq!(now, Some(i as i64));
        last = now;
    }
    assert_eq!(rows(&handler), vec![site(U1, "B"), site(U2, "D")]);
}

#[test]
fn a_failed_projection_holds_the_checkpoint_for_the_rest_of_the_run() {
    let mut log = EventLog::new();
    append(&mut log, U1_TEXT, "JobsiteCreated", "A");
    append(&mut log, U2_TEXT, "JobsiteUpdated", "B");
    append(&mut log, U1_TEXT, "JobsiteUpdated", "C");
    let mut handler = handler();
    let worker = handler.app_state.jobsite_tx.subscribe();
    handler.subscribe(&log);
    assert!(handler.stalled);
    assert_eq!(checkpoint(&handler), Some(0));
    assert_eq!(rows(&handler), vec![site(U1, "C")]);
    assert_eq!(handler.app_state.jobsite_tx.pending(worker), 2);
}

#[test]
fn a_restart_retries_the_record_that_failed() {
    let mut log = EventLog::new();
    append(&mut log, U2_TEXT, "JobsiteUpdated", "B");
    append(&mut log, U2_TEXT, "JobsiteCreated", "A");
    let mut handler = handler();
    handler.subscribe(&log);
    assert!(handler.stalled);
    assert_eq!(checkpoint(&handler), None);
    assert_eq!(rows(&handler), vec![site(U2, "A")]);

    let mut handler = restarted(handler);
    handler.subscribe(&log);
    assert!(!handler.stalled);
    assert_eq!(checkpoint(&handler), Some(1));
    assert_eq!(rows(&handler), vec![site(U2, "B")]);
}

#[test]
fn a_record_that_does_not_decode_is_skipped() {
    let mut log = EventLog::new();
    log.append(format!("jobsite-{}", U1_TEXT), "JobsiteCreated".to_string(), b"{".to_vec());
    log.append(format!("jobsite-{}", U1_TEXT), "JobsiteRenamed".to_string(), b"{}".to_vec());
    let mut handler = handler();
    handler.subscribe(&log);
    assert!(!handler.stalled);
    assert_eq!(checkpoint(&handler), None);
    assert_eq!(rows(&handler), vec![]);

    let third = append(&mut log, U1_TEXT, "JobsiteCreated", "A");
    handler.subscribe(&log);
    assert_eq!(checkpoint(&handler), Some(third.commit as i64));
    assert_eq!(third.commit, 2);
    assert_eq!(rows(&handler), vec![site(U1, "A")]);
}

#[test]
fn a_record_without_event_is_skipped() {
    let mut handler = handler();
    handler.handle(ResolvedEvent { event: None });
    assert!(!handler.stalled);
    assert_eq!(checkpoint(&handler), None);
}

#[test]
fn a_restart_resumes_behind_the_checkpoint() {
    let mut log = EventLog::new();
    append(&mut log, U1_TEXT, "JobsiteCreated", "A");
    append(&mut log, U1_TEXT, "JobsiteUpdated", "B");
    append(&mut log, U1_TEXT, "JobsiteUpdated", "C");
    let mut handler = handler();
    handler.subscribe(&log);
    assert_eq!(checkpoint(&handler), Some(2));

    append(&mut log, U2_TEXT, "JobsiteCreated", "D");
    let mut handler = restarted(handler);
    let worker = handler.app_state.jobsite_tx.subscribe();
    handler.subscribe(&log);
    assert_eq!(checkpoint(&handler), Some(3));
    assert_eq!(rows(&handler), vec![site(U1, "C"), site(U2, "D")]);
    let hub = &mut handler.app_state.jobsite_tx;
    assert_eq!(hub.recv(worker), Some(JobsiteBroadcast::JobsiteCreated(site(U2, "D"))));
    assert_eq!(hub.recv(worker), None);
}

#[test]
fn a_subscription_to_an_unchanged_log_does_nothing() {
    let mut log = EventLog::new();
    append(&mut log, U1_TEXT, "JobsiteCreated", "A");
    let mut handler = handler();
    handler.subscribe(&log);
    let worker = handler.app_state.jobsite_tx.subscribe();
    handler.subscribe(&log);
    assert_eq!(handler.app_state.jobsite_tx.pending(worker), 0);
    assert_eq!(checkpoint(&handler), Some(0));
    assert_eq!(rows(&handler), vec![site(U1, "A")]);
}

#[test]
fn a_replayed_creation_is_not_announced_and_moves_the_checkpoint() {
    let mut log = EventLog::new();
    append(&mut log, U1_TEXT, "JobsiteCreated", "A");
    let mut store = ReadModel::new();
    assert!(Jobsite::create(&mut store, &JobsiteCreated { id: U1, name: "A".to_string() }).is_ok());
    let mut handler = JobsiteReadModelHandler::new(
        Database { jobsites: store, snapshot_positions: SnapshotPositions::new() },
        AppState { jobsite_tx: BroadcastHub::new(16) },
    );
    let worker = handler.app_state.jobsite_tx.subscribe();
    handler.subscribe(&log);
    assert!(!handler.stalled);
    assert_eq!(checkpoint(&handler), Some(0));
    assert_eq!(rows(&handler), vec![site(U1, "A")]);
    assert_eq!(handler.app_state.jobsite_tx.pending(worker), 0);
}

#[test]
fn records_of_other_streams_are_not_delivered() {
    let mut log = EventLog::new();
    log.append(
        "account-1".to_string(),
        "JobsiteCreated".to_string(),
        format!(r#"{{"id":"{}","name":"A"}}"#, U1_TEXT).into_bytes(),
    );
    log.append(
        "jobsite".to_string(),
        "JobsiteCreated".to_string(),
        format!(r#"{{"id":"{}","name":"B"}}"#, U1_TEXT).into_bytes(),
    );
    let mut handler = handler();
    handler.subscribe(&log);
    assert_eq!(rows(&handler), vec![]);
    assert_eq!(checkpoint(&handler), None);
    let filter = JobsiteEvent::subscription_filter();
    assert_eq!(filter, SubscriptionFilter { prefix: "jobsite-".to_string() });
    assert!(filter.matches("jobsite-1"));
    assert!(filter.matches("jobsite-"));
    assert!(!filter.matches("jobsite"));
    assert!(!filter.matches("a-jobsite-1"));
    assert!(!log.delivers(0, &StreamPosition::Start, &filter));
}

#[test]
fn the_log_numbers_its_records_from_zero() {
    let mut log = EventLog::new();
    assert_eq!(log.len(), 0);
    let first = log.append("jobsite-a".to_string(), "T".to_string(), vec![1, 2]);
    let second = log.append("jobsite-b".to_string(), "T".to_string(), vec![]);
    assert_eq!(first, Position { commit: 0, prepare: 0 });
    assert_eq!(second, Position { commit: 1, prepare: 1 });
    assert_eq!(log.len(), 2);
    assert_eq!(
        log.resolve(0),
        ResolvedEvent {
            event: Some(RecordedEvent {
                stream_id: "jobsite-a".to_string(),
                event_type: "T".to_string(),
                data: vec![1, 2],
                position: first,
            })
        }
    );
    let filter = SubscriptionFilter::on_stream_name("jobsite-");
    let behind_first = StreamPosition::Position(first);
    assert!(log.delivers(0, &StreamPosition::Start, &filter));
    assert!(!log.delivers(0, &behind_first, &filter));
    assert!(log.delivers(1, &behind_first, &filter));
}

#[test]
fn outcomes_are_classified_by_event_and_result() {
    let created = JobsiteEvent::JobsiteCreated(JobsiteCreated { id: 1, name: "A".to_string() });
    let updated = JobsiteEvent::JobsiteUpdated(JobsiteUpdated { id: 1, name: "A".to_string() });
    assert_eq!(created.classify(&Ok(site(1, "A"))), Disposition::Applied);
    assert_eq!(updated.classify(&Ok(site(1, "A"))), Disposition::Applied);
    assert_eq!(created.classify(&Err(ProjectionError::Conflict)), Disposition::Replayed);
    assert_eq!(updated.classify(&Err(ProjectionError::Conflict)), Disposition::Failed);
    assert_eq!(created.classify(&Err(ProjectionError::NotFound)), Disposition::Failed);
    assert_eq!(updated.classify(&Err(ProjectionError::NotFound)), Disposition::Failed);
    assert_eq!(created.classify(&Err(ProjectionError::Unavailable)), Disposition::Failed);
    assert_eq!(updated.classify(&Err(ProjectionError::Unavailable)), Disposition::Failed);
}

#[test]
fn outcomes_are_settled_into_checkpoints() {
    let at = |commit: i64| SnapshotPosition { key: SnapshotPositionKey::Jobsite, value: commit };
    assert_eq!(
        Disposition::Applied.settle(false, Some(7)),
        Settlement { checkpoint: Some(at(7)), stalled: false }
    );
    assert_eq!(
        Disposition::Replayed.settle(false, Some(8)),
        Settlement { checkpoint: Some(at(8)), stalled: false }
    );
    assert_eq!(
        Disposition::Failed.settle(false, Some(9)),
        Settlement { checkpoint: None, stalled: true }
    );
    assert_eq!(
        Disposition::Applied.settle(true, Some(10)),
        Settlement { checkpoint: None, stalled: true }
    );
    assert_eq!(
        Disposition::Applied.settle(false, None),
        Settlement { checkpoint: None, stalled: false }
    );
    assert_eq!(
        Disposition::Applied.settle(false, Some(u64::MAX)),
        Settlement { checkpoint: Some(at(-1)), stalled: false }
    );
}

#[test]
fn an_event_announces_its_row_under_its_own_kind() {
    let created = JobsiteEvent::JobsiteCreated(JobsiteCreated { id: 1, name: "A".to_string() });
    let updated = JobsiteEvent::JobsiteUpdated(JobsiteUpdated { id: 1, name: "B".to_string() });
    assert_eq!(created.broadcast(site(1, "A")), JobsiteBroadcast::JobsiteCreated(site(1, "A")));
    assert_eq!(updated.broadcast(site(1, "B")), JobsiteBroadcast::JobsiteUpdated(site(1, "B")));
}

#[test]
fn handling_an_event_announces_only_what_was_written() {
    let mut handler = handler();
    let worker = handler.app_state.jobsite_tx.subscribe();
    let created = JobsiteCreated { id: 1, name: "A".to_string() };
    assert_eq!(created.handle_read_model(&mut handler), Ok(site(1, "A")));
    assert_eq!(created.handle_read_model(&mut handler), Err(ProjectionError::Conflict));
    let missing = JobsiteUpdated { id: 2, name: "B".to_string() };
    assert_eq!(missing.handle_read_model(&mut handler), Err(ProjectionError::NotFound));
    let renamed = JobsiteEvent::JobsiteUpdated(JobsiteUpdated { id: 1, name: "C".to_string() });
    assert_eq!(renamed.handle_read_model(&mut handler), Ok(site(1, "C")));
    let hub = &mut handler.app_state.jobsite_tx;
    assert_eq!(hub.recv(worker), Some(JobsiteBroadcast::JobsiteCreated(site(1, "A"))));
    assert_eq!(hub.recv(worker), Some(JobsiteBroadcast::JobsiteUpdated(site(1, "C"))));
    assert_eq!(hub.recv(worker), None);
    assert_eq!(checkpoint(&handler), None);
}

#[test]
fn applying_an_event_projects_announces_and_checkpoints() {
    let mut handler = handler();
    let worker = handler.app_state.jobsite_tx.subscribe();
    let created = JobsiteEvent::JobsiteCreated(JobsiteCreated { id: 1, name: "A".to_string() });
    handler.apply(&created, Some(4));
    assert_eq!(rows(&handler), vec![site(1, "A")]);
    assert_eq!(checkpoint(&handler), Some(4));
    assert!(!handler.stalled);

    handler.apply(&created, Some(5));
    assert_eq!(rows(&handler), vec![site(1, "A")]);
    assert_eq!(checkpoint(&handler), Some(5));
    assert!(!handler.stalled);

    let missing = JobsiteEvent::JobsiteUpdated(JobsiteUpdated { id: 2, name: "B".to_string() });
    handler.apply(&missing, Some(6));
    assert_eq!(checkpoint(&handler), Some(5));
    assert!(handler.stalled);

    let renamed = JobsiteEvent::JobsiteUpdated(JobsiteUpdated { id: 1, name: "C".to_string() });
    handler.apply(&renamed, Some(7));
    assert_eq!(rows(&handler), vec![site(1, "C")]);
    assert_eq!(checkpoint(&handler), Some(5));
    assert!(handler.stalled);

    let hub = &mut handler.app_state.jobsite_tx;
    assert_eq!(hub.recv(worker), Some(JobsiteBroadcast::JobsiteCreated(site(1, "A"))));
    assert_eq!(hub.recv(worker), Some(JobsiteBroadcast::JobsiteUpdated(site(1, "C"))));
    assert_eq!(hub.recv(worker), None);
}

#[test]
fn an_event_without_position_is_applied_without_checkpoint() {
    let mut handler = handler();
    let created = JobsiteEvent::JobsiteCreated(JobsiteCreated { id: 1, name: "A".to_string() });
    handler.apply(&created, None);
    assert_eq!(rows(&handler), vec![site(1, "A")]);
    assert_eq!(checkpoint(&handler), None);
}
