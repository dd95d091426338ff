use gadget_shell::client::create_client;
use gadget_shell::dispatcher::{JobEvent, JobHandler, Logger, TangleEventsWatcher};

fn event(scope: u64, job: u8, call_id: u64, block: u64, args: u64) -> JobEvent<u64> {
    JobEvent { scope, job, call_id, block, args }
}

#[test]
fn matching_event_is_invoked_once_and_other_job_ignored() {
    let handler = JobHandler::new(7, 3);
    let batch = vec![event(7, 3, 11, 100, 500), event(7, 4, 12, 100, 501)];
    let invocations = handler.handle_events(batch);
    assert_eq!(invocations, vec![(11, 500)]);
}

#[test]
fn wrong_scope_is_ignored_even_when_other_fields_collide() {
    let handler = JobHandler::new(7, 3);
    // Same job-number, call id, block and args as a matching event would
    // carry, but another scope: never invoked.
    let batch = vec![event(8, 3, 11, 100, 500)];
    let invocations = handler.handle_events(batch);
    assert!(invocations.is_empty());
}

#[test]
fn batch_is_processed_in_stream_order() {
    let handler = JobHandler::new(1, 2);
    let batch = vec![
        event(1, 2, 30, 100, 7),
        event(9, 9, 31, 100, 8),
        event(1, 2, 32, 101, 9),
        event(1, 2, 33, 101, 10),
    ];
    let invocations = handler.handle_events(batch);
    assert_eq!(invocations, vec![(30, 7), (32, 9), (33, 10)]);
}

#[test]
fn registration_fires_exactly_once_across_batches() {
    let mut handler = JobHandler::new(7, 3);
    let batch1 = vec![event(7, 3, 1, 100, 0)];
    let batch2 = vec![event(7, 3, 2, 101, 0), event(7, 3, 3, 101, 0)];
    let batch3: Vec<JobEvent<u64>> = Vec::new();
    let (fired1, has1) = handler.can_handle_events(&batch1);
    let (fired2, has2) = handler.can_handle_events(&batch2);
    let (fired3, has3) = handler.can_handle_events(&batch3);
    assert!(fired1);
    assert!(!fired2);
    assert!(!fired3);
    assert!(has1);
    assert!(has2);
    assert!(!has3);
}

#[test]
fn screening_reports_matching_events_only() {
    let mut handler = JobHandler::new(7, 3);
    let batch = vec![event(7, 4, 1, 100, 0), event(6, 3, 2, 100, 0)];
    let (_, has_event) = handler.can_handle_events(&batch);
    assert!(!has_event);
}

#[test]
fn handler_reports_its_binding() {
    let handler = JobHandler::new(7, 3);
    assert_eq!(handler.scope(), 7);
    assert_eq!(handler.job(), 3);
}

#[test]
fn client_handle_bundles_its_collaborators() {
    let client = create_client(5u32, Logger { id: String::from("node-1") }, 7u64);
    assert_eq!(client.client, 5);
    assert_eq!(client.logger.id, "node-1");
    assert_eq!(client.pallet_tx, 7);
}

#[test]
fn watcher_exposes_its_logger_and_names() {
    let watcher = TangleEventsWatcher { logger: Logger { id: String::from("node-1") } };
    assert_eq!(watcher.logger().id, "node-1");
    assert_eq!(watcher.tag(), "tangle");
    assert_eq!(watcher.pallet_name(), "Services");
}
