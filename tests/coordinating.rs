use meili_notes::config::OptionConfig;
use meili_notes::notes::{NoteError, RawRow, RowError, UtcTimestamp};
use meili_notes::outcome::{error_log_name, ChunkError, ChunkFailure};
use meili_notes::run::{
    is_success, Action, DispatchOutcome, Phase, Run, RunError, CHUNK_SIZE, EXIT_CANCELLED,
    EXIT_FATAL, EXIT_OK,
};

fn option(idtype: Option<&str>) -> OptionConfig {
    OptionConfig { localonly: false, idtype: idtype.map(|s| s.to_string()), limit: None }
}

fn row(id: &str, seconds: i64) -> RawRow {
    RawRow {
        id: id.to_string(),
        created_at: Some(UtcTimestamp { seconds, subsec_millis: 0 }),
        user_id: "u".to_string(),
        user_host: None,
        channel_id: None,
        cw: None,
        text: format!("note {}", id),
        tags: vec![],
    }
}

fn rows(n: usize) -> Vec<RawRow> {
    (0..n).map(|i| row(&format!("n{}", i), 1_000 + i as i64)).collect()
}

fn ok() -> DispatchOutcome {
    DispatchOutcome::Answered { status: 202, body: String::new() }
}

fn start_error(r: Result<Run, RunError>) -> RunError {
    match r {
        Err(e) => e,
        Ok(_) => panic!("the run started"),
    }
}

fn loaded(n: usize, size: usize) -> Run {
    let mut run = Run::start(&option(None), size).unwrap();
    assert_eq!(run.next_action(), Action::FetchRows);
    assert!(run.load(rows(n)));
    run
}

#[test]
fn unsupported_idtype_fails_before_any_query() {
    let err = start_error(Run::start(&option(Some("bogus")), CHUNK_SIZE));
    assert_eq!(err, RunError::UnsupportedIdType { idtype: "bogus".to_string() });
    assert_eq!(err.exit_code(), EXIT_FATAL);
    assert_ne!(err.exit_code(), 0);
}

#[test]
fn zero_chunk_size_fails() {
    assert_eq!(start_error(Run::start(&option(None), 0)), RunError::InvalidChunkSize);
}

#[test]
fn start_then_fetch() {
    let run = Run::start(&option(Some("aidx")), CHUNK_SIZE).unwrap();
    assert_eq!(run.phase(), Phase::Fetching);
    assert_eq!(run.next_action(), Action::FetchRows);
    assert!(run.query().starts_with("SELECT id, \"userId\""));
}

#[test]
fn status_classes() {
    assert!(is_success(200));
    assert!(is_success(202));
    assert!(is_success(299));
    assert!(!is_success(199));
    assert!(!is_success(300));
    assert!(!is_success(404));
}

#[test]
fn middle_chunk_failure_is_isolated() {
    let mut run = loaded(5, 2);
    assert_eq!(run.chunk_total(), 3);
    assert_eq!(run.next_action(), Action::Dispatch { chunk_index: 1 });
    assert!(run.record(1, ok()));
    assert_eq!(run.next_action(), Action::Dispatch { chunk_index: 2 });
    assert!(run.record(
        2,
        DispatchOutcome::Answered { status: 400, body: "{\"message\":\"bad\"}".to_string() }
    ));
    assert_eq!(run.next_action(), Action::Dispatch { chunk_index: 3 });
    assert!(run.record(3, ok()));
    assert_eq!(run.next_action(), Action::Finish { exit_code: EXIT_OK });
    let outcome = run.outcome();
    assert_eq!(outcome.total_retrieved, 5);
    assert_eq!(outcome.total_added, 3);
    assert_eq!(outcome.total_skipped(), 1);
    assert_eq!(
        outcome.errors,
        vec![ChunkError {
            chunk_index: 2,
            failure: ChunkFailure::Rejected { status: 400, body: "{\"message\":\"bad\"}".to_string() },
        }]
    );
    assert_eq!(outcome.error_log(), "Error in chunk 2: status 400: {\"message\":\"bad\"}");
}

#[test]
fn transport_failure_recorded() {
    let mut run = loaded(3, 2);
    assert!(run.record(
        1,
        DispatchOutcome::TransportFailed { description: "connection refused".to_string() }
    ));
    assert!(run.record(2, DispatchOutcome::Answered { status: 503, body: "busy".to_string() }));
    let outcome = run.outcome();
    assert_eq!(outcome.total_added, 0);
    assert_eq!(
        outcome.error_log(),
        "Error in chunk 1: connection refused\nError in chunk 2: status 503: busy"
    );
}

#[test]
fn outcome_recorded_once_and_in_order() {
    let mut run = loaded(4, 2);
    assert!(!run.record(2, ok()));
    assert!(!run.record(0, ok()));
    assert!(run.record(1, ok()));
    assert!(!run.record(1, ok()));
    assert!(run.record(2, ok()));
    assert!(!run.record(3, ok()));
    assert_eq!(run.outcome().total_added, 4);
    assert!(run.outcome().errors.is_empty());
    assert_eq!(run.next_action(), Action::Finish { exit_code: EXIT_OK });
}

#[test]
fn cancellation_after_first_chunk() {
    let mut run = loaded(6, 2);
    assert!(run.record(1, ok()));
    run.cancel();
    assert_eq!(run.phase(), Phase::Interrupted);
    assert_eq!(run.next_action(), Action::Finish { exit_code: EXIT_CANCELLED });
    assert!(!run.record(2, ok()));
    assert_eq!(run.outcome().total_added, 2);
    assert!(run.outcome().errors.is_empty());
    assert_ne!(EXIT_CANCELLED, EXIT_OK);
    assert_ne!(EXIT_CANCELLED, EXIT_FATAL);
}

#[test]
fn chunks_follow_row_order() {
    let run = loaded(5, 2);
    let ids = |k: usize| -> Vec<String> {
        run.chunk(k).unwrap().iter().map(|n| n.id.clone()).collect()
    };
    assert_eq!(ids(1), vec!["n0", "n1"]);
    assert_eq!(ids(2), vec!["n2", "n3"]);
    assert_eq!(ids(3), vec!["n4"]);
    assert!(run.chunk(0).is_none());
    assert!(run.chunk(4).is_none());
    assert_eq!(run.chunk(1).unwrap()[1].created_at, 1_001_000);
}

#[test]
fn bad_rows_are_dropped_not_fatal() {
    let mut run = Run::start(&option(Some("aid")), 10).unwrap();
    assert!(run.load(vec![row("0000000000", 1), row("nope", 2), row("9eo7ew8sed", 3)]));
    assert_eq!(run.outcome().total_retrieved, 3);
    assert_eq!(run.chunk_total(), 1);
    assert_eq!(run.chunk(1).unwrap().len(), 2);
    assert_eq!(
        run.row_errors(),
        &vec![RowError { row: 1, id: "nope".to_string(), error: NoteError::InvalidIdentifier }]
    );
    assert!(!run.load(vec![]));
}

#[test]
fn empty_result_finishes_at_once() {
    let run = loaded(0, CHUNK_SIZE);
    assert_eq!(run.chunk_total(), 0);
    assert_eq!(run.next_action(), Action::Finish { exit_code: EXIT_OK });
}

#[test]
fn error_log_file_name() {
    assert_eq!(error_log_name(1_700_000_000_123), "error-1700000000123.log");
}
