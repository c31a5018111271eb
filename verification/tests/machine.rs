use table_hash::{Action, Config, Event, PipelineError, Run, Stage, Target};

fn cell_of(value: &str) -> Option<String> {
    Some(value.to_string())
}

fn fresh_run() -> Run {
    let config = Config::new("url".to_string(), "conn".to_string(), "key-1".to_string());
    Run::new(&config, "Orders")
}

fn stored(target: Target, id: &str) -> Event {
    Event::Stored { target, id: id.to_string() }
}

fn two_by_two() -> Vec<Vec<Option<String>>> {
    vec![vec![cell_of("a"), cell_of("b")], vec![cell_of("c"), None]]
}

/// A run that holds the identifier of every cell and row of the two by two table.
fn run_at_table_level() -> Run {
    let mut run = fresh_run();
    assert!(run.advance(Event::RowsFetched { rows: two_by_two() }));
    for (row, col, id) in [(0, 0, "A"), (0, 1, "B"), (1, 0, "C"), (1, 1, "D")] {
        assert!(run.advance(stored(Target::Cell { row, col }, id)));
    }
    assert!(run.advance(stored(Target::Row { row: 0 }, "R0")));
    assert!(run.advance(stored(Target::Row { row: 1 }, "R1")));
    run
}

#[test]
fn a_fresh_run_is_idle_and_asks_for_the_rows() {
    let run = fresh_run();
    assert_eq!(run.stage(), Stage::Idle);
    assert_eq!(run.action(), Action::FetchRows { table: "Orders".to_string() });
    assert_eq!(run.identity(), "key-1");
    assert_eq!(run.table(), "Orders");
    assert_eq!(run.outcome(), None);
    assert_eq!(run.table_id(), None);
    assert!(run.pending_puts().is_empty());
}

#[test]
fn the_stages_follow_each_other() {
    let mut run = fresh_run();
    assert_eq!(run.stage(), Stage::Idle);
    assert!(run.advance(Event::RowsFetched { rows: two_by_two() }));
    assert_eq!(run.stage(), Stage::EncodingCells);
    assert!(run.advance(stored(Target::Cell { row: 0, col: 0 }, "A")));
    assert!(run.advance(stored(Target::Cell { row: 0, col: 1 }, "B")));
    assert!(run.advance(stored(Target::Cell { row: 1, col: 0 }, "C")));
    assert_eq!(run.stage(), Stage::EncodingCells);
    assert!(run.advance(stored(Target::Cell { row: 1, col: 1 }, "D")));
    assert_eq!(run.stage(), Stage::HashingRows);
    assert!(run.advance(stored(Target::Row { row: 0 }, "R0")));
    assert_eq!(run.stage(), Stage::HashingRows);
    assert!(run.advance(stored(Target::Row { row: 1 }, "R1")));
    assert_eq!(run.stage(), Stage::HashingTable);
    assert_eq!(run.table_id(), None);
    assert!(run.advance(stored(Target::Table, "T")));
    assert_eq!(run.stage(), Stage::Publishing);
    assert_eq!(run.table_id(), Some("T".to_string()));
    assert_eq!(run.outcome(), None);
    assert!(run.advance(Event::Published));
    assert_eq!(run.stage(), Stage::Done);
    assert_eq!(run.outcome(), Some(Ok("T".to_string())));
    assert_eq!(run.action(), Action::Halt);
}

#[test]
fn the_requests_carry_the_identifiers_of_the_level_below() {
    let mut run = fresh_run();
    assert!(run.advance(Event::RowsFetched { rows: two_by_two() }));
    assert_eq!(
        run.action(),
        Action::Put { target: Target::Cell { row: 0, col: 0 }, bytes: b"a".to_vec() }
    );
    for (row, col, id) in [(0, 0, "A"), (0, 1, "B"), (1, 0, "C"), (1, 1, "D")] {
        assert!(run.advance(stored(Target::Cell { row, col }, id)));
    }
    assert_eq!(
        run.action(),
        Action::Put { target: Target::Row { row: 0 }, bytes: b"[\"A\",\"B\"]".to_vec() }
    );
    assert!(run.advance(stored(Target::Row { row: 0 }, "R0")));
    assert_eq!(
        run.action(),
        Action::Put { target: Target::Row { row: 1 }, bytes: b"[\"C\",\"D\"]".to_vec() }
    );
    assert!(run.advance(stored(Target::Row { row: 1 }, "R1")));
    assert_eq!(
        run.action(),
        Action::Put { target: Target::Table, bytes: b"[\"R0\",\"R1\"]".to_vec() }
    );
    assert!(run.advance(stored(Target::Table, "T")));
    assert_eq!(
        run.action(),
        Action::Publish { identity: "key-1".to_string(), id: "T".to_string() }
    );
}

#[test]
fn identifiers_keep_their_place_whatever_the_order_of_arrival() {
    let mut run = fresh_run();
    assert!(run.advance(Event::RowsFetched { rows: two_by_two() }));
    for (row, col, id) in [(1, 1, "D"), (0, 1, "B"), (1, 0, "C"), (0, 0, "A")] {
        assert_eq!(run.stage(), Stage::EncodingCells);
        assert!(run.advance(stored(Target::Cell { row, col }, id)));
    }
    assert_eq!(run.stage(), Stage::HashingRows);
    let expected: Vec<(Target, Vec<u8>)> = vec![
        (Target::Row { row: 0 }, b"[\"A\",\"B\"]".to_vec()),
        (Target::Row { row: 1 }, b"[\"C\",\"D\"]".to_vec()),
    ];
    assert_eq!(run.pending_puts(), expected);
    assert!(run.advance(stored(Target::Row { row: 1 }, "R1")));
    assert!(run.advance(stored(Target::Row { row: 0 }, "R0")));
    assert_eq!(
        run.action(),
        Action::Put { target: Target::Table, bytes: b"[\"R0\",\"R1\"]".to_vec() }
    );
}

#[test]
fn the_fan_out_lists_what_is_pending_in_order() {
    let rows = vec![vec![cell_of("a"), None], vec![], vec![cell_of("é")]];
    let mut run = fresh_run();
    assert!(run.advance(Event::RowsFetched { rows }));
    let all: Vec<(Target, Vec<u8>)> = vec![
        (Target::Cell { row: 0, col: 0 }, b"a".to_vec()),
        (Target::Cell { row: 0, col: 1 }, Vec::new()),
        (Target::Cell { row: 2, col: 0 }, vec![0xc3, 0xa9]),
    ];
    assert_eq!(run.pending_puts(), all);
    assert!(run.advance(stored(Target::Cell { row: 0, col: 1 }, "B")));
    let left: Vec<(Target, Vec<u8>)> = vec![all[0].clone(), all[2].clone()];
    assert_eq!(run.pending_puts(), left);
    assert_eq!(run.action(), Action::Put { target: all[0].0, bytes: all[0].1.clone() });
    assert!(run.advance(stored(Target::Cell { row: 0, col: 0 }, "A")));
    assert_eq!(run.action(), Action::Put { target: all[2].0, bytes: all[2].1.clone() });
    assert!(run.advance(stored(Target::Cell { row: 2, col: 0 }, "E")));
    let rows_level: Vec<(Target, Vec<u8>)> = vec![
        (Target::Row { row: 0 }, b"[\"A\",\"B\"]".to_vec()),
        (Target::Row { row: 1 }, b"[]".to_vec()),
        (Target::Row { row: 2 }, b"[\"E\"]".to_vec()),
    ];
    assert_eq!(run.pending_puts(), rows_level);
    for row in 0..3 {
        assert!(run.advance(stored(Target::Row { row }, "R")));
    }
    let table_level: Vec<(Target, Vec<u8>)> =
        vec![(Target::Table, b"[\"R\",\"R\",\"R\"]".to_vec())];
    assert_eq!(run.pending_puts(), table_level);
    assert!(run.advance(stored(Target::Table, "T")));
    assert!(run.pending_puts().is_empty());
}

#[test]
fn what_answers_nothing_is_ignored() {
    let mut run = fresh_run();
    assert!(!run.advance(stored(Target::Table, "T")));
    assert!(!run.advance(Event::Published));
    assert!(!run.advance(Event::PublishFailed));
    assert!(!run.advance(Event::StoreFailed { target: Target::Table }));
    assert_eq!(run.stage(), Stage::Idle);

    assert!(run.advance(Event::RowsFetched { rows: two_by_two() }));
    assert!(!run.advance(Event::RowsFetched { rows: Vec::new() }));
    assert!(!run.advance(Event::QueryFailed));
    assert!(!run.advance(stored(Target::Cell { row: 2, col: 0 }, "X")));
    assert!(!run.advance(stored(Target::Cell { row: 0, col: 2 }, "X")));
    assert!(!run.advance(stored(Target::Row { row: 0 }, "X")));
    assert!(!run.advance(stored(Target::Table, "X")));
    assert!(!run.advance(Event::StoreFailed { target: Target::Row { row: 0 } }));
    assert!(run.advance(stored(Target::Cell { row: 0, col: 0 }, "A")));
    assert!(!run.advance(stored(Target::Cell { row: 0, col: 0 }, "again")));
    assert!(!run.advance(Event::StoreFailed { target: Target::Cell { row: 0, col: 0 } }));
    assert_eq!(run.stage(), Stage::EncodingCells);
    assert_eq!(
        run.action(),
        Action::Put { target: Target::Cell { row: 0, col: 1 }, bytes: b"b".to_vec() }
    );
    assert!(run.is_pending(Target::Cell { row: 0, col: 1 }));
    assert!(!run.is_pending(Target::Cell { row: 0, col: 0 }));
    assert!(!run.is_pending(Target::Row { row: 0 }));
    assert!(!run.is_pending(Target::Table));
}

#[test]
fn a_failed_query_fails_the_run() {
    let mut run = fresh_run();
    assert!(run.advance(Event::QueryFailed));
    let error = PipelineError::QueryFailure { table: "Orders".to_string() };
    assert_eq!(run.stage(), Stage::Failed(error.clone()));
    assert_eq!(run.outcome(), Some(Err(error)));
    assert_eq!(run.action(), Action::Halt);
}

#[test]
fn a_failed_publication_keeps_the_identifier_in_the_error() {
    let mut run = run_at_table_level();
    assert!(run.advance(stored(Target::Table, "T")));
    assert!(run.advance(Event::PublishFailed));
    let error =
        PipelineError::PublishFailure { identity: "key-1".to_string(), id: "T".to_string() };
    assert_eq!(run.outcome(), Some(Err(error)));
    assert_eq!(run.action(), Action::Halt);
    assert!(!run.advance(Event::Published));
}

#[test]
fn a_cancelled_run_fails_at_once() {
    let mut idle = fresh_run();
    assert!(idle.advance(Event::Cancelled));
    assert_eq!(idle.outcome(), Some(Err(PipelineError::Cancelled)));

    let mut hashing = fresh_run();
    assert!(hashing.advance(Event::RowsFetched { rows: two_by_two() }));
    assert!(hashing.advance(stored(Target::Cell { row: 0, col: 0 }, "A")));
    assert!(hashing.advance(Event::Cancelled));
    assert_eq!(hashing.stage(), Stage::Failed(PipelineError::Cancelled));
    assert_eq!(hashing.action(), Action::Halt);
    assert!(hashing.pending_puts().is_empty());
    assert_eq!(hashing.table_id(), None);

    let mut publishing = run_at_table_level();
    assert!(publishing.advance(stored(Target::Table, "T")));
    assert!(publishing.advance(Event::Cancelled));
    assert_eq!(publishing.outcome(), Some(Err(PipelineError::Cancelled)));
}

#[test]
fn a_run_that_ended_takes_nothing_in() {
    let mut done = run_at_table_level();
    assert!(done.advance(stored(Target::Table, "T")));
    assert!(done.advance(Event::Published));
    assert!(!done.advance(Event::Cancelled));
    assert!(!done.advance(Event::Published));
    assert!(!done.advance(Event::PublishFailed));
    assert!(!done.advance(Event::RowsFetched { rows: Vec::new() }));
    assert!(!done.advance(stored(Target::Table, "other")));
    assert_eq!(done.outcome(), Some(Ok("T".to_string())));

    let mut failed = fresh_run();
    assert!(failed.advance(Event::RowsFetched { rows: two_by_two() }));
    assert!(failed.advance(Event::StoreFailed { target: Target::Cell { row: 1, col: 0 } }));
    let error = PipelineError::StorageFailure { target: Target::Cell { row: 1, col: 0 } };
    assert!(!failed.advance(Event::Cancelled));
    assert!(!failed.advance(stored(Target::Cell { row: 0, col: 0 }, "A")));
    assert!(!failed.advance(Event::RowsFetched { rows: two_by_two() }));
    assert_eq!(failed.outcome(), Some(Err(error)));
}

#[test]
fn a_failure_out_of_order_names_its_own_target() {
    let mut run = fresh_run();
    assert!(run.advance(Event::RowsFetched { rows: two_by_two() }));
    assert!(run.advance(stored(Target::Cell { row: 1, col: 1 }, "D")));
    assert!(run.advance(Event::StoreFailed { target: Target::Cell { row: 1, col: 0 } }));
    let error = PipelineError::StorageFailure { target: Target::Cell { row: 1, col: 0 } };
    assert_eq!(run.outcome(), Some(Err(error)));
}
