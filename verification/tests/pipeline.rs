use table_hash::{Action, Config, Event, PipelineError, Run, Stage, Target};

fn text(value: &str) -> Option<String> {
    Some(value.to_string())
}

fn settings() -> Config {
    Config::new(
        "http://localhost:5001".to_string(),
        "mysql://user@localhost/db".to_string(),
        "publisher-key".to_string(),
    )
}

/// A deterministic stand-in for the content store: the identifier is the
/// 32-bit FNV-1a checksum of the bytes, as eight hexadecimal digits.
fn checksum_store(bytes: &[u8]) -> String {
    let mut hash: u32 = 0x811c_9dc5;
    for byte in bytes {
        hash ^= u32::from(*byte);
        hash = hash.wrapping_mul(0x0100_0193);
    }
    format!("{:08x}", hash)
}

/// A stand-in for the content store that never gives two inputs the same
/// identifier: the identifier spells the bytes out in hexadecimal.
fn spelling_store(bytes: &[u8]) -> String {
    let mut id = String::new();
    for byte in bytes {
        id.push_str(&format!("{:02x}", byte));
    }
    id
}

struct Seen {
    fetched: Vec<String>,
    puts: Vec<(Target, Vec<u8>)>,
    published: Vec<(String, String)>,
}

/// Performs one action after the other, as a sequential caller does.
fn drive_in_order(
    run: &mut Run,
    rows: &Vec<Vec<Option<String>>>,
    store: &dyn Fn(&Target, &[u8]) -> Option<String>,
) -> Seen {
    let mut seen = Seen { fetched: Vec::new(), puts: Vec::new(), published: Vec::new() };
    loop {
        match run.action() {
            Action::FetchRows { table } => {
                seen.fetched.push(table);
                assert!(run.advance(Event::RowsFetched { rows: rows.clone() }));
            }
            Action::Put { target, bytes } => {
                let event = match store(&target, &bytes) {
                    Some(id) => Event::Stored { target, id },
                    None => Event::StoreFailed { target },
                };
                seen.puts.push((target, bytes));
                assert!(run.advance(event));
            }
            Action::Publish { identity, id } => {
                seen.published.push((identity, id));
                assert!(run.advance(Event::Published));
            }
            Action::Halt => return seen,
        }
    }
}

/// Submits the requests of each level together and hands the identifiers
/// back last first, as a pool of workers that finish out of order may.
fn drive_out_of_order(
    run: &mut Run,
    rows: &Vec<Vec<Option<String>>>,
    store: &dyn Fn(&[u8]) -> String,
) -> Vec<(String, String)> {
    let mut published = Vec::new();
    loop {
        match run.action() {
            Action::FetchRows { .. } => {
                assert!(run.advance(Event::RowsFetched { rows: rows.clone() }));
            }
            Action::Put { .. } => {
                let mut answers = Vec::new();
                for (target, bytes) in run.pending_puts() {
                    answers.push((target, store(&bytes)));
                }
                answers.reverse();
                for (target, id) in answers {
                    assert!(run.advance(Event::Stored { target, id }));
                }
            }
            Action::Publish { identity, id } => {
                published.push((identity, id));
                assert!(run.advance(Event::Published));
            }
            Action::Halt => return published,
        }
    }
}

fn hash_table(rows: &Vec<Vec<Option<String>>>, store: &dyn Fn(&[u8]) -> String) -> String {
    let mut run = Run::new(&settings(), "Table1");
    drive_in_order(&mut run, rows, &|_, bytes| Some(store(bytes)));
    match run.outcome() {
        Some(Ok(id)) => id,
        other => panic!("the run did not finish: {:?}", other),
    }
}

fn example_table() -> Vec<Vec<Option<String>>> {
    vec![vec![text("a"), text("b")], vec![text("c"), None]]
}

#[test]
fn end_to_end_example() {
    let rows = example_table();
    let mut run = Run::new(&settings(), "Table1");
    let seen = drive_in_order(&mut run, &rows, &|_, bytes| Some(checksum_store(bytes)));

    assert_eq!(seen.fetched, vec!["Table1".to_string()]);
    let expected_puts: Vec<(Target, Vec<u8>)> = vec![
        (Target::Cell { row: 0, col: 0 }, b"a".to_vec()),
        (Target::Cell { row: 0, col: 1 }, b"b".to_vec()),
        (Target::Cell { row: 1, col: 0 }, b"c".to_vec()),
        (Target::Cell { row: 1, col: 1 }, b"".to_vec()),
        (Target::Row { row: 0 }, b"[\"e40c292c\",\"e70c2de5\"]".to_vec()),
        (Target::Row { row: 1 }, b"[\"e60c2c52\",\"811c9dc5\"]".to_vec()),
        (Target::Table, b"[\"ce47c6ee\",\"281e0d99\"]".to_vec()),
    ];
    assert_eq!(seen.puts, expected_puts);
    assert_eq!(seen.published, vec![("publisher-key".to_string(), "30acb05d".to_string())]);
    assert_eq!(run.stage(), Stage::Done);
    assert_eq!(run.outcome(), Some(Ok("30acb05d".to_string())));
    assert_eq!(run.table_id(), Some("30acb05d".to_string()));
}

#[test]
fn hashing_a_table_twice_gives_the_same_identifier() {
    let rows = example_table();
    let first = hash_table(&rows, &checksum_store);
    let second = hash_table(&rows, &checksum_store);
    assert_eq!(first, second);
    assert_eq!(first, "30acb05d");
}

#[test]
fn the_store_stand_in_is_idempotent() {
    assert_eq!(checksum_store(b"same bytes"), checksum_store(b"same bytes"));
    assert_eq!(spelling_store(b"same bytes"), spelling_store(b"same bytes"));
    assert_eq!(checksum_store(b""), "811c9dc5");
    assert_eq!(spelling_store(b"ab"), "6162");
}

#[test]
fn swapping_rows_of_different_content_changes_the_table_identifier() {
    let rows = example_table();
    let swapped = vec![rows[1].clone(), rows[0].clone()];
    assert_ne!(hash_table(&rows, &spelling_store), hash_table(&swapped, &spelling_store));
    assert_ne!(hash_table(&rows, &checksum_store), hash_table(&swapped, &checksum_store));
}

#[test]
fn swapping_cells_of_different_content_changes_the_identifier() {
    let rows = vec![vec![text("a"), text("b"), text("c")]];
    let swapped = vec![vec![text("c"), text("b"), text("a")]];
    assert_ne!(hash_table(&rows, &spelling_store), hash_table(&swapped, &spelling_store));
}

#[test]
fn swapping_equal_rows_or_cells_changes_nothing() {
    let rows = vec![vec![text("x"), text("y"), text("x")], vec![text("z")], vec![
        text("x"),
        text("y"),
        text("x"),
    ]];
    let rows_swapped = vec![rows[2].clone(), rows[1].clone(), rows[0].clone()];
    assert_eq!(hash_table(&rows, &spelling_store), hash_table(&rows_swapped, &spelling_store));
    let cells_swapped = vec![
        vec![rows[0][2].clone(), rows[0][1].clone(), rows[0][0].clone()],
        rows[1].clone(),
        rows[2].clone(),
    ];
    assert_eq!(hash_table(&rows, &spelling_store), hash_table(&cells_swapped, &spelling_store));
}

#[test]
fn a_missing_cell_hashes_like_an_empty_cell() {
    let with_missing = vec![vec![text("a"), None]];
    let with_empty = vec![vec![text("a"), text("")]];
    assert_eq!(
        hash_table(&with_missing, &spelling_store),
        hash_table(&with_empty, &spelling_store)
    );
    assert_eq!(
        hash_table(&with_missing, &checksum_store),
        hash_table(&with_empty, &checksum_store)
    );
}

#[test]
fn a_failed_cell_write_fails_the_run() {
    let rows = vec![
        vec![text("a"), text("b")],
        vec![text("c"), text("d")],
        vec![text("e"), text("f")],
        vec![text("g"), text("h")],
    ];
    let failing = Target::Cell { row: 2, col: 1 };
    let mut run = Run::new(&settings(), "Table1");
    let seen = drive_in_order(&mut run, &rows, &|target, bytes| {
        if *target == failing {
            None
        } else {
            Some(checksum_store(bytes))
        }
    });
    let error = PipelineError::StorageFailure { target: Target::Cell { row: 2, col: 1 } };
    assert_eq!(run.stage(), Stage::Failed(error.clone()));
    assert_eq!(run.outcome(), Some(Err(error)));
    assert_eq!(run.table_id(), None);
    assert!(seen.published.is_empty());
    assert_eq!(seen.puts.len(), 6);
    assert_eq!(seen.puts[5].0, failing);
    assert_eq!(run.action(), Action::Halt);
}

#[test]
fn a_failed_row_envelope_write_fails_the_run() {
    let rows = example_table();
    let mut run = Run::new(&settings(), "Table1");
    let seen = drive_in_order(&mut run, &rows, &|target, bytes| match target {
        Target::Row { row: 1 } => None,
        _ => Some(checksum_store(bytes)),
    });
    let error = PipelineError::StorageFailure { target: Target::Row { row: 1 } };
    assert_eq!(run.outcome(), Some(Err(error)));
    assert!(seen.published.is_empty());
    assert_eq!(seen.puts.len(), 6);
}

#[test]
fn a_failed_table_envelope_write_fails_the_run() {
    let rows = example_table();
    let mut run = Run::new(&settings(), "Table1");
    let seen = drive_in_order(&mut run, &rows, &|target, bytes| match target {
        Target::Table => None,
        _ => Some(checksum_store(bytes)),
    });
    let error = PipelineError::StorageFailure { target: Target::Table };
    assert_eq!(run.outcome(), Some(Err(error)));
    assert!(seen.published.is_empty());
    assert_eq!(seen.puts.len(), 7);
    assert_eq!(run.table_id(), None);
}

#[test]
fn out_of_order_arrival_gives_the_same_identifier() {
    let rows = vec![
        vec![text("a"), text("b"), None],
        vec![],
        vec![text("c"), None],
        vec![text("d")],
    ];
    let in_order = hash_table(&rows, &checksum_store);

    let mut run = Run::new(&settings(), "Table1");
    let published = drive_out_of_order(&mut run, &rows, &checksum_store);
    assert_eq!(run.outcome(), Some(Ok(in_order.clone())));
    assert_eq!(published, vec![("publisher-key".to_string(), in_order)]);
}

#[test]
fn out_of_order_arrival_gives_the_example_identifier() {
    let rows = example_table();
    let mut run = Run::new(&settings(), "Table1");
    drive_out_of_order(&mut run, &rows, &checksum_store);
    assert_eq!(run.outcome(), Some(Ok("30acb05d".to_string())));
}

#[test]
fn an_empty_table_is_hashed_as_an_empty_envelope() {
    let rows: Vec<Vec<Option<String>>> = Vec::new();
    let mut run = Run::new(&settings(), "Table1");
    let seen = drive_in_order(&mut run, &rows, &|_, bytes| Some(checksum_store(bytes)));
    assert_eq!(seen.puts, vec![(Target::Table, b"[]".to_vec())]);
    assert_eq!(run.outcome(), Some(Ok("741638a5".to_string())));
}

#[test]
fn a_row_without_cells_is_hashed_as_an_empty_envelope() {
    let rows: Vec<Vec<Option<String>>> = vec![Vec::new()];
    let mut run = Run::new(&settings(), "Table1");
    let seen = drive_in_order(&mut run, &rows, &|_, bytes| Some(checksum_store(bytes)));
    let expected: Vec<(Target, Vec<u8>)> = vec![
        (Target::Row { row: 0 }, b"[]".to_vec()),
        (Target::Table, b"[\"741638a5\"]".to_vec()),
    ];
    assert_eq!(seen.puts, expected);
    assert_eq!(run.outcome(), Some(Ok("0147071c".to_string())));
}
