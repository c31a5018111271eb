use crate::cell::cell_bytes;
use crate::envelope::envelope_bytes;
use crate::injective::lemma_envelope_bytes_injective;
use crate::model::{filled, ActionView, ErrorView, EventView, RunView, StageView, Target};
use crate::store::{
    cell_identifiers, collision_free, row_content, row_identifier, row_identifiers, swapped,
    table_identifier,
};
use vstd::prelude::*;

verus! {

/// The event is what a collaborator reports when the content store maps bytes
/// to identifiers as `store` does: an identifier that arrives for a pending
/// target is the one that `store` gives to the bytes of that target.
pub open spec fn faithful(
    store: spec_fn(Seq<u8>) -> Seq<char>,
    run: RunView,
    event: EventView,
) -> bool {
    match event {
        EventView::Stored { target, id } => run.pending(target) ==> id == store(
            run.request_bytes(target),
        ),
        _ => true,
    }
}

/// Every event of the sequence is faithful to `store` in the state in which
/// it arrives.
pub open spec fn all_faithful(
    store: spec_fn(Seq<u8>) -> Seq<char>,
    run: RunView,
    events: Seq<EventView>,
) -> bool
    decreases events.len(),
{
    events.len() == 0 || (all_faithful(store, run, events.drop_last()) && faithful(
        store,
        run.replay(events.drop_last()),
        events.last(),
    ))
}

/// The run is hashing `table`, and every identifier that it holds is the one
/// that `store` gives: to the cell, to the row, to the table. A failed run
/// holds nothing.
pub open spec fn agrees(
    store: spec_fn(Seq<u8>) -> Seq<char>,
    table: Seq<Seq<Option<Seq<char>>>>,
    run: RunView,
) -> bool {
    run.stage is Failed || {
        &&& !(run.stage is Idle)
        &&& run.rows == table
        &&& forall|row: int, col: int|
            0 <= row < run.cell_ids.len() && 0 <= col < run.cell_ids[row].len() && (
            #[trigger] run.cell_ids[row][col]) is Some ==> run.cell_ids[row][col]->0 == store(
                cell_bytes(table[row][col]),
            )
        &&& forall|row: int|
            0 <= row < run.row_ids.len() && (#[trigger] run.row_ids[row]) is Some
                ==> run.row_ids[row]->0 == row_identifier(store, table[row])
        &&& run.table_id is Some ==> run.table_id->0 == table_identifier(store, table)
    }
}

/// The run as it stands when the rows of `table` have just been fetched.
pub open spec fn loaded(
    identity: Seq<char>,
    name: Seq<char>,
    table: Seq<Seq<Option<Seq<char>>>>,
) -> RunView {
    RunView::start(identity, name).step(EventView::RowsFetched { rows: table })
}

/// A faithful event keeps a run in agreement with the store.
pub proof fn lemma_step_agrees(
    store: spec_fn(Seq<u8>) -> Seq<char>,
    table: Seq<Seq<Option<Seq<char>>>>,
    run: RunView,
    event: EventView,
)
    requires
        run.valid(),
        agrees(store, table, run),
        faithful(store, run, event),
    ensures
        agrees(store, table, run.step(event)),
{
    if run.accepts(event) {
        match event {
            EventView::Stored { target: Target::Row { row }, .. } => {
                assert(filled(run.cell_ids[row as int]) =~= cell_identifiers(
                    store,
                    table[row as int],
                ));
            },
            EventView::Stored { target: Target::Table, .. } => {
                assert(filled(run.row_ids) =~= row_identifiers(store, table));
            },
            _ => {},
        }
    }
}

/// Faithful events keep a run valid and in agreement with the store.
pub proof fn lemma_replay_agrees(
    store: spec_fn(Seq<u8>) -> Seq<char>,
    table: Seq<Seq<Option<Seq<char>>>>,
    run: RunView,
    events: Seq<EventView>,
)
    requires
        run.valid(),
        agrees(store, table, run),
        all_faithful(store, run, events),
    ensures
        run.replay(events).valid(),
        agrees(store, table, run.replay(events)),
    decreases events.len(),
{
    if events.len() > 0 {
        lemma_replay_agrees(store, table, run, events.drop_last());
        let before = run.replay(events.drop_last());
        lemma_step_agrees(store, table, before, events.last());
    }
}

/// A run that has just fetched its rows is valid and agrees with every store.
pub proof fn lemma_loaded_agrees(
    store: spec_fn(Seq<u8>) -> Seq<char>,
    identity: Seq<char>,
    name: Seq<char>,
    table: Seq<Seq<Option<Seq<char>>>>,
)
    ensures
        loaded(identity, name, table).valid(),
        agrees(store, table, loaded(identity, name, table)),
{
}

/// The identifier of a table is a function of the table and the store alone:
/// a run over `table` that reaches publication, with a store that answers as
/// `store` does, holds `table_identifier(store, table)`, whatever else
/// happened on the way and in whatever order the identifiers of a level
/// arrived.
pub proof fn lemma_complete_run_holds_table_identifier(
    store: spec_fn(Seq<u8>) -> Seq<char>,
    identity: Seq<char>,
    name: Seq<char>,
    table: Seq<Seq<Option<Seq<char>>>>,
    events: Seq<EventView>,
)
    requires
        all_faithful(store, loaded(identity, name, table), events),
        ({
            let end = loaded(identity, name, table).replay(events);
            end.stage is Publishing || end.stage is Done
        }),
    ensures
        loaded(identity, name, table).replay(events).table_id == Some(
            table_identifier(store, table),
        ),
{
    lemma_replay_agrees(store, table, loaded(identity, name, table), events);
}

/// Hashing a table twice through one store yields the same identifier: two
/// runs over the same table that both reach publication hold the same table
/// identifier.
pub proof fn lemma_runs_are_deterministic(
    store: spec_fn(Seq<u8>) -> Seq<char>,
    identity: Seq<char>,
    name: Seq<char>,
    table: Seq<Seq<Option<Seq<char>>>>,
    first: Seq<EventView>,
    second: Seq<EventView>,
)
    requires
        all_faithful(store, loaded(identity, name, table), first),
        all_faithful(store, loaded(identity, name, table), second),
        ({
            let end = loaded(identity, name, table).replay(first);
            end.stage is Publishing || end.stage is Done
        }),
        ({
            let end = loaded(identity, name, table).replay(second);
            end.stage is Publishing || end.stage is Done
        }),
    ensures
        loaded(identity, name, table).replay(first).table_id == loaded(
            identity,
            name,
            table,
        ).replay(second).table_id,
{
    lemma_complete_run_holds_table_identifier(store, identity, name, table, first);
    lemma_complete_run_holds_table_identifier(store, identity, name, table, second);
}

/// Every identifier of the sequence arrives for the request that a
/// sequential caller has just submitted: the first that is pending.
pub open spec fn in_order(run: RunView, events: Seq<EventView>) -> bool
    decreases events.len(),
{
    events.len() == 0 || (in_order(run, events.drop_last()) && (events.last() is Stored
        ==> run.replay(events.drop_last()).first_pending(events.last()->Stored_target)))
}

/// A sequential run and a concurrent one yield the same identifier: a run
/// that takes every identifier in for the first pending request, and a run
/// over the same table that takes them in as workers finish, in any order,
/// hold the same table identifier when both reach publication.
pub proof fn lemma_sequential_and_concurrent_runs_agree(
    store: spec_fn(Seq<u8>) -> Seq<char>,
    identity: Seq<char>,
    name: Seq<char>,
    table: Seq<Seq<Option<Seq<char>>>>,
    sequential: Seq<EventView>,
    concurrent: Seq<EventView>,
)
    requires
        in_order(loaded(identity, name, table), sequential),
        all_faithful(store, loaded(identity, name, table), sequential),
        all_faithful(store, loaded(identity, name, table), concurrent),
        ({
            let end = loaded(identity, name, table).replay(sequential);
            end.stage is Publishing || end.stage is Done
        }),
        ({
            let end = loaded(identity, name, table).replay(concurrent);
            end.stage is Publishing || end.stage is Done
        }),
    ensures
        loaded(identity, name, table).replay(sequential).table_id == loaded(
            identity,
            name,
            table,
        ).replay(concurrent).table_id,
{
    lemma_runs_are_deterministic(store, identity, name, table, sequential, concurrent);
}

/// At most one request is the first that is pending.
pub proof fn lemma_first_pending_is_unique(run: RunView, a: Target, b: Target)
    requires
        run.first_pending(a),
        run.first_pending(b),
    ensures
        a == b,
{
}

/// What a sequential run does next is determined by its state.
pub proof fn lemma_next_action_is_unique(run: RunView, a: ActionView, b: ActionView)
    requires
        run.is_next(a),
        run.is_next(b),
    ensures
        a == b,
{
}

/// The order in which two identifiers of one level arrive does not matter:
/// taking in the identifiers of two different pending targets in either order
/// leaves the run in the same state.
pub proof fn lemma_arrival_order_is_irrelevant(
    run: RunView,
    first: Target,
    first_id: Seq<char>,
    second: Target,
    second_id: Seq<char>,
)
    requires
        run.valid(),
        run.pending(first),
        run.pending(second),
        first != second,
    ensures
        run.step(EventView::Stored { target: first, id: first_id }).step(
            EventView::Stored { target: second, id: second_id },
        ) == run.step(EventView::Stored { target: second, id: second_id }).step(
            EventView::Stored { target: first, id: first_id },
        ),
{
    let one = run.step(EventView::Stored { target: first, id: first_id });
    let other = run.step(EventView::Stored { target: second, id: second_id });
    let one_two = one.step(EventView::Stored { target: second, id: second_id });
    let other_two = other.step(EventView::Stored { target: first, id: first_id });
    match (first, second) {
        (Target::Cell { .. }, Target::Cell { .. }) => {
            assert(one_two.cell_ids =~~= other_two.cell_ids);
        },
        (Target::Row { .. }, Target::Row { .. }) => {
            assert(one_two.row_ids =~= other_two.row_ids);
        },
        _ => {},
    }
}

/// Order in an envelope: exchanging two identifiers of a list changes the
/// bytes of its envelope exactly when the two identifiers differ.
pub proof fn lemma_envelope_order_matters(ids: Seq<Seq<char>>, i: int, j: int)
    requires
        0 <= i < ids.len(),
        0 <= j < ids.len(),
    ensures
        envelope_bytes(swapped(ids, i, j)) != envelope_bytes(ids) <==> ids[i] != ids[j],
{
    let other = swapped(ids, i, j);
    if ids[i] == ids[j] {
        assert(other =~= ids);
    } else if envelope_bytes(other) == envelope_bytes(ids) {
        lemma_envelope_bytes_injective(other, ids);
    }
}

/// With a store that is free of collisions, rows of different content have
/// different identifiers.
pub proof fn lemma_row_identifier_injective(
    store: spec_fn(Seq<u8>) -> Seq<char>,
    a: Seq<Option<Seq<char>>>,
    b: Seq<Option<Seq<char>>>,
)
    requires
        collision_free(store),
        row_identifier(store, a) == row_identifier(store, b),
    ensures
        row_content(a) == row_content(b),
{
    let ids_a = cell_identifiers(store, a);
    let ids_b = cell_identifiers(store, b);
    lemma_envelope_bytes_injective(ids_a, ids_b);
    assert(row_content(a) =~= row_content(b)) by {
        assert forall|col: int| 0 <= col < a.len() implies cell_bytes(a[col]) == cell_bytes(
            b[col],
        ) by {
            assert(ids_a[col] == store(cell_bytes(a[col])));
        }
    }
}

/// Rows of the same content have the same identifier, whatever the store.
pub proof fn lemma_row_identifier_of_content(
    store: spec_fn(Seq<u8>) -> Seq<char>,
    a: Seq<Option<Seq<char>>>,
    b: Seq<Option<Seq<char>>>,
)
    requires
        row_content(a) == row_content(b),
    ensures
        row_identifier(store, a) == row_identifier(store, b),
{
    assert(cell_identifiers(store, a) =~= cell_identifiers(store, b)) by {
        assert(a.len() == row_content(a).len());
        assert forall|col: int| 0 <= col < a.len() implies store(cell_bytes(a[col])) == store(
            cell_bytes(b[col]),
        ) by {
            assert(row_content(a)[col] == cell_bytes(a[col]));
        }
    }
}

/// Order of cells: with a store that is free of collisions, exchanging two
/// cells of a row changes the identifier of the row exactly when the two
/// cells encode to different bytes.
pub proof fn lemma_cell_order_matters(
    store: spec_fn(Seq<u8>) -> Seq<char>,
    row: Seq<Option<Seq<char>>>,
    i: int,
    j: int,
)
    requires
        collision_free(store),
        0 <= i < row.len(),
        0 <= j < row.len(),
    ensures
        row_identifier(store, swapped(row, i, j)) != row_identifier(store, row) <==> cell_bytes(
            row[i],
        ) != cell_bytes(row[j]),
{
    let other = swapped(row, i, j);
    if cell_bytes(row[i]) == cell_bytes(row[j]) {
        assert(row_content(other) =~= row_content(row));
        lemma_row_identifier_of_content(store, other, row);
    } else if row_identifier(store, other) == row_identifier(store, row) {
        lemma_row_identifier_injective(store, other, row);
        assert(row_content(other)[i] == cell_bytes(other[i]));
    }
}

/// Order of rows: with a store that is free of collisions, exchanging two
/// rows of a table changes the identifier of the table exactly when the two
/// rows differ in content.
pub proof fn lemma_row_order_matters(
    store: spec_fn(Seq<u8>) -> Seq<char>,
    table: Seq<Seq<Option<Seq<char>>>>,
    i: int,
    j: int,
)
    requires
        collision_free(store),
        0 <= i < table.len(),
        0 <= j < table.len(),
    ensures
        table_identifier(store, swapped(table, i, j)) != table_identifier(store, table)
            <==> row_content(table[i]) != row_content(table[j]),
{
    let other = swapped(table, i, j);
    let ids = row_identifiers(store, table);
    let other_ids = row_identifiers(store, other);
    if row_content(table[i]) == row_content(table[j]) {
        lemma_row_identifier_of_content(store, table[i], table[j]);
        assert(other_ids =~= ids);
    } else if table_identifier(store, other) == table_identifier(store, table) {
        lemma_envelope_bytes_injective(other_ids, ids);
        assert(other_ids[i] == row_identifier(store, other[i]));
        lemma_row_identifier_injective(store, table[j], table[i]);
    }
}

/// A missing cell and a cell that holds the empty text encode to the same
/// bytes, namely none, and so hash identically.
pub proof fn lemma_missing_cell_is_empty_cell()
    ensures
        cell_bytes(None) == cell_bytes(Some(Seq::empty())),
        cell_bytes(None) == Seq::<u8>::empty(),
{
}

/// A failed write to the store ends the run: it reports the storage failure
/// with the target of the write, holds no identifier, and stays so whatever
/// arrives later.
pub proof fn lemma_store_failure_is_reported(run: RunView, target: Target, later: EventView)
    requires
        run.pending(target),
    ensures
        ({
            let end = run.step(EventView::StoreFailed { target });
            &&& end.stage == StageView::Failed(ErrorView::StorageFailure { target })
            &&& end.table_id is None
            &&& end.is_next(ActionView::Halt)
            &&& end.step(later) == end
        }),
{
}

/// Done and Failed are terminal: no event changes a run that is in either.
pub proof fn lemma_terminal_stages_absorb(run: RunView, event: EventView)
    requires
        run.stage.terminal(),
    ensures
        run.step(event) == run,
{
}

/// A run publishes at most once, and only a table identifier that it has
/// computed: publication is asked for in the stage Publishing alone, and from
/// there every event that is taken in ends the run.
pub proof fn lemma_publication_is_asked_once(
    run: RunView,
    identity: Seq<char>,
    id: Seq<char>,
    event: EventView,
)
    requires
        run.valid(),
        run.is_next(ActionView::Publish { identity, id }),
    ensures
        run.stage is Publishing,
        run.table_id == Some(id),
        identity == run.identity,
        run.accepts(event) ==> run.step(event).stage.terminal(),
{
}

/// An identifier, once held, is never changed: after any event that does not
/// end the run in failure, every slot that was filled holds what it held.
pub proof fn lemma_identifiers_are_immutable(run: RunView, event: EventView)
    requires
        run.valid(),
        !(run.stage is Idle),
        !(run.step(event).stage is Failed),
    ensures
        ({
            let next = run.step(event);
            &&& next.rows == run.rows
            &&& forall|row: int, col: int|
                0 <= row < run.cell_ids.len() && 0 <= col < run.cell_ids[row].len() && (
                #[trigger] run.cell_ids[row][col]) is Some ==> next.cell_ids[row][col]
                    == run.cell_ids[row][col]
            &&& forall|row: int|
                0 <= row < run.row_ids.len() && (#[trigger] run.row_ids[row]) is Some
                    ==> next.row_ids[row] == run.row_ids[row]
            &&& run.table_id is Some ==> next.table_id == run.table_id
        }),
{
}

} // verus!
