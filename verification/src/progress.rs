use crate::laws::{agrees, lemma_step_agrees, loaded};
use crate::model::{all_filled, blank, blank_cells, grid_filled, EventView, RunView, Target};
use crate::store::table_identifier;
use vstd::prelude::*;

verus! {

/// How many slots of a list hold no identifier.
pub open spec fn unfilled(slots: Seq<Option<Seq<char>>>) -> nat
    decreases slots.len(),
{
    if slots.len() == 0 {
        0
    } else {
        unfilled(slots.drop_last()) + if slots.last() is None {
            1nat
        } else {
            0nat
        }
    }
}

/// How many slots of a grid hold no identifier.
pub open spec fn unfilled_cells(grid: Seq<Seq<Option<Seq<char>>>>) -> nat
    decreases grid.len(),
{
    if grid.len() == 0 {
        0
    } else {
        unfilled_cells(grid.drop_last()) + unfilled(grid.last())
    }
}

/// How many cells a table has.
pub open spec fn cell_count(table: Seq<Seq<Option<Seq<char>>>>) -> nat
    decreases table.len(),
{
    if table.len() == 0 {
        0
    } else {
        cell_count(table.drop_last()) + table.last().len()
    }
}

/// How many identifiers the store still owes a run before it can publish:
/// one for each cell and each row without one, and one for the table.
pub open spec fn owed(run: RunView) -> nat {
    unfilled_cells(run.cell_ids) + unfilled(run.row_ids) + if run.table_id is None {
        1nat
    } else {
        0nat
    }
}

/// Filling an empty slot leaves one empty slot fewer.
pub proof fn lemma_unfilled_update(slots: Seq<Option<Seq<char>>>, index: int, id: Seq<char>)
    requires
        0 <= index < slots.len(),
        slots[index] is None,
    ensures
        unfilled(slots.update(index, Some(id))) + 1 == unfilled(slots),
    decreases slots.len(),
{
    let after = slots.update(index, Some(id));
    if index == slots.len() - 1 {
        assert(after.drop_last() =~= slots.drop_last());
    } else {
        assert(after.drop_last() =~= slots.drop_last().update(index, Some(id)));
        lemma_unfilled_update(slots.drop_last(), index, id);
    }
}

/// Replacing one row of a grid changes the count by the difference of the rows.
pub proof fn lemma_unfilled_cells_update(
    grid: Seq<Seq<Option<Seq<char>>>>,
    row: int,
    slots: Seq<Option<Seq<char>>>,
)
    requires
        0 <= row < grid.len(),
    ensures
        unfilled_cells(grid.update(row, slots)) + unfilled(grid[row]) == unfilled_cells(grid)
            + unfilled(slots),
    decreases grid.len(),
{
    let after = grid.update(row, slots);
    if row == grid.len() - 1 {
        assert(after.drop_last() =~= grid.drop_last());
    } else {
        assert(after.drop_last() =~= grid.drop_last().update(row, slots));
        lemma_unfilled_cells_update(grid.drop_last(), row, slots);
    }
}

/// No slot of a list is empty exactly when every slot is filled.
pub proof fn lemma_unfilled_none(slots: Seq<Option<Seq<char>>>)
    ensures
        unfilled(slots) == 0 <==> all_filled(slots),
    decreases slots.len(),
{
    if slots.len() > 0 {
        lemma_unfilled_none(slots.drop_last());
        let front = slots.drop_last();
        if unfilled(slots) == 0 {
            assert forall|i: int| 0 <= i < slots.len() implies (#[trigger] slots[i]) is Some by {
                if i < front.len() {
                    assert(front[i] == slots[i]);
                }
            }
        }
    }
}

/// No slot of a grid is empty exactly when every slot is filled.
pub proof fn lemma_unfilled_cells_none(grid: Seq<Seq<Option<Seq<char>>>>)
    ensures
        unfilled_cells(grid) == 0 <==> grid_filled(grid),
    decreases grid.len(),
{
    if grid.len() > 0 {
        lemma_unfilled_cells_none(grid.drop_last());
        lemma_unfilled_none(grid.last());
        let front = grid.drop_last();
        if unfilled_cells(grid) == 0 {
            assert forall|r: int| 0 <= r < grid.len() implies all_filled(#[trigger] grid[r]) by {
                if r < front.len() {
                    assert(front[r] == grid[r]);
                }
            }
        }
    }
}

/// A list of empty slots has as many empty slots as it is long.
pub proof fn lemma_unfilled_blank(n: nat)
    ensures
        unfilled(blank(n)) == n,
    decreases n,
{
    if n > 0 {
        assert(blank(n).drop_last() =~= blank((n - 1) as nat));
        lemma_unfilled_blank((n - 1) as nat);
    }
}

/// The empty grid of a table has one empty slot for each cell.
pub proof fn lemma_unfilled_blank_cells(table: Seq<Seq<Option<Seq<char>>>>)
    ensures
        unfilled_cells(blank_cells(table)) == cell_count(table),
    decreases table.len(),
{
    if table.len() > 0 {
        assert(blank_cells(table).drop_last() =~= blank_cells(table.drop_last()));
        lemma_unfilled_blank_cells(table.drop_last());
        lemma_unfilled_blank(table.last().len());
    }
}

/// One store write for each cell, one for each row and one for the table:
/// when its rows have just been fetched, a run is owed that many identifiers.
pub proof fn lemma_loaded_owes(
    identity: Seq<char>,
    name: Seq<char>,
    table: Seq<Seq<Option<Seq<char>>>>,
)
    ensures
        owed(loaded(identity, name, table)) == cell_count(table) + table.len() + 1,
{
    lemma_unfilled_blank_cells(table);
    lemma_unfilled_blank(table.len());
}

/// Every identifier that a run takes in brings it one closer to publication,
/// in whatever order the identifiers arrive.
pub proof fn lemma_stored_pays_one(run: RunView, target: Target, id: Seq<char>)
    requires
        run.valid(),
        run.pending(target),
    ensures
        owed(run.step(EventView::Stored { target, id })) + 1 == owed(run),
{
    match target {
        Target::Cell { row, col } => {
            let slots = run.cell_ids[row as int];
            lemma_unfilled_update(slots, col as int, id);
            lemma_unfilled_cells_update(
                run.cell_ids,
                row as int,
                slots.update(col as int, Some(id)),
            );
        },
        Target::Row { row } => {
            lemma_unfilled_update(run.row_ids, row as int, id);
        },
        Target::Table => {},
    }
}

/// A run asks for publication exactly when nothing is owed: while it hashes,
/// something is owed; when it publishes or is done, nothing is.
pub proof fn lemma_publishes_when_nothing_is_owed(run: RunView)
    requires
        run.valid(),
        !(run.stage is Idle),
        !(run.stage is Failed),
    ensures
        owed(run) == 0 <==> (run.stage is Publishing || run.stage is Done),
{
    lemma_unfilled_cells_none(run.cell_ids);
    lemma_unfilled_none(run.row_ids);
}

/// Nothing but an identifier from the store pays what is owed: every other
/// event either is ignored or ends the run.
pub proof fn lemma_only_identifiers_pay(run: RunView, event: EventView)
    requires
        run.valid(),
        !(event is Stored),
        !(event is RowsFetched),
    ensures
        ({
            let next = run.step(event);
            next == run || next.stage is Failed || (run.stage is Publishing && next.stage is Done
                && owed(next) == owed(run))
        }),
{
}

/// The index of the first empty slot of a list, or its length when every
/// slot is filled.
pub open spec fn first_empty(slots: Seq<Option<Seq<char>>>) -> int
    decreases slots.len(),
{
    if slots.len() == 0 || slots[0] is None {
        0
    } else {
        1 + first_empty(slots.drop_first())
    }
}

/// The index of the first row of a grid that has an empty slot, or the number
/// of rows when every slot is filled.
pub open spec fn first_open_row(grid: Seq<Seq<Option<Seq<char>>>>) -> int
    decreases grid.len(),
{
    if grid.len() == 0 || !all_filled(grid[0]) {
        0
    } else {
        1 + first_open_row(grid.drop_first())
    }
}

/// Before the first empty slot every slot is filled, and the slot itself is empty.
pub proof fn lemma_first_empty(slots: Seq<Option<Seq<char>>>)
    ensures
        0 <= first_empty(slots) <= slots.len(),
        forall|i: int| 0 <= i < first_empty(slots) ==> (#[trigger] slots[i]) is Some,
        first_empty(slots) < slots.len() ==> slots[first_empty(slots)] is None,
    decreases slots.len(),
{
    if !(slots.len() == 0 || slots[0] is None) {
        let rest = slots.drop_first();
        lemma_first_empty(rest);
        assert forall|i: int| 0 <= i < first_empty(slots) implies (#[trigger] slots[i]) is Some by {
            if i > 0 {
                assert(rest[i - 1] == slots[i]);
            }
        }
    }
}

/// Before the first open row every row is filled, and the row itself is not.
pub proof fn lemma_first_open_row(grid: Seq<Seq<Option<Seq<char>>>>)
    ensures
        0 <= first_open_row(grid) <= grid.len(),
        forall|r: int| 0 <= r < first_open_row(grid) ==> all_filled(#[trigger] grid[r]),
        first_open_row(grid) < grid.len() ==> !all_filled(grid[first_open_row(grid)]),
    decreases grid.len(),
{
    if !(grid.len() == 0 || !all_filled(grid[0])) {
        let rest = grid.drop_first();
        lemma_first_open_row(rest);
        assert forall|r: int| 0 <= r < first_open_row(grid) implies all_filled(
            #[trigger] grid[r],
        ) by {
            if r > 0 {
                assert(rest[r - 1] == grid[r]);
            }
        }
    }
}

/// The table is one that a machine can index: the number of its rows, and of
/// the cells of each row, fits the machine's word.
pub open spec fn indexable(table: Seq<Seq<Option<Seq<char>>>>) -> bool {
    &&& table.len() <= usize::MAX
    &&& forall|r: int| 0 <= r < table.len() ==> (#[trigger] table[r]).len() <= usize::MAX
}

/// The request that a sequential caller submits next, while the run hashes.
pub open spec fn first_target(run: RunView) -> Target {
    if run.stage is EncodingCells {
        let row = first_open_row(run.cell_ids);
        Target::Cell { row: row as usize, col: first_empty(run.cell_ids[row]) as usize }
    } else if run.stage is HashingRows {
        Target::Row { row: first_empty(run.row_ids) as usize }
    } else {
        Target::Table
    }
}

/// While a run hashes, something is pending, and `first_target` is the
/// request that comes first.
pub proof fn lemma_first_target_is_first_pending(run: RunView)
    requires
        run.valid(),
        indexable(run.rows),
        run.stage is EncodingCells || run.stage is HashingRows || run.stage is HashingTable,
    ensures
        run.first_pending(first_target(run)),
{
    if run.stage is EncodingCells {
        lemma_first_open_row(run.cell_ids);
        lemma_first_empty(run.cell_ids[first_open_row(run.cell_ids)]);
    } else if run.stage is HashingRows {
        lemma_first_empty(run.row_ids);
    }
}

/// The run after the store has answered the request that comes first.
pub open spec fn answered(store: spec_fn(Seq<u8>) -> Seq<char>, run: RunView) -> RunView {
    let target = first_target(run);
    run.step(EventView::Stored { target, id: store(run.request_bytes(target)) })
}

/// The run after the store has answered `n` requests, one after the other.
pub open spec fn answered_times(
    store: spec_fn(Seq<u8>) -> Seq<char>,
    run: RunView,
    n: nat,
) -> RunView
    decreases n,
{
    if n == 0 {
        run
    } else {
        answered(store, answered_times(store, run, (n - 1) as nat))
    }
}

/// A sequential run keeps going: as long as identifiers are owed, each answer
/// of the store is taken in and pays one.
pub proof fn lemma_answers_are_taken_in(
    store: spec_fn(Seq<u8>) -> Seq<char>,
    identity: Seq<char>,
    name: Seq<char>,
    table: Seq<Seq<Option<Seq<char>>>>,
    n: nat,
)
    requires
        indexable(table),
        n <= cell_count(table) + table.len() + 1,
    ensures
        ({
            let run = answered_times(store, loaded(identity, name, table), n);
            &&& run.valid()
            &&& agrees(store, table, run)
            &&& !(run.stage is Idle)
            &&& !(run.stage is Failed)
            &&& owed(run) + n == cell_count(table) + table.len() + 1
        }),
    decreases n,
{
    lemma_loaded_owes(identity, name, table);
    if n > 0 {
        lemma_answers_are_taken_in(store, identity, name, table, (n - 1) as nat);
        let run = answered_times(store, loaded(identity, name, table), (n - 1) as nat);
        lemma_publishes_when_nothing_is_owed(run);
        lemma_first_target_is_first_pending(run);
        let target = first_target(run);
        let event = EventView::Stored { target, id: store(run.request_bytes(target)) };
        lemma_step_agrees(store, table, run, event);
        lemma_stored_pays_one(run, target, store(run.request_bytes(target)));
    }
}

/// Every table that a machine can index is hashed to the end: after one
/// store write for each cell, one for each row and one for the table, a
/// sequential run asks for the publication of the table's identifier.
pub proof fn lemma_sequential_run_completes(
    store: spec_fn(Seq<u8>) -> Seq<char>,
    identity: Seq<char>,
    name: Seq<char>,
    table: Seq<Seq<Option<Seq<char>>>>,
)
    requires
        indexable(table),
    ensures
        ({
            let writes = cell_count(table) + table.len() + 1;
            let end = answered_times(store, loaded(identity, name, table), writes);
            &&& end.stage is Publishing
            &&& end.table_id == Some(table_identifier(store, table))
            &&& end.identity == identity
        }),
{
    let writes = cell_count(table) + table.len() + 1;
    lemma_answers_are_taken_in(store, identity, name, table, writes);
    let end = answered_times(store, loaded(identity, name, table), writes);
    lemma_identity_is_kept(store, loaded(identity, name, table), writes);
    if end.stage is Done {
        lemma_done_needs_publication(store, identity, name, table, writes);
    }
}

/// Answers of the store leave the identity of a run as it is.
pub proof fn lemma_identity_is_kept(store: spec_fn(Seq<u8>) -> Seq<char>, run: RunView, n: nat)
    ensures
        answered_times(store, run, n).identity == run.identity,
    decreases n,
{
    if n > 0 {
        lemma_identity_is_kept(store, run, (n - 1) as nat);
    }
}

/// Answers of the store alone never end a run: only the publisher's report does.
pub proof fn lemma_done_needs_publication(
    store: spec_fn(Seq<u8>) -> Seq<char>,
    identity: Seq<char>,
    name: Seq<char>,
    table: Seq<Seq<Option<Seq<char>>>>,
    n: nat,
)
    ensures
        !(answered_times(store, loaded(identity, name, table), n).stage is Done),
    decreases n,
{
    if n > 0 {
        lemma_done_needs_publication(store, identity, name, table, (n - 1) as nat);
    }
}

} // verus!
