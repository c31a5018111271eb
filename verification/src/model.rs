use crate::cell::cell_bytes;
use crate::envelope::envelope_bytes;
use vstd::prelude::*;

verus! {

/// What a request to the content store is for: one cell, the envelope of one
/// row, or the envelope of the table. Rows and columns count from zero.
#[derive(Clone, Copy, Debug, PartialEq, Eq, Hash, Structural)]
pub enum Target {
    Cell { row: usize, col: usize },
    Row { row: usize },
    Table,
}

/// Why a run failed.
pub enum ErrorView {
    QueryFailure { table: Seq<char> },
    StorageFailure { target: Target },
    PublishFailure { identity: Seq<char>, id: Seq<char> },
    Cancelled,
}

/// Where a run stands.
pub enum StageView {
    Idle,
    EncodingCells,
    HashingRows,
    HashingTable,
    Publishing,
    Done,
    Failed(ErrorView),
}

/// What a collaborator reports back to a run.
pub enum EventView {
    RowsFetched { rows: Seq<Seq<Option<Seq<char>>>> },
    QueryFailed,
    Stored { target: Target, id: Seq<char> },
    StoreFailed { target: Target },
    Published,
    PublishFailed,
    Cancelled,
}

/// What a run asks of its collaborators.
pub enum ActionView {
    FetchRows { table: Seq<char> },
    Put { target: Target, bytes: Seq<u8> },
    Publish { identity: Seq<char>, id: Seq<char> },
    Halt,
}

/// The state of one table run: the table, and the identifier that each cell,
/// each row and the table has received so far.
pub struct RunView {
    pub identity: Seq<char>,
    pub table: Seq<char>,
    pub stage: StageView,
    pub rows: Seq<Seq<Option<Seq<char>>>>,
    pub cell_ids: Seq<Seq<Option<Seq<char>>>>,
    pub row_ids: Seq<Option<Seq<char>>>,
    pub table_id: Option<Seq<char>>,
}

/// One empty slot for each of `n` identifiers.
pub open spec fn blank(n: nat) -> Seq<Option<Seq<char>>> {
    Seq::new(n, |i: int| None)
}

/// One empty slot for each cell of a table.
pub open spec fn blank_cells(rows: Seq<Seq<Option<Seq<char>>>>) -> Seq<Seq<Option<Seq<char>>>> {
    Seq::new(rows.len(), |r: int| blank(rows[r].len()))
}

/// The identifiers that a list of filled slots holds, in order.
pub open spec fn filled(slots: Seq<Option<Seq<char>>>) -> Seq<Seq<char>> {
    Seq::new(slots.len(), |i: int| slots[i]->0)
}

/// Every slot of a list holds an identifier.
pub open spec fn all_filled(slots: Seq<Option<Seq<char>>>) -> bool {
    forall|i: int| 0 <= i < slots.len() ==> (#[trigger] slots[i]) is Some
}

/// No slot of a list holds an identifier.
pub open spec fn none_filled(slots: Seq<Option<Seq<char>>>) -> bool {
    forall|i: int| 0 <= i < slots.len() ==> (#[trigger] slots[i]) is None
}

/// Every slot of every row holds an identifier.
pub open spec fn grid_filled(grid: Seq<Seq<Option<Seq<char>>>>) -> bool {
    forall|r: int| 0 <= r < grid.len() ==> all_filled(#[trigger] grid[r])
}

/// The grid has one row of slots for each row of the table, and in it one
/// slot for each cell.
pub open spec fn same_shape(
    rows: Seq<Seq<Option<Seq<char>>>>,
    grid: Seq<Seq<Option<Seq<char>>>>,
) -> bool {
    &&& grid.len() == rows.len()
    &&& forall|r: int| 0 <= r < grid.len() ==> (#[trigger] grid[r]).len() == rows[r].len()
}

/// Whether the first target comes before the second in the order in which a
/// sequential run submits the requests of one level: cells row by row and
/// within a row by column, rows by index.
pub open spec fn precedes(a: Target, b: Target) -> bool {
    match (a, b) {
        (Target::Cell { row: r1, col: c1 }, Target::Cell { row: r2, col: c2 }) => r1 < r2 || (r1
            == r2 && c1 < c2),
        (Target::Row { row: r1 }, Target::Row { row: r2 }) => r1 < r2,
        _ => false,
    }
}

impl StageView {
    /// Done and Failed are terminal: a run in either accepts no event.
    pub open spec fn terminal(self) -> bool {
        self is Done || self is Failed
    }
}

impl RunView {
    /// A fresh run, before its rows are fetched.
    pub open spec fn start(identity: Seq<char>, table: Seq<char>) -> RunView {
        RunView {
            identity,
            table,
            stage: StageView::Idle,
            rows: Seq::empty(),
            cell_ids: Seq::empty(),
            row_ids: Seq::empty(),
            table_id: None,
        }
    }

    pub open spec fn has_cell(self, row: int, col: int) -> bool {
        0 <= row < self.rows.len() && 0 <= col < self.rows[row].len()
    }

    pub open spec fn has_row(self, row: int) -> bool {
        0 <= row < self.rows.len()
    }

    /// There is one slot for each cell and one for each row.
    pub open spec fn shaped(self) -> bool {
        &&& same_shape(self.rows, self.cell_ids)
        &&& self.row_ids.len() == self.rows.len()
    }

    pub open spec fn cells_filled(self) -> bool {
        grid_filled(self.cell_ids)
    }

    pub open spec fn rows_filled(self) -> bool {
        all_filled(self.row_ids)
    }

    pub open spec fn no_row_filled(self) -> bool {
        none_filled(self.row_ids)
    }

    /// The stage that the slots have reached. Each level is a barrier: rows
    /// are hashed once every cell has its identifier, the table once every row
    /// has, and the result is published once the table has.
    pub open spec fn reached(self) -> StageView {
        if !self.cells_filled() {
            StageView::EncodingCells
        } else if !self.rows_filled() {
            StageView::HashingRows
        } else if self.table_id is None {
            StageView::HashingTable
        } else {
            StageView::Publishing
        }
    }

    /// What holds of every run: before the rows are fetched and after a
    /// failure nothing is held; in between, the stage is the one that the slots
    /// have reached and no level is ahead of the one below it.
    pub open spec fn valid(self) -> bool {
        match self.stage {
            StageView::Idle | StageView::Failed(_) => {
                &&& self.rows.len() == 0
                &&& self.cell_ids.len() == 0
                &&& self.row_ids.len() == 0
                &&& self.table_id is None
            },
            StageView::Done => {
                &&& self.shaped()
                &&& self.cells_filled()
                &&& self.rows_filled()
                &&& self.table_id is Some
            },
            _ => {
                &&& self.shaped()
                &&& self.stage == self.reached()
                &&& !self.cells_filled() ==> self.no_row_filled()
                &&& !self.rows_filled() ==> self.table_id is None
            },
        }
    }

    /// Whether the store still owes the run the identifier of this target.
    pub open spec fn pending(self, target: Target) -> bool {
        match target {
            Target::Cell { row, col } => {
                &&& self.stage is EncodingCells
                &&& self.has_cell(row as int, col as int)
                &&& self.cell_ids[row as int][col as int] is None
            },
            Target::Row { row } => {
                &&& self.stage is HashingRows
                &&& self.has_row(row as int)
                &&& self.row_ids[row as int] is None
            },
            Target::Table => self.stage is HashingTable,
        }
    }

    /// The pending target that a sequential run submits next.
    pub open spec fn first_pending(self, target: Target) -> bool {
        &&& self.pending(target)
        &&& forall|other: Target| #[trigger] self.pending(other) ==> !precedes(other, target)
    }

    /// The bytes that are submitted to the store for a target: a cell's
    /// encoding, or the envelope of the identifiers one level below.
    pub open spec fn request_bytes(self, target: Target) -> Seq<u8> {
        match target {
            Target::Cell { row, col } => cell_bytes(self.rows[row as int][col as int]),
            Target::Row { row } => envelope_bytes(filled(self.cell_ids[row as int])),
            Target::Table => envelope_bytes(filled(self.row_ids)),
        }
    }

    /// The list holds pending requests only, each with the bytes to submit,
    /// in the order in which a sequential run submits them.
    pub open spec fn lists(self, puts: Seq<(Target, Seq<u8>)>) -> bool {
        &&& forall|i: int|
            0 <= i < puts.len() ==> self.pending((#[trigger] puts[i]).0) && puts[i].1
                == self.request_bytes(puts[i].0)
        &&& forall|i: int, j: int|
            0 <= i < j < puts.len() ==> precedes((#[trigger] puts[i]).0, (#[trigger] puts[j]).0)
    }

    /// The list is the fan-out of the level that the run has reached: every
    /// pending request, once, in order.
    pub open spec fn fans_out(self, puts: Seq<(Target, Seq<u8>)>) -> bool {
        &&& self.lists(puts)
        &&& forall|target: Target| #[trigger]
            self.pending(target) ==> exists|i: int|
                0 <= i < puts.len() && (#[trigger] puts[i]).0 == target
    }

    /// Whether the action is what a sequential run does next.
    pub open spec fn is_next(self, action: ActionView) -> bool {
        match self.stage {
            StageView::Idle => action == (ActionView::FetchRows { table: self.table }),
            StageView::EncodingCells | StageView::HashingRows | StageView::HashingTable => {
                &&& action is Put
                &&& self.first_pending(action->target)
                &&& action->bytes == self.request_bytes(action->target)
            },
            StageView::Publishing => action == (ActionView::Publish {
                identity: self.identity,
                id: self.table_id->0,
            }),
            StageView::Done | StageView::Failed(_) => action is Halt,
        }
    }

    /// Whether the event answers something that the run is waiting for. An
    /// event that does not is ignored.
    pub open spec fn accepts(self, event: EventView) -> bool {
        match event {
            EventView::RowsFetched { .. } | EventView::QueryFailed => self.stage is Idle,
            EventView::Stored { target, .. } | EventView::StoreFailed { target } => self.pending(
                target,
            ),
            EventView::Published | EventView::PublishFailed => self.stage is Publishing,
            EventView::Cancelled => !self.stage.terminal(),
        }
    }

    /// The run with the identifier of a target put into its slot.
    pub open spec fn fill(self, target: Target, id: Seq<char>) -> RunView {
        match target {
            Target::Cell { row, col } => RunView {
                cell_ids: self.cell_ids.update(
                    row as int,
                    self.cell_ids[row as int].update(col as int, Some(id)),
                ),
                ..self
            },
            Target::Row { row } => RunView {
                row_ids: self.row_ids.update(row as int, Some(id)),
                ..self
            },
            Target::Table => RunView { table_id: Some(id), ..self },
        }
    }

    /// The run moved to the stage that its slots have reached.
    pub open spec fn settled(self) -> RunView {
        RunView { stage: self.reached(), ..self }
    }

    /// The failed run: every identifier computed so far is discarded.
    pub open spec fn failed(self, error: ErrorView) -> RunView {
        RunView {
            stage: StageView::Failed(error),
            rows: Seq::empty(),
            cell_ids: Seq::empty(),
            row_ids: Seq::empty(),
            table_id: None,
            ..self
        }
    }

    /// The run after an event: the next state of the state machine.
    pub open spec fn step(self, event: EventView) -> RunView {
        if !self.accepts(event) {
            self
        } else {
            match event {
                EventView::RowsFetched { rows } => RunView {
                    rows,
                    cell_ids: blank_cells(rows),
                    row_ids: blank(rows.len()),
                    table_id: None,
                    ..self
                }.settled(),
                EventView::QueryFailed => self.failed(
                    ErrorView::QueryFailure { table: self.table },
                ),
                EventView::Stored { target, id } => self.fill(target, id).settled(),
                EventView::StoreFailed { target } => self.failed(
                    ErrorView::StorageFailure { target },
                ),
                EventView::Published => RunView { stage: StageView::Done, ..self },
                EventView::PublishFailed => self.failed(
                    ErrorView::PublishFailure { identity: self.identity, id: self.table_id->0 },
                ),
                EventView::Cancelled => self.failed(ErrorView::Cancelled),
            }
        }
    }

    /// The run after a sequence of events, in the order given.
    pub open spec fn replay(self, events: Seq<EventView>) -> RunView
        decreases events.len(),
    {
        if events.len() == 0 {
            self
        } else {
            self.replay(events.drop_last()).step(events.last())
        }
    }
}

/// Every step keeps a run valid.
pub proof fn lemma_step_valid(run: RunView, event: EventView)
    requires
        run.valid(),
    ensures
        run.step(event).valid(),
{
}

} // verus!
