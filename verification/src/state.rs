use crate::cell::encode_cell;
use crate::envelope::envelope_request;
use crate::model::{
    all_filled, blank, blank_cells, filled, grid_filled, precedes, RunView, StageView, Target,
};
use crate::run::{Action, Event, PipelineError, Stage};
use vstd::prelude::*;

verus! {

/// What a run holds: the table, the slots for the identifiers, and the cursor
/// that stands on the first pending request.
#[derive(Debug)]
pub(crate) struct State {
    identity: String,
    table: String,
    stage: Stage,
    rows: Vec<Vec<Option<String>>>,
    cell_ids: Vec<Vec<Option<String>>>,
    row_ids: Vec<Option<String>>,
    table_id: Option<String>,
    next_row: usize,
    next_col: usize,
}

impl View for State {
    type V = RunView;

    closed spec fn view(&self) -> RunView {
        RunView {
            identity: self.identity@,
            table: self.table@,
            stage: self.stage@,
            rows: self.rows.deep_view(),
            cell_ids: self.cell_ids.deep_view(),
            row_ids: self.row_ids.deep_view(),
            table_id: self.table_id.deep_view(),
        }
    }
}

/// Every slot that comes before the given place, row by row and within a row
/// by column, holds an identifier.
spec fn filled_before(grid: Seq<Seq<Option<Seq<char>>>>, row: int, col: int) -> bool {
    forall|r: int, c: int|
        0 <= r < grid.len() && 0 <= c < grid[r].len() && (r < row || (r == row && c < col))
            ==> (#[trigger] grid[r][c]) is Some
}

/// Every slot before the given index holds an identifier.
spec fn filled_below(slots: Seq<Option<Seq<char>>>, index: int) -> bool {
    forall|i: int| 0 <= i < slots.len() && i < index ==> (#[trigger] slots[i]) is Some
}

/// The identifiers of a list of slots that are all filled.
fn collect_ids(slots: &Vec<Option<String>>) -> (ids: Vec<String>)
    requires
        all_filled(slots.deep_view()),
    ensures
        ids.deep_view() == filled(slots.deep_view()),
{
    let mut ids: Vec<String> = Vec::new();
    let mut i: usize = 0;
    while i < slots.len()
        invariant
            i <= slots.len(),
            all_filled(slots.deep_view()),
            ids.len() == i,
            forall|k: int| 0 <= k < i ==> ids[k]@ == slots.deep_view()[k]->0,
        decreases slots.len() - i,
    {
        assert(slots.deep_view()[i as int] is Some);
        match &slots[i] {
            Some(id) => {
                ids.push(id.clone());
            },
            None => {},
        }
        i += 1;
    }
    ids
}

/// A list of `n` empty slots.
fn blank_slots(n: usize) -> (slots: Vec<Option<String>>)
    ensures
        slots.deep_view() == blank(n as nat),
{
    let mut slots: Vec<Option<String>> = Vec::new();
    let mut i: usize = 0;
    while i < n
        invariant
            i <= n,
            slots.len() == i,
            forall|k: int| 0 <= k < i ==> slots[k] is None,
        decreases n - i,
    {
        slots.push(None);
        i += 1;
    }
    slots
}

/// One list of empty slots for each row of a table, each as long as its row.
fn blank_grid(rows: &Vec<Vec<Option<String>>>) -> (grid: Vec<Vec<Option<String>>>)
    ensures
        grid.deep_view() == blank_cells(rows.deep_view()),
{
    let mut grid: Vec<Vec<Option<String>>> = Vec::new();
    let mut r: usize = 0;
    while r < rows.len()
        invariant
            r <= rows.len(),
            grid.len() == r,
            forall|k: int| 0 <= k < r ==> grid[k].deep_view() == blank(rows[k].len() as nat),
        decreases rows.len() - r,
    {
        grid.push(blank_slots(rows[r].len()));
        r += 1;
    }
    grid
}

/// The first empty slot at or after the given place, row by row and within a
/// row by column, when every slot before that place is filled.
fn first_unfilled_cell(grid: &Vec<Vec<Option<String>>>, row: usize, col: usize) -> (found: Option<
    (usize, usize),
>)
    requires
        filled_before(grid.deep_view(), row as int, col as int),
    ensures
        match found {
            Some((r, c)) => {
                &&& r < grid.len()
                &&& c < grid[r as int].len()
                &&& grid.deep_view()[r as int][c as int] is None
                &&& filled_before(grid.deep_view(), r as int, c as int)
            },
            None => grid_filled(grid.deep_view()),
        },
{
    let mut r: usize = row;
    let mut c: usize = col;
    while r < grid.len()
        invariant
            filled_before(grid.deep_view(), r as int, c as int),
        decreases grid.len() - r, grid[r as int].len() - c,
    {
        if c < grid[r].len() {
            if grid[r][c].is_none() {
                return Some((r, c));
            }
            c += 1;
        } else {
            r += 1;
            c = 0;
        }
    }
    None
}

/// The first empty slot at or after the given index, when every slot before
/// that index is filled.
fn first_unfilled(slots: &Vec<Option<String>>, from: usize) -> (found: Option<usize>)
    requires
        filled_below(slots.deep_view(), from as int),
    ensures
        match found {
            Some(i) => {
                &&& i < slots.len()
                &&& slots.deep_view()[i as int] is None
                &&& filled_below(slots.deep_view(), i as int)
            },
            None => all_filled(slots.deep_view()),
        },
{
    let mut i: usize = from;
    while i < slots.len()
        invariant
            filled_below(slots.deep_view(), i as int),
        decreases slots.len() - i,
    {
        if slots[i].is_none() {
            return Some(i);
        }
        i += 1;
    }
    None
}

impl State {
    /// The cursor stands on the request that a sequential run submits next.
    pub(crate) closed spec fn cursor_ok(&self) -> bool {
        &&& self.stage is EncodingCells ==> self@.first_pending(
            Target::Cell { row: self.next_row, col: self.next_col },
        )
        &&& self.stage is HashingRows ==> self@.first_pending(Target::Row { row: self.next_row })
    }

    /// What holds of the state of every run.
    pub(crate) open spec fn wf(&self) -> bool {
        self@.valid() && self.cursor_ok()
    }

    /// The state of a fresh run.
    pub(crate) fn new(identity: String, table: String) -> (state: State)
        ensures
            state.wf(),
            state@ == RunView::start(identity@, table@),
    {
        let state = State {
            identity,
            table,
            stage: Stage::Idle,
            rows: Vec::new(),
            cell_ids: Vec::new(),
            row_ids: Vec::new(),
            table_id: None,
            next_row: 0,
            next_col: 0,
        };
        assert(state@.rows =~= Seq::empty());
        assert(state@.cell_ids =~= Seq::empty());
        assert(state@.row_ids =~= Seq::empty());
        state
    }

    /// Where the run stands.
    pub(crate) fn stage(&self) -> (stage: Stage)
        ensures
            stage@ == self@.stage,
    {
        self.stage.clone()
    }

    /// The action that a sequential run performs next.
    pub(crate) fn action(&self) -> (action: Action)
        requires
            self.wf(),
        ensures
            self@.is_next(action@),
    {
        match &self.stage {
            Stage::Idle => Action::FetchRows { table: self.table.clone() },
            Stage::EncodingCells => {
                let target = Target::Cell { row: self.next_row, col: self.next_col };
                Action::Put { target, bytes: self.request_for(target) }
            },
            Stage::HashingRows => {
                let target = Target::Row { row: self.next_row };
                Action::Put { target, bytes: self.request_for(target) }
            },
            Stage::HashingTable => {
                Action::Put { target: Target::Table, bytes: self.request_for(Target::Table) }
            },
            Stage::Publishing => {
                match &self.table_id {
                    Some(id) => Action::Publish { identity: self.identity.clone(), id: id.clone() },
                    None => Action::Halt,
                }
            },
            Stage::Done => Action::Halt,
            Stage::Failed(_) => Action::Halt,
        }
    }

    /// Ends the run with the error given and discards what was computed.
    fn fail(&mut self, error: PipelineError)
        ensures
            final(self)@ == old(self)@.failed(error@),
            final(self).wf(),
    {
        self.stage = Stage::Failed(error);
        self.rows = Vec::new();
        self.cell_ids = Vec::new();
        self.row_ids = Vec::new();
        self.table_id = None;
        assert(self@.rows =~= Seq::empty());
        assert(self@.cell_ids =~= Seq::empty());
        assert(self@.row_ids =~= Seq::empty());
    }

    /// Moves the cursor to the first request that is still pending, and the
    /// run past every level that has nothing pending.
    fn settle(&mut self)
        requires
            old(self).stage is EncodingCells || old(self).stage is HashingRows,
            old(self)@.shaped(),
            old(self)@.table_id is None,
            old(self).stage is EncodingCells ==> old(self)@.no_row_filled() && filled_before(
                old(self)@.cell_ids,
                old(self).next_row as int,
                old(self).next_col as int,
            ),
            old(self).stage is HashingRows ==> old(self)@.cells_filled() && filled_below(
                old(self)@.row_ids,
                old(self).next_row as int,
            ),
        ensures
            final(self)@ == old(self)@.settled(),
            final(self).wf(),
    {
        if let Stage::EncodingCells = self.stage {
            match first_unfilled_cell(&self.cell_ids, self.next_row, self.next_col) {
                Some((r, c)) => {
                    self.next_row = r;
                    self.next_col = c;
                    return;
                },
                None => {
                    self.stage = Stage::HashingRows;
                    self.next_row = 0;
                    self.next_col = 0;
                },
            }
        }
        match first_unfilled(&self.row_ids, self.next_row) {
            Some(r) => {
                self.next_row = r;
            },
            None => {
                self.stage = Stage::HashingTable;
            },
        }
    }

    /// The transition of the state machine: the state after the event.
    pub(crate) fn advance(&mut self, event: Event) -> (accepted: bool)
        requires
            old(self).wf(),
        ensures
            final(self).wf(),
            accepted == old(self)@.accepts(event@),
            final(self)@ == old(self)@.step(event@),
    {
        match event {
            Event::RowsFetched { rows } => {
                if let Stage::Idle = self.stage {
                    self.cell_ids = blank_grid(&rows);
                    self.row_ids = blank_slots(rows.len());
                    self.rows = rows;
                    self.stage = Stage::EncodingCells;
                    self.next_row = 0;
                    self.next_col = 0;
                    self.settle();
                    true
                } else {
                    false
                }
            },
            Event::QueryFailed => {
                if let Stage::Idle = self.stage {
                    let error = PipelineError::QueryFailure { table: self.table.clone() };
                    self.fail(error);
                    true
                } else {
                    false
                }
            },
            Event::Stored { target, id } => {
                match target {
                    Target::Cell { row, col } => self.store_cell(row, col, id),
                    Target::Row { row } => self.store_row(row, id),
                    Target::Table => {
                        if let Stage::HashingTable = self.stage {
                            self.table_id = Some(id);
                            self.stage = Stage::Publishing;
                            true
                        } else {
                            false
                        }
                    },
                }
            },
            Event::StoreFailed { target } => {
                if self.is_pending(target) {
                    self.fail(PipelineError::StorageFailure { target });
                    true
                } else {
                    false
                }
            },
            Event::Published => {
                if let Stage::Publishing = self.stage {
                    self.stage = Stage::Done;
                    true
                } else {
                    false
                }
            },
            Event::PublishFailed => {
                if let Stage::Publishing = self.stage {
                    let id = match &self.table_id {
                        Some(id) => id.clone(),
                        None => String::new(),
                    };
                    let identity = self.identity.clone();
                    let error = PipelineError::PublishFailure { identity, id };
                    self.fail(error);
                    true
                } else {
                    false
                }
            },
            Event::Cancelled => {
                match self.stage {
                    Stage::Done => false,
                    Stage::Failed(_) => false,
                    _ => {
                        self.fail(PipelineError::Cancelled);
                        true
                    },
                }
            },
        }
    }

    /// Whether the store still owes the identifier of the target.
    pub(crate) fn is_pending(&self, target: Target) -> (pending: bool)
        requires
            self.wf(),
        ensures
            pending == self@.pending(target),
    {
        match target {
            Target::Cell { row, col } => {
                if let Stage::EncodingCells = self.stage {
                    if row < self.rows.len() {
                        assert(self@.cell_ids[row as int].len() == self@.rows[row as int].len());
                        col < self.rows[row].len() && self.cell_ids[row][col].is_none()
                    } else {
                        false
                    }
                } else {
                    false
                }
            },
            Target::Row { row } => {
                if let Stage::HashingRows = self.stage {
                    row < self.rows.len() && self.row_ids[row].is_none()
                } else {
                    false
                }
            },
            Target::Table => {
                if let Stage::HashingTable = self.stage {
                    true
                } else {
                    false
                }
            },
        }
    }

    /// Puts the identifier of a cell into its slot, if the slot is pending.
    fn store_cell(&mut self, row: usize, col: usize, id: String) -> (accepted: bool)
        requires
            old(self).wf(),
        ensures
            final(self).wf(),
            accepted == old(self)@.pending(Target::Cell { row, col }),
            accepted ==> final(self)@ == old(self)@.fill(Target::Cell { row, col }, id@).settled(),
            !accepted ==> final(self)@ == old(self)@,
    {
        if !self.is_pending(Target::Cell { row, col }) {
            return false;
        }
        proof {
            let cursor = Target::Cell { row: self.next_row, col: self.next_col };
            assert forall|r: int, c: int|
                0 <= r < self@.cell_ids.len() && 0 <= c < self@.cell_ids[r].len() && (r
                    < self.next_row || (r == self.next_row && c < self.next_col)) implies (
            #[trigger] self@.cell_ids[r][c]) is Some by {
                assert(self@.cell_ids[r].len() == self.cell_ids[r].len());
                let other = Target::Cell { row: r as usize, col: c as usize };
                assert(self@.pending(other) ==> !precedes(other, cursor));
            }
            assert(self@.row_ids[0] is None);
        }
        self.cell_ids[row][col] = Some(id);
        assert(self@.cell_ids =~~= old(self)@.cell_ids.update(
            row as int,
            old(self)@.cell_ids[row as int].update(col as int, Some(id@)),
        ));
        self.settle();
        true
    }

    /// Puts the identifier of a row into its slot, if the slot is pending.
    fn store_row(&mut self, row: usize, id: String) -> (accepted: bool)
        requires
            old(self).wf(),
        ensures
            final(self).wf(),
            accepted == old(self)@.pending(Target::Row { row }),
            accepted ==> final(self)@ == old(self)@.fill(Target::Row { row }, id@).settled(),
            !accepted ==> final(self)@ == old(self)@,
    {
        if !self.is_pending(Target::Row { row }) {
            return false;
        }
        proof {
            let cursor = Target::Row { row: self.next_row };
            assert forall|r: int| 0 <= r < self@.row_ids.len() && r < self.next_row implies (
            #[trigger] self@.row_ids[r]) is Some by {
                let other = Target::Row { row: r as usize };
                assert(self@.pending(other) ==> !precedes(other, cursor));
            }
        }
        self.row_ids[row] = Some(id);
        assert(self@.row_ids =~= old(self)@.row_ids.update(row as int, Some(id@)));
        self.settle();
        true
    }

    /// The bytes that are submitted to the store for a pending target.
    fn request_for(&self, target: Target) -> (bytes: Vec<u8>)
        requires
            self.wf(),
            self@.pending(target),
        ensures
            bytes@ == self@.request_bytes(target),
    {
        match target {
            Target::Cell { row, col } => encode_cell(&self.rows[row][col]),
            Target::Row { row } => {
                assert(self@.cell_ids[row as int].len() == self@.rows[row as int].len());
                let ids = collect_ids(&self.cell_ids[row]);
                envelope_request(&ids)
            },
            Target::Table => {
                let ids = collect_ids(&self.row_ids);
                envelope_request(&ids)
            },
        }
    }

    /// Every pending request of the level reached, in order.
    pub(crate) fn pending_puts(&self) -> (puts: Vec<(Target, Vec<u8>)>)
        requires
            self.wf(),
        ensures
            self@.fans_out(puts@.map_values(|put: (Target, Vec<u8>)| (put.0, put.1@))),
    {
        let mut puts: Vec<(Target, Vec<u8>)> = Vec::new();
        let ghost view = |put: (Target, Vec<u8>)| (put.0, put.1@);
        match &self.stage {
            Stage::EncodingCells => {
                let mut r: usize = 0;
                let mut c: usize = 0;
                while r < self.rows.len()
                    invariant
                        self.wf(),
                        self.stage is EncodingCells,
                        view == |put: (Target, Vec<u8>)| (put.0, put.1@),
                        self@.lists(puts@.map_values(view)),
                        forall|i: int|
                            0 <= i < puts.len() ==> precedes(
                                (#[trigger] puts[i]).0,
                                Target::Cell { row: r, col: c },
                            ),
                        forall|target: Target| #[trigger]
                            self@.pending(target) && precedes(
                                target,
                                Target::Cell { row: r, col: c },
                            ) ==> covers(puts@.map_values(view), target),
                    decreases self.rows.len() - r, self.rows[r as int].len() - c,
                {
                    let ghost before = puts@.map_values(view);
                    let here = Target::Cell { row: r, col: c };
                    assert(self@.cell_ids[r as int].len() == self@.rows[r as int].len());
                    if c < self.rows[r].len() {
                        if self.cell_ids[r][c].is_none() {
                            let bytes = self.request_for(here);
                            puts.push((here, bytes));
                            proof {
                                let after = puts@.map_values(view);
                                assert(after =~= before.push((here, bytes@)));
                            }
                        }
                        c += 1;
                    } else {
                        r += 1;
                        c = 0;
                    }
                    proof {
                        let after = puts@.map_values(view);
                        let there = Target::Cell { row: r, col: c };
                        assert forall|target: Target| #[trigger]
                            self@.pending(target) && precedes(target, there) implies covers(
                            after,
                            target,
                        ) by {
                            if target == here {
                                assert(after.last().0 == here);
                            } else if after.len() != before.len() {
                                assert(after.drop_last() =~= before);
                            }
                        }
                    }
                }
            },
            Stage::HashingRows => {
                let mut r: usize = 0;
                while r < self.row_ids.len()
                    invariant
                        self.wf(),
                        self.stage is HashingRows,
                        r <= self.row_ids.len(),
                        view == |put: (Target, Vec<u8>)| (put.0, put.1@),
                        self@.lists(puts@.map_values(view)),
                        forall|i: int|
                            0 <= i < puts.len() ==> precedes(
                                (#[trigger] puts[i]).0,
                                Target::Row { row: r },
                            ),
                        forall|target: Target| #[trigger]
                            self@.pending(target) && precedes(target, Target::Row { row: r })
                                ==> covers(puts@.map_values(view), target),
                    decreases self.row_ids.len() - r,
                {
                    let ghost before = puts@.map_values(view);
                    let here = Target::Row { row: r };
                    if self.row_ids[r].is_none() {
                        let bytes = self.request_for(here);
                        puts.push((here, bytes));
                        proof {
                            let after = puts@.map_values(view);
                            assert(after =~= before.push((here, bytes@)));
                        }
                    }
                    r += 1;
                    proof {
                        let after = puts@.map_values(view);
                        let there = Target::Row { row: r };
                        assert forall|target: Target| #[trigger]
                            self@.pending(target) && precedes(target, there) implies covers(
                            after,
                            target,
                        ) by {
                            if target == here {
                                assert(after.last().0 == here);
                            } else if after.len() != before.len() {
                                assert(after.drop_last() =~= before);
                            }
                        }
                    }
                }
            },
            Stage::HashingTable => {
                let bytes = self.request_for(Target::Table);
                puts.push((Target::Table, bytes));
                proof {
                    let after = puts@.map_values(view);
                    assert(after[0].0 == Target::Table);
                }
            },
            _ => {},
        }
        puts
    }

    /// The publishing identity.
    pub(crate) fn identity(&self) -> (identity: &str)
        ensures
            identity@ == self@.identity,
    {
        self.identity.as_str()
    }

    /// The name of the table.
    pub(crate) fn table(&self) -> (table: &str)
        ensures
            table@ == self@.table,
    {
        self.table.as_str()
    }

    /// The identifier of the table, once it is known.
    pub(crate) fn table_id(&self) -> (id: Option<String>)
        ensures
            id.deep_view() == self@.table_id,
    {
        match &self.table_id {
            Some(id) => Some(id.clone()),
            None => None,
        }
    }

    /// How the run ended, once it has.
    pub(crate) fn outcome(&self) -> (outcome: Option<Result<String, PipelineError>>)
        requires
            self.wf(),
        ensures
            match self@.stage {
                StageView::Done => outcome matches Some(Ok(id)) && Some(id@) == self@.table_id,
                StageView::Failed(error) => outcome matches Some(Err(e)) && e@ == error,
                _ => outcome is None,
            },
    {
        match &self.stage {
            Stage::Done => match &self.table_id {
                Some(id) => Some(Ok(id.clone())),
                None => None,
            },
            Stage::Failed(error) => Some(Err(error.clone())),
            _ => None,
        }
    }
}

/// The list names the target.
spec fn covers(puts: Seq<(Target, Seq<u8>)>, target: Target) -> bool {
    exists|i: int| 0 <= i < puts.len() && (#[trigger] puts[i]).0 == target
}

} // verus!
