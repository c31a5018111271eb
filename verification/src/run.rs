use crate::config::Config;
use crate::model::{ActionView, ErrorView, EventView, RunView, StageView, Target};
use crate::state::State;
use vstd::prelude::*;

verus! {

/// Why a run failed. Every failure ends the run.
#[derive(Debug, PartialEq, Eq)]
pub enum PipelineError {
    /// The row source could not produce the rows of the table.
    QueryFailure { table: String },
    /// A write to the content store failed, at the level and index given.
    StorageFailure { target: Target },
    /// The table identifier was computed, but binding the identity's name
    /// record to it failed. The identifier is kept, so that the caller can
    /// publish it again without hashing the table again.
    PublishFailure { identity: String, id: String },
    /// The caller cancelled the run.
    Cancelled,
}

impl View for PipelineError {
    type V = ErrorView;

    open spec fn view(&self) -> ErrorView {
        match *self {
            PipelineError::QueryFailure { table } => ErrorView::QueryFailure { table: table@ },
            PipelineError::StorageFailure { target } => ErrorView::StorageFailure { target },
            PipelineError::PublishFailure { identity, id } => ErrorView::PublishFailure {
                identity: identity@,
                id: id@,
            },
            PipelineError::Cancelled => ErrorView::Cancelled,
        }
    }
}

impl Clone for PipelineError {
    fn clone(&self) -> (copy: PipelineError)
        ensures
            copy@ == self@,
    {
        match self {
            PipelineError::QueryFailure { table } => PipelineError::QueryFailure {
                table: table.clone(),
            },
            PipelineError::StorageFailure { target } => PipelineError::StorageFailure {
                target: *target,
            },
            PipelineError::PublishFailure { identity, id } => PipelineError::PublishFailure {
                identity: identity.clone(),
                id: id.clone(),
            },
            PipelineError::Cancelled => PipelineError::Cancelled,
        }
    }
}

/// Where a run stands. A run goes from `Idle` through the stages in the order
/// written to `Done`, and from any of them but `Done` it may go to `Failed`.
#[derive(Debug, PartialEq, Eq)]
pub enum Stage {
    Idle,
    EncodingCells,
    HashingRows,
    HashingTable,
    Publishing,
    Done,
    Failed(PipelineError),
}

impl View for Stage {
    type V = StageView;

    open spec fn view(&self) -> StageView {
        match *self {
            Stage::Idle => StageView::Idle,
            Stage::EncodingCells => StageView::EncodingCells,
            Stage::HashingRows => StageView::HashingRows,
            Stage::HashingTable => StageView::HashingTable,
            Stage::Publishing => StageView::Publishing,
            Stage::Done => StageView::Done,
            Stage::Failed(error) => StageView::Failed(error@),
        }
    }
}

impl Clone for Stage {
    fn clone(&self) -> (copy: Stage)
        ensures
            copy@ == self@,
    {
        match self {
            Stage::Idle => Stage::Idle,
            Stage::EncodingCells => Stage::EncodingCells,
            Stage::HashingRows => Stage::HashingRows,
            Stage::HashingTable => Stage::HashingTable,
            Stage::Publishing => Stage::Publishing,
            Stage::Done => Stage::Done,
            Stage::Failed(error) => Stage::Failed(error.clone()),
        }
    }
}

/// What a collaborator reports back to a run, once it has done what the run
/// asked for.
#[derive(Debug, PartialEq, Eq)]
pub enum Event {
    /// The row source produced the rows of the table, in order.
    RowsFetched { rows: Vec<Vec<Option<String>>> },
    /// The row source could not produce the rows.
    QueryFailed,
    /// The content store took the bytes of the target and returned their identifier.
    Stored { target: Target, id: String },
    /// The content store failed on the bytes of the target.
    StoreFailed { target: Target },
    /// The name publisher bound the identity to the table identifier.
    Published,
    /// The name publisher failed.
    PublishFailed,
    /// The caller's cancellation signal was raised.
    Cancelled,
}

impl View for Event {
    type V = EventView;

    open spec fn view(&self) -> EventView {
        match *self {
            Event::RowsFetched { rows } => EventView::RowsFetched { rows: rows.deep_view() },
            Event::QueryFailed => EventView::QueryFailed,
            Event::Stored { target, id } => EventView::Stored { target, id: id@ },
            Event::StoreFailed { target } => EventView::StoreFailed { target },
            Event::Published => EventView::Published,
            Event::PublishFailed => EventView::PublishFailed,
            Event::Cancelled => EventView::Cancelled,
        }
    }
}

/// What a run asks of its collaborators.
#[derive(Debug, PartialEq, Eq)]
pub enum Action {
    /// Fetch the rows of the table from the row source.
    FetchRows { table: String },
    /// Submit the bytes to the content store, for the target named.
    Put { target: Target, bytes: Vec<u8> },
    /// Bind the name record of the identity to the table identifier.
    Publish { identity: String, id: String },
    /// Nothing is left to do: the run is done or has failed.
    Halt,
}

impl View for Action {
    type V = ActionView;

    open spec fn view(&self) -> ActionView {
        match *self {
            Action::FetchRows { table } => ActionView::FetchRows { table: table@ },
            Action::Put { target, bytes } => ActionView::Put { target, bytes: bytes@ },
            Action::Publish { identity, id } => ActionView::Publish {
                identity: identity@,
                id: id@,
            },
            Action::Halt => ActionView::Halt,
        }
    }
}

/// One table run: the state machine that turns the rows of a table into one
/// content identifier and publishes it. The run decides; its caller performs
/// each action and reports the outcome back as an event.
#[derive(Debug)]
pub struct Run {
    state: State,
}

impl View for Run {
    type V = RunView;

    closed spec fn view(&self) -> RunView {
        self.state@
    }
}

impl Run {
    /// What holds of every run: its state is valid, and the cursor in it
    /// stands on the first pending request.
    #[verifier::type_invariant]
    spec fn well_formed(&self) -> bool {
        self.state.wf()
    }

    /// A fresh run for one table. It publishes under the identity that the
    /// configuration names, and starts idle: nothing is fetched or hashed yet.
    pub fn new(config: &Config, table: &str) -> (run: Run)
        ensures
            run@ == RunView::start(config.ipns_key@, table@),
    {
        Run { state: State::new(config.ipns_key.clone(), table.to_owned()) }
    }

    /// Where the run stands.
    pub fn stage(&self) -> (stage: Stage)
        ensures
            stage@ == self@.stage,
    {
        self.state.stage()
    }

    /// What the run asks for next. While identifiers are owed it is the
    /// pending request that comes first in row and column order, so that a
    /// caller who performs one action after the other submits cells row by row,
    /// then rows, then the table.
    pub fn action(&self) -> (action: Action)
        ensures
            self@.valid(),
            self@.is_next(action@),
    {
        proof {
            use_type_invariant(self);
        }
        self.state.action()
    }

    /// Takes an event in. An event that answers nothing the run is waiting
    /// for is ignored: the run stays as it is and the result is `false`. An
    /// identifier from the store is put into the slot of its target, in
    /// whatever order the identifiers of one level arrive; when the last one of
    /// a level is in, the run goes on to the next level. A failure or a
    /// cancellation ends the run.
    pub fn advance(&mut self, event: Event) -> (accepted: bool)
        ensures
            old(self)@.valid(),
            final(self)@.valid(),
            accepted == old(self)@.accepts(event@),
            final(self)@ == old(self)@.step(event@),
    {
        proof {
            use_type_invariant(&*self);
        }
        // The state is taken out while it changes, and put back when it is whole again.
        let mut state = State::new(String::new(), String::new());
        core::mem::swap(&mut self.state, &mut state);
        let accepted = state.advance(event);
        self.state = state;
        accepted
    }

    /// Whether the store still owes the run the identifier of the target.
    pub fn is_pending(&self, target: Target) -> (pending: bool)
        ensures
            pending == self@.pending(target),
    {
        proof {
            use_type_invariant(self);
        }
        self.state.is_pending(target)
    }

    /// Every request that is pending at the level the run has reached, each
    /// with the target it is for and the bytes to submit, in row and column
    /// order. A caller may submit them in any order, or several at once, and
    /// hand each identifier to `advance` as it arrives. The list is empty when
    /// the run is not waiting for the store.
    pub fn pending_puts(&self) -> (puts: Vec<(Target, Vec<u8>)>)
        ensures
            self@.fans_out(puts@.map_values(|put: (Target, Vec<u8>)| (put.0, put.1@))),
    {
        proof {
            use_type_invariant(self);
        }
        self.state.pending_puts()
    }

    /// The identity under which the run publishes.
    pub fn identity(&self) -> (identity: &str)
        ensures
            identity@ == self@.identity,
    {
        self.state.identity()
    }

    /// The name of the table that the run hashes.
    pub fn table(&self) -> (table: &str)
        ensures
            table@ == self@.table,
    {
        self.state.table()
    }

    /// The identifier of the table, once the store has returned it.
    pub fn table_id(&self) -> (id: Option<String>)
        ensures
            id.deep_view() == self@.table_id,
    {
        self.state.table_id()
    }

    /// How the run ended: the table identifier that was published, or the
    /// error that ended it; nothing while the run is still under way.
    pub fn outcome(&self) -> (outcome: Option<Result<String, PipelineError>>)
        ensures
            match self@.stage {
                StageView::Done => outcome matches Some(Ok(id)) && Some(id@) == self@.table_id,
                StageView::Failed(error) => outcome matches Some(Err(e)) && e@ == error,
                _ => outcome is None,
            },
    {
        proof {
            use_type_invariant(self);
        }
        self.state.outcome()
    }
}

} // verus!
