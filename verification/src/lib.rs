//! Hierarchical content addressing of a table.
//!
//! A table is an ordered list of rows, a row an ordered list of cells that
//! hold text or nothing. Every cell is encoded and submitted to a content
//! store, which answers with an identifier; the identifiers of the cells of a
//! row go, in order, into an envelope that is submitted in turn and gives the
//! identifier of the row; the identifiers of the rows give that of the table,
//! which is published under a name.
//!
//! The store, the database and the name publisher are reached over the
//! network, so the library does not call them. A [`Run`] is the state machine
//! that decides: it says what to do next, the caller does it and reports back.
//! [`laws`] and [`progress`] state what holds of every run.

pub mod cell;
pub mod config;
pub mod envelope;
pub mod injective;
pub mod laws;
pub mod model;
pub mod progress;
pub mod query;
pub mod run;
mod state;
pub mod store;

pub use crate::cell::encode_cell;
pub use crate::config::Config;
pub use crate::envelope::{envelope, envelope_request};
pub use crate::model::Target;
pub use crate::query::select_all_query;
pub use crate::run::{Action, Event, PipelineError, Run, Stage};
