//! The state of a terminal application which runs a job, collects its output
//! and shows either this output or the report built from it.
//!
//! The operations are those of [`state::AppState`], they're specified by what
//! they do to a [`model::StateModel`], and what holds of them all is proved in
//! [`laws`].
pub mod display;
pub mod fit;
pub mod frame;
pub mod laws;
pub mod mission;
pub mod model;
pub mod output;
pub mod report;
pub mod scroll;
pub mod search;
pub mod select;
pub mod state;
pub mod text;
pub mod tline;
pub mod wrap;
