//! What holds of the application as a whole.
pub mod drawing;
pub mod jobs;
pub mod operations;
pub mod reports;
pub mod runs;
pub mod scrolling;
pub mod screen;
pub mod searching;
pub mod texts;
pub mod toggles;
pub mod wrapping;
