//! Search-and-launch index for installed applications: discovery results are
//! reconciled against a persistent record of known applications, and a
//! free-text query is ranked against them by fuzzy relevance and by a
//! time-decayed usage signal.

pub mod application;
pub mod application_repository;
pub mod fuzzy_sorter;
pub mod kasuri;
pub mod kasuri_repository;
pub mod log;
pub mod platform;
pub mod recency;
pub mod settings;
pub mod text;
pub mod ui;
