//! Locates installed builds of the 1C:Enterprise platform and picks the best
//! build for a partial version and an architecture preference.
pub mod text;
pub mod v8_app;
pub mod v8_finder;
