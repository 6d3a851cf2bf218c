//! Timetable acquisition for university student groups: a session-based HTML
//! scraper for the primary timetable site, a JSON fallback, and the caching and
//! refresh policy that decides when a group's schedule is acquired again.
pub mod acquire;
pub mod api;
pub mod cache;
pub mod config;
pub mod errors;
pub mod html;
pub mod parser;
pub mod read_through;
pub mod schedule;
pub mod table;
pub mod text;
pub mod utils;
