//! Verified core of an archiver for a live game API: the data model of
//! archived entities and events, page tokens, query plans, and the decisions
//! the ingest workers take on fetched data.

pub mod api;
pub mod asset;
pub mod base;
pub mod boundary;
pub mod bytes;
pub mod db;
pub mod http;
pub mod import;
pub mod json;
pub mod models;
pub mod pusher;
pub mod queries;
pub mod text;
pub mod workers;
