//! Voting and hot-ranking core of a forum backend.
//!
//! Articles get strictly increasing identifiers, each voter is counted once
//! per article, and every accepted vote lifts the article on the hot list by
//! a fixed number of score units (seconds of visibility).
pub mod constants;
pub mod db;
pub mod forum;
pub mod hot_rank;
pub mod laws;
pub mod ledger;
pub mod models;
pub mod sequence;
pub mod store;
