//! Test data for relational tables: from the description of a table, an
//! `INSERT` statement that fills it with as many rows as are asked for.
//!
//! * `model` describes a table and its columns.
//! * `value` decides which literal is written for a column in a row.
//! * `generator` puts the statement together.
//! * `decimal` and `text` write numbers and quoted texts.
//! * `random` is where the random material comes from.
//! * `parse` reads literals back.
//! * `laws` states what holds of every literal and statement.

pub mod decimal;
pub mod error;
pub mod generator;
pub mod laws;
pub mod model;
pub mod parse;
pub mod random;
pub mod text;
pub mod value;
