//! What holds of every script.

pub mod advancing;
pub mod answers;
pub mod building;
pub mod concatenation;
pub mod conformance;
pub mod endings;
pub mod grammar;
pub mod messages;
pub mod objections;
pub mod prefixes;
pub mod reads;
pub mod shutdowns;
pub mod spelling;
pub mod streams;
pub mod views;
pub mod waits;
pub mod writes;
pub mod zeroes;
