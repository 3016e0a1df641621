//! Timestamp codec for RINEX records: text to instant-plus-flag and back.

pub mod civil;
pub mod epoch;
pub mod instant;
pub mod numeral;
pub mod text;
pub mod timescale;
pub mod types;
