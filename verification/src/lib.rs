//! Exact scoring of a proof-of-stake validator.
//!
//! A [`Validator`] record holds the counters and balances of one validator.
//! Five sub-scores are derived from it and combined with fixed weights into
//! one composite score. All arithmetic is exact: a score is a fraction of
//! integers, or one of the three non-finite outcomes of a division by zero.

pub mod decimal;
pub mod extended;
pub mod score;
pub mod validator;

pub use extended::Extended;
pub use score::Score;
pub use score::report_line;
pub use validator::Validator;
