//! Betting odds conversions over exact rational arithmetic.
//!
//! Odds come in three notations (decimal, fractional, American), all standing
//! for the same implied probability. This crate converts between the
//! notations and computes implied probability and expected return. Every
//! numeric payload is an exact rational (`Ratio`), so all results are exact;
//! inputs outside a function's mathematical domain, and results that do not
//! fit the fixed-width representation, are reported through `OddsError`
//! rather than propagated as out-of-range values.

pub mod calculator;
pub mod laws;
pub mod odds;
pub mod ratio;

pub use calculator::OddsCalculator;
pub use calculator::OddsError;
pub use odds::Odds;
pub use ratio::Ratio;
