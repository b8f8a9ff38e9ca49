//! A two-outcome prediction market priced by a Pythagorean bonding curve.
//!
//! Reserves `R` and the outcome-token supplies `YES`, `NO` are held to the
//! invariant `R = √(YES² + NO²)`. The modules below carry the integer
//! arithmetic, the curve, the market ledger and its lifecycle, trading and
//! settlement. Token movements, signatures, clocks and events are the
//! caller's: every operation here takes plain values and hands back the
//! new ledger state together with the amounts to move.
pub mod fixed_point;
pub mod bonding_curve;
pub mod state;
pub mod trade;
pub mod lifecycle;
pub mod settlement;
pub mod curve_laws;
