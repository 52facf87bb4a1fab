//! A race fuel-strategy estimator: it learns per-lap fuel and time rates from
//! completed laps, plans the pit stops needed to finish a race, and tracks a
//! live session from telemetry frames.
//!
//! Fuel amounts are carried as whole milli-litres and durations as seconds
//! plus nanoseconds, so every quantity the planner reasons about is exact.

pub mod history;
pub mod ircalc;
pub mod strat;
pub mod telemetry;
pub mod timespan;
