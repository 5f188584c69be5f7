//! Analytics and rewards engine for a fitness tracker: activity streaks,
//! personal-record detection, workout-completion scoring (calories, badges),
//! and leaderboard ranking, all derived from logged set and workout facts.
//!
//! Weights and volumes are carried as integers in hundredths of a kilogram
//! (centi-kilograms), calendar dates as day numbers, so that every formula
//! is exact integer arithmetic.

pub mod badges;
pub mod dates;
pub mod leaderboard;
pub mod pr;
pub mod scorer;
pub mod session;
pub mod streak;
