//! A settlement's economy under covert subversion, advanced one day at a time.
//!
//! The [`economy`] produces, feeds its people and upgrades itself; the
//! [`nihilists`] cut its production, sabotage its buildings, embezzle its
//! stockpiles and kill its people. A [`state`] holds both, with the cursor
//! that moves operatives between roles and the headlines of every day so far.
//!
//! All quantities are integers. Rates, efficiencies and modifiers are carried
//! in fixed point (see [`fixed`]), so every formula has an exact meaning that
//! the contracts state over mathematical integers. Chance enters through
//! [`dice`] alone: each rule that depends on it is a function of the draw,
//! and what holds of a day holds whatever was drawn.

pub mod building;
pub mod dice;
pub mod economy;
pub mod fixed;
pub mod headline;
pub mod nihilists;
pub mod season;
pub mod state;
pub mod text;
