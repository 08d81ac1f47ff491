//! Verified helpers behind the on-device Bevy check suites: the result rows
//! that every check reports, the decimal rendering used by the layout rows,
//! and the deterministic xorshift generator that drives the sampling checks.

#![allow(unused_imports)]

pub mod xorshift;
pub mod decimal;
pub mod report;
pub mod layout;
