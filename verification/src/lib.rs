//! Verified core of a constant-product automated market maker.
//!
//! The curve arithmetic lives in `utils`; the pool state and the state
//! transitions of each instruction live in `state` and `instructions`;
//! what each curve gives for every input is proved in `curve_laws`, and
//! properties that span several operations of the pool in `laws`.

pub mod constants;
pub mod error;
pub mod instructions;
pub mod curve_laws;
pub mod laws;
pub mod state;
pub mod utils;
