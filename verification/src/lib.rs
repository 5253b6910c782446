//! Fund accounting and message types of the Euclid protocol, with the
//! accounting rules proved in Verus.

pub mod chain;
pub mod coin;
pub mod error;
pub mod msgs;
pub mod token;
pub mod utils;
