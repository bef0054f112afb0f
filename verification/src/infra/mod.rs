//! The outside calls that the logic makes: the clock, random identifiers,
//! regular expressions and SHA-256.
pub mod clock;
pub mod digest;
pub mod ids;
pub mod pattern;
