//! Greetings selected by a short language code.
//!
//! The library holds a fixed table from language codes to greeting texts,
//! a lookup in it, a random choice of a supported code, and `greet`, which
//! puts them together: a recognised code gives its greeting, an unrecognised
//! one gives a fixed fallback sentence, and no code at all (or an empty one)
//! gives the greeting of a randomly chosen language.

pub mod table;
pub mod greeter;
