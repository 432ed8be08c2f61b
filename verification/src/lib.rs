//! An emulator of the TIS-100: a grid of small nodes that run assembly
//! programs and talk to their neighbours through blocking ports.

pub mod text;
pub mod types;
pub mod lex;
pub mod parse;
pub mod vmap;
pub mod io;
pub mod node;
pub mod image;
pub mod save;
pub mod error;
pub mod machine;
pub mod spec;
pub mod invariants;
