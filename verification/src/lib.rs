//! Parser for a minimal hardware-description language.
//!
//! A source text holds exactly one `module <name> { ... }` containing signal
//! declarations (`input a: u8;`, `output y: u4;`, `reg r: u1;`) followed by
//! combinational assignments of the fixed shape `lhs = op1 + op2;`.
//! `parse_module` turns such a text into a [`ir::Module`] value or fails with
//! an opaque [`ir::ParseError`].
//!
//! The grammar itself is stated as specification functions over `Seq<char>`
//! in [`grammar`]; every recognizer in [`parser`] is proved to return exactly
//! what the grammar assigns to its input. General facts about the grammar
//! (well-formedness of the result, whitespace insensitivity of assignments,
//! exact recovery of bit-widths) are proved in [`laws`].

pub mod grammar;
pub mod ir;
pub mod laws;
pub mod parser;

pub use ir::Assignment;
pub use ir::Module;
pub use ir::ParseError;
pub use ir::Signal;
pub use ir::SignalType;
pub use parser::parse_module;
