//! An assembler for the Hack computer: it turns the lines of a symbolic
//! program into the sixteen-digit binary lines of its instructions, in two
//! passes that build the symbol table and a third that encodes.
pub mod assembler;
pub mod code;
pub mod laws;
pub mod number;
pub mod parser;
pub mod symbol_table;
pub mod text;
