//! The AMD64 processor: instruction prefixes, the meaning of one
//! instruction, and the interpreter that carries it out.

pub mod interp;
pub mod laws;
pub mod model;
pub mod prefixes;
