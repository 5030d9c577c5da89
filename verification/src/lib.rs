//! A verified front end for a minimal C-like language.
//!
//! Source text is parsed by a recursive-descent, ordered-choice grammar into a
//! typed abstract syntax tree ([`ast`]), which a structural pretty-printer can
//! turn back into surface syntax, and which the code generator lowers into a
//! block-structured intermediate representation with explicit stack slots,
//! branch lowering and a single shared return block ([`codegen`]).
//!
//! Every executable function is specified against a mathematical model: the
//! grammar is defined once as specification functions over sequences of
//! characters ([`grammar`]), and the parser is proved to compute exactly that
//! function of its input.

pub mod ast;
pub mod codegen;
pub mod constants;
pub mod deparse;
pub mod grammar;
pub mod numerals;
pub mod parser;
