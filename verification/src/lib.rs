//! A minimal Lisp-family interpreter core: s-expression values built over a
//! cons list, a lex/parse/eval failure taxonomy, a token parser, an
//! environment arena with a uniform callable interface, and a compact
//! display form, all with verified contracts.

pub mod list;
pub mod numfmt;
pub mod types;
pub mod display;
pub mod env;
pub mod parse;
pub mod eval;
pub mod roundtrip;
