//! An interactive evaluator for a compiled language: each round of input is
//! merged with every declaration accepted so far into one complete program,
//! which an outside toolchain compiles and runs.  This crate holds the logic
//! of that loop — the session record, the program synthesizer, the evaluator
//! state machine, the module registry with shadowed symbol lookup, and the
//! type-introspection path — as verified functions over plain values.  The
//! toolchain itself (parsing raw input, compiling, loading and running native
//! code) is a collaborator that the embedding program drives; it hands this
//! library values and takes values back.

pub mod analysis;
pub mod exec;
pub mod input;
pub mod repl;
pub mod text;
