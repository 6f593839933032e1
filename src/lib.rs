//! An interpreter for the eight-instruction tape language: a tokenizer from
//! source text to instructions, a fixed-size byte tape, and an engine that
//! executes instructions one step at a time or runs a program over in-memory
//! input.

pub mod token;
pub mod tokenizer;
pub mod memory;
pub mod brackets;
pub mod processor;
