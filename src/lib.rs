//! A small educational sixteen-bit virtual machine: an assembler for its
//! textual instruction language, the fetch-decode-execute engine, a scanner
//! that classifies memory bytes for display, and the stepping control.
pub mod isa;
pub mod machine;
pub mod scanner;
pub mod text;
pub mod assembler;
pub mod stepper;
pub mod laws;
