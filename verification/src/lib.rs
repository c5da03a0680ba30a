//! A small stack machine for a line-oriented assembly language.
//!
//! A program is a text of one instruction per line. [`assemble`] turns it
//! into a stream of resolved instructions: every label and procedure name
//! is replaced by an absolute address, and every line, label declarations
//! and procedure delimiters too, takes exactly one address. A [`Machine`]
//! then executes the stream against one operand stack and one call stack,
//! an instruction at a time ([`Machine::step`]) or as a bounded run
//! ([`interpret`]).
//!
//! The modules [`grammar`] and [`model`] say in mathematics what a program
//! text stands for and what each instruction does; the executable code in
//! [`translate`] and [`machine`] is proved to do exactly that, and
//! [`laws`] proves what follows for calls, returns, jumps and procedures.
//! The machine never writes anything itself: a step hands back what is to
//! be written, and the caller writes it.

pub mod grammar;
pub mod inst;
pub mod laws;
pub mod lexer;
pub mod machine;
pub mod model;
pub mod stack;
pub mod symbols;
pub mod text;
pub mod translate;

pub use crate::grammar::{Rejection, TranslateError};
pub use crate::inst::{Inst, Pointer};
pub use crate::lexer::tokenize;
pub use crate::machine::{interpret, CallStack, Event, Machine, Output, Run};
pub use crate::model::{RuntimeError, Status};
pub use crate::stack::{Stack, StackFrame};
pub use crate::symbols::{Labels, Procedures, Table};
pub use crate::translate::{
    assemble, code_lines, collect_labels, find_label, find_procedures, is_ignored,
    parse_instruction, translate, Label,
};
