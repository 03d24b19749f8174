//! A disassembler for the register-move instructions of a 16-bit processor,
//! with the small tools that grew up around it.
//!
//! [`decoder::decode`] turns a stream of machine code into assembler text. It
//! reads a byte stream in one forward pass: [`fields`] cuts bytes into bit
//! fields, [`register`] names registers, [`memory_operand`] resolves
//! addressing modes, [`instruction`] holds the decoded instructions and
//! renders them, and [`error`] says why a stream could not be decoded.
//! [`decoder_lemmas`] states what holds of every stream.
//!
//! Beside the disassembler stand a reader of JSON text ([`json`]), a
//! pseudo-random series ([`random_series`]), timer arithmetic ([`timer`]) and
//! the bookkeeping of a scope profiler ([`profiler`]).
//!
//! Every function states what it returns in a contract over mathematical
//! values, and is proved against it.

pub mod decoder;
pub mod decoder_lemmas;
pub mod error;
pub mod fields;
pub mod instruction;
pub mod json;
pub mod memory_operand;
pub mod profiler;
pub mod random_series;
pub mod register;
pub mod text;
pub mod timer;
