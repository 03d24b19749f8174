//! Why a byte stream could not be decoded.

use crate::text::{hex_literal, push_hex_literal};
use vstd::prelude::*;

verus! {

/// The ways in which decoding an instruction fails. Neither can be recovered
/// from: the length of an instruction depends on its opcode, so nothing after
/// the failing byte can be trusted.
#[derive(Debug, Copy, Clone, PartialEq, Eq)]
pub enum DecodeError {
    /// The leading byte matches no instruction form that the decoder knows.
    UnsupportedOpcode(u8),
    /// The stream ends before a byte that the instruction needs.
    TruncatedStream,
}

/// A decoding error together with the offset of the first byte of the
/// instruction that could not be decoded.
#[derive(Debug, Copy, Clone, PartialEq, Eq)]
pub struct DecodeFailure {
    pub error: DecodeError,
    pub offset: usize,
}

/// The message of an error: an unsupported opcode is named by its value, a
/// truncated stream by what is missing.
pub open spec fn error_text(error: DecodeError) -> Seq<char> {
    match error {
        DecodeError::UnsupportedOpcode(opcode) => "unsupported opcode "@ + hex_literal(
            opcode as nat,
        ),
        DecodeError::TruncatedStream => "truncated stream: the input ends inside an instruction"@,
    }
}

/// The message of a failure: that of its error, and the offset of the
/// instruction as a hexadecimal literal.
pub open spec fn failure_text(failure: DecodeFailure) -> Seq<char> {
    error_text(failure.error) + " at offset "@ + hex_literal(failure.offset as nat)
}

impl DecodeError {
    /// Appends the message of the error to `out`.
    pub fn push_message(&self, out: &mut String)
        ensures
            final(out)@ == old(out)@ + error_text(*self),
    {
        match self {
            DecodeError::UnsupportedOpcode(opcode) => {
                out.append("unsupported opcode ");
                push_hex_literal(out, *opcode as u64);
                assert(out@ =~= old(out)@ + error_text(*self));
            },
            DecodeError::TruncatedStream => {
                out.append("truncated stream: the input ends inside an instruction");
            },
        }
    }

    /// A message for the user that names the failing opcode or says what is
    /// missing.
    pub fn message(&self) -> (s: String)
        ensures
            s@ == error_text(*self),
    {
        let mut out = String::new();
        self.push_message(&mut out);
        out
    }
}

impl DecodeFailure {
    /// A message for the user: what went wrong, and where in the stream.
    pub fn message(&self) -> (s: String)
        ensures
            s@ == failure_text(*self),
    {
        let mut out = String::new();
        self.error.push_message(&mut out);
        out.append(" at offset ");
        push_hex_literal(&mut out, self.offset as u64);
        assert(out@ =~= failure_text(*self));
        out
    }
}

} // verus!
