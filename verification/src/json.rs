//! A small reader of JSON text.

pub mod parser;
pub mod tokenizer;

use crate::json::parser::{agrees, parse_text, JsonError, JsonValue, Parser};
use crate::json::tokenizer::Tokenizer;
use vstd::prelude::*;
use vstd::utf8::encode_utf8;

verus! {

/// Parses the value at the front of a JSON text. What follows the value is
/// not looked at.
pub fn parse_json_str(input: &str) -> (r: Result<JsonValue<'_>, JsonError>)
    ensures
        agrees(r, parse_text(encode_utf8(input@))),
{
    let tokenizer = Tokenizer::new(input.as_bytes());
    let mut parser = Parser::new(tokenizer);
    parser.parse_value()
}

} // verus!
