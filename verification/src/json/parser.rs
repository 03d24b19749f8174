//! The parser: a stream of tokens into a tree of values.

use crate::json::tokenizer::{
    lemma_token_consumes, lexemes, result_view, JsonToken, Lexeme, Stream, TokenError,
    TokenResult, Tokenizer,
};
use vstd::prelude::*;

verus! {

/// A JSON value. A number is kept as it is written.
#[derive(Debug, PartialEq)]
pub enum JsonValue<'a> {
    Object { kv: Vec<(&'a str, JsonValue<'a>)> },
    Array { values: Vec<JsonValue<'a>> },
    Number(&'a str),
    String(&'a str),
    Boolean(bool),
    Null,
}

/// A JSON value as contracts see it: texts are sequences of characters, and
/// the members of objects and arrays are sequences in the order of the text.
pub enum JsonModel {
    Object(Seq<(Seq<char>, JsonModel)>),
    Array(Seq<JsonModel>),
    Number(Seq<char>),
    String(Seq<char>),
    Boolean(bool),
    Null,
}

/// Why a stream of tokens is no value.
#[derive(Debug, Copy, Clone, PartialEq, Eq)]
pub enum JsonError {
    /// A value is due and the token at hand begins none, or there is none.
    UnexpectedToken,
    /// The members of an object are not followed by `}`.
    UnclosedObject,
    /// The key of a member is not followed by `:`.
    MissingColon,
    /// The items of an array are not followed by `]`.
    UnclosedArray,
}

/// The message of a parse error.
pub open spec fn json_error_text(error: JsonError) -> Seq<char> {
    match error {
        JsonError::UnexpectedToken => "Unexpected token"@,
        JsonError::UnclosedObject => "Expected '}' to close object."@,
        JsonError::MissingColon => "Expected ':' after object key."@,
        JsonError::UnclosedArray => "Expected ']' to close array."@,
    }
}

impl JsonError {
    /// A message for the user.
    pub fn message(&self) -> (s: String)
        ensures
            s@ == json_error_text(*self),
    {
        match self {
            JsonError::UnexpectedToken => String::from_str("Unexpected token"),
            JsonError::UnclosedObject => String::from_str("Expected '}' to close object."),
            JsonError::MissingColon => String::from_str("Expected ':' after object key."),
            JsonError::UnclosedArray => String::from_str("Expected ']' to close array."),
        }
    }
}

/// The value at the front of a stream, and the stream behind it. A failure
/// leaves the stream at the token that it stumbled on.
pub open spec fn parse_value_of(toks: Stream) -> (Result<JsonModel, JsonError>, Stream)
    decreases toks.len(), 1int,
{
    if toks.len() == 0 {
        (Err(JsonError::UnexpectedToken), toks)
    } else {
        match toks[0] {
            Ok(Lexeme::BeginObject) => parse_members(toks.drop_first(), Seq::empty()),
            Ok(Lexeme::BeginArray) => parse_items(toks.drop_first(), Seq::empty()),
            Ok(Lexeme::String(text)) => (Ok(JsonModel::String(text)), toks.drop_first()),
            Ok(Lexeme::Number(text)) => (Ok(JsonModel::Number(text)), toks.drop_first()),
            Ok(Lexeme::Boolean(b)) => (Ok(JsonModel::Boolean(b)), toks.drop_first()),
            Ok(Lexeme::Null) => (Ok(JsonModel::Null), toks.drop_first()),
            _ => (Err(JsonError::UnexpectedToken), toks),
        }
    }
}

/// The rest of an array behind the items `acc`: values, with any number of
/// commas before, between and behind them, up to the closing bracket. A value
/// takes at least one token, so the test on the lengths always holds
/// (`lemma_value_shrinks`).
pub open spec fn parse_items(toks: Stream, acc: Seq<JsonModel>) -> (
    Result<JsonModel, JsonError>,
    Stream,
)
    decreases toks.len(), 2int,
{
    if toks.len() == 0 {
        (Err(JsonError::UnclosedArray), toks)
    } else {
        match toks[0] {
            Ok(Lexeme::EndArray) => (Ok(JsonModel::Array(acc)), toks.drop_first()),
            Ok(Lexeme::Comma) => parse_items(toks.drop_first(), acc),
            Ok(_) => {
                let (value, rest) = parse_value_of(toks);
                match value {
                    Ok(v) => if rest.len() < toks.len() {
                        parse_items(rest, acc.push(v))
                    } else {
                        (Err(JsonError::UnclosedArray), rest)
                    },
                    Err(e) => (Err(e), rest),
                }
            },
            Err(_) => (Err(JsonError::UnclosedArray), toks),
        }
    }
}

/// The end of an object with the members `acc`: the closing brace.
pub open spec fn close_object(toks: Stream, acc: Seq<(Seq<char>, JsonModel)>) -> (
    Result<JsonModel, JsonError>,
    Stream,
) {
    if starts_with_token(toks, Lexeme::EndObject) {
        (Ok(JsonModel::Object(acc)), toks.drop_first())
    } else {
        (Err(JsonError::UnclosedObject), toks)
    }
}

/// The key at the front of a stream: the text of the string that is its first
/// token, if that is a string.
pub open spec fn key_at(toks: Stream) -> Option<Seq<char>> {
    if toks.len() == 0 {
        None
    } else {
        match toks[0] {
            Ok(Lexeme::String(key)) => Some(key),
            _ => None,
        }
    }
}

/// Whether the first token of a stream is the given one.
pub open spec fn starts_with_token(toks: Stream, lexeme: Lexeme) -> bool {
    toks.len() > 0 && toks[0] == Ok::<Lexeme, TokenError>(lexeme)
}

/// One member of an object: a string, a colon and a value.
pub open spec fn parse_member(toks: Stream) -> (
    Result<(Seq<char>, JsonModel), JsonError>,
    Stream,
)
    recommends
        key_at(toks) is Some,
    decreases toks.len(), 1int,
{
    let after_key = toks.drop_first();
    if toks.len() > 0 && starts_with_token(after_key, Lexeme::Colon) {
        let (value, rest) = parse_value_of(after_key.drop_first());
        match value {
            Ok(v) => (Ok((key_at(toks).unwrap(), v)), rest),
            Err(e) => (Err(e), rest),
        }
    } else {
        (Err(JsonError::MissingColon), after_key)
    }
}

/// The rest of an object behind the members `acc`: members with a comma
/// between them and at most one behind the last, up to the closing brace. A
/// member takes at least one token, so the test on the lengths always holds
/// (`lemma_member_shrinks`).
pub open spec fn parse_members(toks: Stream, acc: Seq<(Seq<char>, JsonModel)>) -> (
    Result<JsonModel, JsonError>,
    Stream,
)
    decreases toks.len(), 2int,
{
    if key_at(toks) is Some {
        let (member, rest) = parse_member(toks);
        match member {
            Ok(m) => if starts_with_token(rest, Lexeme::Comma) && rest.len() <= toks.len() {
                parse_members(rest.drop_first(), acc.push(m))
            } else {
                close_object(rest, acc.push(m))
            },
            Err(e) => (Err(e), rest),
        }
    } else {
        close_object(toks, acc)
    }
}

/// The value of a text: the value at the front of its tokens. What follows
/// the value is not looked at.
pub open spec fn parse_text(s: Seq<u8>) -> Result<JsonModel, JsonError> {
    parse_value_of(lexemes(s)).0
}

impl<'a> JsonValue<'a> {
    /// The value as contracts see it.
    pub open spec fn model(self) -> JsonModel
        decreases self,
    {
        match self {
            JsonValue::Object { kv } => JsonModel::Object(
                Seq::new(
                    kv@.len(),
                    |i: int|
                        if 0 <= i < kv@.len() {
                            (kv@[i].0@, kv@[i].1.model())
                        } else {
                            (Seq::empty(), JsonModel::Null)
                        },
                ),
            ),
            JsonValue::Array { values } => JsonModel::Array(
                Seq::new(
                    values@.len(),
                    |i: int|
                        if 0 <= i < values@.len() {
                            values@[i].model()
                        } else {
                            JsonModel::Null
                        },
                ),
            ),
            JsonValue::Number(text) => JsonModel::Number(text@),
            JsonValue::String(text) => JsonModel::String(text@),
            JsonValue::Boolean(b) => JsonModel::Boolean(b),
            JsonValue::Null => JsonModel::Null,
        }
    }
}

/// Whether a parse came out as the contract says: a value with the model
/// that was due, or the error that was due.
pub open spec fn agrees<'a>(
    r: Result<JsonValue<'a>, JsonError>,
    due: Result<JsonModel, JsonError>,
) -> bool {
    match due {
        Ok(model) => r is Ok && r.unwrap().model() == model,
        Err(e) => r is Err && r->Err_0 == e,
    }
}

/// Reads values off a tokenizer, one token ahead of what it has parsed.
pub struct Parser<'a> {
    tokens: Tokenizer<'a>,
    current_token: TokenResult<'a>,
}

impl<'a> Parser<'a> {
    /// The tokens that the parser has not parsed yet: the token at hand and
    /// those of the input behind it.
    pub closed spec fn stream(&self) -> Stream {
        match result_view(self.current_token) {
            None => Seq::empty(),
            Some(Err(e)) => seq![Err(e)],
            Some(Ok(lexeme)) => seq![Ok(lexeme)] + lexemes(self.tokens.input@),
        }
    }

    /// A parser at the first token of the tokenizer's input.
    pub fn new(tokens: Tokenizer<'a>) -> (parser: Self)
        ensures
            parser.stream() == lexemes(tokens.input@),
    {
        let mut tokens = tokens;
        proof {
            lemma_token_consumes(tokens.input@);
        }
        let first = tokens.next();
        Parser { tokens, current_token: first }
    }

    /// Moves on to the next token.
    fn advance(&mut self)
        requires
            old(self).stream().len() > 0,
            old(self).stream()[0] is Ok,
        ensures
            final(self).stream() == old(self).stream().drop_first(),
    {
        proof {
            lemma_token_consumes(self.tokens.input@);
            assert(self.stream().drop_first() =~= lexemes(self.tokens.input@));
        }
        self.current_token = self.tokens.next();
    }

    /// Parses the value at the token at hand and moves behind it. A failure
    /// leaves the parser at the token that it stumbled on.
    pub fn parse_value(&mut self) -> (r: Result<JsonValue<'a>, JsonError>)
        ensures
            agrees(r, parse_value_of(old(self).stream()).0),
            final(self).stream() == parse_value_of(old(self).stream()).1,
        decreases old(self).stream().len(), 1int,
    {
        match self.current_token {
            Some(Ok(JsonToken::BeginObject)) => self.parse_object(),
            Some(Ok(JsonToken::BeginArray)) => self.parse_array(),
            Some(Ok(JsonToken::String(s))) => {
                self.advance();
                Ok(JsonValue::String(s))
            },
            Some(Ok(JsonToken::Number(n))) => {
                self.advance();
                Ok(JsonValue::Number(n))
            },
            Some(Ok(JsonToken::Boolean(b))) => {
                self.advance();
                Ok(JsonValue::Boolean(b))
            },
            Some(Ok(JsonToken::Null)) => {
                self.advance();
                Ok(JsonValue::Null)
            },
            _ => Err(JsonError::UnexpectedToken),
        }
    }

    /// Parses an object, from its opening brace.
    fn parse_object(&mut self) -> (r: Result<JsonValue<'a>, JsonError>)
        requires
            starts_with_token(old(self).stream(), Lexeme::BeginObject),
        ensures
            agrees(r, parse_members(old(self).stream().drop_first(), Seq::empty()).0),
            final(self).stream() == parse_members(old(self).stream().drop_first(), Seq::empty()).1,
        decreases old(self).stream().len(), 0int,
    {
        self.advance();
        let ghost start = self.stream();
        let mut kv: Vec<(&'a str, JsonValue<'a>)> = Vec::new();
        let ghost mut members: Seq<(Seq<char>, JsonModel)> = Seq::empty();
        loop
            invariant
                start == old(self).stream().drop_first(),
                self.stream().len() < old(self).stream().len(),
                members.len() == kv@.len(),
                forall|i: int|
                    0 <= i < kv@.len() ==> members[i] == (
                        (#[trigger] kv@[i]).0@,
                        kv@[i].1.model(),
                    ),
                parse_members(start, Seq::empty()) == parse_members(self.stream(), members),
            decreases self.stream().len(),
        {
            let ghost before = self.stream();
            match self.current_token {
                Some(Ok(JsonToken::String(_))) => {
                    proof {
                        lemma_member_shrinks(before);
                    }
                    match self.parse_kv() {
                        Err(e) => {
                            return Err(e);
                        },
                        Ok(member) => {
                            proof {
                                members = members.push((member.0@, member.1.model()));
                            }
                            kv.push(member);
                        },
                    }
                    match self.current_token {
                        Some(Ok(JsonToken::Comma)) => {
                            self.advance();
                        },
                        _ => {
                            return self.end_object(kv, Ghost(members));
                        },
                    }
                },
                _ => {
                    return self.end_object(kv, Ghost(members));
                },
            }
        }
    }

    /// Ends an object with the members `kv` at its closing brace.
    fn end_object(
        &mut self,
        kv: Vec<(&'a str, JsonValue<'a>)>,
        Ghost(members): Ghost<Seq<(Seq<char>, JsonModel)>>,
    ) -> (r: Result<JsonValue<'a>, JsonError>)
        requires
            members.len() == kv@.len(),
            forall|i: int|
                0 <= i < kv@.len() ==> members[i] == ((#[trigger] kv@[i]).0@, kv@[i].1.model()),
        ensures
            agrees(r, close_object(old(self).stream(), members).0),
            final(self).stream() == close_object(old(self).stream(), members).1,
    {
        match self.current_token {
            Some(Ok(JsonToken::EndObject)) => {
                self.advance();
                let value = JsonValue::Object { kv };
                assert(value.model()->Object_0 =~= members);
                Ok(value)
            },
            _ => Err(JsonError::UnclosedObject),
        }
    }

    /// Parses a member of an object, from its key.
    fn parse_kv(&mut self) -> (r: Result<(&'a str, JsonValue<'a>), JsonError>)
        requires
            key_at(old(self).stream()) is Some,
        ensures
            match parse_member(old(self).stream()).0 {
                Ok(member) => r is Ok && r.unwrap().0@ == member.0 && r.unwrap().1.model()
                    == member.1,
                Err(e) => r is Err && r->Err_0 == e,
            },
            final(self).stream() == parse_member(old(self).stream()).1,
        decreases old(self).stream().len(), 0int,
    {
        match self.current_token {
            Some(Ok(JsonToken::String(key))) => {
                self.advance();
                match self.current_token {
                    Some(Ok(JsonToken::Colon)) => {
                        self.advance();
                        match self.parse_value() {
                            Ok(value) => Ok((key, value)),
                            Err(e) => Err(e),
                        }
                    },
                    _ => Err(JsonError::MissingColon),
                }
            },
            _ => Err(JsonError::MissingColon),
        }
    }

    /// Parses an array, from its opening bracket.
    fn parse_array(&mut self) -> (r: Result<JsonValue<'a>, JsonError>)
        requires
            starts_with_token(old(self).stream(), Lexeme::BeginArray),
        ensures
            agrees(r, parse_items(old(self).stream().drop_first(), Seq::empty()).0),
            final(self).stream() == parse_items(old(self).stream().drop_first(), Seq::empty()).1,
        decreases old(self).stream().len(), 0int,
    {
        self.advance();
        let ghost start = self.stream();
        let mut values: Vec<JsonValue<'a>> = Vec::new();
        let ghost mut items: Seq<JsonModel> = Seq::empty();
        loop
            invariant
                start == old(self).stream().drop_first(),
                self.stream().len() < old(self).stream().len(),
                items.len() == values@.len(),
                forall|i: int|
                    0 <= i < values@.len() ==> items[i] == (#[trigger] values@[i]).model(),
                parse_items(start, Seq::empty()) == parse_items(self.stream(), items),
            decreases self.stream().len(),
        {
            proof {
                lemma_value_shrinks(self.stream());
            }
            match self.current_token {
                Some(Ok(JsonToken::EndArray)) => {
                    self.advance();
                    let value = JsonValue::Array { values };
                    assert(value.model()->Array_0 =~= items);
                    return Ok(value);
                },
                Some(Ok(JsonToken::Comma)) => {
                    self.advance();
                },
                Some(Ok(_)) => {
                    match self.parse_value() {
                        Err(e) => {
                            return Err(e);
                        },
                        Ok(value) => {
                            proof {
                                items = items.push(value.model());
                            }
                            values.push(value);
                        },
                    }
                },
                _ => {
                    return Err(JsonError::UnclosedArray);
                },
            }
        }
    }
}

/// Parsing moves forward only: what is left of a stream is never longer than
/// the stream, and shorter behind a value. So the checks on the length in
/// `parse_items` and `parse_members` never fail.
pub proof fn lemma_value_shrinks(toks: Stream)
    ensures
        parse_value_of(toks).1.len() <= toks.len(),
        parse_value_of(toks).0 is Ok ==> parse_value_of(toks).1.len() < toks.len(),
    decreases toks.len(), 1int,
{
    if toks.len() > 0 {
        match toks[0] {
            Ok(Lexeme::BeginObject) => {
                lemma_members_shrink(toks.drop_first(), Seq::empty());
            },
            Ok(Lexeme::BeginArray) => {
                lemma_items_shrink(toks.drop_first(), Seq::empty());
            },
            _ => {},
        }
    }
}

/// What is left behind the items of an array is not longer than the stream.
pub proof fn lemma_items_shrink(toks: Stream, acc: Seq<JsonModel>)
    ensures
        parse_items(toks, acc).1.len() <= toks.len(),
    decreases toks.len(), 2int,
{
    if toks.len() > 0 {
        match toks[0] {
            Ok(Lexeme::EndArray) => {},
            Ok(Lexeme::Comma) => {
                lemma_items_shrink(toks.drop_first(), acc);
            },
            Ok(_) => {
                lemma_value_shrinks(toks);
                let (value, rest) = parse_value_of(toks);
                match value {
                    Ok(v) => {
                        lemma_items_shrink(rest, acc.push(v));
                    },
                    Err(_) => {},
                }
            },
            Err(_) => {},
        }
    }
}

/// What is left behind a member is shorter than the stream.
pub proof fn lemma_member_shrinks(toks: Stream)
    requires
        key_at(toks) is Some,
    ensures
        parse_member(toks).1.len() < toks.len(),
    decreases toks.len(), 1int,
{
    let after_key = toks.drop_first();
    if starts_with_token(after_key, Lexeme::Colon) {
        lemma_value_shrinks(after_key.drop_first());
    }
}

/// What is left behind the members of an object is not longer than the
/// stream.
pub proof fn lemma_members_shrink(toks: Stream, acc: Seq<(Seq<char>, JsonModel)>)
    ensures
        parse_members(toks, acc).1.len() <= toks.len(),
    decreases toks.len(), 2int,
{
    if key_at(toks) is Some {
        lemma_member_shrinks(toks);
        let (member, rest) = parse_member(toks);
        match member {
            Ok(m) => {
                if starts_with_token(rest, Lexeme::Comma) {
                    lemma_members_shrink(rest.drop_first(), acc.push(m));
                }
            },
            Err(_) => {},
        }
    }
}

} // verus!
