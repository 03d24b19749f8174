//! The tokenizer: JSON text, byte by byte, into tokens.

use vstd::prelude::*;
use vstd::slice::slice_subrange;
use vstd::utf8::{decode_utf8, encode_utf8, valid_utf8};

verus! {

/// A token of JSON text. The text of a string is what stands between its
/// quotes, and a number is kept as it is written.
#[derive(Debug, Copy, Clone, PartialEq)]
pub enum JsonToken<'a> {
    /// `[`
    BeginArray,
    /// `]`
    EndArray,
    /// `{`
    BeginObject,
    /// `}`
    EndObject,
    /// `"..."`
    String(&'a str),
    /// `123.45`
    Number(&'a str),
    /// `true` or `false`
    Boolean(bool),
    /// `null`
    Null,
    /// `:`
    Colon,
    /// `,`
    Comma,
}

/// A token as contracts see it: texts are sequences of characters.
pub enum Lexeme {
    BeginArray,
    EndArray,
    BeginObject,
    EndObject,
    String(Seq<char>),
    Number(Seq<char>),
    Boolean(bool),
    Null,
    Colon,
    Comma,
}

/// Why the text at the front of the input is no token.
#[derive(Debug, Copy, Clone, PartialEq, Eq)]
pub enum TokenError {
    /// A string is opened and never closed.
    UnclosedString,
    /// No token begins with this byte.
    UnknownToken(u8),
    /// The bytes between the quotes of a string are not UTF-8.
    InvalidUtf8,
}

/// The message of a token error. An unknown token is named by the character
/// whose code is the byte.
pub open spec fn token_error_text(error: TokenError) -> Seq<char> {
    match error {
        TokenError::UnclosedString => "Unclosed string"@,
        TokenError::UnknownToken(b) => "Unknown token: "@.push(b as char),
        TokenError::InvalidUtf8 => "Invalid UTF-8 sequence"@,
    }
}

/// `String::push` of std: appends one character to the end of the string.
#[verifier::external_body]
fn push_char(out: &mut String, c: char)
    ensures
        final(out)@ == old(out)@.push(c),
{
    out.push(c);
}

impl TokenError {
    /// A message for the user.
    pub fn message(&self) -> (s: String)
        ensures
            s@ == token_error_text(*self),
    {
        match self {
            TokenError::UnclosedString => String::from_str("Unclosed string"),
            TokenError::UnknownToken(b) => {
                let mut out = String::from_str("Unknown token: ");
                push_char(&mut out, *b as char);
                out
            },
            TokenError::InvalidUtf8 => String::from_str("Invalid UTF-8 sequence"),
        }
    }
}

/// What the tokenizer hands out: a token, an error, or nothing at the end of
/// the input.
pub type TokenResult<'a> = Option<Result<JsonToken<'a>, TokenError>>;

impl<'a> View for JsonToken<'a> {
    type V = Lexeme;

    open spec fn view(&self) -> Lexeme {
        match *self {
            JsonToken::BeginArray => Lexeme::BeginArray,
            JsonToken::EndArray => Lexeme::EndArray,
            JsonToken::BeginObject => Lexeme::BeginObject,
            JsonToken::EndObject => Lexeme::EndObject,
            JsonToken::String(text) => Lexeme::String(text@),
            JsonToken::Number(text) => Lexeme::Number(text@),
            JsonToken::Boolean(b) => Lexeme::Boolean(b),
            JsonToken::Null => Lexeme::Null,
            JsonToken::Colon => Lexeme::Colon,
            JsonToken::Comma => Lexeme::Comma,
        }
    }
}

/// What the tokenizer hands out, as contracts see it.
pub open spec fn result_view(r: TokenResult) -> Option<Result<Lexeme, TokenError>> {
    match r {
        None => None,
        Some(Err(e)) => Some(Err(e)),
        Some(Ok(token)) => Some(Ok(token@)),
    }
}

/// `{`
pub const OPEN_BRACE: u8 = 0x7B;

/// `}`
pub const CLOSE_BRACE: u8 = 0x7D;

/// `[`
pub const OPEN_BRACKET: u8 = 0x5B;

/// `]`
pub const CLOSE_BRACKET: u8 = 0x5D;

/// `:`
pub const COLON: u8 = 0x3A;

/// `,`
pub const COMMA: u8 = 0x2C;

/// `"`
pub const QUOTE: u8 = 0x22;

/// `-`
pub const MINUS: u8 = 0x2D;

/// `.`
pub const POINT: u8 = 0x2E;

/// `0`
pub const DIGIT_ZERO: u8 = 0x30;

/// `9`
pub const DIGIT_NINE: u8 = 0x39;

/// `e`
pub const LOWER_E: u8 = 0x65;

/// `E`
pub const UPPER_E: u8 = 0x45;

/// Space, tab, line feed, form feed and carriage return.
pub open spec fn is_whitespace(b: u8) -> bool {
    b == 0x20 || b == 0x09 || b == 0x0A || b == 0x0C || b == 0x0D
}

/// An ASCII digit.
pub open spec fn is_digit(b: u8) -> bool {
    DIGIT_ZERO <= b <= DIGIT_NINE
}

/// A byte that can stand in a number: a digit, `.`, `-`, `e` or `E`.
pub open spec fn is_number_byte(b: u8) -> bool {
    is_digit(b) || b == POINT || b == MINUS || b == LOWER_E || b == UPPER_E
}

/// A byte other than the double quote.
pub open spec fn is_string_byte(b: u8) -> bool {
    b != QUOTE
}

/// The end of the run of bytes that starts at `from` and satisfies `p`: the
/// first position from there whose byte does not, or the end of `s`.
pub open spec fn run_end(s: Seq<u8>, from: int, p: spec_fn(u8) -> bool) -> int
    decreases s.len() - from,
{
    if from < 0 || from >= s.len() || !p(s[from]) {
        from
    } else {
        run_end(s, from + 1, p)
    }
}

/// Whether `s` begins with the bytes of `word`.
pub open spec fn has_prefix(s: Seq<u8>, word: Seq<u8>) -> bool {
    word.len() <= s.len() && s.subrange(0, word.len() as int) == word
}

/// The bytes of `true`.
pub open spec fn true_word() -> Seq<u8> {
    seq![0x74u8, 0x72u8, 0x75u8, 0x65u8]
}

/// The bytes of `false`.
pub open spec fn false_word() -> Seq<u8> {
    seq![0x66u8, 0x61u8, 0x6Cu8, 0x73u8, 0x65u8]
}

/// The bytes of `null`.
pub open spec fn null_word() -> Seq<u8> {
    seq![0x6Eu8, 0x75u8, 0x6Cu8, 0x6Cu8]
}

/// The text that a run of bytes spells, or the error where they are not
/// UTF-8.
pub open spec fn text_of(bytes: Seq<u8>) -> Result<Seq<char>, TokenError> {
    if valid_utf8(bytes) {
        Ok(decode_utf8(bytes))
    } else {
        Err(TokenError::InvalidUtf8)
    }
}

/// The text of a run of ASCII bytes: each byte is the character of its code.
pub open spec fn ascii_text(bytes: Seq<u8>) -> Seq<char> {
    Seq::new(bytes.len(), |i: int| bytes[i] as char)
}

/// The token at the very front of `s`, and the input behind it. At the end
/// of the input there is no token; an error leaves the input where it is.
pub open spec fn scan(s: Seq<u8>) -> (Option<Result<Lexeme, TokenError>>, Seq<u8>) {
    if s.len() == 0 {
        (None, s)
    } else if s[0] == OPEN_BRACE {
        (Some(Ok(Lexeme::BeginObject)), s.skip(1))
    } else if s[0] == CLOSE_BRACE {
        (Some(Ok(Lexeme::EndObject)), s.skip(1))
    } else if s[0] == OPEN_BRACKET {
        (Some(Ok(Lexeme::BeginArray)), s.skip(1))
    } else if s[0] == CLOSE_BRACKET {
        (Some(Ok(Lexeme::EndArray)), s.skip(1))
    } else if s[0] == COLON {
        (Some(Ok(Lexeme::Colon)), s.skip(1))
    } else if s[0] == COMMA {
        (Some(Ok(Lexeme::Comma)), s.skip(1))
    } else if s[0] == QUOTE {
        let end = run_end(s, 1, |b: u8| is_string_byte(b));
        if end >= s.len() {
            (Some(Err(TokenError::UnclosedString)), s)
        } else {
            match text_of(s.subrange(1, end)) {
                Ok(text) => (Some(Ok(Lexeme::String(text))), s.skip(end + 1)),
                Err(e) => (Some(Err(e)), s),
            }
        }
    } else if has_prefix(s, true_word()) {
        (Some(Ok(Lexeme::Boolean(true))), s.skip(4))
    } else if has_prefix(s, false_word()) {
        (Some(Ok(Lexeme::Boolean(false))), s.skip(5))
    } else if has_prefix(s, null_word()) {
        (Some(Ok(Lexeme::Null)), s.skip(4))
    } else if is_digit(s[0]) || s[0] == MINUS {
        let end = run_end(s, 0, |b: u8| is_number_byte(b));
        (Some(Ok(Lexeme::Number(ascii_text(s.subrange(0, end))))), s.skip(end))
    } else {
        (Some(Err(TokenError::UnknownToken(s[0]))), s)
    }
}

/// The first token of `s` behind any whitespace, and the input behind it.
pub open spec fn next_token(s: Seq<u8>) -> (Option<Result<Lexeme, TokenError>>, Seq<u8>) {
    scan(s.skip(run_end(s, 0, |b: u8| is_whitespace(b))))
}

/// A run ends inside the sequence or at its end, every byte of it satisfies
/// the predicate, and the byte behind it, if there is one, does not.
pub proof fn lemma_run_end(s: Seq<u8>, from: int, p: spec_fn(u8) -> bool)
    requires
        0 <= from <= s.len(),
    ensures
        from <= run_end(s, from, p) <= s.len(),
        forall|i: int| from <= i < run_end(s, from, p) ==> p(#[trigger] s[i]),
        run_end(s, from, p) < s.len() ==> !p(s[run_end(s, from, p)]),
    decreases s.len() - from,
{
    if from < s.len() && p(s[from]) {
        lemma_run_end(s, from + 1, p);
    }
}

/// Bytes below 128 are valid UTF-8 and spell the characters of their codes.
pub proof fn lemma_ascii_text(bytes: Seq<u8>)
    requires
        forall|i: int| 0 <= i < bytes.len() ==> bytes[i] < 128,
    ensures
        text_of(bytes) == Ok::<Seq<char>, TokenError>(ascii_text(bytes)),
{
    let chars = ascii_text(bytes);
    assert(vstd::utf8::is_ascii_chars(chars));
    vstd::utf8::is_ascii_chars_encode_utf8(chars);
    assert(encode_utf8(chars) =~= bytes);
    vstd::utf8::encode_utf8_valid_utf8(chars);
    vstd::utf8::encode_utf8_decode_utf8(chars);
}

/// A token stands on at least one byte: the input behind it is shorter.
pub proof fn lemma_token_consumes(s: Seq<u8>)
    ensures
        next_token(s).1.len() <= s.len(),
        next_token(s).0 matches Some(Ok(_)) ==> next_token(s).1.len() < s.len(),
{
    lemma_run_end(s, 0, |b: u8| is_whitespace(b));
    let t = s.skip(run_end(s, 0, |b: u8| is_whitespace(b)));
    if t.len() > 0 {
        lemma_run_end(t, 1, |b: u8| is_string_byte(b));
        lemma_run_end(t, 0, |b: u8| is_number_byte(b));
        if is_number_byte(t[0]) {
            assert(run_end(t, 0, |b: u8| is_number_byte(b)) == run_end(
                t,
                1,
                |b: u8| is_number_byte(b),
            ));
            lemma_run_end(t, 1, |b: u8| is_number_byte(b));
        }
    }
}

/// The tokens of a text, each a token or the error that ends them.
pub type Stream = Seq<Result<Lexeme, TokenError>>;

/// The tokens of `s` in order. Tokens end at the end of the input or with
/// the first error, which is the last element then.
pub open spec fn lexemes(s: Seq<u8>) -> Stream
    decreases s.len(),
{
    match next_token(s) {
        (None, _) => Seq::empty(),
        (Some(Err(e)), _) => seq![Err(e)],
        (Some(Ok(lexeme)), rest) => {
            proof {
                lemma_token_consumes(s);
            }
            seq![Ok(lexeme)] + lexemes(rest)
        },
    }
}

/// `std::str::from_utf8`: the bytes as a string slice, where they are valid
/// UTF-8, and `None` where they are not. The slice it gives has exactly these
/// bytes as its encoding.
#[verifier::external_body]
fn str_from_utf8<'a>(bytes: &'a [u8]) -> (r: Option<&'a str>)
    ensures
        r is Some == valid_utf8(bytes@),
        r matches Some(s) ==> encode_utf8(s@) == bytes@,
{
    match std::str::from_utf8(bytes) {
        Ok(s) => Some(s),
        Err(_) => None,
    }
}

/// Reads a run of bytes as text.
fn read_text<'a>(bytes: &'a [u8]) -> (r: Result<&'a str, TokenError>)
    ensures
        match text_of(bytes@) {
            Ok(text) => r is Ok && r.unwrap()@ == text,
            Err(e) => r == Err::<&'a str, TokenError>(e),
        },
{
    match str_from_utf8(bytes) {
        Some(s) => {
            proof {
                vstd::utf8::encode_utf8_decode_utf8(s@);
            }
            Ok(s)
        },
        None => Err(TokenError::InvalidUtf8),
    }
}

/// Whether a byte is ASCII whitespace.
pub fn is_ascii_whitespace(b: u8) -> (r: bool)
    ensures
        r == is_whitespace(b),
{
    b == 0x20 || b == 0x09 || b == 0x0A || b == 0x0C || b == 0x0D
}

/// Whether a byte can stand in a number.
pub fn is_number_char(b: u8) -> (r: bool)
    ensures
        r == is_number_byte(b),
{
    (DIGIT_ZERO <= b && b <= DIGIT_NINE) || b == POINT || b == MINUS || b == LOWER_E
        || b == UPPER_E
}

/// Whether `input` begins with the bytes of `word`.
fn starts_with(input: &[u8], word: &[u8]) -> (r: bool)
    ensures
        r == has_prefix(input@, word@),
{
    if word.len() > input.len() {
        return false;
    }
    let mut i: usize = 0;
    while i < word.len()
        invariant
            i <= word@.len() <= input@.len(),
            forall|j: int| 0 <= j < i ==> input@[j] == word@[j],
        decreases word@.len() - i,
    {
        if input[i] != word[i] {
            assert(input@.subrange(0, word@.len() as int)[i as int] != word@[i as int]);
            return false;
        }
        i = i + 1;
    }
    assert(input@.subrange(0, word@.len() as int) =~= word@);
    true
}

/// Splits JSON text into tokens, from the front of `input`.
pub struct Tokenizer<'a> {
    /// The input that is left.
    pub input: &'a [u8],
}

impl<'a> Tokenizer<'a> {
    /// A tokenizer at the start of `input`.
    pub fn new(input: &'a [u8]) -> (t: Self)
        ensures
            t.input@ == input@,
    {
        Self { input }
    }

    /// Drops the first `n` bytes of the input.
    fn skip(&mut self, n: usize)
        requires
            n <= old(self).input@.len(),
        ensures
            final(self).input@ == old(self).input@.skip(n as int),
    {
        self.input = slice_subrange(self.input, n, self.input.len());
    }

    /// The end of the run of bytes from `from` that are no double quote.
    fn string_end(&self, from: usize) -> (end: usize)
        requires
            from <= self.input@.len(),
        ensures
            end == run_end(self.input@, from as int, |b: u8| is_string_byte(b)),
            from <= end <= self.input@.len(),
    {
        let mut i: usize = from;
        while i < self.input.len() && self.input[i] != QUOTE
            invariant
                from <= i <= self.input@.len(),
                run_end(self.input@, from as int, |b: u8| is_string_byte(b)) == run_end(
                    self.input@,
                    i as int,
                    |b: u8| is_string_byte(b),
                ),
            decreases self.input@.len() - i,
        {
            i = i + 1;
        }
        i
    }

    /// The end of the run of bytes from the front that can stand in a number.
    fn number_end(&self) -> (end: usize)
        ensures
            end == run_end(self.input@, 0, |b: u8| is_number_byte(b)),
            end <= self.input@.len(),
    {
        let mut i: usize = 0;
        while i < self.input.len() && is_number_char(self.input[i])
            invariant
                i <= self.input@.len(),
                run_end(self.input@, 0, |b: u8| is_number_byte(b)) == run_end(
                    self.input@,
                    i as int,
                    |b: u8| is_number_byte(b),
                ),
            decreases self.input@.len() - i,
        {
            i = i + 1;
        }
        i
    }

    /// Drops the whitespace at the front of the input.
    fn skip_whitespace(&mut self)
        ensures
            final(self).input@ == old(self).input@.skip(
                run_end(old(self).input@, 0, |b: u8| is_whitespace(b)),
            ),
    {
        let mut i: usize = 0;
        while i < self.input.len() && is_ascii_whitespace(self.input[i])
            invariant
                i <= self.input@.len(),
                run_end(self.input@, 0, |b: u8| is_whitespace(b)) == run_end(
                    self.input@,
                    i as int,
                    |b: u8| is_whitespace(b),
                ),
            decreases self.input@.len() - i,
        {
            i = i + 1;
        }
        self.skip(i);
    }

    /// Takes the next token off the input: the token behind any whitespace.
    /// An error leaves the input at the bytes that are no token. At the end
    /// of the input there is none.
    pub fn next(&mut self) -> (r: TokenResult<'a>)
        ensures
            result_view(r) == next_token(old(self).input@).0,
            final(self).input@ == next_token(old(self).input@).1,
    {
        self.skip_whitespace();
        let ghost s = self.input@;
        if self.input.len() == 0 {
            return None;
        }
        let first = self.input[0];
        if first == OPEN_BRACE {
            self.skip(1);
            Some(Ok(JsonToken::BeginObject))
        } else if first == CLOSE_BRACE {
            self.skip(1);
            Some(Ok(JsonToken::EndObject))
        } else if first == OPEN_BRACKET {
            self.skip(1);
            Some(Ok(JsonToken::BeginArray))
        } else if first == CLOSE_BRACKET {
            self.skip(1);
            Some(Ok(JsonToken::EndArray))
        } else if first == COLON {
            self.skip(1);
            Some(Ok(JsonToken::Colon))
        } else if first == COMMA {
            self.skip(1);
            Some(Ok(JsonToken::Comma))
        } else if first == QUOTE {
            let end = self.string_end(1);
            if end >= self.input.len() {
                Some(Err(TokenError::UnclosedString))
            } else {
                match read_text(slice_subrange(self.input, 1, end)) {
                    Ok(text) => {
                        self.skip(end + 1);
                        Some(Ok(JsonToken::String(text)))
                    },
                    Err(e) => Some(Err(e)),
                }
            }
        } else if starts_with(self.input, &[0x74, 0x72, 0x75, 0x65]) {
            self.skip(4);
            Some(Ok(JsonToken::Boolean(true)))
        } else if starts_with(self.input, &[0x66, 0x61, 0x6C, 0x73, 0x65]) {
            self.skip(5);
            Some(Ok(JsonToken::Boolean(false)))
        } else if starts_with(self.input, &[0x6E, 0x75, 0x6C, 0x6C]) {
            self.skip(4);
            Some(Ok(JsonToken::Null))
        } else if (DIGIT_ZERO <= first && first <= DIGIT_NINE) || first == MINUS {
            let end = self.number_end();
            proof {
                lemma_run_end(s, 0, |b: u8| is_number_byte(b));
                lemma_ascii_text(s.subrange(0, end as int));
            }
            // The bytes of a number are ASCII, so they always are text.
            match read_text(slice_subrange(self.input, 0, end)) {
                Ok(text) => {
                    self.skip(end);
                    Some(Ok(JsonToken::Number(text)))
                },
                Err(e) => Some(Err(e)),
            }
        } else {
            Some(Err(TokenError::UnknownToken(first)))
        }
    }
}

} // verus!
