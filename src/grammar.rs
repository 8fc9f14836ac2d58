use vstd::prelude::*;
use crate::error::{ErrorKind, Fault};
use crate::token::{keyword_kind, LiteralView, TokenType, TokenView};

verus! {

// The bytes the scanner dispatches on.
pub const TAB: u8 = 9;
pub const NEWLINE: u8 = 10;
pub const CARRIAGE_RETURN: u8 = 13;
pub const SPACE: u8 = 32;
pub const BANG: u8 = 33;
pub const QUOTE: u8 = 34;
pub const LEFT_PAREN: u8 = 40;
pub const RIGHT_PAREN: u8 = 41;
pub const STAR: u8 = 42;
pub const PLUS: u8 = 43;
pub const COMMA: u8 = 44;
pub const MINUS: u8 = 45;
pub const DOT: u8 = 46;
pub const SLASH: u8 = 47;
pub const SEMICOLON: u8 = 59;
pub const LESS: u8 = 60;
pub const EQUAL: u8 = 61;
pub const GREATER: u8 = 62;
pub const UNDERSCORE: u8 = 95;
pub const LEFT_BRACE: u8 = 123;
pub const RIGHT_BRACE: u8 = 125;

pub open spec fn is_digit(b: u8) -> bool {
    48 <= b <= 57
}

/// A byte that may start an identifier: an ASCII letter or an underscore.
pub open spec fn is_alpha(b: u8) -> bool {
    (97 <= b <= 122) || (65 <= b <= 90) || b == UNDERSCORE
}

/// A byte that may continue an identifier.
pub open spec fn is_alphanumeric(b: u8) -> bool {
    is_alpha(b) || is_digit(b)
}

/// The runs of bytes that the scanner consumes in one go.
#[derive(Clone, Copy, PartialEq, Eq, Structural)]
pub enum ByteClass {
    /// The digits of a number.
    Digit,
    /// The letters, digits and underscores of an identifier.
    Word,
    /// The rest of a line comment.
    NotNewline,
    /// The body of a string literal.
    NotQuote,
}

impl ByteClass {
    pub open spec fn holds(self, b: u8) -> bool {
        match self {
            ByteClass::Digit => is_digit(b),
            ByteClass::Word => is_alphanumeric(b),
            ByteClass::NotNewline => b != NEWLINE,
            ByteClass::NotQuote => b != QUOTE,
        }
    }

    pub fn contains(self, b: u8) -> (r: bool)
        ensures
            r == self.holds(b),
    {
        match self {
            ByteClass::Digit => byte_is_digit(b),
            ByteClass::Word => byte_is_alpha(b) || byte_is_digit(b),
            ByteClass::NotNewline => b != NEWLINE,
            ByteClass::NotQuote => b != QUOTE,
        }
    }
}

/// The first offset at or after `i` whose byte is not in `class`, or the
/// length of `s` if there is none.
pub open spec fn skip_while(s: Seq<u8>, i: int, class: ByteClass) -> int
    decreases s.len() - i,
{
    if 0 <= i < s.len() && class.holds(s[i]) {
        skip_while(s, i + 1, class)
    } else {
        i
    }
}

/// The number of newline bytes among the first `n` bytes of `s`.
pub open spec fn newlines(s: Seq<u8>, n: int) -> nat
    decreases n,
{
    if n <= 0 {
        0
    } else {
        newlines(s, n - 1) + if s[n - 1] == NEWLINE { 1nat } else { 0nat }
    }
}

/// The 1-based line on which offset `n` of `s` lies.
pub open spec fn line_at(s: Seq<u8>, n: int) -> nat {
    newlines(s, n) + 1
}

/// The kind of a token made of the single byte `c` alone.
pub open spec fn single_kind(c: u8) -> Option<TokenType> {
    if c == LEFT_PAREN {
        Some(TokenType::LeftParen)
    } else if c == RIGHT_PAREN {
        Some(TokenType::RightParen)
    } else if c == LEFT_BRACE {
        Some(TokenType::LeftBrace)
    } else if c == RIGHT_BRACE {
        Some(TokenType::RightBrace)
    } else if c == COMMA {
        Some(TokenType::Comma)
    } else if c == DOT {
        Some(TokenType::Dot)
    } else if c == MINUS {
        Some(TokenType::Minus)
    } else if c == PLUS {
        Some(TokenType::Plus)
    } else if c == SEMICOLON {
        Some(TokenType::Semicolon)
    } else if c == STAR {
        Some(TokenType::Star)
    } else {
        None
    }
}

/// For a byte that forms an operator alone or followed by `=`: the kind of
/// the one-byte operator and that of the two-byte one.
pub open spec fn operator_kinds(c: u8) -> Option<(TokenType, TokenType)> {
    if c == BANG {
        Some((TokenType::Bang, TokenType::BangEqual))
    } else if c == EQUAL {
        Some((TokenType::Equal, TokenType::EqualEqual))
    } else if c == LESS {
        Some((TokenType::Less, TokenType::LessEqual))
    } else if c == GREATER {
        Some((TokenType::Greater, TokenType::GreaterEqual))
    } else {
        None
    }
}

/// Whether offset `i` of `s` holds the byte `b`.
pub open spec fn byte_at_is(s: Seq<u8>, i: int, b: u8) -> bool {
    0 <= i < s.len() && s[i] == b
}

/// The end of a number literal whose first digit is at `start`: its digits,
/// then a dot and more digits only where at least one digit follows the dot.
pub open spec fn number_end(s: Seq<u8>, start: int) -> int {
    let whole = skip_while(s, start + 1, ByteClass::Digit);
    if byte_at_is(s, whole, DOT) && whole + 1 < s.len() && is_digit(s[whole + 1]) {
        skip_while(s, whole + 1, ByteClass::Digit)
    } else {
        whole
    }
}

/// What one scanning step does.
pub enum Step {
    /// Emits a token of this kind.
    Emit(TokenType),
    /// Discards what it consumed (whitespace, newlines, comments).
    Skip,
    /// Reports a lexical error and emits nothing.
    Fail(ErrorKind),
}

/// The step taken at offset `i` of `s`, and the offset where it ends.
pub open spec fn step_at(s: Seq<u8>, i: int) -> (Step, int) {
    let c = s[i];
    if single_kind(c) is Some {
        (Step::Emit(single_kind(c)->0), i + 1)
    } else if operator_kinds(c) is Some {
        let (alone, with_equal) = operator_kinds(c)->0;
        if byte_at_is(s, i + 1, EQUAL) {
            (Step::Emit(with_equal), i + 2)
        } else {
            (Step::Emit(alone), i + 1)
        }
    } else if c == SLASH {
        if byte_at_is(s, i + 1, SLASH) {
            (Step::Skip, skip_while(s, i + 2, ByteClass::NotNewline))
        } else {
            (Step::Emit(TokenType::Slash), i + 1)
        }
    } else if c == SPACE || c == CARRIAGE_RETURN || c == TAB || c == NEWLINE {
        (Step::Skip, i + 1)
    } else if c == QUOTE {
        let close = skip_while(s, i + 1, ByteClass::NotQuote);
        if close < s.len() {
            (Step::Emit(TokenType::String), close + 1)
        } else {
            (Step::Fail(ErrorKind::UnterminatedString), close)
        }
    } else if is_digit(c) {
        (Step::Emit(TokenType::Number), number_end(s, i))
    } else if is_alpha(c) {
        let end = skip_while(s, i + 1, ByteClass::Word);
        (Step::Emit(word_kind(s.subrange(i, end))), end)
    } else {
        (Step::Fail(ErrorKind::UnexpectedCharacter), i + 1)
    }
}

/// The kind of a token spelled by an identifier's bytes: a keyword where
/// they spell one exactly, else `Identifier`.
pub open spec fn word_kind(text: Seq<u8>) -> TokenType {
    match keyword_kind(text) {
        Some(k) => k,
        None => TokenType::Identifier,
    }
}

pub proof fn lemma_skip_while_bounds(s: Seq<u8>, i: int, class: ByteClass)
    requires
        0 <= i <= s.len(),
    ensures
        i <= skip_while(s, i, class) <= s.len(),
        forall|k: int| i <= k < skip_while(s, i, class) ==> class.holds(#[trigger] s[k]),
        skip_while(s, i, class) < s.len() ==> !class.holds(s[skip_while(s, i, class)]),
    decreases s.len() - i,
{
    if i < s.len() && class.holds(s[i]) {
        lemma_skip_while_bounds(s, i + 1, class);
    }
}

/// Every step consumes at least one byte and stays within the input.
pub proof fn lemma_step_advances(s: Seq<u8>, i: int)
    requires
        0 <= i < s.len(),
    ensures
        i < step_at(s, i).1 <= s.len(),
{
    lemma_skip_while_bounds(s, i + 1, ByteClass::Digit);
    lemma_skip_while_bounds(s, i + 1, ByteClass::Word);
    lemma_skip_while_bounds(s, i + 1, ByteClass::NotQuote);
    if i + 2 <= s.len() {
        lemma_skip_while_bounds(s, i + 2, ByteClass::NotNewline);
    }
    let whole = skip_while(s, i + 1, ByteClass::Digit);
    if whole + 1 < s.len() {
        lemma_skip_while_bounds(s, whole + 1, ByteClass::Digit);
    }
}

/// A token found by the scan: its kind and the offsets of its first byte
/// and of the byte after it.
pub struct Lexed {
    pub kind: TokenType,
    pub start: int,
    pub end: int,
}

/// The tokens that scanning emits from offset `i` of `s` to the end.
pub open spec fn lex_from(s: Seq<u8>, i: int) -> Seq<Lexed>
    decreases s.len() - i,
    via lex_from_decreases
{
    if 0 <= i < s.len() {
        let (step, end) = step_at(s, i);
        let rest = lex_from(s, end);
        match step {
            Step::Emit(kind) => seq![Lexed { kind, start: i, end }] + rest,
            _ => rest,
        }
    } else {
        seq![]
    }
}

#[via_fn]
proof fn lex_from_decreases(s: Seq<u8>, i: int) {
    if 0 <= i < s.len() {
        lemma_step_advances(s, i);
    }
}

/// The errors that scanning reports from offset `i` of `s` to the end.
pub open spec fn faults_from(s: Seq<u8>, i: int) -> Seq<Fault>
    decreases s.len() - i,
    via faults_from_decreases
{
    if 0 <= i < s.len() {
        let (step, end) = step_at(s, i);
        let rest = faults_from(s, end);
        match step {
            Step::Fail(kind) => seq![Fault { kind, line: line_at(s, end) }] + rest,
            _ => rest,
        }
    } else {
        seq![]
    }
}

#[via_fn]
proof fn faults_from_decreases(s: Seq<u8>, i: int) {
    if 0 <= i < s.len() {
        lemma_step_advances(s, i);
    }
}

/// The literal value of a scanned token: the text between the quotes of a
/// string, the digits of a number, nothing for the other kinds.
pub open spec fn literal_of(s: Seq<u8>, t: Lexed) -> LiteralView {
    if t.kind == TokenType::String {
        LiteralView::Text(s.subrange(t.start + 1, t.end - 1))
    } else if t.kind == TokenType::Number {
        LiteralView::Number(s.subrange(t.start, t.end))
    } else {
        LiteralView::Null
    }
}

/// The token that a scanned span becomes; its line is the one on which it starts.
pub open spec fn token_of(s: Seq<u8>, t: Lexed) -> TokenView {
    TokenView {
        kind: t.kind,
        lexeme: s.subrange(t.start, t.end),
        literal: literal_of(s, t),
        line: line_at(s, t.start),
    }
}

/// The tokens emitted from offset `i` of `s` to the end.
pub open spec fn tokens_from(s: Seq<u8>, i: int) -> Seq<TokenView> {
    lex_from(s, i).map_values(|t: Lexed| token_of(s, t))
}

/// The token that closes every scan.
pub open spec fn end_token(s: Seq<u8>) -> TokenView {
    TokenView {
        kind: TokenType::Eof,
        lexeme: seq![],
        literal: LiteralView::Null,
        line: line_at(s, s.len() as int),
    }
}

/// The whole token sequence for `s`.
pub open spec fn scan_tokens_of(s: Seq<u8>) -> Seq<TokenView> {
    tokens_from(s, 0).push(end_token(s))
}

/// Every lexical error in `s`, in order.
pub open spec fn scan_faults_of(s: Seq<u8>) -> Seq<Fault> {
    faults_from(s, 0)
}

/// The tokens emitted by the step at offset `i` of `s`: none or one.
pub open spec fn step_tokens(s: Seq<u8>, i: int) -> Seq<TokenView> {
    let (step, end) = step_at(s, i);
    match step {
        Step::Emit(kind) => seq![token_of(s, Lexed { kind, start: i, end })],
        _ => seq![],
    }
}

/// The errors reported by the step at offset `i` of `s`: none or one.
pub open spec fn step_faults(s: Seq<u8>, i: int) -> Seq<Fault> {
    let (step, end) = step_at(s, i);
    match step {
        Step::Fail(kind) => seq![Fault { kind, line: line_at(s, end) }],
        _ => seq![],
    }
}

/// Scanning from `i` is the step at `i` followed by scanning from where it ends.
pub proof fn lemma_scan_unfold(s: Seq<u8>, i: int)
    requires
        0 <= i < s.len(),
    ensures
        tokens_from(s, i) == step_tokens(s, i) + tokens_from(s, step_at(s, i).1),
        faults_from(s, i) == step_faults(s, i) + faults_from(s, step_at(s, i).1),
{
    let end = step_at(s, i).1;
    assert(tokens_from(s, i) =~= step_tokens(s, i) + tokens_from(s, end));
}

pub proof fn lemma_newlines_bound(s: Seq<u8>, n: int)
    requires
        0 <= n,
    ensures
        newlines(s, n) <= n,
    decreases n,
{
    if n > 0 {
        lemma_newlines_bound(s, n - 1);
    }
}

pub fn byte_is_digit(b: u8) -> (r: bool)
    ensures
        r == is_digit(b),
{
    48 <= b && b <= 57
}

pub fn byte_is_alpha(b: u8) -> (r: bool)
    ensures
        r == is_alpha(b),
{
    (97 <= b && b <= 122) || (65 <= b && b <= 90) || b == UNDERSCORE
}

/// The kind of a token made of the single byte `c` alone, if any.
pub fn single_char_kind(c: u8) -> (r: Option<TokenType>)
    ensures
        r == single_kind(c),
{
    match c {
        LEFT_PAREN => Some(TokenType::LeftParen),
        RIGHT_PAREN => Some(TokenType::RightParen),
        LEFT_BRACE => Some(TokenType::LeftBrace),
        RIGHT_BRACE => Some(TokenType::RightBrace),
        COMMA => Some(TokenType::Comma),
        DOT => Some(TokenType::Dot),
        MINUS => Some(TokenType::Minus),
        PLUS => Some(TokenType::Plus),
        SEMICOLON => Some(TokenType::Semicolon),
        STAR => Some(TokenType::Star),
        _ => None,
    }
}

} // verus!
