use vstd::prelude::*;
use vstd::string::StringSliceAdditionalSpecFns;

verus! {

/// The lexical category of a token.
#[derive(Debug, Clone, Copy, PartialEq, Eq, Structural)]
pub enum TokenType {
    // Single-character tokens.
    LeftParen,
    RightParen,
    LeftBrace,
    RightBrace,
    Comma,
    Dot,
    Minus,
    Plus,
    Semicolon,
    Slash,
    Star,
    // One or two character tokens.
    Bang,
    BangEqual,
    Equal,
    EqualEqual,
    Greater,
    GreaterEqual,
    Less,
    LessEqual,
    // Literals.
    Identifier,
    String,
    Number,
    // Keywords.
    And,
    Class,
    Else,
    False,
    Fun,
    For,
    If,
    Nil,
    Or,
    Print,
    Return,
    Super,
    This,
    True,
    Var,
    While,
    // End of input.
    Eof,
}

/// The keyword spelled exactly by `text`, if any (case-sensitive).
pub open spec fn keyword_kind(text: Seq<u8>) -> Option<TokenType> {
    if text == seq![97u8, 110u8, 100u8] {  // and
        Some(TokenType::And)
    } else if text == seq![99u8, 108u8, 97u8, 115u8, 115u8] {  // class
        Some(TokenType::Class)
    } else if text == seq![101u8, 108u8, 115u8, 101u8] {  // else
        Some(TokenType::Else)
    } else if text == seq![102u8, 97u8, 108u8, 115u8, 101u8] {  // false
        Some(TokenType::False)
    } else if text == seq![102u8, 117u8, 110u8] {  // fun
        Some(TokenType::Fun)
    } else if text == seq![102u8, 111u8, 114u8] {  // for
        Some(TokenType::For)
    } else if text == seq![105u8, 102u8] {  // if
        Some(TokenType::If)
    } else if text == seq![110u8, 105u8, 108u8] {  // nil
        Some(TokenType::Nil)
    } else if text == seq![111u8, 114u8] {  // or
        Some(TokenType::Or)
    } else if text == seq![112u8, 114u8, 105u8, 110u8, 116u8] {  // print
        Some(TokenType::Print)
    } else if text == seq![114u8, 101u8, 116u8, 117u8, 114u8, 110u8] {  // return
        Some(TokenType::Return)
    } else if text == seq![115u8, 117u8, 112u8, 101u8, 114u8] {  // super
        Some(TokenType::Super)
    } else if text == seq![116u8, 104u8, 105u8, 115u8] {  // this
        Some(TokenType::This)
    } else if text == seq![116u8, 114u8, 117u8, 101u8] {  // true
        Some(TokenType::True)
    } else if text == seq![118u8, 97u8, 114u8] {  // var
        Some(TokenType::Var)
    } else if text == seq![119u8, 104u8, 105u8, 108u8, 101u8] {  // while
        Some(TokenType::While)
    } else {
        None
    }
}

/// Whether two byte strings are equal.
fn bytes_equal(a: &[u8], b: &[u8]) -> (r: bool)
    ensures
        r == (a@ == b@),
{
    if a.len() != b.len() {
        return false;
    }
    let mut i: usize = 0;
    while i < a.len()
        invariant
            a@.len() == b@.len(),
            i <= a@.len(),
            a@.subrange(0, i as int) == b@.subrange(0, i as int),
        decreases a@.len() - i,
    {
        if a[i] != b[i] {
            return false;
        }
        assert(a@.subrange(0, i + 1) == a@.subrange(0, i as int).push(a@[i as int]));
        assert(b@.subrange(0, i + 1) == b@.subrange(0, i as int).push(b@[i as int]));
        i = i + 1;
    }
    assert(a@ == a@.subrange(0, i as int));
    assert(b@ == b@.subrange(0, i as int));
    true
}

/// The keyword spelled exactly by the bytes of `text`, if any.
pub fn keyword_of(text: &[u8]) -> (r: Option<TokenType>)
    ensures
        r == keyword_kind(text@),
{
    if bytes_equal(text, &[97u8, 110u8, 100u8]) {  // and
        Some(TokenType::And)
    } else if bytes_equal(text, &[99u8, 108u8, 97u8, 115u8, 115u8]) {  // class
        Some(TokenType::Class)
    } else if bytes_equal(text, &[101u8, 108u8, 115u8, 101u8]) {  // else
        Some(TokenType::Else)
    } else if bytes_equal(text, &[102u8, 97u8, 108u8, 115u8, 101u8]) {  // false
        Some(TokenType::False)
    } else if bytes_equal(text, &[102u8, 117u8, 110u8]) {  // fun
        Some(TokenType::Fun)
    } else if bytes_equal(text, &[102u8, 111u8, 114u8]) {  // for
        Some(TokenType::For)
    } else if bytes_equal(text, &[105u8, 102u8]) {  // if
        Some(TokenType::If)
    } else if bytes_equal(text, &[110u8, 105u8, 108u8]) {  // nil
        Some(TokenType::Nil)
    } else if bytes_equal(text, &[111u8, 114u8]) {  // or
        Some(TokenType::Or)
    } else if bytes_equal(text, &[112u8, 114u8, 105u8, 110u8, 116u8]) {  // print
        Some(TokenType::Print)
    } else if bytes_equal(text, &[114u8, 101u8, 116u8, 117u8, 114u8, 110u8]) {  // return
        Some(TokenType::Return)
    } else if bytes_equal(text, &[115u8, 117u8, 112u8, 101u8, 114u8]) {  // super
        Some(TokenType::Super)
    } else if bytes_equal(text, &[116u8, 104u8, 105u8, 115u8]) {  // this
        Some(TokenType::This)
    } else if bytes_equal(text, &[116u8, 114u8, 117u8, 101u8]) {  // true
        Some(TokenType::True)
    } else if bytes_equal(text, &[118u8, 97u8, 114u8]) {  // var
        Some(TokenType::Var)
    } else if bytes_equal(text, &[119u8, 104u8, 105u8, 108u8, 101u8]) {  // while
        Some(TokenType::While)
    } else {
        None
    }
}

impl TokenType {
    /// The keyword spelled exactly by `ident`, if any.
    pub fn of_string(ident: &str) -> (r: Option<TokenType>)
        ensures
            r == keyword_kind(ident.spec_bytes()),
    {
        keyword_of(ident.as_bytes())
    }
}

/// The value a token carries beside its kind.
pub enum Literal {
    /// The bytes between the quotes of a string literal, as they stand in the
    /// source (not checked to be UTF-8).
    String(Vec<u8>),
    /// The decimal digits of a number literal as written (`123` or `123.45`).
    /// Turning them into a floating-point value is left to the consumer.
    Number(Vec<u8>),
    /// No literal value.
    Null,
}

/// What a literal holds, as bytes.
pub enum LiteralView {
    Text(Seq<u8>),
    Number(Seq<u8>),
    Null,
}

impl View for Literal {
    type V = LiteralView;

    open spec fn view(&self) -> LiteralView {
        match self {
            Literal::String(text) => LiteralView::Text(text@),
            Literal::Number(digits) => LiteralView::Number(digits@),
            Literal::Null => LiteralView::Null,
        }
    }
}

/// One token: its kind, the source bytes it was scanned from, its literal
/// value and the 1-based line on which it starts.
pub struct Token<'a> {
    token_type: TokenType,
    literal: Literal,
    lexeme: &'a [u8],
    line: usize,
}

/// A token's contents.
pub struct TokenView {
    pub kind: TokenType,
    pub lexeme: Seq<u8>,
    pub literal: LiteralView,
    pub line: nat,
}

impl<'a> View for Token<'a> {
    type V = TokenView;

    closed spec fn view(&self) -> TokenView {
        TokenView {
            kind: self.token_type,
            lexeme: self.lexeme@,
            literal: self.literal@,
            line: self.line as nat,
        }
    }
}

impl<'a> Token<'a> {
    pub fn new(ty: TokenType, lexeme: &'a [u8], literal: Literal, line: usize) -> (r: Token<'a>)
        ensures
            r@ == (TokenView { kind: ty, lexeme: lexeme@, literal: literal@, line: line as nat }),
    {
        Token { token_type: ty, literal, lexeme, line }
    }

    pub fn token_type(&self) -> (r: TokenType)
        ensures
            r == self@.kind,
    {
        self.token_type
    }

    /// The source bytes the token was scanned from.
    pub fn lexeme(&self) -> (r: &'a [u8])
        ensures
            r@ == self@.lexeme,
    {
        self.lexeme
    }

    pub fn literal(&self) -> (r: &Literal)
        ensures
            r@ == self@.literal,
    {
        &self.literal
    }

    pub fn line(&self) -> (r: usize)
        ensures
            r as nat == self@.line,
    {
        self.line
    }
}

} // verus!
