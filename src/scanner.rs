use vstd::prelude::*;
use vstd::slice::{slice_subrange, slice_to_vec};
use crate::error::{ErrorKind, Fault, ScanError};
use crate::grammar::{
    byte_at_is, byte_is_alpha, byte_is_digit, end_token, faults_from, is_alpha, is_digit,
    lemma_newlines_bound, lemma_scan_unfold, lemma_step_advances, line_at, scan_faults_of,
    scan_tokens_of, single_char_kind, skip_while, step_at, step_faults, step_tokens, tokens_from,
    ByteClass, BANG, CARRIAGE_RETURN, DOT, EQUAL, GREATER, LESS, NEWLINE, QUOTE, SLASH, SPACE, TAB,
};
use crate::token::{keyword_of, Literal, LiteralView, Token, TokenType, TokenView};

verus! {

/// The contents of a sequence of tokens.
pub open spec fn token_views<'a>(tokens: Seq<Token<'a>>) -> Seq<TokenView> {
    tokens.map_values(|t: Token<'a>| t@)
}

/// The contents of a sequence of errors.
pub open spec fn fault_views(errors: Seq<ScanError>) -> Seq<Fault> {
    errors.map_values(|e: ScanError| e@)
}

/// Scans the whole of `source`: its tokens, closed by an `Eof` token, and
/// whether any lexical error was found.
///
/// Any bytes are accepted. Lexemes and literal values are handed back as the
/// source bytes themselves, so a string literal whose text is not valid UTF-8
/// is no error here: it is returned byte for byte, and a caller that needs
/// text decides what to do with it.
pub fn scan<'a>(source: &'a [u8]) -> (r: (Vec<Token<'a>>, bool))
    requires
        source@.len() < usize::MAX,
    ensures
        token_views(r.0@) == scan_tokens_of(source@),
        r.1 == (scan_faults_of(source@).len() > 0),
{
    let mut scanner = Scanner::new(source);
    let tokens = scanner.scan_tokens();
    assert(seq![] + tokens_from(source@, 0) == tokens_from(source@, 0));
    assert(seq![] + faults_from(source@, 0) == faults_from(source@, 0));
    (tokens, scanner.had_error())
}

/// Turns source bytes into tokens, one step at a time, collecting lexical
/// errors as it goes.
pub struct Scanner<'a> {
    source: &'a [u8],
    tokens: Vec<Token<'a>>,
    errors: Vec<ScanError>,
    /// Offset of the first byte of the token being scanned.
    start: usize,
    /// Offset of the next byte to consider.
    current: usize,
    /// The line on which `current` lies.
    line: usize,
    /// The line on which `start` lies.
    start_line: usize,
}

/// A scanner's state: the source, how far it has got, the tokens it holds
/// and the errors it has reported.
pub struct ScannerView {
    pub source: Seq<u8>,
    pub current: nat,
    pub tokens: Seq<TokenView>,
    pub errors: Seq<Fault>,
}

impl<'a> View for Scanner<'a> {
    type V = ScannerView;

    closed spec fn view(&self) -> ScannerView {
        ScannerView {
            source: self.source@,
            current: self.current as nat,
            tokens: token_views(self.tokens@),
            errors: fault_views(self.errors@),
        }
    }
}

impl<'a> Scanner<'a> {
    /// The offsets stay within the source and the line count matches the
    /// newlines before the cursor.
    pub closed spec fn inv(&self) -> bool {
        &&& self.start <= self.current <= self.source@.len()
        &&& self.source@.len() < usize::MAX
        &&& self.line == line_at(self.source@, self.current as int)
        &&& self.start_line == line_at(self.source@, self.start as int)
    }

    /// `next` differs from `self` at most in the cursor and the line.
    spec fn moved_to(&self, next: &Self, current: int) -> bool {
        &&& next.source == self.source
        &&& next.tokens@ == self.tokens@
        &&& next.errors@ == self.errors@
        &&& next.start == self.start
        &&& next.start_line == self.start_line
        &&& next.current == current
    }

    pub fn new(source: &'a [u8]) -> (r: Scanner<'a>)
        requires
            source@.len() < usize::MAX,
        ensures
            r.inv(),
            r@ == (ScannerView { source: source@, current: 0, tokens: seq![], errors: seq![] }),
    {
        let r = Scanner {
            source,
            tokens: Vec::new(),
            errors: Vec::new(),
            start: 0,
            current: 0,
            line: 1,
            start_line: 1,
        };
        assert(token_views(r.tokens@) =~= seq![]);
        assert(fault_views(r.errors@) =~= seq![]);
        r
    }

    /// Scans the rest of the source and returns the tokens held so far, those
    /// scanned now and a closing `Eof` token.
    pub fn scan_tokens(&mut self) -> (r: Vec<Token<'a>>)
        requires
            old(self).inv(),
        ensures
            final(self).inv(),
            token_views(r@) == old(self)@.tokens + tokens_from(
                old(self)@.source,
                old(self)@.current as int,
            ) + seq![end_token(old(self)@.source)],
            final(self)@ == (ScannerView {
                source: old(self)@.source,
                current: old(self)@.source.len(),
                tokens: seq![],
                errors: old(self)@.errors + faults_from(
                    old(self)@.source,
                    old(self)@.current as int,
                ),
            }),
    {
        let ghost s = self.source@;
        while !self.is_at_end()
            invariant
                self.inv(),
                self.source@ == s,
                s == old(self)@.source,
                self@.tokens + tokens_from(s, self.current as int) == old(self)@.tokens
                    + tokens_from(s, old(self)@.current as int),
                self@.errors + faults_from(s, self.current as int) == old(self)@.errors
                    + faults_from(s, old(self)@.current as int),
            decreases s.len() - self.current,
        {
            self.start = self.current;
            self.start_line = self.line;
            proof {
                lemma_scan_unfold(s, self.current as int);
            }
            let ghost before = self@;
            self.scan_token();
            proof {
                lemma_step_advances(s, before.current as int);
            }
            assert(self@.tokens + tokens_from(s, self.current as int) =~= before.tokens
                + tokens_from(s, before.current as int));
            assert(self@.errors + faults_from(s, self.current as int) =~= before.errors
                + faults_from(s, before.current as int));
        }
        assert(tokens_from(s, self.current as int) =~= seq![]);
        assert(faults_from(s, self.current as int) =~= seq![]);
        let ghost scanned = self@.tokens;
        let mut tokens = Vec::new();
        std::mem::swap(&mut tokens, &mut self.tokens);
        let lexeme = slice_subrange(self.source, self.current, self.current);
        let end = Token::new(TokenType::Eof, lexeme, Literal::Null, self.line);
        assert(lexeme@ =~= seq![]);
        assert(end@ == end_token(s));
        tokens.push(end);
        assert(token_views(self.tokens@) =~= seq![]);
        assert(token_views(tokens@) =~= scanned.push(end@));
        assert(token_views(tokens@) =~= old(self)@.tokens + tokens_from(
            s,
            old(self)@.current as int,
        ) + seq![end_token(s)]);
        tokens
    }

    /// Whether any lexical error has been reported.
    pub fn had_error(&self) -> (r: bool)
        ensures
            r == (self@.errors.len() > 0),
    {
        self.errors.len() > 0
    }

    /// The lexical errors reported so far, in order.
    pub fn errors(&self) -> (r: &[ScanError])
        ensures
            fault_views(r@) == self@.errors,
    {
        self.errors.as_slice()
    }

    /// Takes one step from `start`: emits at most one token or reports at
    /// most one error.
    fn scan_token(&mut self)
        requires
            old(self).inv(),
            old(self).start == old(self).current < old(self).source@.len(),
        ensures
            final(self).inv(),
            final(self).source == old(self).source,
            final(self).current == step_at(old(self)@.source, old(self).current as int).1,
            final(self)@.tokens == old(self)@.tokens + step_tokens(
                old(self)@.source,
                old(self).current as int,
            ),
            final(self)@.errors == old(self)@.errors + step_faults(
                old(self)@.source,
                old(self).current as int,
            ),
    {
        let ghost s = self.source@;
        let ghost i = self.current as int;
        let c = self.advance();
        match single_char_kind(c) {
            Some(kind) => self.add_token(kind),
            None => {
                if c == BANG {
                    let kind = if self.match_current(EQUAL) {
                        TokenType::BangEqual
                    } else {
                        TokenType::Bang
                    };
                    self.add_token(kind);
                } else if c == EQUAL {
                    let kind = if self.match_current(EQUAL) {
                        TokenType::EqualEqual
                    } else {
                        TokenType::Equal
                    };
                    self.add_token(kind);
                } else if c == LESS {
                    let kind = if self.match_current(EQUAL) {
                        TokenType::LessEqual
                    } else {
                        TokenType::Less
                    };
                    self.add_token(kind);
                } else if c == GREATER {
                    let kind = if self.match_current(EQUAL) {
                        TokenType::GreaterEqual
                    } else {
                        TokenType::Greater
                    };
                    self.add_token(kind);
                } else if c == SLASH {
                    if self.match_current(SLASH) {
                        self.advance_while(ByteClass::NotNewline);
                    } else {
                        self.add_token(TokenType::Slash);
                    }
                } else if c == SPACE || c == CARRIAGE_RETURN || c == TAB || c == NEWLINE {
                    // No token; `advance` has already counted a newline.
                } else if c == QUOTE {
                    self.string();
                } else if byte_is_digit(c) {
                    self.number();
                } else if byte_is_alpha(c) {
                    self.identifier();
                } else {
                    self.report_error(ErrorKind::UnexpectedCharacter);
                }
            },
        }
    }

    /// Scans the rest of a number literal whose first digit was just consumed.
    fn number(&mut self)
        requires
            old(self).inv(),
            old(self).start + 1 == old(self).current,
            is_digit(old(self).source@[old(self).start as int]),
        ensures
            final(self).inv(),
            final(self).source == old(self).source,
            final(self).current == step_at(old(self)@.source, old(self).start as int).1,
            final(self)@.tokens == old(self)@.tokens + step_tokens(
                old(self)@.source,
                old(self).start as int,
            ),
            final(self)@.errors == old(self)@.errors,
    {
        self.advance_while(ByteClass::Digit);
        // A fractional part needs at least one digit after the dot.
        if self.peek() == DOT && byte_is_digit(self.peek_next()) {
            self.advance();
            self.advance_while(ByteClass::Digit);
        }
        let digits = slice_to_vec(slice_subrange(self.source, self.start, self.current));
        self.add_token_and_literal(TokenType::Number, Literal::Number(digits));
    }

    /// Scans the rest of a string literal whose opening quote was just consumed.
    fn string(&mut self)
        requires
            old(self).inv(),
            old(self).start + 1 == old(self).current,
            old(self).source@[old(self).start as int] == QUOTE,
        ensures
            final(self).inv(),
            final(self).source == old(self).source,
            final(self).current == step_at(old(self)@.source, old(self).start as int).1,
            final(self)@.tokens == old(self)@.tokens + step_tokens(
                old(self)@.source,
                old(self).start as int,
            ),
            final(self)@.errors == old(self)@.errors + step_faults(
                old(self)@.source,
                old(self).start as int,
            ),
    {
        self.advance_while(ByteClass::NotQuote);
        if self.is_at_end() {
            self.report_error(ErrorKind::UnterminatedString);
            return;
        }
        // The closing quote.
        self.advance();
        let text = slice_to_vec(slice_subrange(self.source, self.start + 1, self.current - 1));
        self.add_token_and_literal(TokenType::String, Literal::String(text));
    }

    /// Scans the rest of an identifier or keyword whose first byte was just
    /// consumed.
    fn identifier(&mut self)
        requires
            old(self).inv(),
            old(self).start + 1 == old(self).current,
            is_alpha(old(self).source@[old(self).start as int]),
        ensures
            final(self).inv(),
            final(self).source == old(self).source,
            final(self).current == step_at(old(self)@.source, old(self).start as int).1,
            final(self)@.tokens == old(self)@.tokens + step_tokens(
                old(self)@.source,
                old(self).start as int,
            ),
            final(self)@.errors == old(self)@.errors,
    {
        self.advance_while(ByteClass::Word);
        let text = slice_subrange(self.source, self.start, self.current);
        let kind = match keyword_of(text) {
            Some(keyword) => keyword,
            None => TokenType::Identifier,
        };
        self.add_token(kind);
    }

    /// The next byte, or 0 at the end of the source.
    fn peek(&self) -> (r: u8)
        requires
            self.current <= self.source@.len(),
        ensures
            r == if self.current < self.source@.len() {
                self.source@[self.current as int]
            } else {
                0u8
            },
    {
        if self.is_at_end() {
            0
        } else {
            self.source[self.current]
        }
    }

    /// The byte after the next one, or 0 past the end of the source.
    fn peek_next(&self) -> (r: u8)
        requires
            self.current <= self.source@.len() < usize::MAX,
        ensures
            r == if self.current + 1 < self.source@.len() {
                self.source@[self.current + 1]
            } else {
                0u8
            },
    {
        if self.current + 1 >= self.source.len() {
            0
        } else {
            self.source[self.current + 1]
        }
    }

    /// Consumes the next byte if it is `expected`.
    fn match_current(&mut self, expected: u8) -> (r: bool)
        requires
            old(self).inv(),
        ensures
            final(self).inv(),
            r == byte_at_is(old(self).source@, old(self).current as int, expected),
            old(self).moved_to(final(self), old(self).current + if r { 1int } else { 0int }),
    {
        if self.is_at_end() || self.source[self.current] != expected {
            false
        } else {
            self.advance();
            true
        }
    }

    /// Consumes the next byte and returns it, counting it if it ends a line.
    fn advance(&mut self) -> (r: u8)
        requires
            old(self).inv(),
            old(self).current < old(self).source@.len(),
        ensures
            final(self).inv(),
            r == old(self).source@[old(self).current as int],
            old(self).moved_to(final(self), old(self).current + 1),
    {
        let b = self.source[self.current];
        proof {
            lemma_newlines_bound(self.source@, self.current as int);
        }
        if b == NEWLINE {
            self.line = self.line + 1;
        }
        self.current = self.current + 1;
        b
    }

    /// Consumes bytes as long as they are in `class`.
    fn advance_while(&mut self, class: ByteClass)
        requires
            old(self).inv(),
        ensures
            final(self).inv(),
            old(self).moved_to(
                final(self),
                skip_while(old(self).source@, old(self).current as int, class),
            ),
            old(self).current <= final(self).current,
    {
        let ghost s = self.source@;
        while self.current < self.source.len() && class.contains(self.source[self.current])
            invariant
                self.inv(),
                old(self).inv(),
                old(self).moved_to(self, self.current as int),
                old(self).current <= self.current,
                skip_while(s, self.current as int, class) == skip_while(
                    s,
                    old(self).current as int,
                    class,
                ),
                s == old(self).source@,
            decreases s.len() - self.current,
        {
            self.advance();
        }
    }

    fn is_at_end(&self) -> (r: bool)
        ensures
            r == (self.current >= self.source@.len()),
    {
        self.current >= self.source.len()
    }

    /// Emits a token without a literal for the bytes from `start` to `current`.
    fn add_token(&mut self, kind: TokenType)
        requires
            old(self).inv(),
        ensures
            final(self).inv(),
            final(self).source == old(self).source,
            final(self).start == old(self).start,
            final(self).current == old(self).current,
            final(self).errors@ == old(self).errors@,
            final(self)@.tokens == old(self)@.tokens.push(TokenView {
                kind,
                lexeme: old(self).source@.subrange(old(self).start as int, old(self).current as int),
                literal: LiteralView::Null,
                line: line_at(old(self).source@, old(self).start as int),
            }),
    {
        self.add_token_and_literal(kind, Literal::Null);
    }

    /// Emits a token with a literal for the bytes from `start` to `current`.
    fn add_token_and_literal(&mut self, kind: TokenType, literal: Literal)
        requires
            old(self).inv(),
        ensures
            final(self).inv(),
            final(self).source == old(self).source,
            final(self).start == old(self).start,
            final(self).current == old(self).current,
            final(self).errors@ == old(self).errors@,
            final(self)@.tokens == old(self)@.tokens.push(TokenView {
                kind,
                lexeme: old(self).source@.subrange(old(self).start as int, old(self).current as int),
                literal: literal@,
                line: line_at(old(self).source@, old(self).start as int),
            }),
    {
        let lexeme = slice_subrange(self.source, self.start, self.current);
        let token = Token::new(kind, lexeme, literal, self.start_line);
        self.tokens.push(token);
        assert(token_views(self.tokens@) =~= token_views(old(self).tokens@).push(token@));
    }

    /// Records a lexical error on the current line.
    fn report_error(&mut self, kind: ErrorKind)
        requires
            old(self).inv(),
        ensures
            final(self).inv(),
            final(self).source == old(self).source,
            final(self).start == old(self).start,
            final(self).current == old(self).current,
            final(self).tokens@ == old(self).tokens@,
            final(self)@.errors == old(self)@.errors.push(Fault { kind, line: old(self).line as nat }),
    {
        let error = ScanError { kind, line: self.line };
        self.errors.push(error);
        assert(fault_views(self.errors@) =~= fault_views(old(self).errors@).push(error@));
    }
}

} // verus!
