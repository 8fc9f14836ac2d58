use vstd::prelude::*;
use crate::error::{ErrorKind, Fault};
use crate::grammar::{
    end_token, faults_from, lemma_step_advances, lex_from, line_at, newlines, operator_kinds,
    scan_faults_of, scan_tokens_of, single_kind, skip_while, step_at, tokens_from, ByteClass,
    EQUAL, QUOTE,
};
use crate::token::{LiteralView, TokenType, TokenView};

verus! {

/// Every token scanned from offset `i` on is a real token, never `Eof`.
proof fn lemma_lex_kinds(s: Seq<u8>, i: int)
    ensures
        forall|j: int| 0 <= j < lex_from(s, i).len() ==> #[trigger] lex_from(s, i)[j].kind
            != TokenType::Eof,
    decreases s.len() - i,
{
    if 0 <= i < s.len() {
        lemma_step_advances(s, i);
        let end = step_at(s, i).1;
        lemma_lex_kinds(s, end);
    }
}

/// The scanned spans lie within the input, are non-empty and come in
/// increasing order without overlapping.
proof fn lemma_lex_spans(s: Seq<u8>, i: int)
    requires
        0 <= i,
    ensures
        forall|j: int|
            0 <= j < lex_from(s, i).len() ==> i <= #[trigger] lex_from(s, i)[j].start
                < lex_from(s, i)[j].end <= s.len(),
        forall|j: int, k: int|
            0 <= j < k < lex_from(s, i).len() ==> #[trigger] lex_from(s, i)[j].end
                <= #[trigger] lex_from(s, i)[k].start,
    decreases s.len() - i,
{
    if 0 <= i < s.len() {
        lemma_step_advances(s, i);
        let end = step_at(s, i).1;
        lemma_lex_spans(s, end);
    }
}

/// The scan ends with exactly one `Eof` token, its last.
pub proof fn lemma_single_end_token(s: Seq<u8>)
    ensures
        scan_tokens_of(s).len() >= 1,
        scan_tokens_of(s).last().kind == TokenType::Eof,
        forall|j: int|
            0 <= j < scan_tokens_of(s).len() - 1 ==> #[trigger] scan_tokens_of(s)[j].kind
                != TokenType::Eof,
{
    lemma_lex_kinds(s, 0);
}

/// Each token is the bytes of its span in the source, spans come in source
/// order, and a token's line is one more than the number of newlines before
/// its first byte. `Eof` stands on the line after the last newline.
pub proof fn lemma_token_positions(s: Seq<u8>)
    ensures
        scan_tokens_of(s).len() == lex_from(s, 0).len() + 1,
        forall|j: int|
            0 <= j < lex_from(s, 0).len() ==> {
                let t = #[trigger] lex_from(s, 0)[j];
                &&& 0 <= t.start < t.end <= s.len()
                &&& scan_tokens_of(s)[j].kind == t.kind
                &&& scan_tokens_of(s)[j].lexeme == s.subrange(t.start, t.end)
                &&& scan_tokens_of(s)[j].line == newlines(s, t.start) + 1
            },
        forall|j: int, k: int|
            0 <= j < k < lex_from(s, 0).len() ==> #[trigger] lex_from(s, 0)[j].end
                <= #[trigger] lex_from(s, 0)[k].start,
        scan_tokens_of(s).last().line == newlines(s, s.len() as int) + 1,
{
    lemma_lex_spans(s, 0);
}

/// Scanning is a function of the input bytes alone: the same bytes give the
/// same tokens and the same errors.
pub proof fn lemma_scan_deterministic(a: Seq<u8>, b: Seq<u8>)
    requires
        a == b,
    ensures
        scan_tokens_of(a) == scan_tokens_of(b),
        scan_faults_of(a) == scan_faults_of(b),
        (scan_faults_of(a).len() > 0) == (scan_faults_of(b).len() > 0),
{
}

/// A punctuation byte alone scans to one token of its kind, whose lexeme is
/// that byte.
pub proof fn lemma_single_char_token(c: u8)
    requires
        single_kind(c) is Some,
    ensures
        scan_tokens_of(seq![c]) == seq![
            TokenView { kind: single_kind(c)->0, lexeme: seq![c], literal: LiteralView::Null, line: 1 },
            TokenView { kind: TokenType::Eof, lexeme: seq![], literal: LiteralView::Null, line: 1 },
        ],
        scan_faults_of(seq![c]) == Seq::<Fault>::empty(),
{
    let s = seq![c];
    assert(lex_from(s, 1) =~= seq![]);
    assert(faults_from(s, 1) =~= seq![]);
    assert(s.subrange(0, 1) =~= s);
    assert(newlines(s, 0) == 0);
    assert(newlines(s, 1) == 0);
    assert(scan_tokens_of(s) =~= seq![
        TokenView { kind: single_kind(c)->0, lexeme: seq![c], literal: LiteralView::Null, line: 1 },
        TokenView { kind: TokenType::Eof, lexeme: seq![], literal: LiteralView::Null, line: 1 },
    ]);
    assert(scan_faults_of(s) =~= seq![]);
}

/// An operator byte followed by `=` scans to one two-byte token; alone it
/// scans to the one-byte token.
pub proof fn lemma_operator_tokens(c: u8)
    requires
        operator_kinds(c) is Some,
    ensures
        scan_tokens_of(seq![c, EQUAL]) == seq![
            TokenView {
                kind: (operator_kinds(c)->0).1,
                lexeme: seq![c, EQUAL],
                literal: LiteralView::Null,
                line: 1,
            },
            TokenView { kind: TokenType::Eof, lexeme: seq![], literal: LiteralView::Null, line: 1 },
        ],
        scan_tokens_of(seq![c]) == seq![
            TokenView {
                kind: (operator_kinds(c)->0).0,
                lexeme: seq![c],
                literal: LiteralView::Null,
                line: 1,
            },
            TokenView { kind: TokenType::Eof, lexeme: seq![], literal: LiteralView::Null, line: 1 },
        ],
{
    let two = seq![c, EQUAL];
    assert(lex_from(two, 2) =~= seq![]);
    assert(two.subrange(0, 2) =~= two);
    assert(newlines(two, 0) == 0);
    assert(newlines(two, 1) == 0);
    assert(newlines(two, 2) == 0);
    assert(scan_tokens_of(two) =~= seq![
        TokenView {
            kind: (operator_kinds(c)->0).1,
            lexeme: seq![c, EQUAL],
            literal: LiteralView::Null,
            line: 1,
        },
        TokenView { kind: TokenType::Eof, lexeme: seq![], literal: LiteralView::Null, line: 1 },
    ]);
    let one = seq![c];
    assert(lex_from(one, 1) =~= seq![]);
    assert(one.subrange(0, 1) =~= one);
    assert(newlines(one, 0) == 0);
    assert(newlines(one, 1) == 0);
    assert(scan_tokens_of(one) =~= seq![
        TokenView {
            kind: (operator_kinds(c)->0).0,
            lexeme: seq![c],
            literal: LiteralView::Null,
            line: 1,
        },
        TokenView { kind: TokenType::Eof, lexeme: seq![], literal: LiteralView::Null, line: 1 },
    ]);
}

/// A string literal without its closing quote yields no token but `Eof` and
/// one error, on the last line.
pub proof fn lemma_unterminated_string(s: Seq<u8>)
    requires
        s.len() >= 1,
        s[0] == QUOTE,
        forall|k: int| 1 <= k < s.len() ==> s[k] != QUOTE,
    ensures
        scan_tokens_of(s) == seq![end_token(s)],
        scan_faults_of(s) == seq![
            Fault { kind: ErrorKind::UnterminatedString, line: line_at(s, s.len() as int) },
        ],
{
    lemma_skip_while_stops_at(s, 1, s.len() as int, ByteClass::NotQuote);
    assert(lex_from(s, s.len() as int) =~= seq![]);
    assert(faults_from(s, s.len() as int) =~= seq![]);
    assert(tokens_from(s, 0) =~= seq![]);
    assert(scan_tokens_of(s) =~= seq![end_token(s)]);
    assert(scan_faults_of(s) =~= seq![
        Fault { kind: ErrorKind::UnterminatedString, line: line_at(s, s.len() as int) },
    ]);
}

/// A run of bytes in `class` that stops at `e` is skipped up to `e`.
proof fn lemma_skip_while_stops_at(s: Seq<u8>, i: int, e: int, class: ByteClass)
    requires
        0 <= i <= e <= s.len(),
        forall|k: int| i <= k < e ==> class.holds(s[k]),
        e < s.len() ==> !class.holds(s[e]),
    ensures
        skip_while(s, i, class) == e,
    decreases e - i,
{
    if i < e {
        lemma_skip_while_stops_at(s, i + 1, e, class);
    }
}

/// A quoted run of bytes without a quote in it scans to one string token whose
/// literal is the run and whose lexeme keeps the quotes.
pub proof fn lemma_string_literal(body: Seq<u8>)
    requires
        forall|k: int| 0 <= k < body.len() ==> body[k] != QUOTE,
    ensures
        ({
            let s = seq![QUOTE] + body + seq![QUOTE];
            &&& scan_tokens_of(s) == seq![
                TokenView {
                    kind: TokenType::String,
                    lexeme: s,
                    literal: LiteralView::Text(body),
                    line: 1,
                },
                end_token(s),
            ]
            &&& scan_faults_of(s) == Seq::<Fault>::empty()
        }),
{
    let s = seq![QUOTE] + body + seq![QUOTE];
    let n = s.len() as int;
    lemma_skip_while_stops_at(s, 1, n - 1, ByteClass::NotQuote);
    assert(lex_from(s, n) =~= seq![]);
    assert(faults_from(s, n) =~= seq![]);
    assert(s.subrange(0, n) =~= s);
    assert(s.subrange(1, n - 1) =~= body);
    assert(newlines(s, 0) == 0);
    assert(scan_tokens_of(s) =~= seq![
        TokenView {
            kind: TokenType::String,
            lexeme: s,
            literal: LiteralView::Text(body),
            line: 1,
        },
        end_token(s),
    ]);
    assert(scan_faults_of(s) =~= seq![]);
}

} // verus!
