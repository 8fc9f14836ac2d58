use lox::error::{ErrorKind, ScanError};
use lox::scanner::{scan, Scanner};
use lox::token::{Literal, Token, TokenType};

fn kinds(tokens: &[Token]) -> Vec<TokenType> {
    tokens.iter().map(|t| t.token_type()).collect()
}

fn number_value(token: &Token) -> f64 {
    match token.literal() {
        Literal::Number(digits) => std::str::from_utf8(digits).unwrap().parse().unwrap(),
        _ => panic!("not a number literal"),
    }
}

fn text_value(token: &Token) -> Vec<u8> {
    match token.literal() {
        Literal::String(text) => text.clone(),
        _ => panic!("not a string literal"),
    }
}

#[test]
fn ends_with_single_eof() {
    let inputs: [&[u8]; 6] = [b"", b"(", b"var x = 1;", b"\"open", b"@#", b"// only a comment"];
    for input in inputs {
        let (tokens, _) = scan(input);
        let last = tokens.last().unwrap();
        assert_eq!(last.token_type(), TokenType::Eof);
        assert_eq!(last.lexeme(), b"");
        assert_eq!(
            tokens.iter().filter(|t| t.token_type() == TokenType::Eof).count(),
            1
        );
    }
}

#[test]
fn empty_input_gives_only_eof() {
    let (tokens, had_error) = scan(b"");
    assert_eq!(tokens.len(), 1);
    assert_eq!(tokens[0].line(), 1);
    assert!(!had_error);
}

#[test]
fn single_character_punctuation() {
    let cases = [
        (b"(", TokenType::LeftParen),
        (b")", TokenType::RightParen),
        (b"{", TokenType::LeftBrace),
        (b"}", TokenType::RightBrace),
        (b",", TokenType::Comma),
        (b".", TokenType::Dot),
        (b"-", TokenType::Minus),
        (b"+", TokenType::Plus),
        (b";", TokenType::Semicolon),
        (b"*", TokenType::Star),
        (b"/", TokenType::Slash),
    ];
    for (input, kind) in cases {
        let (tokens, had_error) = scan(input);
        assert_eq!(kinds(&tokens), vec![kind, TokenType::Eof]);
        assert_eq!(tokens[0].lexeme(), input);
        assert!(matches!(tokens[0].literal(), Literal::Null));
        assert!(!had_error);
    }
}

#[test]
fn one_or_two_character_operators() {
    let cases: [(&[u8], TokenType); 8] = [
        (b"!=", TokenType::BangEqual),
        (b"==", TokenType::EqualEqual),
        (b"<=", TokenType::LessEqual),
        (b">=", TokenType::GreaterEqual),
        (b"!", TokenType::Bang),
        (b"=", TokenType::Equal),
        (b"<", TokenType::Less),
        (b">", TokenType::Greater),
    ];
    for (input, kind) in cases {
        let (tokens, _) = scan(input);
        assert_eq!(kinds(&tokens), vec![kind, TokenType::Eof]);
        assert_eq!(tokens[0].lexeme(), input);
    }
}

#[test]
fn operator_not_followed_by_equal() {
    let (tokens, _) = scan(b"!<");
    assert_eq!(kinds(&tokens), vec![TokenType::Bang, TokenType::Less, TokenType::Eof]);
    let (tokens, _) = scan(b"===");
    assert_eq!(kinds(&tokens), vec![TokenType::EqualEqual, TokenType::Equal, TokenType::Eof]);
}

#[test]
fn comment_produces_no_token() {
    let (tokens, had_error) = scan(b"// comment\n123");
    assert_eq!(kinds(&tokens), vec![TokenType::Number, TokenType::Eof]);
    assert_eq!(number_value(&tokens[0]), 123.0);
    assert_eq!(tokens[0].line(), 2);
    assert!(!had_error);
}

#[test]
fn comment_at_end_of_input() {
    let (tokens, had_error) = scan(b"+ // trailing");
    assert_eq!(kinds(&tokens), vec![TokenType::Plus, TokenType::Eof]);
    assert!(!had_error);
}

#[test]
fn string_literal() {
    let (tokens, had_error) = scan(b"\"hello\"");
    assert_eq!(kinds(&tokens), vec![TokenType::String, TokenType::Eof]);
    assert_eq!(text_value(&tokens[0]), b"hello".to_vec());
    assert_eq!(tokens[0].lexeme(), b"\"hello\"");
    assert!(!had_error);
}

#[test]
fn empty_string_literal() {
    let (tokens, _) = scan(b"\"\"");
    assert_eq!(kinds(&tokens), vec![TokenType::String, TokenType::Eof]);
    assert_eq!(text_value(&tokens[0]), Vec::<u8>::new());
}

#[test]
fn multi_line_string_takes_line_of_its_start() {
    let (tokens, had_error) = scan(b"\"a\nb\" x");
    assert_eq!(kinds(&tokens), vec![TokenType::String, TokenType::Identifier, TokenType::Eof]);
    assert_eq!(text_value(&tokens[0]), b"a\nb".to_vec());
    assert_eq!(tokens[0].line(), 1);
    assert_eq!(tokens[1].line(), 2);
    assert!(!had_error);
}

#[test]
fn unterminated_string() {
    let mut scanner = Scanner::new(b"\"unterminated");
    let tokens = scanner.scan_tokens();
    assert_eq!(kinds(&tokens), vec![TokenType::Eof]);
    assert!(scanner.had_error());
    assert_eq!(
        scanner.errors(),
        &[ScanError { kind: ErrorKind::UnterminatedString, line: 1 }]
    );
}

#[test]
fn unterminated_string_reports_last_line() {
    let mut scanner = Scanner::new(b"(\"a\nb\n");
    let tokens = scanner.scan_tokens();
    assert_eq!(kinds(&tokens), vec![TokenType::LeftParen, TokenType::Eof]);
    assert_eq!(
        scanner.errors(),
        &[ScanError { kind: ErrorKind::UnterminatedString, line: 3 }]
    );
    assert_eq!(tokens[1].line(), 3);
}

#[test]
fn number_literals() {
    let (tokens, _) = scan(b"123.45");
    assert_eq!(kinds(&tokens), vec![TokenType::Number, TokenType::Eof]);
    assert_eq!(number_value(&tokens[0]), 123.45);
    assert_eq!(tokens[0].lexeme(), b"123.45");

    let (tokens, _) = scan(b"123.");
    assert_eq!(kinds(&tokens), vec![TokenType::Number, TokenType::Dot, TokenType::Eof]);
    assert_eq!(number_value(&tokens[0]), 123.0);
    assert_eq!(tokens[0].lexeme(), b"123");
    assert_eq!(tokens[1].lexeme(), b".");
}

#[test]
fn number_followed_by_letters() {
    let (tokens, _) = scan(b"123abc");
    assert_eq!(kinds(&tokens), vec![TokenType::Number, TokenType::Identifier, TokenType::Eof]);
    assert_eq!(tokens[0].lexeme(), b"123");
    assert_eq!(tokens[1].lexeme(), b"abc");
}

#[test]
fn keyword_then_identifier() {
    let (tokens, had_error) = scan(b"or frog");
    assert_eq!(kinds(&tokens), vec![TokenType::Or, TokenType::Identifier, TokenType::Eof]);
    assert_eq!(tokens[0].lexeme(), b"or");
    assert_eq!(tokens[1].lexeme(), b"frog");
    assert!(matches!(tokens[1].literal(), Literal::Null));
    assert!(!had_error);
}

#[test]
fn every_keyword() {
    let cases = [
        ("and", TokenType::And),
        ("class", TokenType::Class),
        ("else", TokenType::Else),
        ("false", TokenType::False),
        ("fun", TokenType::Fun),
        ("for", TokenType::For),
        ("if", TokenType::If),
        ("nil", TokenType::Nil),
        ("or", TokenType::Or),
        ("print", TokenType::Print),
        ("return", TokenType::Return),
        ("super", TokenType::Super),
        ("this", TokenType::This),
        ("true", TokenType::True),
        ("var", TokenType::Var),
        ("while", TokenType::While),
    ];
    for (word, kind) in cases {
        assert_eq!(TokenType::of_string(word), Some(kind));
        let (tokens, _) = scan(word.as_bytes());
        assert_eq!(kinds(&tokens), vec![kind, TokenType::Eof]);
    }
}

#[test]
fn keywords_are_case_sensitive_and_exact() {
    assert_eq!(TokenType::of_string("Or"), None);
    assert_eq!(TokenType::of_string("orchid"), None);
    assert_eq!(TokenType::of_string(""), None);
    assert_eq!(TokenType::of_string("whil"), None);
    let (tokens, _) = scan(b"_var9 If");
    assert_eq!(kinds(&tokens), vec![TokenType::Identifier, TokenType::Identifier, TokenType::Eof]);
    assert_eq!(tokens[0].lexeme(), b"_var9");
}

#[test]
fn line_numbers_count_newlines() {
    let (tokens, _) = scan(b"a\n\nb\r\n\tc");
    assert_eq!(kinds(&tokens), vec![
        TokenType::Identifier,
        TokenType::Identifier,
        TokenType::Identifier,
        TokenType::Eof
    ]);
    assert_eq!(tokens[0].line(), 1);
    assert_eq!(tokens[1].line(), 3);
    assert_eq!(tokens[2].line(), 4);
    assert_eq!(tokens[3].line(), 4);
}

#[test]
fn unexpected_characters_are_reported_and_skipped() {
    let mut scanner = Scanner::new(b"(@\n#)");
    let tokens = scanner.scan_tokens();
    assert_eq!(kinds(&tokens), vec![TokenType::LeftParen, TokenType::RightParen, TokenType::Eof]);
    assert!(scanner.had_error());
    assert_eq!(
        scanner.errors(),
        &[
            ScanError { kind: ErrorKind::UnexpectedCharacter, line: 1 },
            ScanError { kind: ErrorKind::UnexpectedCharacter, line: 2 },
        ]
    );
    assert_eq!(tokens[1].line(), 2);
}

#[test]
fn error_messages() {
    assert_eq!(ErrorKind::UnexpectedCharacter.message(), "Unexpected character");
    assert_eq!(ErrorKind::UnterminatedString.message(), "Unterminated string.");
}

#[test]
fn scanning_twice_gives_the_same_result() {
    let input: &[u8] = b"var x = \"s\" + 1.5; // c\n@ while";
    let (first, first_error) = scan(input);
    let (second, second_error) = scan(input);
    assert_eq!(first.len(), second.len());
    for (a, b) in first.iter().zip(second.iter()) {
        assert_eq!(a.token_type(), b.token_type());
        assert_eq!(a.lexeme(), b.lexeme());
        assert_eq!(a.line(), b.line());
    }
    assert_eq!(first_error, second_error);
    assert!(first_error);
}

#[test]
fn scanner_after_a_full_scan_yields_only_eof() {
    let mut scanner = Scanner::new(b"1 2");
    let tokens = scanner.scan_tokens();
    assert_eq!(tokens.len(), 3);
    let again = scanner.scan_tokens();
    assert_eq!(kinds(&again), vec![TokenType::Eof]);
    assert!(!scanner.had_error());
}

#[test]
fn whole_statement() {
    let (tokens, had_error) = scan(b"print (a >= 10) != !b;");
    assert_eq!(kinds(&tokens), vec![
        TokenType::Print,
        TokenType::LeftParen,
        TokenType::Identifier,
        TokenType::GreaterEqual,
        TokenType::Number,
        TokenType::RightParen,
        TokenType::BangEqual,
        TokenType::Bang,
        TokenType::Identifier,
        TokenType::Semicolon,
        TokenType::Eof,
    ]);
    assert_eq!(number_value(&tokens[4]), 10.0);
    assert!(!had_error);
}

#[test]
fn token_new_keeps_its_parts() {
    let token = Token::new(TokenType::Number, b"42", Literal::Number(b"42".to_vec()), 7);
    assert_eq!(token.token_type(), TokenType::Number);
    assert_eq!(token.lexeme(), b"42");
    assert_eq!(token.line(), 7);
    assert_eq!(number_value(&token), 42.0);
}

#[test]
fn string_literal_bytes_are_kept_as_they_are() {
    let (tokens, had_error) = scan(b"\"\xff\xfe\"");
    assert_eq!(kinds(&tokens), vec![TokenType::String, TokenType::Eof]);
    assert_eq!(text_value(&tokens[0]), vec![0xff, 0xfe]);
    assert_eq!(tokens[0].lexeme(), b"\"\xff\xfe\"");
    assert!(!had_error);
}
