use minilex::scanner::Scanner;
use minilex::token::TokenKind;

#[test]
fn scans_arithmetic() {
    let mut scanner = Scanner::new("2 + 1");
    let tokens = scanner.scan_tokens();
    let kinds: Vec<TokenKind> = tokens.iter().map(|t| t.kind).collect();
    assert_eq!(
        kinds,
        vec![
            TokenKind::NumberLiteral(2),
            TokenKind::Plus,
            TokenKind::NumberLiteral(1),
            TokenKind::EndOfInput,
        ]
    );
    for t in &tokens {
        assert_eq!(t.line, 1);
    }
    assert!(scanner.diagnostics().is_empty());
}

#[test]
fn scans_declaration() {
    let mut scanner = Scanner::new("var x = 10;");
    let tokens = scanner.scan_tokens();
    let kinds: Vec<TokenKind> = tokens.iter().map(|t| t.kind).collect();
    assert_eq!(
        kinds,
        vec![
            TokenKind::Var,
            TokenKind::Identifier,
            TokenKind::Equal,
            TokenKind::NumberLiteral(10),
            TokenKind::Semicolon,
            TokenKind::EndOfInput,
        ]
    );
    assert_eq!(tokens[0].span.literal, "var");
    assert_eq!(tokens[1].span.literal, "x");
    assert!(scanner.diagnostics().is_empty());
}

#[test]
fn scans_string_comparison() {
    let mut scanner = Scanner::new("\"hello\" == \"hi\"");
    let tokens = scanner.scan_tokens();
    let kinds: Vec<TokenKind> = tokens.iter().map(|t| t.kind).collect();
    assert_eq!(
        kinds,
        vec![
            TokenKind::StringLiteral,
            TokenKind::EqualEqual,
            TokenKind::StringLiteral,
            TokenKind::EndOfInput,
        ]
    );
    assert_eq!(tokens[0].span.literal, "hello");
    assert_eq!(tokens[2].span.literal, "hi");
    assert!(scanner.diagnostics().is_empty());
}

#[test]
fn discards_comment_and_tracks_line() {
    let mut scanner = Scanner::new("// comment\n+");
    let tokens = scanner.scan_tokens();
    let kinds: Vec<TokenKind> = tokens.iter().map(|t| t.kind).collect();
    assert_eq!(kinds, vec![TokenKind::Plus, TokenKind::EndOfInput]);
    assert_eq!(tokens[0].line, 2);
    assert!(scanner.diagnostics().is_empty());
}

#[test]
fn reports_unterminated_string() {
    let mut scanner = Scanner::new("\"unterminated");
    let tokens = scanner.scan_tokens();
    assert_eq!(tokens.len(), 1);
    assert_eq!(tokens[0].kind, TokenKind::EndOfInput);
    let diagnostics = scanner.diagnostics();
    assert_eq!(diagnostics.len(), 1);
    assert_eq!(diagnostics[0].line, 1);
    assert_eq!(diagnostics[0].message, "Unterminated string.");
}

#[test]
fn reports_unexpected_character() {
    let mut scanner = Scanner::new("@");
    let tokens = scanner.scan_tokens();
    assert_eq!(tokens.len(), 1);
    assert_eq!(tokens[0].kind, TokenKind::EndOfInput);
    let diagnostics = scanner.diagnostics();
    assert_eq!(diagnostics.len(), 1);
    assert_eq!(diagnostics[0].line, 1);
    assert_eq!(diagnostics[0].context, "@");
    assert_eq!(diagnostics[0].message, "Unexpected character.");
}

#[test]
fn scanning_is_deterministic() {
    let source = "var total = (a + b) * 2; // sum\n\"text\" != total";
    let mut first = Scanner::new(source);
    let mut second = Scanner::new(source);
    let tokens_a = first.scan_tokens();
    let tokens_b = second.scan_tokens();
    assert_eq!(tokens_a, tokens_b);
    assert_eq!(first.diagnostics(), second.diagnostics());
}

#[test]
fn empty_input_yields_only_terminator() {
    let mut scanner = Scanner::new("");
    let tokens = scanner.scan_tokens();
    assert_eq!(tokens.len(), 1);
    assert_eq!(tokens[0].kind, TokenKind::EndOfInput);
    assert_eq!(tokens[0].span.start, 0);
    assert_eq!(tokens[0].span.end, 0);
    assert_eq!(tokens[0].span.literal, "");
    assert!(scanner.diagnostics().is_empty());
}

#[test]
fn terminator_is_always_last_and_unique() {
    for source in ["", "@", "\"open", "a b c", "1 + 2 // x"] {
        let mut scanner = Scanner::new(source);
        let tokens = scanner.scan_tokens();
        assert!(tokens.len() >= 1);
        assert_eq!(tokens[tokens.len() - 1].kind, TokenKind::EndOfInput);
        let terminators = tokens.iter().filter(|t| t.kind == TokenKind::EndOfInput).count();
        assert_eq!(terminators, 1);
    }
}

#[test]
fn lines_are_monotone() {
    let source = "a\nbb \"x\ny\" cc\n@ 12\n";
    let mut scanner = Scanner::new(source);
    let tokens = scanner.scan_tokens();
    let mut last_line = 1u32;
    for t in &tokens {
        assert!(t.line >= last_line);
        last_line = t.line;
    }
}

#[test]
fn spans_tile_the_source() {
    let source = "var x = 10; // tail\n\"s\" @ <= !";
    let mut scanner = Scanner::new(source);
    let tokens = scanner.scan_tokens();
    let mut pos = 0usize;
    for t in &tokens[..tokens.len() - 1] {
        assert!(t.span.start >= pos);
        assert!(t.span.start < t.span.end);
        assert!(t.span.end <= source.len());
        pos = t.span.end;
    }
}

#[test]
fn two_character_operators() {
    let mut scanner = Scanner::new("! != = == < <= > >=");
    let tokens = scanner.scan_tokens();
    let kinds: Vec<TokenKind> = tokens.iter().map(|t| t.kind).collect();
    assert_eq!(
        kinds,
        vec![
            TokenKind::Bang,
            TokenKind::BangEqual,
            TokenKind::Equal,
            TokenKind::EqualEqual,
            TokenKind::Less,
            TokenKind::LessEqual,
            TokenKind::Greater,
            TokenKind::GreaterEqual,
            TokenKind::EndOfInput,
        ]
    );
    assert_eq!(tokens[1].span.literal, "!=");
    assert_eq!(tokens[3].span.literal, "==");
}

#[test]
fn punctuation_kinds() {
    let mut scanner = Scanner::new("(){},.-+*/;");
    let tokens = scanner.scan_tokens();
    let kinds: Vec<TokenKind> = tokens.iter().map(|t| t.kind).collect();
    assert_eq!(
        kinds,
        vec![
            TokenKind::LeftParen,
            TokenKind::RightParen,
            TokenKind::LeftBrace,
            TokenKind::RightBrace,
            TokenKind::Comma,
            TokenKind::Dot,
            TokenKind::Minus,
            TokenKind::Plus,
            TokenKind::Star,
            TokenKind::Slash,
            TokenKind::Semicolon,
            TokenKind::EndOfInput,
        ]
    );
}

#[test]
fn slash_is_not_a_comment_alone() {
    let mut scanner = Scanner::new("1/2");
    let tokens = scanner.scan_tokens();
    let kinds: Vec<TokenKind> = tokens.iter().map(|t| t.kind).collect();
    assert_eq!(
        kinds,
        vec![
            TokenKind::NumberLiteral(1),
            TokenKind::Slash,
            TokenKind::NumberLiteral(2),
            TokenKind::EndOfInput,
        ]
    );
}

#[test]
fn keywords_and_identifiers() {
    let source = "and class if else true false function return for var andx iff _tail x9";
    let mut scanner = Scanner::new(source);
    let tokens = scanner.scan_tokens();
    let kinds: Vec<TokenKind> = tokens.iter().map(|t| t.kind).collect();
    assert_eq!(
        kinds,
        vec![
            TokenKind::And,
            TokenKind::Class,
            TokenKind::If,
            TokenKind::Else,
            TokenKind::True,
            TokenKind::False,
            TokenKind::Function,
            TokenKind::Return,
            TokenKind::For,
            TokenKind::Var,
            TokenKind::Identifier,
            TokenKind::Identifier,
            TokenKind::Identifier,
            TokenKind::Identifier,
            TokenKind::EndOfInput,
        ]
    );
    assert_eq!(tokens[0].span.literal, "and");
    assert_eq!(tokens[10].span.literal, "andx");
    assert_eq!(tokens[12].span.literal, "_tail");
    assert_eq!(tokens[13].span.literal, "x9");
}

#[test]
fn number_value_is_exact_when_it_fits() {
    let mut scanner = Scanner::new("1234567890 0 9223372036854775807");
    let tokens = scanner.scan_tokens();
    assert_eq!(tokens[0].kind, TokenKind::NumberLiteral(1234567890));
    assert_eq!(tokens[0].span.literal, "1234567890");
    assert_eq!(tokens[1].kind, TokenKind::NumberLiteral(0));
    assert_eq!(tokens[2].kind, TokenKind::NumberLiteral(i64::MAX));
}

#[test]
fn number_value_wraps_on_overflow() {
    let mut scanner = Scanner::new("9223372036854775808");
    let tokens = scanner.scan_tokens();
    assert_eq!(tokens[0].kind, TokenKind::NumberLiteral(i64::MIN));
    assert_eq!(tokens[0].span.literal, "9223372036854775808");
}

#[test]
fn multi_line_string_keeps_opening_line() {
    let mut scanner = Scanner::new("\"a\nb\" x");
    let tokens = scanner.scan_tokens();
    assert_eq!(tokens[0].kind, TokenKind::StringLiteral);
    assert_eq!(tokens[0].span.literal, "a\nb");
    assert_eq!(tokens[0].line, 1);
    assert_eq!(tokens[1].kind, TokenKind::Identifier);
    assert_eq!(tokens[1].line, 2);
}

#[test]
fn unterminated_multi_line_string_reports_opening_line() {
    let mut scanner = Scanner::new("x\n\"a\nb");
    let tokens = scanner.scan_tokens();
    let kinds: Vec<TokenKind> = tokens.iter().map(|t| t.kind).collect();
    assert_eq!(kinds, vec![TokenKind::Identifier, TokenKind::EndOfInput]);
    let diagnostics = scanner.diagnostics();
    assert_eq!(diagnostics.len(), 1);
    assert_eq!(diagnostics[0].line, 2);
    assert_eq!(diagnostics[0].message, "Unterminated string.");
}

#[test]
fn scanning_continues_after_errors() {
    let mut scanner = Scanner::new("@ 1 # 2");
    let tokens = scanner.scan_tokens();
    let kinds: Vec<TokenKind> = tokens.iter().map(|t| t.kind).collect();
    assert_eq!(
        kinds,
        vec![
            TokenKind::NumberLiteral(1),
            TokenKind::NumberLiteral(2),
            TokenKind::EndOfInput,
        ]
    );
    let diagnostics = scanner.diagnostics();
    assert_eq!(diagnostics.len(), 2);
    assert_eq!(diagnostics[0].context, "@");
    assert_eq!(diagnostics[1].context, "#");
}

#[test]
fn whitespace_is_never_a_token() {
    let mut scanner = Scanner::new(" \t\r\n \t");
    let tokens = scanner.scan_tokens();
    assert_eq!(tokens.len(), 1);
    assert_eq!(tokens[0].kind, TokenKind::EndOfInput);
    assert_eq!(tokens[0].line, 2);
}

#[test]
fn string_spans_include_the_quotes() {
    let mut scanner = Scanner::new("\"ab\"");
    let tokens = scanner.scan_tokens();
    assert_eq!(tokens[0].span.start, 0);
    assert_eq!(tokens[0].span.end, 4);
    assert_eq!(tokens[0].span.literal, "ab");
}

#[test]
fn empty_string_literal() {
    let mut scanner = Scanner::new("\"\"");
    let tokens = scanner.scan_tokens();
    assert_eq!(tokens[0].kind, TokenKind::StringLiteral);
    assert_eq!(tokens[0].span.literal, "");
    assert!(scanner.diagnostics().is_empty());
}
