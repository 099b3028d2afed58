use minilex::add_one;
use minilex::ast::{ASTExpression, ASTExpressionKind, ASTStatement, ASTStatementKind, AST};
use minilex::parser::Parser;
use minilex::report::Report;
use minilex::scanner::Scanner;
use minilex::token::{generate_identifier_map, keyword_lookup, TextSpan, Token, TokenKind};

#[test]
fn it_works() {
    assert_eq!(add_one(2), 3);
}

#[test]
fn text_span_holds_its_parts() {
    let span = TextSpan::new(3, 7, String::from("word"));
    assert_eq!(span.start, 3);
    assert_eq!(span.end, 7);
    assert_eq!(span.literal, "word");
}

#[test]
fn token_holds_its_parts() {
    let token = Token::new(TokenKind::Plus, 4, TextSpan::new(0, 1, String::from("+")));
    assert_eq!(token.kind, TokenKind::Plus);
    assert_eq!(token.line, 4);
    assert_eq!(token.span.literal, "+");
}

#[test]
fn keyword_table_maps_reserved_words() {
    let map = generate_identifier_map();
    assert_eq!(map.len(), 10);
    assert_eq!(keyword_lookup(&map, &String::from("if")), Some(TokenKind::If));
    assert_eq!(keyword_lookup(&map, &String::from("var")), Some(TokenKind::Var));
    assert_eq!(keyword_lookup(&map, &String::from("function")), Some(TokenKind::Function));
    assert_eq!(keyword_lookup(&map, &String::from("x")), None);
    assert_eq!(keyword_lookup(&map, &String::from("If")), None);
    assert_eq!(keyword_lookup(&map, &String::from("")), None);
}

#[test]
fn report_holds_its_parts() {
    let report = Report::new(7, "@", "Unexpected character.");
    assert_eq!(report.line, 7);
    assert_eq!(report.context, "@");
    assert_eq!(report.message, "Unexpected character.");
}

#[test]
fn parser_starts_at_the_first_token() {
    let mut scanner = Scanner::new("1 + 2");
    let tokens = scanner.scan_tokens();
    let parser = Parser::new(tokens);
    assert_eq!(parser.cur_pos, 0);
    assert_eq!(parser.tokens.len(), 4);
}

#[test]
fn parser_cursor_walks_the_tokens() {
    let mut scanner = Scanner::new("1 + 2");
    let tokens = scanner.scan_tokens();
    let mut parser = Parser::new(tokens);

    assert!(!parser.is_at_end());
    assert_eq!(parser.peek().unwrap().kind, TokenKind::NumberLiteral(1));
    assert!(parser.check(TokenKind::NumberLiteral(1)));
    assert!(!parser.check(TokenKind::Plus));
    assert!(!parser.check(TokenKind::NumberLiteral(2)));

    assert!(!parser.is_match(vec![TokenKind::Minus, TokenKind::Star]));
    assert_eq!(parser.cur_pos, 0);
    assert!(parser.is_match(vec![TokenKind::Minus, TokenKind::NumberLiteral(1)]));
    assert_eq!(parser.cur_pos, 1);
    assert_eq!(parser.previous().unwrap().kind, TokenKind::NumberLiteral(1));

    assert_eq!(parser.consume().unwrap().kind, TokenKind::Plus);
    assert_eq!(parser.consume().unwrap().kind, TokenKind::NumberLiteral(2));
    assert!(parser.is_at_end());
    assert!(!parser.check(TokenKind::EndOfInput));
    assert!(!parser.is_match(vec![TokenKind::EndOfInput]));
    assert_eq!(parser.cur_pos, 3);
    assert_eq!(parser.consume().unwrap().kind, TokenKind::NumberLiteral(2));
    assert_eq!(parser.cur_pos, 3);
}

#[test]
fn ast_collects_statements() {
    let mut ast = AST::new();
    assert!(ast.statements.is_empty());
    ast.add_statement(ASTStatement::expression(ASTExpression::number(1)));
    ast.add_statement(ASTStatement::expression(ASTExpression::number(2)));
    assert_eq!(ast.statements.len(), 2);
    let ASTStatementKind::Expression(e) = &ast.statements[1].kind;
    assert!(matches!(e.kind, ASTExpressionKind::Number(ref n) if n.number == 2));
}

#[test]
fn ast_expression_constructors() {
    let number = ASTExpression::number(5);
    assert!(matches!(number.kind, ASTExpressionKind::Number(ref n) if n.number == 5));

    let sum = ASTExpression::binary(
        ASTExpression::number(1),
        TokenKind::Plus,
        ASTExpression::number(2),
    );
    match &sum.kind {
        ASTExpressionKind::Binary(b) => {
            assert_eq!(b.operator, TokenKind::Plus);
            assert!(matches!(b.left.kind, ASTExpressionKind::Number(ref n) if n.number == 1));
            assert!(matches!(b.right.kind, ASTExpressionKind::Number(ref n) if n.number == 2));
        },
        _ => panic!("expected a binary expression"),
    }

    let grouped = ASTExpression::group(ASTExpression::number(3));
    match &grouped.kind {
        ASTExpressionKind::Group(g) => {
            assert!(matches!(g.expression.kind, ASTExpressionKind::Number(ref n) if n.number == 3));
        },
        _ => panic!("expected a group expression"),
    }
}
