use mycc::ast::{Position, Stmt};
use mycc::codegen::Codegen;
use mycc::parser::{Expected, ParseError, Parser};
use mycc::token::{Keyword, Symbol, Token, TokenKind};

fn ident(s: &str) -> TokenKind {
    TokenKind::Ident(s.to_string())
}

fn sym(s: Symbol) -> TokenKind {
    TokenKind::Symbol(s)
}

fn kw(k: Keyword) -> TokenKind {
    TokenKind::Keyword(k)
}

/// Places the tokens on line 1, one column each, and appends the end marker.
fn tokens(kinds: Vec<TokenKind>) -> Vec<Token> {
    let mut out: Vec<Token> = kinds
        .into_iter()
        .enumerate()
        .map(|(i, kind)| Token { kind, position: Position { line: 1, column: i + 1 } })
        .collect();
    let n = out.len();
    out.push(Token { kind: TokenKind::Eof, position: Position { line: 1, column: n + 1 } });
    out
}

fn parse_expr_text(kinds: Vec<TokenKind>) -> String {
    let mut p = Parser::new(tokens(kinds));
    p.parse_expr().unwrap().to_simple_string()
}

#[test]
fn multiplication_binds_tighter_than_addition_under_assignment() {
    let text = parse_expr_text(vec![
        ident("x"),
        sym(Symbol::Assign),
        TokenKind::Number(1),
        sym(Symbol::Plus),
        TokenKind::Number(2),
        sym(Symbol::Star),
        TokenKind::Number(3),
    ]);
    assert_eq!(text, "Assign(1:2){Id(1:1){'x'}, Add(1:4){Num(1:3){1}, Mul(1:6){Num(1:5){2}, Num(1:7){3}}}}");
}

#[test]
fn assignment_is_right_associative() {
    let text = parse_expr_text(vec![ident("a"), sym(Symbol::Assign), ident("b"), sym(Symbol::Assign), TokenKind::Number(3)]);
    assert_eq!(text, "Assign(1:2){Id(1:1){'a'}, Assign(1:4){Id(1:3){'b'}, Num(1:5){3}}}");
}

#[test]
fn subtraction_is_left_associative() {
    let text = parse_expr_text(vec![
        TokenKind::Number(1),
        sym(Symbol::Minus),
        TokenKind::Number(2),
        sym(Symbol::Minus),
        TokenKind::Number(3),
    ]);
    assert_eq!(text, "Sub(1:4){Sub(1:2){Num(1:1){1}, Num(1:3){2}}, Num(1:5){3}}");
}

#[test]
fn precedence_ladder() {
    // a == b < c + -d / e
    let text = parse_expr_text(vec![
        ident("a"),
        sym(Symbol::EqEq),
        ident("b"),
        sym(Symbol::Lt),
        ident("c"),
        sym(Symbol::Plus),
        sym(Symbol::Minus),
        ident("d"),
        sym(Symbol::Slash),
        ident("e"),
    ]);
    assert_eq!(
        text,
        "Eq(1:2){Id(1:1){'a'}, Lt(1:4){Id(1:3){'b'}, Add(1:6){Id(1:5){'c'}, Div(1:9){Minus(1:7){Id(1:8){'d'}}, Id(1:10){'e'}}}}}"
    );
}

#[test]
fn parentheses_and_calls() {
    // (1 + 2) * f(x, 3)
    let text = parse_expr_text(vec![
        sym(Symbol::LParen),
        TokenKind::Number(1),
        sym(Symbol::Plus),
        TokenKind::Number(2),
        sym(Symbol::RParen),
        sym(Symbol::Star),
        ident("f"),
        sym(Symbol::LParen),
        ident("x"),
        sym(Symbol::Comma),
        TokenKind::Number(3),
        sym(Symbol::RParen),
    ]);
    assert_eq!(
        text,
        "Mul(1:6){Add(1:3){Num(1:2){1}, Num(1:4){2}}, Call(1:7){'f',\n  0: Id(1:9){'x'}\n  1: Num(1:11){3}\n}}"
    );
}

#[test]
fn compound_assignment_operators() {
    let text = parse_expr_text(vec![ident("x"), sym(Symbol::PlusAssign), TokenKind::Number(2)]);
    assert_eq!(text, "Inc(1:2){Id(1:1){'x'}, Num(1:3){2}}");
    let text = parse_expr_text(vec![ident("x"), sym(Symbol::MinusAssign), TokenKind::Number(2)]);
    assert_eq!(text, "Dec(1:2){Id(1:1){'x'}, Num(1:3){2}}");
}

#[test]
fn incomplete_if_fails_at_the_truncation_point() {
    let mut p = Parser::new(tokens(vec![kw(Keyword::If), sym(Symbol::LParen)]));
    assert_eq!(
        p.parse().err(),
        Some(ParseError { expected: Expected::Expression, position: Position { line: 1, column: 3 } })
    );
}

#[test]
fn missing_semicolon_is_reported() {
    let mut p = Parser::new(tokens(vec![ident("x"), sym(Symbol::Assign), TokenKind::Number(1)]));
    assert_eq!(
        p.parse().err(),
        Some(ParseError { expected: Expected::Symbol(Symbol::Semicolon), position: Position { line: 1, column: 4 } })
    );
}

#[test]
fn parameter_without_type_is_reported() {
    let mut p = Parser::new(tokens(vec![
        kw(Keyword::Int),
        ident("f"),
        sym(Symbol::LParen),
        ident("a"),
        sym(Symbol::RParen),
        sym(Symbol::LBrace),
        sym(Symbol::RBrace),
    ]));
    assert_eq!(
        p.parse().err(),
        Some(ParseError { expected: Expected::TypeName, position: Position { line: 1, column: 4 } })
    );
}

#[test]
fn statements_render_their_structure() {
    // int f(int a, int b) { if (a) { return b; } else { return; } for (;;) {} }
    let mut p = Parser::new(tokens(vec![
        kw(Keyword::Int),
        ident("f"),
        sym(Symbol::LParen),
        kw(Keyword::Int),
        ident("a"),
        sym(Symbol::Comma),
        kw(Keyword::Int),
        ident("b"),
        sym(Symbol::RParen),
        sym(Symbol::LBrace),
        kw(Keyword::If),
        sym(Symbol::LParen),
        ident("a"),
        sym(Symbol::RParen),
        sym(Symbol::LBrace),
        kw(Keyword::Return),
        ident("b"),
        sym(Symbol::Semicolon),
        sym(Symbol::RBrace),
        kw(Keyword::Else),
        sym(Symbol::LBrace),
        kw(Keyword::Return),
        sym(Symbol::Semicolon),
        sym(Symbol::RBrace),
        kw(Keyword::For),
        sym(Symbol::LParen),
        sym(Symbol::Semicolon),
        sym(Symbol::Semicolon),
        sym(Symbol::RParen),
        sym(Symbol::LBrace),
        sym(Symbol::RBrace),
        sym(Symbol::RBrace),
    ]));
    let m = p.parse().unwrap();
    assert_eq!(m.stmt_list.len(), 1);
    assert!(matches!(*m.stmt_list[0], Stmt::FnStmt { .. }));
    assert_eq!(
        m.to_simple_string(),
        "Module {\n  0: Fn(f, ['a', 'b']) -> int {\n  0: If(Id(1:13){'a'}) {\n  0: Return(Id(1:17){'b'})\n} Else {\n  0: Return()\n}\n  1: for(\n) {}}\n}"
    );
}

#[test]
fn parse_then_generate() {
    // int main() { x = 2; return x * 3; }
    let mut p = Parser::new(tokens(vec![
        kw(Keyword::Int),
        ident("main"),
        sym(Symbol::LParen),
        sym(Symbol::RParen),
        sym(Symbol::LBrace),
        ident("x"),
        sym(Symbol::Assign),
        TokenKind::Number(2),
        sym(Symbol::Semicolon),
        kw(Keyword::Return),
        ident("x"),
        sym(Symbol::Star),
        TokenKind::Number(3),
        sym(Symbol::Semicolon),
        sym(Symbol::RBrace),
    ]));
    let m = p.parse().unwrap();
    let mut g = Codegen::new();
    g.run(Box::new(m)).unwrap();
    let text: String = g.code_list.concat();
    assert!(text.contains(
        "main:\n  push rbp\n  mov rbp, rsp\n  # function 'main' begin\n  mov rax, rbp\n  sub rax, 0\n  push rax\n  push 2\n"
    ));
    assert!(text.contains("  imul rax, rdi\n  push rax\n  pop rax\n  mov rsp, rbp\n  pop rbp\n  ret\n"));
}

#[test]
fn empty_input_gives_empty_module() {
    let mut p = Parser::new(vec![]);
    assert_eq!(p.parse().unwrap().stmt_list.len(), 0);
    let mut p = Parser::new(tokens(vec![]));
    assert_eq!(p.parse().unwrap().stmt_list.len(), 0);
}
