use mycc::ast::Position;
use mycc::lexer::{tokenize, LexError};
use mycc::parser::Parser;
use mycc::token::{Keyword, Symbol, TokenKind};

fn lex(s: &str) -> Result<Vec<mycc::token::Token>, LexError> {
    tokenize(&s.chars().collect())
}

#[test]
fn tokens_with_positions() {
    let toks = lex("int x\n  a += 12;").unwrap();
    let kinds: Vec<String> = toks.iter().map(|t| format!("{:?}", t.kind)).collect();
    assert_eq!(
        kinds,
        vec!["Keyword(Int)", "Ident(\"x\")", "Ident(\"a\")", "Symbol(PlusAssign)", "Number(12)", "Symbol(Semicolon)", "Eof"]
    );
    let positions: Vec<(usize, usize)> = toks.iter().map(|t| (t.position.line, t.position.column)).collect();
    assert_eq!(positions, vec![(1, 1), (1, 5), (2, 3), (2, 5), (2, 8), (2, 10), (2, 11)]);
}

#[test]
fn two_character_symbols() {
    let toks = lex("== != <= >= < > = -=").unwrap();
    let syms: Vec<Symbol> = toks
        .iter()
        .filter_map(|t| match t.kind {
            TokenKind::Symbol(s) => Some(s),
            _ => None,
        })
        .collect();
    assert_eq!(
        syms,
        vec![Symbol::EqEq, Symbol::NotEq, Symbol::Le, Symbol::Ge, Symbol::Lt, Symbol::Gt, Symbol::Assign, Symbol::MinusAssign]
    );
}

#[test]
fn keywords_and_identifiers() {
    let toks = lex("if else for return int iffy _x1").unwrap();
    assert!(matches!(toks[0].kind, TokenKind::Keyword(Keyword::If)));
    assert!(matches!(toks[1].kind, TokenKind::Keyword(Keyword::Else)));
    assert!(matches!(toks[2].kind, TokenKind::Keyword(Keyword::For)));
    assert!(matches!(toks[3].kind, TokenKind::Keyword(Keyword::Return)));
    assert!(matches!(toks[4].kind, TokenKind::Keyword(Keyword::Int)));
    assert!(matches!(&toks[5].kind, TokenKind::Ident(s) if s == "iffy"));
    assert!(matches!(&toks[6].kind, TokenKind::Ident(s) if s == "_x1"));
}

#[test]
fn unknown_character_is_an_error() {
    assert_eq!(lex("a = $;").err(), Some(LexError { found: '$', position: Position { line: 1, column: 5 } }));
    assert_eq!(lex("!").err(), Some(LexError { found: '!', position: Position { line: 1, column: 1 } }));
}

#[test]
fn literal_overflow_is_an_error() {
    assert!(lex("18446744073709551615").is_ok());
    assert!(lex("18446744073709551616").is_err());
}

#[test]
fn lex_then_parse_incomplete_if() {
    let mut p = Parser::new(lex("if (").unwrap());
    let e = p.parse().err().unwrap();
    assert_eq!(e.position, Position { line: 1, column: 5 });
}
