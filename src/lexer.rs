//! The lexer: turns source characters into tokens with their positions,
//! ending with an end marker.
use vstd::prelude::*;
use crate::ast::Position;
use crate::token::{Keyword, Symbol, Token, TokenKind};

verus! {

/// A character that starts no token.
#[derive(Debug, Clone, Copy, PartialEq, Eq, Structural)]
pub struct LexError {
    pub found: char,
    pub position: Position,
}

/// Relies on std's `String::push`: appends one character.
#[verifier::external_body]
fn push_char(s: &mut String, c: char)
    ensures
        final(s)@ == old(s)@.push(c),
{
    s.push(c);
}

pub open spec fn is_digit(c: char) -> bool {
    '0' <= c <= '9'
}

pub open spec fn is_ident_start(c: char) -> bool {
    ('a' <= c <= 'z') || ('A' <= c <= 'Z') || c == '_'
}

pub open spec fn is_ident_char(c: char) -> bool {
    is_ident_start(c) || is_digit(c)
}

/// The keyword that a word spells, if any.
pub open spec fn keyword_of(w: Seq<char>) -> Option<Keyword> {
    if w == "int"@ {
        Some(Keyword::Int)
    } else if w == "if"@ {
        Some(Keyword::If)
    } else if w == "else"@ {
        Some(Keyword::Else)
    } else if w == "for"@ {
        Some(Keyword::For)
    } else if w == "return"@ {
        Some(Keyword::Return)
    } else {
        None
    }
}

fn keyword_of_word(w: &String) -> (r: Option<Keyword>)
    ensures
        r == keyword_of(w@),
{
    if *w == String::from_str("int") {
        Some(Keyword::Int)
    } else if *w == String::from_str("if") {
        Some(Keyword::If)
    } else if *w == String::from_str("else") {
        Some(Keyword::Else)
    } else if *w == String::from_str("for") {
        Some(Keyword::For)
    } else if *w == String::from_str("return") {
        Some(Keyword::Return)
    } else {
        None
    }
}

/// The symbol spelled by `c` followed by `next`, if it is a two-character one.
pub open spec fn double_symbol(c: char, next: char) -> Option<Symbol> {
    if next != '=' {
        None
    } else if c == '+' {
        Some(Symbol::PlusAssign)
    } else if c == '-' {
        Some(Symbol::MinusAssign)
    } else if c == '=' {
        Some(Symbol::EqEq)
    } else if c == '!' {
        Some(Symbol::NotEq)
    } else if c == '<' {
        Some(Symbol::Le)
    } else if c == '>' {
        Some(Symbol::Ge)
    } else {
        None
    }
}

/// The symbol spelled by the single character `c`, if any.
pub open spec fn single_symbol(c: char) -> Option<Symbol> {
    if c == '+' {
        Some(Symbol::Plus)
    } else if c == '-' {
        Some(Symbol::Minus)
    } else if c == '*' {
        Some(Symbol::Star)
    } else if c == '/' {
        Some(Symbol::Slash)
    } else if c == '=' {
        Some(Symbol::Assign)
    } else if c == '<' {
        Some(Symbol::Lt)
    } else if c == '>' {
        Some(Symbol::Gt)
    } else if c == '(' {
        Some(Symbol::LParen)
    } else if c == ')' {
        Some(Symbol::RParen)
    } else if c == '{' {
        Some(Symbol::LBrace)
    } else if c == '}' {
        Some(Symbol::RBrace)
    } else if c == ',' {
        Some(Symbol::Comma)
    } else if c == ';' {
        Some(Symbol::Semicolon)
    } else {
        None
    }
}

fn double_symbol_of(c: char, next: char) -> (r: Option<Symbol>)
    ensures
        r == double_symbol(c, next),
{
    if next != '=' {
        None
    } else if c == '+' {
        Some(Symbol::PlusAssign)
    } else if c == '-' {
        Some(Symbol::MinusAssign)
    } else if c == '=' {
        Some(Symbol::EqEq)
    } else if c == '!' {
        Some(Symbol::NotEq)
    } else if c == '<' {
        Some(Symbol::Le)
    } else if c == '>' {
        Some(Symbol::Ge)
    } else {
        None
    }
}

fn single_symbol_of(c: char) -> (r: Option<Symbol>)
    ensures
        r == single_symbol(c),
{
    if c == '+' {
        Some(Symbol::Plus)
    } else if c == '-' {
        Some(Symbol::Minus)
    } else if c == '*' {
        Some(Symbol::Star)
    } else if c == '/' {
        Some(Symbol::Slash)
    } else if c == '=' {
        Some(Symbol::Assign)
    } else if c == '<' {
        Some(Symbol::Lt)
    } else if c == '>' {
        Some(Symbol::Gt)
    } else if c == '(' {
        Some(Symbol::LParen)
    } else if c == ')' {
        Some(Symbol::RParen)
    } else if c == '{' {
        Some(Symbol::LBrace)
    } else if c == '}' {
        Some(Symbol::RBrace)
    } else if c == ',' {
        Some(Symbol::Comma)
    } else if c == ';' {
        Some(Symbol::Semicolon)
    } else {
        None
    }
}

/// A token as plain values.
pub enum TokV {
    Ident(Seq<char>),
    Number(u64),
    Keyword(Keyword),
    Symbol(Symbol),
    Eof,
}

pub open spec fn tok_view(t: Token) -> (TokV, Position) {
    (
        match t.kind {
            TokenKind::Ident(n) => TokV::Ident(n@),
            TokenKind::Number(v) => TokV::Number(v),
            TokenKind::Keyword(k) => TokV::Keyword(k),
            TokenKind::Symbol(s) => TokV::Symbol(s),
            TokenKind::Eof => TokV::Eof,
        },
        t.position,
    )
}

pub open spec fn toks_view(ts: Seq<Token>) -> Seq<(TokV, Position)> {
    ts.map_values(|t: Token| tok_view(t))
}

/// The end of the run of characters from `i` that satisfy `p`.
pub open spec fn run_end(src: Seq<char>, i: int, digits_only: bool) -> int
    decreases src.len() - i,
{
    if 0 <= i < src.len() && (if digits_only { is_digit(src[i]) } else { is_ident_char(src[i]) }) {
        run_end(src, i + 1, digits_only)
    } else {
        i
    }
}

/// The value of the decimal digits `src[i..j]`.
pub open spec fn digits_value(src: Seq<char>, i: int, j: int) -> nat
    decreases j - i,
{
    if j <= i {
        0
    } else {
        digits_value(src, i, j - 1) * 10 + ((src[j - 1] as u32 - '0' as u32) as nat)
    }
}

/// The first index `k` in `[k0, j)` where the digits `src[i..=k]` no longer fit in 64 bits.
pub open spec fn overflow_index(src: Seq<char>, i: int, k0: int, j: int) -> Option<int>
    decreases j - k0,
{
    if k0 >= j {
        None
    } else if digits_value(src, i, k0 + 1) > u64::MAX {
        Some(k0)
    } else {
        overflow_index(src, i, k0 + 1, j)
    }
}

/// The tokens of `src` from `i`, at `line` and `column`, after those in `acc`.
pub open spec fn sp_lex(src: Seq<char>, i: int, line: nat, column: nat, acc: Seq<(TokV, Position)>) -> Result<
    Seq<(TokV, Position)>,
    LexError,
>
    decreases src.len() - i,
{
    if i < 0 || i >= src.len() || line > usize::MAX || column > usize::MAX {
        Ok(acc.push((TokV::Eof, Position { line: line as usize, column: column as usize })))
    } else {
        let c = src[i];
        let here = Position { line: line as usize, column: column as usize };
        if c == '\n' {
            sp_lex(src, i + 1, line + 1, 1, acc)
        } else if c == ' ' || c == '\t' || c == '\r' {
            sp_lex(src, i + 1, line, column + 1, acc)
        } else if is_digit(c) {
            let j = run_end(src, i, true);
            if j <= i || j > src.len() {
                Ok(acc)
            } else {
                match overflow_index(src, i, i, j) {
                    Some(k) => Err(
                        LexError {
                            found: src[k],
                            position: Position { line: line as usize, column: (column + (k - i)) as usize },
                        },
                    ),
                    None => sp_lex(
                        src,
                        j,
                        line,
                        (column + (j - i)) as nat,
                        acc.push((TokV::Number(digits_value(src, i, j) as u64), here)),
                    ),
                }
            }
        } else if is_ident_start(c) {
            let j = run_end(src, i, false);
            if j <= i || j > src.len() {
                Ok(acc)
            } else {
                let w = src.subrange(i, j);
                let kind = match keyword_of(w) {
                    Some(k) => TokV::Keyword(k),
                    None => TokV::Ident(w),
                };
                sp_lex(src, j, line, (column + (j - i)) as nat, acc.push((kind, here)))
            }
        } else if i + 1 < src.len() && double_symbol(c, src[i + 1]) is Some {
            sp_lex(src, i + 2, line, column + 2, acc.push((TokV::Symbol(double_symbol(c, src[i + 1])->0), here)))
        } else if single_symbol(c) is Some {
            sp_lex(src, i + 1, line, column + 1, acc.push((TokV::Symbol(single_symbol(c)->0), here)))
        } else {
            Err(LexError { found: c, position: here })
        }
    }
}

/// A run ends at or after where it starts.
pub proof fn lemma_run_end_bounds(src: Seq<char>, i: int, digits_only: bool)
    requires
        0 <= i <= src.len(),
    ensures
        i <= run_end(src, i, digits_only) <= src.len(),
    decreases src.len() - i,
{
    if i < src.len() && (if digits_only { is_digit(src[i]) } else { is_ident_char(src[i]) }) {
        lemma_run_end_bounds(src, i + 1, digits_only);
    }
}

/// Splits `src` into tokens: identifiers, keywords, decimal literals and
/// symbols, separated by optional white space; lines and columns count
/// from 1. A literal too large for 64 bits, or a character that starts no
/// token, is an error at its position.
pub fn tokenize(src: &Vec<char>) -> (r: Result<Vec<Token>, LexError>)
    requires
        src@.len() < usize::MAX,
    ensures
        match r {
            Ok(toks) => sp_lex(src@, 0, 1, 1, seq![]) == Ok::<Seq<(TokV, Position)>, LexError>(
                toks_view(toks@),
            ),
            Err(e) => sp_lex(src@, 0, 1, 1, seq![]) == Err::<Seq<(TokV, Position)>, LexError>(e),
        },
        r matches Ok(toks) ==> toks@.len() >= 1 && toks@.last().kind is Eof && (forall|k: int|
            0 <= k < toks@.len() - 1 ==> !(#[trigger] toks@[k].kind is Eof)),
{
    let n = src.len();
    let mut out: Vec<Token> = Vec::new();
    let mut i: usize = 0;
    let mut line: usize = 1;
    let mut column: usize = 1;
    assert(toks_view(out@) =~= Seq::<(TokV, Position)>::empty());
    while i < n
        invariant
            n == src@.len(),
            n < usize::MAX,
            i <= n,
            1 <= line <= i + 1,
            1 <= column <= i + 1,
            forall|k: int| 0 <= k < out@.len() ==> !(#[trigger] out@[k].kind is Eof),
            sp_lex(src@, 0, 1, 1, seq![]) == sp_lex(src@, i as int, line as nat, column as nat, toks_view(out@)),
        decreases n - i,
    {
        let c = src[i];
        let position = Position { line, column };
        let ghost acc = toks_view(out@);
        let ghost i0 = i as int;
        if c == '\n' {
            i = i + 1;
            line = line + 1;
            column = 1;
        } else if c == ' ' || c == '\t' || c == '\r' {
            i = i + 1;
            column = column + 1;
        } else if '0' <= c && c <= '9' {
            let mut value: u64 = 0;
            let start = i;
            let ghost jj = run_end(src@, start as int, true);
            proof {
                lemma_run_end_bounds(src@, start as int, true);
            }
            while i < n && '0' <= src[i] && src[i] <= '9'
                invariant
                    n == src@.len(),
                    start <= i <= n,
                    1 <= column <= start + 1,
                    jj == run_end(src@, start as int, true),
                    run_end(src@, i as int, true) == jj,
                    i <= jj <= n,
                    value as nat == digits_value(src@, start as int, i as int),
                    start < n,
                    is_digit(src@[start as int]),
                    acc == toks_view(out@),
                    sp_lex(src@, 0, 1, 1, seq![]) == sp_lex(src@, start as int, line as nat, column as nat, acc),
                    overflow_index(src@, start as int, start as int, jj) == overflow_index(
                        src@,
                        start as int,
                        i as int,
                        jj,
                    ),
                decreases n - i,
            {
                let d = (src[i] as u32 - '0' as u32) as u64;
                proof {
                    lemma_run_end_bounds(src@, i + 1, true);
                    assert(digits_value(src@, start as int, i + 1) == value * 10 + d);
                    assert(value > (u64::MAX - d) / 10 <==> value * 10 + d > u64::MAX) by (nonlinear_arith)
                        requires
                            d <= 9,
                    ;
                }
                if value > (u64::MAX - d) / 10 {
                    return Err(LexError { found: src[i], position: Position { line, column: column + (i - start) } });
                }
                value = value * 10 + d;
                i = i + 1;
            }
            column = column + (i - start);
            proof {
                assert(i as int == jj);
            }
            out.push(Token { kind: TokenKind::Number(value), position });
            assert(toks_view(out@) =~= acc.push((TokV::Number(value), position)));
        } else if ('a' <= c && c <= 'z') || ('A' <= c && c <= 'Z') || c == '_' {
            let mut word = String::new();
            let start = i;
            let ghost jj = run_end(src@, start as int, false);
            proof {
                lemma_run_end_bounds(src@, start as int, false);
            }
            while i < n && (('a' <= src[i] && src[i] <= 'z') || ('A' <= src[i] && src[i] <= 'Z')
                || src[i] == '_' || ('0' <= src[i] && src[i] <= '9'))
                invariant
                    n == src@.len(),
                    start <= i <= n,
                    jj == run_end(src@, start as int, false),
                    run_end(src@, i as int, false) == jj,
                    i <= jj <= n,
                    word@ == src@.subrange(start as int, i as int),
                decreases n - i,
            {
                proof {
                    lemma_run_end_bounds(src@, i + 1, false);
                }
                push_char(&mut word, src[i]);
                assert(word@ =~= src@.subrange(start as int, i + 1));
                i = i + 1;
            }
            column = column + (i - start);
            proof {
                assert(i as int == jj);
            }
            let kind = match keyword_of_word(&word) {
                Some(k) => TokenKind::Keyword(k),
                None => TokenKind::Ident(word),
            };
            let ghost kv = tok_view(Token { kind, position }).0;
            out.push(Token { kind, position });
            assert(toks_view(out@) =~= acc.push((kv, position)));
        } else {
            let two = if i + 1 < n {
                double_symbol_of(c, src[i + 1])
            } else {
                None
            };
            match two {
                Some(s) => {
                    out.push(Token { kind: TokenKind::Symbol(s), position });
                    assert(toks_view(out@) =~= acc.push((TokV::Symbol(s), position)));
                    i = i + 2;
                    column = column + 2;
                },
                None => match single_symbol_of(c) {
                    Some(s) => {
                        out.push(Token { kind: TokenKind::Symbol(s), position });
                        assert(toks_view(out@) =~= acc.push((TokV::Symbol(s), position)));
                        i = i + 1;
                        column = column + 1;
                    },
                    None => {
                        return Err(LexError { found: c, position });
                    },
                },
            }
        }
    }
    let ghost acc = toks_view(out@);
    let end = Position { line, column };
    out.push(Token { kind: TokenKind::Eof, position: end });
    assert(toks_view(out@) =~= acc.push((TokV::Eof, end)));
    Ok(out)
}

} // verus!
