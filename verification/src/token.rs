//! The token model: token kinds, spans, tokens, and the keyword table.

use vstd::prelude::*;

verus! {

/// The closed set of lexeme categories recognized by the scanner.
///
/// `NumberLiteral` carries the parsed integer value; every other
/// variant carries no payload beyond the shared `Token` envelope.
#[derive(Clone, Copy, Debug, PartialEq, Eq, Structural)]
pub enum TokenKind {
    LeftParen,
    RightParen,
    LeftBrace,
    RightBrace,
    Comma,
    Dot,
    Minus,
    Plus,
    Semicolon,
    Slash,
    Star,
    Bang,
    BangEqual,
    Equal,
    EqualEqual,
    Greater,
    GreaterEqual,
    Less,
    LessEqual,
    Identifier,
    StringLiteral,
    NumberLiteral(i64),
    And,
    Class,
    If,
    Else,
    True,
    False,
    Function,
    Return,
    For,
    Var,
    EndOfInput,
    Invalid,
}

/// Half-open character offsets into the scanned source, plus an owned
/// copy of the text they delimit, so a token outlives the source borrow.
#[derive(Debug, Clone, PartialEq, Eq)]
pub struct TextSpan {
    pub start: usize,
    pub end: usize,
    pub literal: String,
}

/// The mathematical image of a `TextSpan`: offsets as integers, text as
/// a character sequence.
pub struct SpanModel {
    pub start: int,
    pub end: int,
    pub literal: Seq<char>,
}

impl View for TextSpan {
    type V = SpanModel;

    open spec fn view(&self) -> SpanModel {
        SpanModel { start: self.start as int, end: self.end as int, literal: self.literal@ }
    }
}

impl TextSpan {
    pub fn new(start: usize, end: usize, literal: String) -> (r: TextSpan)
        ensures
            r@.start == start as int,
            r@.end == end as int,
            r@.literal == literal@,
    {
        TextSpan { start, end, literal }
    }
}

/// One classified lexeme: its kind, the 1-based line of its opening
/// character, and its span.
#[derive(Debug, Clone, PartialEq, Eq)]
pub struct Token {
    pub kind: TokenKind,
    pub line: u32,
    pub span: TextSpan,
}

/// The mathematical image of a `Token`.
pub struct TokenModel {
    pub kind: TokenKind,
    pub line: int,
    pub start: int,
    pub end: int,
    pub text: Seq<char>,
}

impl View for Token {
    type V = TokenModel;

    open spec fn view(&self) -> TokenModel {
        TokenModel {
            kind: self.kind,
            line: self.line as int,
            start: self.span.start as int,
            end: self.span.end as int,
            text: self.span.literal@,
        }
    }
}

impl Token {
    pub fn new(kind: TokenKind, line: u32, span: TextSpan) -> (r: Token)
        ensures
            r@.kind == kind,
            r@.line == line as int,
            r@.start == span@.start,
            r@.end == span@.end,
            r@.text == span@.literal,
    {
        Token { kind, line, span }
    }
}

/// The kind a reserved word maps to, or `None` for every other spelling.
/// Lookup is exact-string and case-sensitive.
pub open spec fn spec_keyword(t: Seq<char>) -> Option<TokenKind> {
    if t == "and"@ {
        Some(TokenKind::And)
    } else if t == "class"@ {
        Some(TokenKind::Class)
    } else if t == "if"@ {
        Some(TokenKind::If)
    } else if t == "else"@ {
        Some(TokenKind::Else)
    } else if t == "true"@ {
        Some(TokenKind::True)
    } else if t == "false"@ {
        Some(TokenKind::False)
    } else if t == "function"@ {
        Some(TokenKind::Function)
    } else if t == "return"@ {
        Some(TokenKind::Return)
    } else if t == "for"@ {
        Some(TokenKind::For)
    } else if t == "var"@ {
        Some(TokenKind::Var)
    } else {
        None
    }
}

/// What the immutable keyword table holds: each reserved spelling paired
/// with its kind, in a fixed order.
pub open spec fn keyword_table_wf(m: Seq<(String, TokenKind)>) -> bool {
    &&& m.len() == 10
    &&& m[0].0@ == "and"@ && m[0].1 == TokenKind::And
    &&& m[1].0@ == "class"@ && m[1].1 == TokenKind::Class
    &&& m[2].0@ == "if"@ && m[2].1 == TokenKind::If
    &&& m[3].0@ == "else"@ && m[3].1 == TokenKind::Else
    &&& m[4].0@ == "true"@ && m[4].1 == TokenKind::True
    &&& m[5].0@ == "false"@ && m[5].1 == TokenKind::False
    &&& m[6].0@ == "function"@ && m[6].1 == TokenKind::Function
    &&& m[7].0@ == "return"@ && m[7].1 == TokenKind::Return
    &&& m[8].0@ == "for"@ && m[8].1 == TokenKind::For
    &&& m[9].0@ == "var"@ && m[9].1 == TokenKind::Var
}

/// Builds the immutable reserved-word table, shared read-only by every
/// scanner instance built from it.
pub fn generate_identifier_map() -> (m: Vec<(String, TokenKind)>)
    ensures
        keyword_table_wf(m@),
{
    let mut m: Vec<(String, TokenKind)> = Vec::new();
    m.push((String::from_str("and"), TokenKind::And));
    m.push((String::from_str("class"), TokenKind::Class));
    m.push((String::from_str("if"), TokenKind::If));
    m.push((String::from_str("else"), TokenKind::Else));
    m.push((String::from_str("true"), TokenKind::True));
    m.push((String::from_str("false"), TokenKind::False));
    m.push((String::from_str("function"), TokenKind::Function));
    m.push((String::from_str("return"), TokenKind::Return));
    m.push((String::from_str("for"), TokenKind::For));
    m.push((String::from_str("var"), TokenKind::Var));
    m
}

/// Looks a spelling up in the keyword table; `None` means it is an
/// ordinary identifier.
pub fn keyword_lookup(m: &Vec<(String, TokenKind)>, literal: &String) -> (r: Option<TokenKind>)
    requires
        keyword_table_wf(m@),
    ensures
        r == spec_keyword(literal@),
{
    let mut i: usize = 0;
    while i < m.len()
        invariant
            keyword_table_wf(m@),
            0 <= i <= m@.len(),
            forall|j: int| 0 <= j < i ==> m@[j].0@ != literal@,
        decreases m@.len() - i,
    {
        if m[i].0 == *literal {
            proof {
                reveal_strlit("and");
                reveal_strlit("class");
                reveal_strlit("if");
                reveal_strlit("else");
                reveal_strlit("true");
                reveal_strlit("false");
                reveal_strlit("function");
                reveal_strlit("return");
                reveal_strlit("for");
                reveal_strlit("var");
            }
            return Some(m[i].1);
        }
        i += 1;
    }
    None
}

} // verus!
