//! Tokens produced by the lexer and consumed by the parser.

use vstd::prelude::*;

verus! {

/// The kind of a token.
#[derive(Debug, PartialEq, Eq, Structural, Clone, Copy)]
pub enum TokenType {
    LeftBrace,
    RightBrace,
    LeftParen,
    RightParen,
    Colon,
    Equals,
    Minus,
    Ampersand,
    Percent,
    Arrow,
    Plus,
    Ident,
    Number,
    EqualsEquals,
    Gt,
    Lt,
    GtEquals,
    LtEquals,
    NotEquals,
    Eof,
}

/// The mathematical value of a [`Token`].
pub struct SpecToken {
    pub tok_type: TokenType,
    pub val: Seq<char>,
    pub is_reserved: bool,
    pub char_pos: int,
    pub line_num: int,
}

/// One lexical token: its kind, literal text, whether the text is a
/// reserved word, and its source position (column of its first
/// character, and line number).
#[derive(Debug, PartialEq, Clone)]
pub struct Token {
    pub tok_type: TokenType,
    pub val: String,
    pub is_reserved: bool,
    pub char_pos: usize,
    pub line_num: usize,
}

impl View for Token {
    type V = SpecToken;

    open spec fn view(&self) -> SpecToken {
        SpecToken {
            tok_type: self.tok_type,
            val: self.val@,
            is_reserved: self.is_reserved,
            char_pos: self.char_pos as int,
            line_num: self.line_num as int,
        }
    }
}

impl SpecToken {
    /// The token that [`Token::new_from_empty`] builds: the end-of-input marker.
    pub open spec fn empty() -> SpecToken {
        SpecToken {
            tok_type: TokenType::Eof,
            val: Seq::<char>::empty(),
            is_reserved: false,
            char_pos: 0,
            line_num: 0,
        }
    }
}

/// The name of a token kind, as diagnostics spell it.
pub open spec fn spec_token_type_name(t: TokenType) -> Seq<char> {
    match t {
        TokenType::LeftBrace => "LeftBrace"@,
        TokenType::RightBrace => "RightBrace"@,
        TokenType::LeftParen => "LeftParen"@,
        TokenType::RightParen => "RightParen"@,
        TokenType::Colon => "Colon"@,
        TokenType::Equals => "Equals"@,
        TokenType::Minus => "Minus"@,
        TokenType::Ampersand => "Ampersand"@,
        TokenType::Percent => "Percent"@,
        TokenType::Arrow => "Arrow"@,
        TokenType::Plus => "Plus"@,
        TokenType::Ident => "Ident"@,
        TokenType::Number => "Number"@,
        TokenType::EqualsEquals => "EqualsEquals"@,
        TokenType::Gt => "Gt"@,
        TokenType::Lt => "Lt"@,
        TokenType::GtEquals => "GtEquals"@,
        TokenType::LtEquals => "LtEquals"@,
        TokenType::NotEquals => "NotEquals"@,
        TokenType::Eof => "Eof"@,
    }
}

/// The name of a token kind, for diagnostics.
pub fn token_type_name(t: TokenType) -> (s: &'static str)
    ensures
        s@ == spec_token_type_name(t),
{
    match t {
        TokenType::LeftBrace => "LeftBrace",
        TokenType::RightBrace => "RightBrace",
        TokenType::LeftParen => "LeftParen",
        TokenType::RightParen => "RightParen",
        TokenType::Colon => "Colon",
        TokenType::Equals => "Equals",
        TokenType::Minus => "Minus",
        TokenType::Ampersand => "Ampersand",
        TokenType::Percent => "Percent",
        TokenType::Arrow => "Arrow",
        TokenType::Plus => "Plus",
        TokenType::Ident => "Ident",
        TokenType::Number => "Number",
        TokenType::EqualsEquals => "EqualsEquals",
        TokenType::Gt => "Gt",
        TokenType::Lt => "Lt",
        TokenType::GtEquals => "GtEquals",
        TokenType::LtEquals => "LtEquals",
        TokenType::NotEquals => "NotEquals",
        TokenType::Eof => "Eof",
    }
}

impl Token {
    /// A token of the given kind with no text.
    pub fn new(token_type: TokenType, pos: usize, line: usize) -> (t: Token)
        ensures
            t@ == (SpecToken {
                tok_type: token_type,
                val: Seq::<char>::empty(),
                is_reserved: false,
                char_pos: pos as int,
                line_num: line as int,
            }),
    {
        Token { tok_type: token_type, val: String::new(), is_reserved: false, char_pos: pos, line_num: line }
    }

    /// A token of the given kind carrying literal text.
    pub fn new_from_value(token_type: TokenType, value: &str, pos: usize, line: usize) -> (t: Token)
        ensures
            t@ == (SpecToken {
                tok_type: token_type,
                val: value@,
                is_reserved: false,
                char_pos: pos as int,
                line_num: line as int,
            }),
    {
        Token { tok_type: token_type, val: value.to_owned(), is_reserved: false, char_pos: pos, line_num: line }
    }

    /// The end-of-input token.
    pub fn new_from_empty() -> (t: Token)
        ensures
            t@ == SpecToken::empty(),
    {
        Token { tok_type: TokenType::Eof, val: String::new(), is_reserved: false, char_pos: 0, line_num: 0 }
    }

    /// Mark the token as a reserved word (or not); all other fields keep
    /// their values.
    pub fn set_reserved(&mut self, r: bool)
        ensures
            final(self)@ == (SpecToken { is_reserved: r, ..old(self)@ }),
    {
        self.is_reserved = r;
    }
}

} // verus!
