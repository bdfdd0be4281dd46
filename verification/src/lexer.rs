//! The lexer: turns source text into one token at a time (pull model).
//!
//! Character handling, longest match first: single-character tokens,
//! two-character lookahead operators, identifiers (checked against the
//! reserved words), decimal number runs, and whitespace skipping that
//! counts lines.  Anything unrecognized falls through to an
//! end-of-input token, whose misreading the parser reports with the
//! right source position.

use vstd::prelude::*;
use crate::reserved::{is_reserved_word, Reserved};
use vstd::string::StrSliceExecFns;
use crate::strutil::{
    char_to_string, char_is_alphanumeric, char_is_whitespace, char_is_alphabetic,
    is_alphabetic_char, is_alphanumeric_char, is_digit10, is_whitespace_char, push_char,
    spec_is_digit10, str_to_chars,
};
use crate::token::{SpecToken, Token, TokenType};

verus! {

/// The lexer's position: the count of characters taken from the input
/// (one past the current character), the current line number, and the
/// count of characters taken on the current line.
pub struct LexState {
    pub cc: int,
    pub line: int,
    pub lcn: int,
}

/// The character the lexer currently looks at, if any.
pub open spec fn st_curr(input: Seq<char>, st: LexState) -> Option<char> {
    if 1 <= st.cc && st.cc - 1 < input.len() {
        Option::Some(input[st.cc - 1])
    } else {
        Option::None
    }
}

/// The position after taking one character.
pub open spec fn st_advance(st: LexState) -> LexState {
    LexState { cc: st.cc + 1, line: st.line, lcn: st.lcn + 1 }
}

/// The character after the current one, if any.
pub open spec fn st_peek(input: Seq<char>, st: LexState) -> Option<char> {
    if 0 <= st.cc < input.len() {
        Option::Some(input[st.cc])
    } else {
        Option::None
    }
}

/// Whether a character may continue an identifier: the punctuation that
/// ends one (`:`, `(`, `)`) may not.
pub open spec fn spec_is_valid_char_in_ident(c: char) -> bool {
    !(c == ':' || c == '(' || c == ')')
}

/// The character under the cursor, with the input-end stand-in past the
/// input.
pub open spec fn st_curr_or_eof(input: Seq<char>, st: LexState) -> char {
    match st_curr(input, st) {
        Option::Some(c) => c,
        Option::None => '\0',
    }
}

/// Whether a character belongs to identifier-or-content text: not
/// whitespace or the input-end stand-in, and either alphanumeric or
/// punctuation an identifier may hold.
pub open spec fn spec_alphanumeric_or_valid_punc(c: char) -> bool {
    if char_is_whitespace(c) || c == '\0' {
        false
    } else if char_is_alphanumeric(c) {
        true
    } else {
        spec_is_valid_char_in_ident(c)
    }
}

/// A single-character token at the current position.
pub open spec fn spec_single_tok(ty: TokenType, c: char, st: LexState) -> SpecToken {
    SpecToken { tok_type: ty, val: seq![c], is_reserved: false, char_pos: st.lcn, line_num: st.line }
}

/// A two-character operator token: its first character stood one place
/// before the position already advanced past it.
pub open spec fn spec_double_tok(ty: TokenType, v: Seq<char>, st1: LexState) -> SpecToken {
    SpecToken {
        tok_type: ty,
        val: v,
        is_reserved: false,
        char_pos: st1.lcn - 1,
        line_num: st1.line,
    }
}

/// What lexing `-` yields: an arrow token when `>` follows, else a
/// minus token; either way the characters taken are consumed.
pub open spec fn spec_minus_or_arrow(input: Seq<char>, st: LexState) -> (SpecToken, LexState) {
    if st_peek(input, st) == Option::Some('>') {
        let st1 = st_advance(st);
        (spec_double_tok(TokenType::Arrow, seq!['-', '>'], st1), st_advance(st1))
    } else {
        (spec_single_tok(TokenType::Minus, '-', st), st_advance(st))
    }
}

/// What lexing `=` or `!` yields: `==`, `=`, or `!=`; a lone `!` is no
/// operator and falls through to the end-of-input token.
pub open spec fn spec_operator_equals(input: Seq<char>, st: LexState, cur: char) -> (
    SpecToken,
    LexState,
) {
    let nxt = st_peek(input, st);
    if cur == '=' {
        if nxt == Option::Some('=') {
            let st1 = st_advance(st);
            (spec_double_tok(TokenType::EqualsEquals, seq!['=', '='], st1), st_advance(st1))
        } else {
            (spec_single_tok(TokenType::Equals, '=', st), st_advance(st))
        }
    } else {
        if nxt == Option::Some('=') {
            let st1 = st_advance(st);
            (spec_double_tok(TokenType::NotEquals, seq!['!', '='], st1), st_advance(st1))
        } else {
            (SpecToken::empty(), st_advance(st))
        }
    }
}

/// What lexing `>` or `<` yields: the strict or the or-equal
/// comparison operator.
pub open spec fn spec_operator_cmp(input: Seq<char>, st: LexState, cur: char) -> (
    SpecToken,
    LexState,
) {
    let nxt = st_peek(input, st);
    if cur == '>' {
        if nxt == Option::Some('=') {
            let st1 = st_advance(st);
            (spec_double_tok(TokenType::GtEquals, seq!['>', '='], st1), st_advance(st1))
        } else {
            (spec_single_tok(TokenType::Gt, '>', st), st_advance(st))
        }
    } else {
        if nxt == Option::Some('=') {
            let st1 = st_advance(st);
            (spec_double_tok(TokenType::LtEquals, seq!['<', '='], st1), st_advance(st1))
        } else {
            (spec_single_tok(TokenType::Lt, '<', st), st_advance(st))
        }
    }
}

/// One step of identifier lexing, as the lexer's word loop takes it:
/// `ch` is the character the previous step looked at, and the character
/// under the cursor is appended when it is alphanumeric, ends the word
/// when it is `:`/`(`/`)`, and is skipped otherwise.
pub open spec fn spec_word_loop(input: Seq<char>, st: LexState, ch: char, ident: Seq<char>) -> (
    Seq<char>,
    LexState,
)
    decreases input.len() + 2 - st.cc,
{
    if !spec_alphanumeric_or_valid_punc(ch) {
        (ident, st)
    } else {
        match st_curr(input, st) {
            Option::None => (ident, st_advance(st)),
            Option::Some(a) => {
                if !spec_is_valid_char_in_ident(a) {
                    (ident, st)
                } else {
                    let id2 = if char_is_alphanumeric(a) {
                        ident.push(a)
                    } else {
                        ident
                    };
                    spec_word_loop(input, st_advance(st), a, id2)
                }
            },
        }
    }
}

/// One step of number lexing: the character under the cursor is taken
/// into the number unless it is whitespace or the input-end stand-in,
/// and the run ends when the previously seen character is no digit.
pub open spec fn spec_digit_loop(input: Seq<char>, st: LexState, ch: char, ident: Seq<char>) -> (
    Seq<char>,
    LexState,
)
    decreases input.len() + 2 - st.cc,
{
    if !spec_is_digit10(ch) {
        (ident, st)
    } else {
        match st_curr(input, st) {
            Option::None => (ident, st_advance(st)),
            Option::Some(a) => {
                let id2 = if !char_is_whitespace(a) && a != '\0' {
                    ident.push(a)
                } else {
                    ident
                };
                spec_digit_loop(input, st_advance(st), a, id2)
            },
        }
    }
}

/// What lexing a word or number yields: an identifier token (marked
/// reserved when its text is a reserved word), a number token, or the
/// end-of-input token for a character that starts neither.
pub open spec fn spec_word_or_number(input: Seq<char>, st: LexState, ch0: char) -> (
    SpecToken,
    LexState,
) {
    if char_is_alphabetic(ch0) {
        let st1 = st_advance(st);
        let ch1 = match st_curr(input, st1) {
            Option::Some(c) => c,
            Option::None => '\0',
        };
        let r = spec_word_loop(input, st1, ch1, seq![ch0]);
        (
            SpecToken {
                tok_type: TokenType::Ident,
                val: r.0,
                is_reserved: is_reserved_word(r.0),
                char_pos: r.1.lcn - (r.0.len() + 1),
                line_num: r.1.line,
            },
            r.1,
        )
    } else if spec_is_digit10(ch0) {
        let r = spec_digit_loop(input, st_advance(st), ch0, seq![ch0]);
        (
            SpecToken {
                tok_type: TokenType::Number,
                val: r.0,
                is_reserved: false,
                char_pos: r.1.lcn - (r.0.len() + 1),
                line_num: r.1.line,
            },
            r.1,
        )
    } else {
        (SpecToken::empty(), st)
    }
}

/// What one pull of the lexer yields from the given position:
/// whitespace is skipped (newlines counting lines), then the token for
/// the character found, or the end-of-input token past the input's end.
pub open spec fn spec_lex(input: Seq<char>, st: LexState) -> (SpecToken, LexState)
    decreases input.len() + 2 - st.cc,
{
    match st_curr(input, st) {
        Option::None => (SpecToken::empty(), st),
        Option::Some(ch) => {
            if ch == '\0' {
                (SpecToken::empty(), st)
            } else if char_is_whitespace(ch) {
                let stn = if ch == '\n' {
                    LexState { cc: st.cc, line: st.line + 1, lcn: 1 }
                } else {
                    st
                };
                spec_lex(input, st_advance(stn))
            } else if ch == '{' {
                (spec_single_tok(TokenType::LeftBrace, ch, st), st_advance(st))
            } else if ch == '}' {
                (spec_single_tok(TokenType::RightBrace, ch, st), st_advance(st))
            } else if ch == '(' {
                (spec_single_tok(TokenType::LeftParen, ch, st), st_advance(st))
            } else if ch == ')' {
                (spec_single_tok(TokenType::RightParen, ch, st), st_advance(st))
            } else if ch == ':' {
                (spec_single_tok(TokenType::Colon, ch, st), st_advance(st))
            } else if ch == '+' {
                (spec_single_tok(TokenType::Plus, ch, st), st_advance(st))
            } else if ch == '&' {
                (spec_single_tok(TokenType::Ampersand, ch, st), st_advance(st))
            } else if ch == '%' {
                (spec_single_tok(TokenType::Percent, ch, st), st_advance(st))
            } else if ch == '=' || ch == '!' {
                spec_operator_equals(input, st, ch)
            } else if ch == '>' || ch == '<' {
                spec_operator_cmp(input, st, ch)
            } else if ch == '-' {
                spec_minus_or_arrow(input, st)
            } else {
                spec_word_or_number(input, st, ch)
            }
        },
    }
}

/// The token [`Lexer::peek_tok`] yields: a left-parenthesis token when
/// that character is under the cursor, else the end-of-input token.
pub open spec fn spec_peek_tok(input: Seq<char>, st: LexState) -> SpecToken {
    if st_curr(input, st) == Option::Some('(') {
        SpecToken {
            tok_type: TokenType::LeftParen,
            val: Seq::<char>::empty(),
            is_reserved: false,
            char_pos: st.lcn,
            line_num: st.line,
        }
    } else {
        SpecToken::empty()
    }
}

/// Whether a token kind is a comparison operator.
pub open spec fn spec_is_cmp_op(t: TokenType) -> bool {
    ||| t == TokenType::EqualsEquals
    ||| t == TokenType::Gt
    ||| t == TokenType::Lt
    ||| t == TokenType::GtEquals
    ||| t == TokenType::LtEquals
    ||| t == TokenType::NotEquals
}

/// Identifier lexing never moves the cursor left, and appends at most
/// one character to the word for each position taken, so the column
/// count past the word stays ahead of the word's length.
pub proof fn lemma_word_loop_bounds(input: Seq<char>, st: LexState, ch: char, ident: Seq<char>)
    ensures
        spec_word_loop(input, st, ch, ident).1.lcn - spec_word_loop(input, st, ch, ident).0.len()
            >= st.lcn - ident.len(),
        spec_word_loop(input, st, ch, ident).1.cc >= st.cc,
        spec_word_loop(input, st, ch, ident).1.line == st.line,
    decreases input.len() + 2 - st.cc,
{
    if !spec_alphanumeric_or_valid_punc(ch) {
    } else {
        match st_curr(input, st) {
            Option::None => {},
            Option::Some(a) => {
                if !spec_is_valid_char_in_ident(a) {
                } else {
                    let id2 = if char_is_alphanumeric(a) {
                        ident.push(a)
                    } else {
                        ident
                    };
                    lemma_word_loop_bounds(input, st_advance(st), a, id2);
                }
            },
        }
    }
}

/// Number lexing likewise keeps the column count ahead of the number's
/// length.
pub proof fn lemma_digit_loop_bounds(input: Seq<char>, st: LexState, ch: char, ident: Seq<char>)
    ensures
        spec_digit_loop(input, st, ch, ident).1.lcn - spec_digit_loop(input, st, ch, ident).0.len()
            >= st.lcn - ident.len(),
        spec_digit_loop(input, st, ch, ident).1.cc >= st.cc,
        spec_digit_loop(input, st, ch, ident).1.line == st.line,
    decreases input.len() + 2 - st.cc,
{
    if !spec_is_digit10(ch) {
    } else {
        match st_curr(input, st) {
            Option::None => {},
            Option::Some(a) => {
                let id2 = if !char_is_whitespace(a) && a != '\0' {
                    ident.push(a)
                } else {
                    ident
                };
                lemma_digit_loop_bounds(input, st_advance(st), a, id2);
            },
        }
    }
}

/// The lexer: holds the input characters, the cursor and line
/// counters, the reserved-word table, and the token and character most
/// recently taken.
pub struct Lexer {
    /// The input characters.
    pub input: Vec<char>,
    /// One past the index of the character under the cursor.
    pub char_count: usize,
    /// The current line number.
    pub line_num: usize,
    /// The count of characters taken on the current line.
    pub line_char_num: usize,
    /// The reserved-word table identifiers are checked against.
    pub reserved: Reserved,
    /// The token the last [`Lexer::lex`] call produced.
    pub curr_tok: Option<Token>,
    /// The character under the cursor, if any.
    pub curr_char: Option<char>,
}

impl Lexer {
    /// The input text being lexed.
    pub open spec fn inp(&self) -> Seq<char> {
        self.input@
    }

    /// The lexer's position.
    pub open spec fn st(&self) -> LexState {
        LexState {
            cc: self.char_count as int,
            line: self.line_num as int,
            lcn: self.line_char_num as int,
        }
    }

    /// The lexer's invariant: counters start at one and never run more
    /// than two places past the input, and the cursor character is the
    /// one the position names.
    pub open spec fn wf(&self) -> bool {
        &&& self.reserved.wf()
        &&& 1 <= self.char_count <= self.input@.len() + 2
        &&& self.input@.len() <= usize::MAX - 2
        &&& 1 <= self.line_num <= self.char_count + 1
        &&& 1 <= self.line_char_num <= self.char_count
        &&& self.curr_char == st_curr(self.input@, self.st())
    }

    /// A lexer over the given text, at its first character.
    pub fn new(file_contents: String) -> (l: Lexer)
        requires
            file_contents@.len() <= usize::MAX - 2,
        ensures
            l.wf(),
            l.inp() == file_contents@,
            l.st() == (LexState { cc: 1, line: 1, lcn: 1 }),
            l.curr_tok is None,
    {
        let r = Reserved::new();
        let chars = str_to_chars(file_contents.as_str());
        let c = if chars.len() > 0 {
            Option::Some(chars[0])
        } else {
            Option::None
        };
        Lexer {
            input: chars,
            char_count: 1,
            line_num: 1,
            line_char_num: 1,
            reserved: r,
            curr_tok: Option::None,
            curr_char: c,
        }
    }

    /// Take one character: the cursor moves right and the column count
    /// grows, whether or not input remains.
    fn get_char(&mut self)
        requires
            1 <= old(self).char_count,
            old(self).char_count <= old(self).input@.len() + 1,
            old(self).input@.len() <= usize::MAX - 2,
            old(self).line_char_num <= old(self).char_count,
        ensures
            final(self).input == old(self).input,
            final(self).inp() == old(self).inp(),
            final(self).st() == st_advance(old(self).st()),
            final(self).line_num == old(self).line_num,
            final(self).reserved == old(self).reserved,
            final(self).curr_tok == old(self).curr_tok,
            final(self).curr_char == st_curr(final(self).inp(), final(self).st()),
    {
        if self.char_count < self.input.len() {
            self.curr_char = Option::Some(self.input[self.char_count]);
        } else {
            self.curr_char = Option::None;
        }
        self.char_count = self.char_count + 1;
        self.line_char_num = self.line_char_num + 1;
    }

    /// The character under the cursor, or the input-end stand-in.
    fn curr_or_eof(&self) -> (c: char)
        requires
            self.wf(),
        ensures
            c == st_curr_or_eof(self.inp(), self.st()),
    {
        match self.curr_char {
            Option::Some(c) => c,
            Option::None => '\0',
        }
    }

    /// The character after the current one, without taking it.
    fn peek(&self) -> (r: Option<char>)
        requires
            self.wf(),
        ensures
            r == st_peek(self.inp(), self.st()),
    {
        if self.char_count < self.input.len() {
            Option::Some(self.input[self.char_count])
        } else {
            Option::None
        }
    }

    /// A single-character token for the character under the cursor,
    /// which is consumed.
    fn get_token(&mut self, token_type: TokenType) -> (tok: Option<Token>)
        requires
            old(self).wf(),
            old(self).curr_char is Some,
        ensures
            final(self).wf(),
            final(self).inp() == old(self).inp(),
            final(self).reserved == old(self).reserved,
            final(self).curr_tok == old(self).curr_tok,
            tok matches Option::Some(t) && t@ == spec_single_tok(
                token_type,
                old(self).curr_char->Some_0,
                old(self).st(),
            ),
            final(self).st() == st_advance(old(self).st()),
    {
        let tok = match self.curr_char {
            Option::Some(c) => {
                let s = char_to_string(c);
                Option::Some(
                    Token::new_from_value(token_type, s.as_str(), self.line_char_num, self.line_num),
                )
            },
            Option::None => Option::Some(Token::new_from_empty()),
        };
        self.get_char();
        tok
    }

    /// The `-` token, or the `->` arrow when `>` follows.
    fn get_minus_or_arrow(&mut self) -> (tok: Option<Token>)
        requires
            old(self).wf(),
            old(self).curr_char is Some,
        ensures
            final(self).wf(),
            final(self).inp() == old(self).inp(),
            final(self).reserved == old(self).reserved,
            final(self).curr_tok == old(self).curr_tok,
            tok matches Option::Some(t) && t@ == spec_minus_or_arrow(old(self).inp(), old(self).st()).0,
            final(self).st() == spec_minus_or_arrow(old(self).inp(), old(self).st()).1,
    {
        let ch = match self.peek() {
            Option::Some(c) => c,
            Option::None => '\0',
        };
        let tok: Option<Token>;
        if ch == '>' {
            self.get_char();
            tok = Option::Some(
                Token::new_from_value(TokenType::Arrow, "->", self.line_char_num - 1, self.line_num),
            );
            proof {
                reveal_strlit("->");
                assert("->"@ =~= seq!['-', '>']);
            }
        } else {
            tok = Option::Some(
                Token::new_from_value(TokenType::Minus, "-", self.line_char_num, self.line_num),
            );
            proof {
                reveal_strlit("-");
                assert("-"@ =~= seq!['-']);
            }
        }
        self.get_char();
        tok
    }

    /// The `=`, `==` or `!=` token; a lone `!` yields the end-of-input
    /// token.
    fn lex_operator_equals(&mut self) -> (tok: Option<Token>)
        requires
            old(self).wf(),
            old(self).curr_char matches Option::Some(c) && (c == '=' || c == '!'),
        ensures
            final(self).wf(),
            final(self).inp() == old(self).inp(),
            final(self).reserved == old(self).reserved,
            final(self).curr_tok == old(self).curr_tok,
            tok matches Option::Some(t) && t@ == spec_operator_equals(
                old(self).inp(),
                old(self).st(),
                old(self).curr_char->Some_0,
            ).0,
            final(self).st() == spec_operator_equals(
                old(self).inp(),
                old(self).st(),
                old(self).curr_char->Some_0,
            ).1,
    {
        let ch = match self.peek() {
            Option::Some(c) => c,
            Option::None => '\0',
        };
        let cur = self.curr_char.unwrap();
        let tok: Option<Token>;
        if cur == '=' {
            if ch == '=' {
                self.get_char();
                tok = Option::Some(
                    Token::new_from_value(
                        TokenType::EqualsEquals,
                        "==",
                        self.line_char_num - 1,
                        self.line_num,
                    ),
                );
                proof {
                    reveal_strlit("==");
                    assert("=="@ =~= seq!['=', '=']);
                }
            } else {
                tok = Option::Some(
                    Token::new_from_value(TokenType::Equals, "=", self.line_char_num, self.line_num),
                );
                proof {
                    reveal_strlit("=");
                    assert("="@ =~= seq!['=']);
                }
            }
        } else {
            if ch == '=' {
                self.get_char();
                tok = Option::Some(
                    Token::new_from_value(
                        TokenType::NotEquals,
                        "!=",
                        self.line_char_num - 1,
                        self.line_num,
                    ),
                );
                proof {
                    reveal_strlit("!=");
                    assert("!="@ =~= seq!['!', '=']);
                }
            } else {
                tok = Option::Some(Token::new_from_empty());
            }
        }
        self.get_char();
        tok
    }

    /// The `>`, `>=`, `<` or `<=` token.
    fn lex_operator_cmp(&mut self) -> (tok: Option<Token>)
        requires
            old(self).wf(),
            old(self).curr_char matches Option::Some(c) && (c == '>' || c == '<'),
        ensures
            final(self).wf(),
            final(self).inp() == old(self).inp(),
            final(self).reserved == old(self).reserved,
            final(self).curr_tok == old(self).curr_tok,
            tok matches Option::Some(t) && t@ == spec_operator_cmp(
                old(self).inp(),
                old(self).st(),
                old(self).curr_char->Some_0,
            ).0,
            final(self).st() == spec_operator_cmp(
                old(self).inp(),
                old(self).st(),
                old(self).curr_char->Some_0,
            ).1,
    {
        let ch = match self.peek() {
            Option::Some(c) => c,
            Option::None => '\0',
        };
        let cur = self.curr_char.unwrap();
        let tok: Option<Token>;
        if cur == '>' {
            if ch == '=' {
                self.get_char();
                tok = Option::Some(
                    Token::new_from_value(
                        TokenType::GtEquals,
                        ">=",
                        self.line_char_num - 1,
                        self.line_num,
                    ),
                );
                proof {
                    reveal_strlit(">=");
                    assert(">="@ =~= seq!['>', '=']);
                }
            } else {
                tok = Option::Some(
                    Token::new_from_value(TokenType::Gt, ">", self.line_char_num, self.line_num),
                );
                proof {
                    reveal_strlit(">");
                    assert(">"@ =~= seq!['>']);
                }
            }
        } else {
            if ch == '=' {
                self.get_char();
                tok = Option::Some(
                    Token::new_from_value(
                        TokenType::LtEquals,
                        "<=",
                        self.line_char_num - 1,
                        self.line_num,
                    ),
                );
                proof {
                    reveal_strlit("<=");
                    assert("<="@ =~= seq!['<', '=']);
                }
            } else {
                tok = Option::Some(
                    Token::new_from_value(TokenType::Lt, "<", self.line_char_num, self.line_num),
                );
                proof {
                    reveal_strlit("<");
                    assert("<"@ =~= seq!['<']);
                }
            }
        }
        self.get_char();
        tok
    }

    /// Whether a character may continue an identifier.
    fn is_valid_char_in_ident(&self, ch: char) -> (r: bool)
        ensures
            r == spec_is_valid_char_in_ident(ch),
    {
        !(ch == ':' || ch == '(' || ch == ')')
    }

    /// Whether a character belongs to identifier-or-content text.
    fn alphanumeric_or_valid_punc(&self, ch: char) -> (r: bool)
        ensures
            r == spec_alphanumeric_or_valid_punc(ch),
    {
        if is_whitespace_char(ch) || ch == '\0' {
            return false;
        }
        if is_alphanumeric_char(ch) {
            return true;
        }
        self.is_valid_char_in_ident(ch)
    }

    /// An identifier token (marked reserved where its text is), a
    /// number token, or the end-of-input token for a character that
    /// starts neither.
    fn lex_word_or_number(&mut self) -> (tok: Option<Token>)
        requires
            old(self).wf(),
            old(self).curr_char is Some,
        ensures
            final(self).wf(),
            final(self).inp() == old(self).inp(),
            final(self).reserved == old(self).reserved,
            final(self).curr_tok == old(self).curr_tok,
            tok matches Option::Some(t) && t@ == spec_word_or_number(
                old(self).inp(),
                old(self).st(),
                old(self).curr_char->Some_0,
            ).0,
            final(self).st() == spec_word_or_number(
                old(self).inp(),
                old(self).st(),
                old(self).curr_char->Some_0,
            ).1,
    {
        let ch0 = self.curr_char.unwrap();
        let mut ident = char_to_string(ch0);
        if is_alphabetic_char(ch0) {
            self.get_char();
            let mut ch = match self.curr_char {
                Option::Some(c) => c,
                Option::None => '\0',
            };
            let ghost st1 = self.st();
            let ghost ch1 = ch;
            let ghost id1 = ident@;
            let mut append = self.curr_or_eof();
            let mut go = self.alphanumeric_or_valid_punc(ch) && self.is_valid_char_in_ident(
                append,
            );
            proof {
                if !go {
                    assert(spec_word_loop(self.inp(), self.st(), ch, ident@) == (
                        ident@,
                        self.st(),
                    ));
                }
            }
            while go
                invariant
                    self.wf(),
                    self.inp() == old(self).inp(),
                    self.reserved == old(self).reserved,
                    self.curr_tok == old(self).curr_tok,
                    append == st_curr_or_eof(self.inp(), self.st()),
                    go == (spec_alphanumeric_or_valid_punc(ch) && spec_is_valid_char_in_ident(
                        append,
                    )),
                    self.char_count == self.input@.len() + 2 ==> ch == '\0',
                    spec_word_loop(self.inp(), st1, ch1, id1) == spec_word_loop(
                        self.inp(),
                        self.st(),
                        ch,
                        ident@,
                    ),
                    !go ==> spec_word_loop(self.inp(), self.st(), ch, ident@) == (
                        ident@,
                        self.st(),
                    ),
                decreases self.input@.len() + 2 - self.char_count,
            {
                let ghost stp = self.st();
                let ghost chp = ch;
                let ghost idp = ident@;
                if is_alphanumeric_char(append) {
                    push_char(&mut ident, append);
                    proof {
                        assert(ident@ =~= idp.push(append));
                    }
                }
                self.get_char();
                ch = append;
                append = self.curr_or_eof();
                go = self.alphanumeric_or_valid_punc(ch) && self.is_valid_char_in_ident(append);
                proof {
                    if st_curr(self.inp(), stp) is None {
                        assert(ch == '\0');
                        assert(spec_word_loop(self.inp(), stp, chp, idp) == (
                            idp,
                            st_advance(stp),
                        ));
                        assert(spec_word_loop(self.inp(), self.st(), ch, ident@) == (
                            ident@,
                            self.st(),
                        ));
                    } else {
                        assert(st_curr(self.inp(), stp) == Option::Some(ch));
                        assert(spec_word_loop(self.inp(), stp, chp, idp) == spec_word_loop(
                            self.inp(),
                            st_advance(stp),
                            ch,
                            if char_is_alphanumeric(ch) {
                                idp.push(ch)
                            } else {
                                idp
                            },
                        ));
                        assert(spec_word_loop(self.inp(), stp, chp, idp) == spec_word_loop(
                            self.inp(),
                            self.st(),
                            ch,
                            ident@,
                        ));
                    }
                    if !go {
                        assert(spec_word_loop(self.inp(), self.st(), ch, ident@) == (
                            ident@,
                            self.st(),
                        ));
                    }
                }
            }
            proof {
                lemma_word_loop_bounds(self.inp(), st1, ch1, id1);
            }
            let word_len = ident.as_str().unicode_len();
            let pos = self.line_char_num - (word_len + 1);
            let mut some_tok = Token::new_from_value(
                TokenType::Ident,
                ident.as_str(),
                pos,
                self.line_num,
            );
            if self.reserved.contains(ident.as_str()) {
                some_tok.set_reserved(true);
            } else {
                some_tok.set_reserved(false);
            }
            Option::Some(some_tok)
        } else if is_digit10(ch0) {
            self.get_char();
            let ghost st1 = self.st();
            let ghost id1 = ident@;
            let mut ch = ch0;
            let mut cond = is_digit10(ch);
            while cond
                invariant
                    self.wf(),
                    self.inp() == old(self).inp(),
                    self.reserved == old(self).reserved,
                    self.curr_tok == old(self).curr_tok,
                    cond == spec_is_digit10(ch),
                    self.char_count == self.input@.len() + 2 ==> ch == '\0',
                    spec_digit_loop(self.inp(), st1, ch0, id1) == spec_digit_loop(
                        self.inp(),
                        self.st(),
                        ch,
                        ident@,
                    ),
                decreases self.input@.len() + 2 - self.char_count,
            {
                let ghost stp = self.st();
                let ghost chp = ch;
                let ghost idp = ident@;
                let append = match self.curr_char {
                    Option::Some(c) => c,
                    Option::None => '\0',
                };
                if !is_whitespace_char(append) && append != '\0' {
                    push_char(&mut ident, append);
                    proof {
                        assert(ident@ =~= idp.push(append));
                    }
                }
                self.get_char();
                ch = append;
                cond = is_digit10(ch);
                proof {
                    if st_curr(self.inp(), stp) is None {
                        assert(ch == '\0');
                        assert(spec_digit_loop(self.inp(), stp, chp, idp) == (
                            idp,
                            st_advance(stp),
                        ));
                        assert(spec_digit_loop(self.inp(), self.st(), ch, ident@) == (
                            ident@,
                            self.st(),
                        ));
                    } else {
                        assert(st_curr(self.inp(), stp) == Option::Some(ch));
                        assert(spec_digit_loop(self.inp(), stp, chp, idp) == spec_digit_loop(
                            self.inp(),
                            st_advance(stp),
                            ch,
                            if !char_is_whitespace(ch) && ch != '\0' {
                                idp.push(ch)
                            } else {
                                idp
                            },
                        ));
                        assert(spec_digit_loop(self.inp(), stp, chp, idp) == spec_digit_loop(
                            self.inp(),
                            self.st(),
                            ch,
                            ident@,
                        ));
                    }
                }
            }
            proof {
                lemma_digit_loop_bounds(self.inp(), st1, ch0, id1);
                assert(spec_digit_loop(self.inp(), self.st(), ch, ident@) == (
                    ident@,
                    self.st(),
                ));
            }
            let word_len = ident.as_str().unicode_len();
            let pos = self.line_char_num - (word_len + 1);
            Option::Some(
                Token::new_from_value(TokenType::Number, ident.as_str(), pos, self.line_num),
            )
        } else {
            Option::Some(Token::new_from_empty())
        }
    }

    /// Pull one token: skip whitespace (counting lines), then set
    /// [`Lexer::curr_tok`] to the token [`spec_lex`] names from the old
    /// position, leaving the lexer at the position it names.
    pub fn lex(&mut self)
        requires
            old(self).wf(),
        ensures
            final(self).wf(),
            final(self).inp() == old(self).inp(),
            final(self).reserved == old(self).reserved,
            final(self).curr_tok matches Option::Some(t) && t@ == spec_lex(
                old(self).inp(),
                old(self).st(),
            ).0,
            final(self).st() == spec_lex(old(self).inp(), old(self).st()).1,
    {
        if self.curr_char.is_none() {
            self.curr_tok = Option::Some(Token::new_from_empty());
            return ;
        }
        let mut ch = self.curr_char.unwrap();
        if ch == '\0' {
            self.curr_tok = Option::Some(Token::new_from_empty());
            return ;
        }
        let mut ws = is_whitespace_char(ch);
        while ws
            invariant
                self.wf(),
                self.inp() == old(self).inp(),
                self.reserved == old(self).reserved,
                self.curr_tok == old(self).curr_tok,
                ws == char_is_whitespace(ch),
                ws ==> ch != '\0',
                self.curr_char == Option::Some(ch),
                spec_lex(self.inp(), old(self).st()) == spec_lex(self.inp(), self.st()),
            decreases self.input@.len() + 2 - self.char_count,
        {
            let ghost stp = self.st();
            let ghost chp = ch;
            if ch == '\n' {
                self.line_num = self.line_num + 1;
                self.line_char_num = 1;
            }
            let ghost stn = self.st();
            self.get_char();
            proof {
                assert(st_curr(self.inp(), stp) == Option::Some(chp));
                assert(spec_lex(self.inp(), stp) == spec_lex(self.inp(), st_advance(stn)));
            }
            if self.curr_char.is_none() {
                proof {
                    assert(spec_lex(self.inp(), self.st()) == (SpecToken::empty(), self.st()));
                }
                self.curr_tok = Option::Some(Token::new_from_empty());
                return ;
            }
            ch = self.curr_char.unwrap();
            ws = is_whitespace_char(ch);
        }
        if ch == '{' {
            self.curr_tok = self.get_token(TokenType::LeftBrace);
        } else if ch == '}' {
            self.curr_tok = self.get_token(TokenType::RightBrace);
        } else if ch == '(' {
            self.curr_tok = self.get_token(TokenType::LeftParen);
        } else if ch == ')' {
            self.curr_tok = self.get_token(TokenType::RightParen);
        } else if ch == ':' {
            self.curr_tok = self.get_token(TokenType::Colon);
        } else if ch == '+' {
            self.curr_tok = self.get_token(TokenType::Plus);
        } else if ch == '&' {
            self.curr_tok = self.get_token(TokenType::Ampersand);
        } else if ch == '%' {
            self.curr_tok = self.get_token(TokenType::Percent);
        } else if ch == '=' || ch == '!' {
            self.curr_tok = self.lex_operator_equals();
        } else if ch == '>' || ch == '<' {
            self.curr_tok = self.lex_operator_cmp();
        } else if ch == '-' {
            self.curr_tok = self.get_minus_or_arrow();
        } else if ch == '\0' {
            self.curr_tok = Option::Some(Token::new_from_empty());
        } else {
            self.curr_tok = self.lex_word_or_number();
        }
    }

    /// A token built from the character under the cursor without taking
    /// it; the parser uses it to tell an element name (a left
    /// parenthesis follows) from plain content.
    pub fn peek_tok(&self) -> (tok: Token)
        requires
            self.wf(),
        ensures
            tok@ == spec_peek_tok(self.inp(), self.st()),
    {
        match self.curr_char {
            Option::Some(c) => {
                if c == '(' {
                    Token::new(TokenType::LeftParen, self.line_char_num, self.line_num)
                } else {
                    Token::new_from_empty()
                }
            },
            Option::None => Token::new_from_empty(),
        }
    }

    /// Whether the token kind is a comparison operator (the single
    /// equals sign is not one).
    pub fn is_op(&self, token_type: &TokenType) -> (r: bool)
        ensures
            r == spec_is_cmp_op(*token_type),
    {
        match *token_type {
            TokenType::EqualsEquals => true,
            TokenType::Gt => true,
            TokenType::Lt => true,
            TokenType::GtEquals => true,
            TokenType::LtEquals => true,
            TokenType::NotEquals => true,
            _ => false,
        }
    }
}

} // verus!
