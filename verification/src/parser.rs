//! The parser: recursive descent over the lexer's tokens, building the
//! AST and filling the symbol table with `let` declarations.
//!
//! One token of lookahead, plus a non-consuming character peek that
//! tells an element name (a `(` follows) from plain content.  Any token
//! mismatch is a fatal parse error; there is no recovery.

use vstd::prelude::*;
use vstd::string::StringExecFns;
use crate::ast::{lemma_view_children, Ast, AstType, SpecAst};
use crate::error::{spec_parse_err_msg, Diagnostic, ParseDiagnostic};
use crate::lexer::{
    spec_lex, spec_peek_tok, st_curr, LexState, Lexer,
};
use crate::strutil::str_eq;
use crate::symbol_table::{spec_insert, SpecSymbol, SymbolError, SymbolTable};
use crate::token::{
    spec_token_type_name, token_type_name, Token, TokenType,
};

verus! {

/// The parser's configuration: the lexer's position, the current
/// token's kind, text and source position, and the symbol table's
/// entries.
pub struct PCfg {
    pub st: LexState,
    pub ty: TokenType,
    pub val: Seq<char>,
    pub pos: int,
    pub line: int,
    pub table: Seq<SpecSymbol>,
}

/// Why parsing stopped.
#[derive(Debug, PartialEq, Eq, Structural, Clone, Copy)]
pub enum ParseError {
    /// The input held no token at all.
    NothingToParse,
    /// The current token was not the kind the grammar demands here.
    Expected { expected: TokenType, found: TokenType, line: usize, pos: usize },
    /// A term began with a token no term can begin with.
    UnexpectedTerm { found: TokenType, line: usize, pos: usize },
    /// A `for` loop without `in` after its loop variable.
    ExpectedIn { line: usize, pos: usize },
    /// A declaration the symbol table refused.
    Symbol { err: SymbolError, line: usize, pos: usize },
}

/// The diagnostic line recorded for a parse error.
pub open spec fn spec_render_parse_error(e: ParseError) -> Seq<char> {
    match e {
        ParseError::NothingToParse => "tank: End of input reached, nothing to parse!"@,
        ParseError::Expected { expected, found, line, pos } => spec_parse_err_msg(
            "Expected "@ + spec_token_type_name(expected) + ", found "@ + spec_token_type_name(
                found,
            ),
            line as nat,
            pos as nat,
        ),
        ParseError::UnexpectedTerm { found, line, pos } => spec_parse_err_msg(
            "Unexpected "@ + spec_token_type_name(found) + " in term"@,
            line as nat,
            pos as nat,
        ),
        ParseError::ExpectedIn { line, pos } => spec_parse_err_msg(
            "Expected 'in' at for loop"@,
            line as nat,
            pos as nat,
        ),
        ParseError::Symbol { err, line, pos } => spec_parse_err_msg(
            spec_symbol_err_msg(err),
            line as nat,
            pos as nat,
        ),
    }
}

/// The message for an error the symbol table reported.
pub open spec fn spec_symbol_err_msg(e: SymbolError) -> Seq<char> {
    match e {
        SymbolError::InvalidAst => "Invalid ast type found in symbol table"@,
        SymbolError::NotEnoughChildren => "Invalid ast passed to symbol table"@,
        SymbolError::MissingType => "Variable declared without a type"@,
        SymbolError::Redeclared => "Redeclared symbol found"@,
    }
}

/// The configuration after taking one more token from the lexer.
pub open spec fn cfg_next(input: Seq<char>, c: PCfg) -> PCfg {
    let r = spec_lex(input, c.st);
    PCfg {
        st: r.1,
        ty: r.0.tok_type,
        val: r.0.val,
        pos: r.0.char_pos,
        line: r.0.line_num,
        table: c.table,
    }
}

/// What `expect` does: take the token when it is of the demanded kind,
/// else fail with the kind found.
pub open spec fn spec_expect(input: Seq<char>, c: PCfg, t: TokenType) -> Result<PCfg, ParseError> {
    if c.ty == t {
        Result::Ok(cfg_next(input, c))
    } else {
        Result::Err(
            ParseError::Expected {
                expected: t,
                found: c.ty,
                line: c.line as usize,
                pos: c.pos as usize,
            },
        )
    }
}

/// What parsing a term yields: an identifier (tagged as an element name
/// when `(` follows it), a number, the end-of-input leaf, or an error
/// for any other token.
pub open spec fn spec_term(input: Seq<char>, c: PCfg) -> Result<(SpecAst, PCfg), ParseError> {
    if c.ty == TokenType::Ident {
        let m = if spec_peek_tok(input, c.st).tok_type == TokenType::LeftParen {
            AstType::ElementName
        } else {
            AstType::Ident
        };
        Result::Ok((SpecAst::leaf_val(m, c.val), cfg_next(input, c)))
    } else if c.ty == TokenType::Number {
        Result::Ok((SpecAst::leaf_val(AstType::Number, c.val), cfg_next(input, c)))
    } else if c.ty == TokenType::Eof {
        Result::Ok((SpecAst::leaf(AstType::Eof), c))
    } else {
        Result::Err(
            ParseError::UnexpectedTerm {
                found: c.ty,
                line: c.line as usize,
                pos: c.pos as usize,
            },
        )
    }
}

/// A two-child operator node, as the expression parser builds them.
pub open spec fn spec_binary(t: AstType, l: SpecAst, r: SpecAst) -> SpecAst {
    SpecAst { ast_type: t, val: Seq::<char>::empty(), var_type: Option::None, children: seq![l, r] }
}

/// What the operation loop yields: while `+` or `-` is the current
/// token, fold the accumulated left side and the next term into a
/// two-child operator node.
pub open spec fn spec_op_loop(input: Seq<char>, acc: SpecAst, c: PCfg) -> Result<
    (SpecAst, PCfg),
    ParseError,
>
    decreases input.len() + 2 - c.st.cc,
{
    if c.ty != TokenType::Plus && c.ty != TokenType::Minus {
        Result::Ok((acc, c))
    } else {
        let aty = if c.ty == TokenType::Plus {
            AstType::Plus
        } else {
            AstType::Minus
        };
        let c1 = cfg_next(input, c);
        match spec_term(input, c1) {
            Result::Err(e) => Result::Err(e),
            Result::Ok((t, c2)) => {
                let node = spec_binary(aty, acc, t);
                if c.st.cc < c2.st.cc && c2.st.cc <= input.len() + 2 {
                    spec_op_loop(input, node, c2)
                } else {
                    Result::Ok((node, c2))
                }
            },
        }
    }
}

/// What parsing an operation yields: a term, possibly folded with
/// following `+`/`-` terms.
pub open spec fn spec_op(input: Seq<char>, c: PCfg) -> Result<(SpecAst, PCfg), ParseError> {
    match spec_term(input, c) {
        Result::Err(e) => Result::Err(e),
        Result::Ok((a, c1)) => spec_op_loop(input, a, c1),
    }
}

/// The tail every expression parse ends with: take the operator token
/// and parse the right-hand operation.
pub open spec fn spec_expr_tail(input: Seq<char>, aty: AstType, first: SpecAst, c: PCfg) -> Result<
    (SpecAst, PCfg),
    ParseError,
> {
    let c2 = cfg_next(input, c);
    match spec_op(input, c2) {
        Result::Err(e) => Result::Err(e),
        Result::Ok((second, cf)) => Result::Ok((spec_binary(aty, first, second), cf)),
    }
}

/// What parsing an expression yields: an operation, then either a
/// comparison operator and a right operand, a `:` type annotation and a
/// value (an assignment declaration), or a second operand under the
/// first one's own tag.
pub open spec fn spec_expr(input: Seq<char>, c: PCfg) -> Result<(SpecAst, PCfg), ParseError> {
    match spec_op(input, c) {
        Result::Err(e) => Result::Err(e),
        Result::Ok((first, c1)) => {
            if c1.ty == TokenType::Gt {
                spec_expr_tail(input, AstType::Gt, first, c1)
            } else if c1.ty == TokenType::Lt {
                spec_expr_tail(input, AstType::Lt, first, c1)
            } else if c1.ty == TokenType::GtEquals {
                spec_expr_tail(input, AstType::GtEquals, first, c1)
            } else if c1.ty == TokenType::LtEquals {
                spec_expr_tail(input, AstType::LtEquals, first, c1)
            } else if c1.ty == TokenType::NotEquals {
                spec_expr_tail(input, AstType::NotEquals, first, c1)
            } else if c1.ty == TokenType::EqualsEquals {
                spec_expr_tail(input, AstType::EqualsEquals, first, c1)
            } else if c1.ty == TokenType::Colon {
                let ca = cfg_next(input, c1);
                let firstp = SpecAst { var_type: Option::Some(ca.val), ..first };
                let cb = cfg_next(input, ca);
                spec_expr_tail(input, AstType::AssignExpr, firstp, cb)
            } else if c1.ty == TokenType::Equals {
                Result::Err(
                    ParseError::Expected {
                        expected: TokenType::Ident,
                        found: c1.ty,
                        line: c1.line as usize,
                        pos: c1.pos as usize,
                    },
                )
            } else {
                spec_expr_tail(input, first.ast_type, first, c1)
            }
        },
    }
}

/// What the attribute-list loop yields: key and value terms separated
/// by `:`, until the closing parenthesis.
pub open spec fn spec_attr_loop(input: Seq<char>, acc: Seq<SpecAst>, c: PCfg) -> Result<
    (Seq<SpecAst>, PCfg),
    ParseError,
>
    decreases input.len() + 2 - c.st.cc,
{
    if c.ty == TokenType::RightParen {
        Result::Ok((acc, c))
    } else {
        match spec_term(input, c) {
            Result::Err(e) => Result::Err(e),
            Result::Ok((k, c1)) => match spec_expect(input, c1, TokenType::Colon) {
                Result::Err(e) => Result::Err(e),
                Result::Ok(c2) => match spec_term(input, c2) {
                    Result::Err(e) => Result::Err(e),
                    Result::Ok((v, c3)) => {
                        let acc2 = acc.push(k).push(v);
                        if c.st.cc < c3.st.cc && c3.st.cc <= input.len() + 2 {
                            spec_attr_loop(input, acc2, c3)
                        } else {
                            Result::Ok((acc2, c3))
                        }
                    },
                },
            },
        }
    }
}

/// What parsing an attribute list yields: `(`, key `:` value pairs,
/// `)`, `->`; the pairs become the children of an `AttrList` node.
pub open spec fn spec_attr_list(input: Seq<char>, c: PCfg) -> Result<(SpecAst, PCfg), ParseError> {
    match spec_expect(input, c, TokenType::LeftParen) {
        Result::Err(e) => Result::Err(e),
        Result::Ok(c1) => match spec_attr_loop(input, Seq::<SpecAst>::empty(), c1) {
            Result::Err(e) => Result::Err(e),
            Result::Ok((kids, c2)) => match spec_expect(input, c2, TokenType::RightParen) {
                Result::Err(e) => Result::Err(e),
                Result::Ok(c3) => match spec_expect(input, c3, TokenType::Arrow) {
                    Result::Err(e) => Result::Err(e),
                    Result::Ok(c4) => Result::Ok(
                        (
                            SpecAst {
                                ast_type: AstType::AttrList,
                                val: Seq::<char>::empty(),
                                var_type: Option::None,
                                children: kids,
                            },
                            c4,
                        ),
                    ),
                },
            },
        },
    }
}

/// The result an element parse would have at a configuration no token
/// was taken from: the end-of-input leaf.
pub open spec fn spec_eof_element(c: PCfg) -> Result<(SpecAst, Seq<SpecAst>, PCfg), ParseError> {
    Result::Ok((SpecAst::leaf(AstType::Eof), Seq::<SpecAst>::empty(), c))
}

/// What parsing one element yields: the element's node, the nodes it
/// prepended to the template root (each following top-level element,
/// in the order the prepends happened), and the configuration after it.
///
/// An element is an `if` conditional, a `for` loop, a `let` declaration
/// (inserted into the symbol table at once), a markup element (name,
/// optional attribute list, then nested element or content term), a
/// braced element, or the end-of-input leaf.  Recursion is guarded on
/// the lexer having moved: where it has not, the next token is the
/// end-of-input token and the parse ends in the end-of-input leaf.
pub open spec fn spec_element(input: Seq<char>, c: PCfg) -> Result<
    (SpecAst, Seq<SpecAst>, PCfg),
    ParseError,
>
    decreases input.len() + 2 - c.st.cc, 1int,
{
    if c.ty == TokenType::Ident {
        if c.val == "if"@ {
            let c1 = cfg_next(input, c);
            match spec_expr(input, c1) {
                Result::Err(e) => Result::Err(e),
                Result::Ok((cond, c2)) => match spec_expect(input, c2, TokenType::LeftBrace) {
                    Result::Err(e) => Result::Err(e),
                    Result::Ok(c3) => {
                        let bodyr = if c.st.cc < c3.st.cc && c3.st.cc <= input.len() + 2 {
                            spec_element(input, c3)
                        } else {
                            spec_eof_element(c3)
                        };
                        match bodyr {
                            Result::Err(e) => Result::Err(e),
                            Result::Ok((body, pres_b, c4)) => match spec_expect(
                                input,
                                c4,
                                TokenType::RightBrace,
                            ) {
                                Result::Err(e) => Result::Err(e),
                                Result::Ok(c5) => {
                                    let nextr = if c.st.cc < c5.st.cc && c5.st.cc <= input.len()
                                        + 2 {
                                        spec_element(input, c5)
                                    } else {
                                        spec_eof_element(c5)
                                    };
                                    match nextr {
                                        Result::Err(e) => Result::Err(e),
                                        Result::Ok((nx, pres_n, c6)) => Result::Ok(
                                            (
                                                spec_binary(AstType::IfExpr, cond, body),
                                                pres_b + pres_n + seq![nx],
                                                c6,
                                            ),
                                        ),
                                    }
                                },
                            },
                        }
                    },
                },
            }
        } else if c.val == "for"@ {
            let c1 = cfg_next(input, c);
            match spec_term(input, c1) {
                Result::Err(e) => Result::Err(e),
                Result::Ok((t1, c2)) => {
                    if c2.val != "in"@ {
                        Result::Err(
                            ParseError::ExpectedIn {
                                line: c2.line as usize,
                                pos: c2.pos as usize,
                            },
                        )
                    } else {
                        let c3 = cfg_next(input, c2);
                        match spec_term(input, c3) {
                            Result::Err(e) => Result::Err(e),
                            Result::Ok((t2, c4)) => {
                                let bodyr = if c.st.cc < c4.st.cc && c4.st.cc <= input.len() + 2 {
                                    spec_element(input, c4)
                                } else {
                                    spec_eof_element(c4)
                                };
                                match bodyr {
                                    Result::Err(e) => Result::Err(e),
                                    Result::Ok((b, pres, c5)) => Result::Ok(
                                        (
                                            SpecAst {
                                                ast_type: AstType::ForExpr,
                                                val: Seq::<char>::empty(),
                                                var_type: Option::None,
                                                children: seq![t1, t2, b],
                                            },
                                            pres,
                                            c5,
                                        ),
                                    ),
                                }
                            },
                        }
                    }
                },
            }
        } else if c.val == "let"@ {
            let c1 = cfg_next(input, c);
            match spec_expr(input, c1) {
                Result::Err(e) => Result::Err(e),
                Result::Ok((assign, c2)) => match spec_insert(c2.table, assign) {
                    Result::Err(se) => Result::Err(
                        ParseError::Symbol {
                            err: se,
                            line: c2.line as usize,
                            pos: c2.pos as usize,
                        },
                    ),
                    Result::Ok(tb) => {
                        let c2p = PCfg { table: tb, ..c2 };
                        let nextr = if c.st.cc < c2p.st.cc && c2p.st.cc <= input.len() + 2 {
                            spec_element(input, c2p)
                        } else {
                            spec_eof_element(c2p)
                        };
                        match nextr {
                            Result::Err(e) => Result::Err(e),
                            Result::Ok((nx, pres, c3)) => Result::Ok(
                                (
                                    SpecAst {
                                        ast_type: AstType::Element,
                                        val: Seq::<char>::empty(),
                                        var_type: Option::None,
                                        children: seq![assign],
                                    },
                                    pres + seq![nx],
                                    c3,
                                ),
                            ),
                        }
                    },
                },
            }
        } else {
            match spec_term(input, c) {
                Result::Err(e) => Result::Err(e),
                Result::Ok((t1, c1)) => {
                    if c1.ty == TokenType::LeftParen {
                        match spec_attr_list(input, c1) {
                            Result::Err(e) => Result::Err(e),
                            Result::Ok((attrs, c2)) => spec_markup_tail(
                                input,
                                c,
                                seq![t1, attrs],
                                c2,
                            ),
                        }
                    } else {
                        spec_markup_tail(input, c, seq![t1], c1)
                    }
                },
            }
        }
    } else if c.ty == TokenType::LeftBrace {
        let c1 = cfg_next(input, c);
        let innerr = if c.st.cc < c1.st.cc && c1.st.cc <= input.len() + 2 {
            spec_element(input, c1)
        } else {
            spec_eof_element(c1)
        };
        match innerr {
            Result::Err(e) => Result::Err(e),
            Result::Ok((e1, pres, c2)) => match spec_expect(input, c2, TokenType::RightBrace) {
                Result::Err(e) => Result::Err(e),
                Result::Ok(c3) => Result::Ok(
                    (
                        SpecAst {
                            ast_type: AstType::Element,
                            val: Seq::<char>::empty(),
                            var_type: Option::None,
                            children: seq![e1],
                        },
                        pres,
                        c3,
                    ),
                ),
            },
        }
    } else {
        spec_eof_element(c)
    }
}

/// The second half of a markup element parse: the content — a nested
/// element where `(` follows the next identifier, else a plain term —
/// and the following top-level element, which is prepended to the root.
pub open spec fn spec_markup_tail(input: Seq<char>, c0: PCfg, kids: Seq<SpecAst>, c: PCfg) -> Result<
    (SpecAst, Seq<SpecAst>, PCfg),
    ParseError,
>
    decreases input.len() + 2 - c0.st.cc, 0int,
{
    let thirdr = if spec_peek_tok(input, c.st).tok_type == TokenType::LeftParen {
        if c0.st.cc < c.st.cc && c.st.cc <= input.len() + 2 {
            spec_element(input, c)
        } else {
            spec_eof_element(c)
        }
    } else {
        match spec_term(input, c) {
            Result::Err(e) => Result::Err(e),
            Result::Ok((e3, cy)) => Result::Ok((e3, Seq::<SpecAst>::empty(), cy)),
        }
    };
    match thirdr {
        Result::Err(e) => Result::Err(e),
        Result::Ok((e3, pres3, cy)) => {
            let nextr = if c0.st.cc < cy.st.cc && cy.st.cc <= input.len() + 2 {
                spec_element(input, cy)
            } else {
                spec_eof_element(cy)
            };
            match nextr {
                Result::Err(e) => Result::Err(e),
                Result::Ok((nx, presn, cz)) => Result::Ok(
                    (
                        SpecAst {
                            ast_type: AstType::Element,
                            val: Seq::<char>::empty(),
                            var_type: Option::None,
                            children: kids.push(e3),
                        },
                        pres3 + presn + seq![nx],
                        cz,
                    ),
                ),
            }
        },
    }
}

/// The lexer never moves left, and where it does not move it has hit
/// the end of input: the token is the end-of-input token, the position
/// is unchanged, and no left parenthesis is under the cursor.
pub proof fn lemma_lex_progress(input: Seq<char>, st: LexState)
    ensures
        spec_lex(input, st).1.cc >= st.cc,
        spec_lex(input, st).1.cc == st.cc ==> spec_lex(input, st).0
            == crate::token::SpecToken::empty() && spec_lex(input, st).1 == st && spec_peek_tok(
            input,
            st,
        ).tok_type == TokenType::Eof,
    decreases input.len() + 2 - st.cc,
{
    match st_curr(input, st) {
        Option::None => {},
        Option::Some(ch) => {
            if ch == '\0' {
            } else if crate::strutil::char_is_whitespace(ch) {
                let stn = if ch == '\n' {
                    LexState { cc: st.cc, line: st.line + 1, lcn: 1 }
                } else {
                    st
                };
                lemma_lex_progress(input, crate::lexer::st_advance(stn));
            } else if ch == '=' || ch == '!' || ch == '>' || ch == '<' || ch == '-' {
            } else if ch == '{' || ch == '}' || ch == '(' || ch == ')' || ch == ':' || ch == '+'
                || ch == '&' || ch == '%' {
            } else {
                if crate::strutil::char_is_alphabetic(ch) {
                    crate::lexer::lemma_word_loop_bounds(
                        input,
                        crate::lexer::st_advance(st),
                        crate::lexer::st_curr_or_eof(input, crate::lexer::st_advance(st)),
                        seq![ch],
                    );
                } else if crate::strutil::spec_is_digit10(ch) {
                    crate::lexer::lemma_digit_loop_bounds(
                        input,
                        crate::lexer::st_advance(st),
                        ch,
                        seq![ch],
                    );
                }
            }
        },
    }
}

/// Taking a token never moves the lexer left; where it does not move,
/// the token taken is the end-of-input token.
pub proof fn lemma_cfg_next_progress(input: Seq<char>, c: PCfg)
    ensures
        cfg_next(input, c).st.cc >= c.st.cc,
        cfg_next(input, c).table == c.table,
        cfg_next(input, c).st.cc == c.st.cc ==> cfg_next(input, c).ty == TokenType::Eof
            && cfg_next(input, c).st == c.st && cfg_next(input, c).val == Seq::<char>::empty()
            && spec_peek_tok(input, c.st).tok_type == TokenType::Eof,
{
    lemma_lex_progress(input, c.st);
}

/// A term parse never moves the lexer left; where it does not move, the
/// token after it is the end-of-input token.
pub proof fn lemma_term_progress(input: Seq<char>, c: PCfg)
    ensures
        spec_term(input, c) matches Result::Ok((a, cp)) ==> cp.st.cc >= c.st.cc && cp.table
            == c.table && (cp.st.cc == c.st.cc ==> cp.ty == TokenType::Eof && cp.st == c.st && (cp
            == c || cp.val == Seq::<char>::empty())),
{
    lemma_cfg_next_progress(input, c);
}

/// The operation loop never moves the lexer left; where it does not
/// move, the configuration is unchanged.
pub proof fn lemma_op_loop_progress(input: Seq<char>, acc: SpecAst, c: PCfg)
    ensures
        spec_op_loop(input, acc, c) matches Result::Ok((a, cp)) ==> cp.st.cc >= c.st.cc && cp.table
            == c.table && (cp.st.cc == c.st.cc ==> cp == c || cp.ty == TokenType::Eof),
    decreases input.len() + 2 - c.st.cc,
{
    if c.ty != TokenType::Plus && c.ty != TokenType::Minus {
    } else {
        let aty = if c.ty == TokenType::Plus {
            AstType::Plus
        } else {
            AstType::Minus
        };
        let c1 = cfg_next(input, c);
        lemma_cfg_next_progress(input, c);
        match spec_term(input, c1) {
            Result::Err(e) => {},
            Result::Ok((t, c2)) => {
                lemma_term_progress(input, c1);
                let node = spec_binary(aty, acc, t);
                if c.st.cc < c2.st.cc && c2.st.cc <= input.len() + 2 {
                    lemma_op_loop_progress(input, node, c2);
                }
            },
        }
    }
}

/// An operation parse never moves the lexer left; where it does not
/// move, the token after it is the end-of-input token.
pub proof fn lemma_op_progress(input: Seq<char>, c: PCfg)
    ensures
        spec_op(input, c) matches Result::Ok((a, cp)) ==> cp.st.cc >= c.st.cc && cp.table == c.table
            && (cp.st.cc == c.st.cc ==> cp.ty == TokenType::Eof && cp.st == c.st),
{
    lemma_term_progress(input, c);
    match spec_term(input, c) {
        Result::Err(e) => {},
        Result::Ok((a, c1)) => {
            lemma_op_loop_progress(input, a, c1);
        },
    }
}

/// An expression parse never moves the lexer left; where it does not
/// move, the token after it is the end-of-input token.
pub proof fn lemma_expr_progress(input: Seq<char>, c: PCfg)
    ensures
        spec_expr(input, c) matches Result::Ok((a, cp)) ==> cp.st.cc >= c.st.cc && cp.table
            == c.table && (cp.st.cc == c.st.cc ==> cp.ty == TokenType::Eof && cp.st == c.st),
{
    lemma_op_progress(input, c);
    match spec_op(input, c) {
        Result::Err(e) => {},
        Result::Ok((first, c1)) => {
            lemma_expr_tail_progress(input, AstType::Gt, first, c1);
            lemma_expr_tail_progress(input, AstType::Lt, first, c1);
            lemma_expr_tail_progress(input, AstType::GtEquals, first, c1);
            lemma_expr_tail_progress(input, AstType::LtEquals, first, c1);
            lemma_expr_tail_progress(input, AstType::NotEquals, first, c1);
            lemma_expr_tail_progress(input, AstType::EqualsEquals, first, c1);
            lemma_expr_tail_progress(input, first.ast_type, first, c1);
            if c1.ty == TokenType::Colon {
                let ca = cfg_next(input, c1);
                lemma_cfg_next_progress(input, c1);
                lemma_cfg_next_progress(input, ca);
                let firstp = SpecAst { var_type: Option::Some(ca.val), ..first };
                let cb = cfg_next(input, ca);
                lemma_expr_tail_progress(input, AstType::AssignExpr, firstp, cb);
            }
        },
    }
}

/// The expression tail never moves the lexer left; where it does not
/// move, the token after it is the end-of-input token.
pub proof fn lemma_expr_tail_progress(input: Seq<char>, aty: AstType, first: SpecAst, c: PCfg)
    ensures
        spec_expr_tail(input, aty, first, c) matches Result::Ok((a, cp)) ==> cp.st.cc >= c.st.cc
            && cp.table == c.table && (cp.st.cc == c.st.cc ==> cp.ty == TokenType::Eof && cp.st
            == c.st),
{
    lemma_cfg_next_progress(input, c);
    lemma_op_progress(input, cfg_next(input, c));
}

/// The attribute loop never moves the lexer left; where it does not
/// move, the configuration is unchanged.
pub proof fn lemma_attr_loop_progress(input: Seq<char>, acc: Seq<SpecAst>, c: PCfg)
    ensures
        spec_attr_loop(input, acc, c) matches Result::Ok((a, cp)) ==> cp.st.cc >= c.st.cc
            && cp.table == c.table && (cp.st.cc == c.st.cc ==> cp == c || cp.ty == TokenType::Eof),
    decreases input.len() + 2 - c.st.cc,
{
    if c.ty == TokenType::RightParen {
    } else {
        lemma_term_progress(input, c);
        match spec_term(input, c) {
            Result::Err(e) => {},
            Result::Ok((k, c1)) => {
                lemma_cfg_next_progress(input, c1);
                match spec_expect(input, c1, TokenType::Colon) {
                    Result::Err(e) => {},
                    Result::Ok(c2) => {
                        lemma_term_progress(input, c2);
                        match spec_term(input, c2) {
                            Result::Err(e) => {},
                            Result::Ok((v, c3)) => {
                                let acc2 = acc.push(k).push(v);
                                if c.st.cc < c3.st.cc && c3.st.cc <= input.len() + 2 {
                                    lemma_attr_loop_progress(input, acc2, c3);
                                }
                            },
                        }
                    },
                }
            },
        }
    }
}

/// An attribute-list parse never moves the lexer left; where it does
/// not move, the token after it is the end-of-input token.
pub proof fn lemma_attr_list_progress(input: Seq<char>, c: PCfg)
    ensures
        spec_attr_list(input, c) matches Result::Ok((a, cp)) ==> cp.st.cc >= c.st.cc && cp.table
            == c.table && (cp.st.cc == c.st.cc ==> cp.ty == TokenType::Eof && cp.st == c.st),
{
    lemma_cfg_next_progress(input, c);
    match spec_expect(input, c, TokenType::LeftParen) {
        Result::Err(e) => {},
        Result::Ok(c1) => {
            lemma_attr_loop_progress(input, Seq::<SpecAst>::empty(), c1);
            match spec_attr_loop(input, Seq::<SpecAst>::empty(), c1) {
                Result::Err(e) => {},
                Result::Ok((kids, c2)) => {
                    lemma_cfg_next_progress(input, c2);
                    match spec_expect(input, c2, TokenType::RightParen) {
                        Result::Err(e) => {},
                        Result::Ok(c3) => {
                            lemma_cfg_next_progress(input, c3);
                        },
                    }
                },
            }
        },
    }
}

/// An element parse never moves the lexer left.
#[verifier::rlimit(100)]
pub proof fn lemma_element_progress(input: Seq<char>, c: PCfg)
    ensures
        spec_element(input, c) matches Result::Ok((a, p, cp)) ==> cp.st.cc >= c.st.cc,
    decreases input.len() + 2 - c.st.cc, 1int,
{
    if c.ty == TokenType::Ident {
        if c.val == "if"@ {
            let c1 = cfg_next(input, c);
            lemma_cfg_next_progress(input, c);
            lemma_expr_progress(input, c1);
            match spec_expr(input, c1) {
                Result::Err(e) => {},
                Result::Ok((cond, c2)) => {
                    lemma_cfg_next_progress(input, c2);
                    match spec_expect(input, c2, TokenType::LeftBrace) {
                        Result::Err(e) => {},
                        Result::Ok(c3) => {
                            if c.st.cc < c3.st.cc && c3.st.cc <= input.len() + 2 {
                                lemma_element_progress(input, c3);
                            }
                            let bodyr = if c.st.cc < c3.st.cc && c3.st.cc <= input.len() + 2 {
                                spec_element(input, c3)
                            } else {
                                spec_eof_element(c3)
                            };
                            match bodyr {
                                Result::Err(e) => {},
                                Result::Ok((body, pres_b, c4)) => {
                                    lemma_cfg_next_progress(input, c4);
                                    match spec_expect(input, c4, TokenType::RightBrace) {
                                        Result::Err(e) => {},
                                        Result::Ok(c5) => {
                                            if c.st.cc < c5.st.cc && c5.st.cc <= input.len() + 2 {
                                                lemma_element_progress(input, c5);
                                            }
                                        },
                                    }
                                },
                            }
                        },
                    }
                },
            }
        } else if c.val == "for"@ {
            let c1 = cfg_next(input, c);
            lemma_cfg_next_progress(input, c);
            lemma_term_progress(input, c1);
            match spec_term(input, c1) {
                Result::Err(e) => {},
                Result::Ok((t1, c2)) => {
                    if c2.val != "in"@ {
                    } else {
                        let c3 = cfg_next(input, c2);
                        lemma_cfg_next_progress(input, c2);
                        lemma_term_progress(input, c3);
                        match spec_term(input, c3) {
                            Result::Err(e) => {},
                            Result::Ok((t2, c4)) => {
                                if c.st.cc < c4.st.cc && c4.st.cc <= input.len() + 2 {
                                    lemma_element_progress(input, c4);
                                }
                            },
                        }
                    }
                },
            }
        } else if c.val == "let"@ {
            let c1 = cfg_next(input, c);
            lemma_cfg_next_progress(input, c);
            lemma_expr_progress(input, c1);
            match spec_expr(input, c1) {
                Result::Err(e) => {},
                Result::Ok((assign, c2)) => match spec_insert(c2.table, assign) {
                    Result::Err(se) => {},
                    Result::Ok(tb) => {
                        let c2p = PCfg { table: tb, ..c2 };
                        if c.st.cc < c2p.st.cc && c2p.st.cc <= input.len() + 2 {
                            lemma_element_progress(input, c2p);
                        }
                    },
                },
            }
        } else {
            lemma_term_progress(input, c);
            match spec_term(input, c) {
                Result::Err(e) => {},
                Result::Ok((t1, c1)) => {
                    if c1.ty == TokenType::LeftParen {
                        lemma_attr_list_progress(input, c1);
                        match spec_attr_list(input, c1) {
                            Result::Err(e) => {},
                            Result::Ok((attrs, c2)) => {
                                lemma_markup_tail_progress(input, c, seq![t1, attrs], c2);
                            },
                        }
                    } else {
                        lemma_markup_tail_progress(input, c, seq![t1], c1);
                    }
                },
            }
        }
    } else if c.ty == TokenType::LeftBrace {
        let c1 = cfg_next(input, c);
        lemma_cfg_next_progress(input, c);
        if c.st.cc < c1.st.cc && c1.st.cc <= input.len() + 2 {
            lemma_element_progress(input, c1);
        }
        let innerr = if c.st.cc < c1.st.cc && c1.st.cc <= input.len() + 2 {
            spec_element(input, c1)
        } else {
            spec_eof_element(c1)
        };
        match innerr {
            Result::Err(e) => {},
            Result::Ok((e1, pres, c2)) => {
                lemma_cfg_next_progress(input, c2);
            },
        }
    } else {
    }
}

/// The markup tail never moves the lexer left.
pub proof fn lemma_markup_tail_progress(input: Seq<char>, c0: PCfg, kids: Seq<SpecAst>, c: PCfg)
    requires
        c.st.cc >= c0.st.cc,
    ensures
        spec_markup_tail(input, c0, kids, c) matches Result::Ok((a, p, cp)) ==> cp.st.cc
            >= c.st.cc,
    decreases input.len() + 2 - c0.st.cc, 0int,
{
    let thirdr = if spec_peek_tok(input, c.st).tok_type == TokenType::LeftParen {
        if c0.st.cc < c.st.cc && c.st.cc <= input.len() + 2 {
            spec_element(input, c)
        } else {
            spec_eof_element(c)
        }
    } else {
        match spec_term(input, c) {
            Result::Err(e) => Result::Err(e),
            Result::Ok((e3, cy)) => Result::Ok((e3, Seq::<SpecAst>::empty(), cy)),
        }
    };
    if spec_peek_tok(input, c.st).tok_type == TokenType::LeftParen {
        if c0.st.cc < c.st.cc && c.st.cc <= input.len() + 2 {
            lemma_element_progress(input, c);
        }
    } else {
        lemma_term_progress(input, c);
    }
    match thirdr {
        Result::Err(e) => {},
        Result::Ok((e3, pres3, cy)) => {
            if c0.st.cc < cy.st.cc && cy.st.cc <= input.len() + 2 {
                lemma_element_progress(input, cy);
            }
        },
    }
}

/// What one parse run yields from a configuration: an error when the
/// current token is already the end of input, else the first element
/// and the prepended top-level elements.
pub open spec fn spec_parse_at(input: Seq<char>, c: PCfg) -> Result<
    (SpecAst, Seq<SpecAst>, PCfg),
    ParseError,
> {
    if c.ty == TokenType::Eof {
        Result::Err(ParseError::NothingToParse)
    } else {
        spec_element(input, c)
    }
}

/// The configuration a fresh parser starts from: the first token of
/// the input, over the given symbol table.
pub open spec fn spec_init_cfg(input: Seq<char>, table: Seq<SpecSymbol>) -> PCfg {
    let r = spec_lex(input, LexState { cc: 1, line: 1, lcn: 1 });
    PCfg {
        st: r.1,
        ty: r.0.tok_type,
        val: r.0.val,
        pos: r.0.char_pos,
        line: r.0.line_num,
        table: table,
    }
}

/// The parser: the lexer it pulls tokens from, the shared symbol
/// table, the current token's text, kind and position, the template
/// root the parsed elements are collected under, and the diagnostics.
pub struct Parser {
    /// The token source.
    pub lexer: Lexer,
    /// The table `let` declarations are inserted into.
    pub symbol_table: SymbolTable,
    /// The current token's text.
    pub curr_val: String,
    /// The current token's kind.
    pub curr_type: TokenType,
    /// The current token's column.
    pub curr_pos: usize,
    /// The current token's line.
    pub curr_line: usize,
    /// The template root node.
    pub root: Ast,
    /// Collected parse errors.
    pub diagnostic: ParseDiagnostic,
}

impl Parser {
    /// The input text being parsed.
    pub open spec fn inp(&self) -> Seq<char> {
        self.lexer.inp()
    }

    /// The parser's configuration.
    pub open spec fn cfg(&self) -> PCfg {
        PCfg {
            st: self.lexer.st(),
            ty: self.curr_type,
            val: self.curr_val@,
            pos: self.curr_pos as int,
            line: self.curr_line as int,
            table: self.symbol_table@,
        }
    }

    /// The parser's invariant: its lexer's.
    pub open spec fn wf(&self) -> bool {
        self.lexer.wf()
    }

    /// A parser over the given template text and symbol table, with the
    /// first token already taken and an empty template root.
    pub fn new(template: String, symbol_table: SymbolTable) -> (p: Parser)
        requires
            template@.len() <= usize::MAX - 2,
        ensures
            p.wf(),
            p.inp() == template@,
            p.cfg() == spec_init_cfg(template@, symbol_table@),
            p.root@ == SpecAst::leaf(AstType::Template),
            p.diagnostic.spec_errors() == Seq::<Seq<char>>::empty(),
            p.diagnostic.spec_warnings() == Seq::<Seq<char>>::empty(),
    {
        let mut m_lexer = Lexer::new(template);
        m_lexer.lex();
        let tok = match m_lexer.curr_tok.take() {
            Option::Some(t) => t,
            Option::None => Token::new(TokenType::Eof, 0, 0),
        };
        Parser {
            lexer: m_lexer,
            symbol_table: symbol_table,
            curr_val: tok.val,
            curr_type: tok.tok_type,
            curr_pos: tok.char_pos,
            curr_line: tok.line_num,
            root: Ast::new(AstType::Template),
            diagnostic: ParseDiagnostic::new(),
        }
    }

    /// Take the next token from the lexer.
    fn get_next_tok(&mut self)
        requires
            old(self).wf(),
        ensures
            final(self).wf(),
            final(self).inp() == old(self).inp(),
            final(self).cfg() == cfg_next(old(self).inp(), old(self).cfg()),
            final(self).root == old(self).root,
            final(self).diagnostic == old(self).diagnostic,
            final(self).symbol_table == old(self).symbol_table,
    {
        self.lexer.lex();
        let tok = match self.lexer.curr_tok.take() {
            Option::Some(t) => t,
            Option::None => Token::new(TokenType::Eof, 0, 0),
        };
        self.curr_val = tok.val;
        self.curr_type = tok.tok_type;
        self.curr_pos = tok.char_pos;
        self.curr_line = tok.line_num;
    }

    /// The kind of the token the lexer's character peek would yield.
    fn peek(&self) -> (t: TokenType)
        requires
            self.wf(),
        ensures
            t == spec_peek_tok(self.inp(), self.lexer.st()).tok_type,
    {
        self.lexer.peek_tok().tok_type
    }

    /// Demand a token kind: take it, or fail with the kind found.
    fn expect(&mut self, token: TokenType) -> (r: Result<(), ParseError>)
        requires
            old(self).wf(),
        ensures
            final(self).wf(),
            final(self).inp() == old(self).inp(),
            final(self).root == old(self).root,
            final(self).diagnostic == old(self).diagnostic,
            final(self).symbol_table == old(self).symbol_table,
            match r {
                Result::Ok(()) => spec_expect(old(self).inp(), old(self).cfg(), token)
                    == Result::<PCfg, ParseError>::Ok(final(self).cfg()),
                Result::Err(e) => spec_expect(old(self).inp(), old(self).cfg(), token)
                    == Result::<PCfg, ParseError>::Err(e) && final(self).cfg() == old(self).cfg(),
            },
    {
        if self.curr_type == token {
            self.get_next_tok();
            Result::Ok(())
        } else {
            Result::Err(
                ParseError::Expected {
                    expected: token,
                    found: self.curr_type,
                    line: self.curr_line,
                    pos: self.curr_pos,
                },
            )
        }
    }

    /// Parse a term: an identifier (an element name where `(` follows),
    /// a number, or the end-of-input leaf.
    fn term(&mut self) -> (r: Result<Ast, ParseError>)
        requires
            old(self).wf(),
        ensures
            final(self).wf(),
            final(self).inp() == old(self).inp(),
            final(self).root == old(self).root,
            final(self).diagnostic == old(self).diagnostic,
            final(self).symbol_table == old(self).symbol_table,
            match r {
                Result::Ok(a) => spec_term(old(self).inp(), old(self).cfg()) == Result::<
                    (SpecAst, PCfg),
                    ParseError,
                >::Ok((a@, final(self).cfg())),
                Result::Err(e) => spec_term(old(self).inp(), old(self).cfg()) == Result::<
                    (SpecAst, PCfg),
                    ParseError,
                >::Err(e) && final(self).cfg() == old(self).cfg(),
            },
    {
        if self.curr_type == TokenType::Ident {
            let m_type = if self.peek() == TokenType::LeftParen {
                AstType::ElementName
            } else {
                AstType::Ident
            };
            let term_ast = Ast::new_from_value(m_type, self.curr_val.as_str());
            self.get_next_tok();
            Result::Ok(term_ast)
        } else if self.curr_type == TokenType::Number {
            let term_ast = Ast::new_from_value(AstType::Number, self.curr_val.as_str());
            self.get_next_tok();
            Result::Ok(term_ast)
        } else if self.curr_type == TokenType::Eof {
            Result::Ok(Ast::new(AstType::Eof))
        } else {
            Result::Err(
                ParseError::UnexpectedTerm {
                    found: self.curr_type,
                    line: self.curr_line,
                    pos: self.curr_pos,
                },
            )
        }
    }

    /// Parse an operation: a term, folded with following `+`/`-` terms.
    fn op(&mut self) -> (r: Result<Ast, ParseError>)
        requires
            old(self).wf(),
        ensures
            final(self).wf(),
            final(self).inp() == old(self).inp(),
            final(self).root == old(self).root,
            final(self).diagnostic == old(self).diagnostic,
            final(self).symbol_table == old(self).symbol_table,
            match r {
                Result::Ok(a) => spec_op(old(self).inp(), old(self).cfg()) == Result::<
                    (SpecAst, PCfg),
                    ParseError,
                >::Ok((a@, final(self).cfg())),
                Result::Err(e) => spec_op(old(self).inp(), old(self).cfg()) == Result::<
                    (SpecAst, PCfg),
                    ParseError,
                >::Err(e),
            },
    {
        let mut op_ast = match self.term() {
            Result::Ok(a) => a,
            Result::Err(e) => {
                return Result::Err(e);
            },
        };
        let ghost c0 = self.cfg();
        let ghost acc0 = op_ast@;
        while self.curr_type == TokenType::Plus || self.curr_type == TokenType::Minus
            invariant
                self.wf(),
                self.inp() == old(self).inp(),
                self.root == old(self).root,
                self.diagnostic == old(self).diagnostic,
                self.symbol_table == old(self).symbol_table,
                spec_op_loop(self.inp(), acc0, c0) == spec_op_loop(
                    self.inp(),
                    op_ast@,
                    self.cfg(),
                ),
                spec_op(old(self).inp(), old(self).cfg()) == spec_op_loop(
                    self.inp(),
                    acc0,
                    c0,
                ),
            decreases
                    self.lexer.input@.len() + 2 - self.lexer.char_count,
                    (if self.curr_type == TokenType::Eof {
                        0int
                    } else {
                        1int
                    }),
        {
            let ghost cp = self.cfg();
            let ghost accp = op_ast@;
            let curr_ast_type = if self.curr_type == TokenType::Plus {
                AstType::Plus
            } else {
                AstType::Minus
            };
            let op_ast_next = op_ast;
            op_ast = Ast::new(curr_ast_type);
            self.get_next_tok();
            op_ast.push_child(op_ast_next);
            let t = match self.term() {
                Result::Ok(t) => t,
                Result::Err(e) => {
                    proof {
                        assert(spec_op_loop(self.inp(), accp, cp) == Result::<
                            (SpecAst, PCfg),
                            ParseError,
                        >::Err(e));
                    }
                    return Result::Err(e);
                },
            };
            op_ast.push_child(t);
            proof {
                lemma_cfg_next_progress(self.inp(), cp);
                lemma_term_progress(self.inp(), cfg_next(self.inp(), cp));
                assert(op_ast@.children =~= seq![accp, t@]);
                assert(op_ast@ == spec_binary(
                    if cp.ty == TokenType::Plus {
                        AstType::Plus
                    } else {
                        AstType::Minus
                    },
                    accp,
                    t@,
                ));
                if cp.st.cc < self.cfg().st.cc && self.cfg().st.cc <= self.inp().len() + 2 {
                    assert(spec_op_loop(self.inp(), accp, cp) == spec_op_loop(
                        self.inp(),
                        op_ast@,
                        self.cfg(),
                    ));
                } else {
                    assert(spec_op_loop(self.inp(), accp, cp) == Result::<
                        (SpecAst, PCfg),
                        ParseError,
                    >::Ok((op_ast@, self.cfg())));
                    assert(self.cfg().ty == TokenType::Eof);
                    assert(spec_op_loop(self.inp(), op_ast@, self.cfg()) == Result::<
                        (SpecAst, PCfg),
                        ParseError,
                    >::Ok((op_ast@, self.cfg())));
                }
            }
        }
        proof {
            assert(spec_op_loop(self.inp(), op_ast@, self.cfg()) == Result::<
                (SpecAst, PCfg),
                ParseError,
            >::Ok((op_ast@, self.cfg())));
        }
        Result::Ok(op_ast)
    }

    /// Parse an expression: an operation, then a comparison, a `:`
    /// type annotation with a value (an assignment declaration), or a
    /// second operand.
    fn expr(&mut self) -> (r: Result<Ast, ParseError>)
        requires
            old(self).wf(),
        ensures
            final(self).wf(),
            final(self).inp() == old(self).inp(),
            final(self).root == old(self).root,
            final(self).diagnostic == old(self).diagnostic,
            final(self).symbol_table == old(self).symbol_table,
            match r {
                Result::Ok(a) => spec_expr(old(self).inp(), old(self).cfg()) == Result::<
                    (SpecAst, PCfg),
                    ParseError,
                >::Ok((a@, final(self).cfg())),
                Result::Err(e) => spec_expr(old(self).inp(), old(self).cfg()) == Result::<
                    (SpecAst, PCfg),
                    ParseError,
                >::Err(e),
            },
    {
        let mut test_ast = match self.op() {
            Result::Ok(a) => a,
            Result::Err(e) => {
                return Result::Err(e);
            },
        };
        let ghost c1 = self.cfg();
        let ghost first0 = test_ast@;
        let curr_ast_type: AstType;
        if self.curr_type == TokenType::Gt {
            curr_ast_type = AstType::Gt;
        } else if self.curr_type == TokenType::Lt {
            curr_ast_type = AstType::Lt;
        } else if self.curr_type == TokenType::GtEquals {
            curr_ast_type = AstType::GtEquals;
        } else if self.curr_type == TokenType::LtEquals {
            curr_ast_type = AstType::LtEquals;
        } else if self.curr_type == TokenType::NotEquals {
            curr_ast_type = AstType::NotEquals;
        } else if self.curr_type == TokenType::EqualsEquals {
            curr_ast_type = AstType::EqualsEquals;
        } else if self.curr_type == TokenType::Colon {
            self.get_next_tok();
            test_ast.set_var_type(self.curr_val.clone());
            self.get_next_tok();
            curr_ast_type = AstType::AssignExpr;
        } else if self.curr_type == TokenType::Equals {
            match self.expect(TokenType::Ident) {
                Result::Ok(()) => {
                    proof {
                        assert(false);
                    }
                    curr_ast_type = AstType::Empty;
                },
                Result::Err(e) => {
                    return Result::Err(e);
                },
            }
        } else {
            curr_ast_type = test_ast.ast_type;
        }
        proof {
            assert(spec_expr(old(self).inp(), old(self).cfg()) == spec_expr_tail(
                old(self).inp(),
                curr_ast_type,
                test_ast@,
                self.cfg(),
            ));
        }
        let test_ast_next = test_ast;
        let mut test_ast2 = Ast::new(curr_ast_type);
        self.get_next_tok();
        test_ast2.push_child(test_ast_next);
        let second = match self.op() {
            Result::Ok(a) => a,
            Result::Err(e) => {
                return Result::Err(e);
            },
        };
        test_ast2.push_child(second);
        proof {
            assert(test_ast2@.children =~= seq![test_ast_next@, second@]);
        }
        Result::Ok(test_ast2)
    }

    /// Parse an attribute list: `(`, key `:` value pairs, `)`, `->`.
    fn attr_list(&mut self) -> (r: Result<Ast, ParseError>)
        requires
            old(self).wf(),
        ensures
            final(self).wf(),
            final(self).inp() == old(self).inp(),
            final(self).root == old(self).root,
            final(self).diagnostic == old(self).diagnostic,
            final(self).symbol_table == old(self).symbol_table,
            match r {
                Result::Ok(a) => spec_attr_list(old(self).inp(), old(self).cfg()) == Result::<
                    (SpecAst, PCfg),
                    ParseError,
                >::Ok((a@, final(self).cfg())),
                Result::Err(e) => spec_attr_list(old(self).inp(), old(self).cfg()) == Result::<
                    (SpecAst, PCfg),
                    ParseError,
                >::Err(e),
            },
    {
        let mut attr_ast = Ast::new(AstType::AttrList);
        match self.expect(TokenType::LeftParen) {
            Result::Ok(()) => {},
            Result::Err(e) => {
                return Result::Err(e);
            },
        }
        let ghost c1 = self.cfg();
        while self.curr_type != TokenType::RightParen
            invariant
                self.wf(),
                self.inp() == old(self).inp(),
                self.root == old(self).root,
                self.diagnostic == old(self).diagnostic,
                self.symbol_table == old(self).symbol_table,
                attr_ast@.ast_type == AstType::AttrList,
                attr_ast@.val == Seq::<char>::empty(),
                attr_ast@.var_type is None,
                spec_attr_loop(self.inp(), Seq::<SpecAst>::empty(), c1) == spec_attr_loop(
                    self.inp(),
                    attr_ast@.children,
                    self.cfg(),
                ),
                spec_expect(old(self).inp(), old(self).cfg(), TokenType::LeftParen) == Result::<
                    PCfg,
                    ParseError,
                >::Ok(c1),
            decreases self.lexer.input@.len() + 2 - self.lexer.char_count,
        {
            let ghost cp = self.cfg();
            let ghost accp = attr_ast@.children;
            let k = match self.term() {
                Result::Ok(a) => a,
                Result::Err(e) => {
                    return Result::Err(e);
                },
            };
            attr_ast.push_child(k);
            match self.expect(TokenType::Colon) {
                Result::Ok(()) => {},
                Result::Err(e) => {
                    return Result::Err(e);
                },
            }
            let v = match self.term() {
                Result::Ok(a) => a,
                Result::Err(e) => {
                    return Result::Err(e);
                },
            };
            attr_ast.push_child(v);
            proof {
                lemma_term_progress(self.inp(), cp);
                assert(spec_term(self.inp(), cp) matches Result::Ok((ka, ca)) && ka == k@);
                let ca = match spec_term(self.inp(), cp) {
                    Result::Ok((ka, ca)) => ca,
                    Result::Err(e) => cp,
                };
                lemma_cfg_next_progress(self.inp(), ca);
                lemma_term_progress(self.inp(), cfg_next(self.inp(), ca));
                if ca.st.cc == cp.st.cc {
                    assert(ca.ty == TokenType::Eof);
                    assert(false);
                }
                assert(attr_ast@.children =~= accp.push(k@).push(v@));
                assert(spec_attr_loop(self.inp(), accp, cp) == spec_attr_loop(
                    self.inp(),
                    attr_ast@.children,
                    self.cfg(),
                ));
            }
        }
        proof {
            assert(spec_attr_loop(self.inp(), attr_ast@.children, self.cfg()) == Result::<
                (Seq<SpecAst>, PCfg),
                ParseError,
            >::Ok((attr_ast@.children, self.cfg())));
        }
        match self.expect(TokenType::RightParen) {
            Result::Ok(()) => {},
            Result::Err(e) => {
                return Result::Err(e);
            },
        }
        match self.expect(TokenType::Arrow) {
            Result::Ok(()) => {},
            Result::Err(e) => {
                return Result::Err(e);
            },
        }
        Result::Ok(attr_ast)
    }

    /// Put a parsed top-level element in front of the template root's
    /// children.
    fn root_prepend(&mut self, el: Ast)
        ensures
            final(self).root@ == (SpecAst {
                children: seq![el@] + old(self).root@.children,
                ..old(self).root@
            }),
            final(self).lexer == old(self).lexer,
            final(self).symbol_table == old(self).symbol_table,
            final(self).diagnostic == old(self).diagnostic,
            final(self).curr_val == old(self).curr_val,
            final(self).curr_type == old(self).curr_type,
            final(self).curr_pos == old(self).curr_pos,
            final(self).curr_line == old(self).curr_line,
    {
        self.root.children.insert(0, el);
        proof {
            lemma_view_children(&self.root);
            lemma_view_children(&old(self).root);
            assert(self.root@.children =~= seq![el@] + old(self).root@.children);
        }
    }

    /// Parse one element, per [`spec_element`]: the node returned is
    /// the element's own tree; the following top-level elements are
    /// prepended to [`Parser::root`], and `let` declarations land in
    /// the symbol table.
    fn element(&mut self) -> (r: Result<Ast, ParseError>)
        requires
            old(self).wf(),
                    ensures
            final(self).wf(),
            final(self).inp() == old(self).inp(),
            final(self).diagnostic == old(self).diagnostic,
            match r {
                Result::Ok(el) => spec_element(old(self).inp(), old(self).cfg()) matches Result::Ok(
                    (sel, pres, cf),
                ) && el@ == sel && final(self).cfg() == cf && final(self).root@ == (SpecAst {
                    children: pres.reverse() + old(self).root@.children,
                    ..old(self).root@
                }),
                Result::Err(e) => spec_element(old(self).inp(), old(self).cfg()) == Result::<
                    (SpecAst, Seq<SpecAst>, PCfg),
                    ParseError,
                >::Err(e),
            },
        decreases 4 * (old(self).lexer.input@.len() + 2 - old(self).lexer.char_count) + (
        if old(self).curr_type == TokenType::Eof {
            0int
        } else {
            3int
        }),
    {
        if self.curr_type == TokenType::Ident {
            if str_eq(self.curr_val.as_str(), "if") {
                self.element_if()
            } else if str_eq(self.curr_val.as_str(), "for") {
                self.element_for()
            } else if str_eq(self.curr_val.as_str(), "let") {
                self.element_let()
            } else {
                self.element_markup()
            }
        } else if self.curr_type == TokenType::LeftBrace {
            self.element_brace()
        } else {
            Result::Ok(Ast::new(AstType::Eof))
        }
    }

    /// Parse an `if` conditional element.
    #[verifier::rlimit(100)]
    #[verifier::spinoff_prover]
    fn element_if(&mut self) -> (r: Result<Ast, ParseError>)
        requires
            old(self).wf(),
            old(self).curr_type == TokenType::Ident,
            old(self).curr_val@ == "if"@,
        ensures
            final(self).wf(),
            final(self).inp() == old(self).inp(),
            final(self).diagnostic == old(self).diagnostic,
            match r {
                Result::Ok(el) => spec_element(old(self).inp(), old(self).cfg()) matches Result::Ok(
                    (sel, pres, cf),
                ) && el@ == sel && final(self).cfg() == cf && final(self).root@ == (SpecAst {
                    children: pres.reverse() + old(self).root@.children,
                    ..old(self).root@
                }),
                Result::Err(e) => spec_element(old(self).inp(), old(self).cfg()) == Result::<
                    (SpecAst, Seq<SpecAst>, PCfg),
                    ParseError,
                >::Err(e),
            },
        decreases 4 * (old(self).lexer.input@.len() + 2 - old(self).lexer.char_count) + 2,
    {
        let ghost inp = self.inp();
        let ghost c0 = self.cfg();
        let ghost root0 = self.root@;
        self.get_next_tok();
        let ghost c1 = self.cfg();
        let mut el_ast = Ast::new(AstType::IfExpr);
        let cond = match self.expr() {
            Result::Ok(a) => a,
            Result::Err(e) => {
                return Result::Err(e);
            },
        };
        el_ast.push_child(cond);
        let ghost c2 = self.cfg();
        match self.expect(TokenType::LeftBrace) {
            Result::Ok(()) => {},
            Result::Err(e) => {
                return Result::Err(e);
            },
        }
        let ghost c3 = self.cfg();
        proof {
            lemma_cfg_next_progress(inp, c0);
            lemma_expr_progress(inp, c1);
            lemma_cfg_next_progress(inp, c2);
            assert(c0.st.cc < c3.st.cc && c3.st.cc <= inp.len() + 2);
        }
        let body = match self.element() {
            Result::Ok(a) => a,
            Result::Err(e) => {
                return Result::Err(e);
            },
        };
        el_ast.push_child(body);
        let ghost c4 = self.cfg();
        let ghost pres_b = (spec_element(inp, c3)->Ok_0).1;
        match self.expect(TokenType::RightBrace) {
            Result::Ok(()) => {},
            Result::Err(e) => {
                return Result::Err(e);
            },
        }
        let ghost c5 = self.cfg();
        proof {
            lemma_element_progress(inp, c3);
            lemma_cfg_next_progress(inp, c4);
            assert(c0.st.cc < c5.st.cc && c5.st.cc <= inp.len() + 2);
        }
        let next = match self.element() {
            Result::Ok(a) => a,
            Result::Err(e) => {
                return Result::Err(e);
            },
        };
        let ghost pres_n = (spec_element(inp, c5)->Ok_0).1;
        self.root_prepend(next);
        proof {
            assert(el_ast@.children =~= seq![cond@, body@]);
            assert(self.root@.children =~= (pres_b + pres_n + seq![next@]).reverse()
                + root0.children);
        }
        Result::Ok(el_ast)
    }

    /// Parse a `for` loop element.
    #[verifier::rlimit(100)]
    #[verifier::spinoff_prover]
    fn element_for(&mut self) -> (r: Result<Ast, ParseError>)
        requires
            old(self).wf(),
            old(self).curr_type == TokenType::Ident,
            old(self).curr_val@ == "for"@,
            old(self).curr_val@ != "if"@,
        ensures
            final(self).wf(),
            final(self).inp() == old(self).inp(),
            final(self).diagnostic == old(self).diagnostic,
            match r {
                Result::Ok(el) => spec_element(old(self).inp(), old(self).cfg()) matches Result::Ok(
                    (sel, pres, cf),
                ) && el@ == sel && final(self).cfg() == cf && final(self).root@ == (SpecAst {
                    children: pres.reverse() + old(self).root@.children,
                    ..old(self).root@
                }),
                Result::Err(e) => spec_element(old(self).inp(), old(self).cfg()) == Result::<
                    (SpecAst, Seq<SpecAst>, PCfg),
                    ParseError,
                >::Err(e),
            },
        decreases 4 * (old(self).lexer.input@.len() + 2 - old(self).lexer.char_count) + 2,
    {
        let ghost inp = self.inp();
        let ghost c0 = self.cfg();
        let ghost root0 = self.root@;
        self.get_next_tok();
        let ghost c1 = self.cfg();
        let mut el_ast = Ast::new(AstType::ForExpr);
        let t1 = match self.term() {
            Result::Ok(a) => a,
            Result::Err(e) => {
                return Result::Err(e);
            },
        };
        el_ast.push_child(t1);
        if !str_eq(self.curr_val.as_str(), "in") {
            return Result::Err(
                ParseError::ExpectedIn { line: self.curr_line, pos: self.curr_pos },
            );
        }
        let ghost c2 = self.cfg();
        self.get_next_tok();
        let ghost c3 = self.cfg();
        let t2 = match self.term() {
            Result::Ok(a) => a,
            Result::Err(e) => {
                return Result::Err(e);
            },
        };
        el_ast.push_child(t2);
        let ghost c4 = self.cfg();
        proof {
            reveal_strlit("in");
            lemma_cfg_next_progress(inp, c0);
            lemma_term_progress(inp, c1);
            lemma_cfg_next_progress(inp, c2);
            lemma_term_progress(inp, c3);
            assert(c0.st.cc < c4.st.cc && c4.st.cc <= inp.len() + 2);
        }
        let body = match self.element() {
            Result::Ok(a) => a,
            Result::Err(e) => {
                return Result::Err(e);
            },
        };
        el_ast.push_child(body);
        proof {
            assert(el_ast@.children =~= seq![t1@, t2@, body@]);
        }
        Result::Ok(el_ast)
    }

    /// Parse a `let` declaration element.
    #[verifier::rlimit(100)]
    #[verifier::spinoff_prover]
    fn element_let(&mut self) -> (r: Result<Ast, ParseError>)
        requires
            old(self).wf(),
            old(self).curr_type == TokenType::Ident,
            old(self).curr_val@ == "let"@,
            old(self).curr_val@ != "if"@,
            old(self).curr_val@ != "for"@,
        ensures
            final(self).wf(),
            final(self).inp() == old(self).inp(),
            final(self).diagnostic == old(self).diagnostic,
            match r {
                Result::Ok(el) => spec_element(old(self).inp(), old(self).cfg()) matches Result::Ok(
                    (sel, pres, cf),
                ) && el@ == sel && final(self).cfg() == cf && final(self).root@ == (SpecAst {
                    children: pres.reverse() + old(self).root@.children,
                    ..old(self).root@
                }),
                Result::Err(e) => spec_element(old(self).inp(), old(self).cfg()) == Result::<
                    (SpecAst, Seq<SpecAst>, PCfg),
                    ParseError,
                >::Err(e),
            },
        decreases 4 * (old(self).lexer.input@.len() + 2 - old(self).lexer.char_count) + 2,
    {
        let ghost inp = self.inp();
        let ghost c0 = self.cfg();
        let ghost root0 = self.root@;
        self.get_next_tok();
        let ghost c1 = self.cfg();
        let mut el_ast = Ast::new(AstType::Element);
        let assign = match self.expr() {
            Result::Ok(a) => a,
            Result::Err(e) => {
                return Result::Err(e);
            },
        };
        let ghost c2 = self.cfg();
        match self.symbol_table.insert(&assign) {
            Result::Ok(()) => {},
            Result::Err(se) => {
                return Result::Err(
                    ParseError::Symbol {
                        err: se,
                        line: self.curr_line,
                        pos: self.curr_pos,
                    },
                );
            },
        }
        let ghost c2p = self.cfg();
        el_ast.push_child(assign);
        proof {
            lemma_cfg_next_progress(inp, c0);
            lemma_expr_progress(inp, c1);
        }
        let ghost guard_ok = c0.st.cc < c2p.st.cc && c2p.st.cc <= inp.len() + 2;
        proof {
            if !guard_ok {
                assert(c2p.ty == TokenType::Eof);
            }
        }
        let next = match self.element() {
            Result::Ok(a) => a,
            Result::Err(e) => {
                proof {
                    if !guard_ok {
                        assert(false);
                    }
                }
                return Result::Err(e);
            },
        };
        let ghost pres = if guard_ok {
            (spec_element(inp, c2p)->Ok_0).1
        } else {
            Seq::<SpecAst>::empty()
        };
        self.root_prepend(next);
        proof {
            assert(el_ast@.children =~= seq![assign@]);
            if !guard_ok {
                assert(next@ == SpecAst::leaf(AstType::Eof));
            }
            assert(self.root@.children =~= (pres + seq![next@]).reverse()
                + root0.children);
        }
        Result::Ok(el_ast)
    }

    /// Parse a markup element: name, optional attribute list, content.
    #[verifier::rlimit(100)]
    #[verifier::spinoff_prover]
    fn element_markup(&mut self) -> (r: Result<Ast, ParseError>)
        requires
            old(self).wf(),
            old(self).curr_type == TokenType::Ident,
            old(self).curr_val@ != "if"@,
            old(self).curr_val@ != "for"@,
            old(self).curr_val@ != "let"@,
        ensures
            final(self).wf(),
            final(self).inp() == old(self).inp(),
            final(self).diagnostic == old(self).diagnostic,
            match r {
                Result::Ok(el) => spec_element(old(self).inp(), old(self).cfg()) matches Result::Ok(
                    (sel, pres, cf),
                ) && el@ == sel && final(self).cfg() == cf && final(self).root@ == (SpecAst {
                    children: pres.reverse() + old(self).root@.children,
                    ..old(self).root@
                }),
                Result::Err(e) => spec_element(old(self).inp(), old(self).cfg()) == Result::<
                    (SpecAst, Seq<SpecAst>, PCfg),
                    ParseError,
                >::Err(e),
            },
        decreases 4 * (old(self).lexer.input@.len() + 2 - old(self).lexer.char_count) + 2,
    {
        let ghost inp = self.inp();
        let ghost c0 = self.cfg();
        let ghost root0 = self.root@;
        let mut el_ast = Ast::new(AstType::Element);
        let t1 = match self.term() {
            Result::Ok(a) => a,
            Result::Err(e) => {
                return Result::Err(e);
            },
        };
        let ghost t1v = t1@;
        el_ast.push_child(t1);
        proof {
            assert(el_ast@.children =~= seq![t1v]);
        }
        let ghost cx0 = self.cfg();
        if self.curr_type == TokenType::LeftParen {
            let attrs = match self.attr_list() {
                Result::Ok(a) => a,
                Result::Err(e) => {
                    return Result::Err(e);
                },
            };
            let ghost attrsv = attrs@;
            el_ast.push_child(attrs);
            proof {
                assert(el_ast@.children =~= seq![t1v, attrsv]);
            }
        }
        let ghost kids = el_ast@.children;
        let ghost cx = self.cfg();
        proof {
            lemma_cfg_next_progress(inp, c0);
            lemma_term_progress(inp, c0);
            if cx0.ty == TokenType::LeftParen {
                lemma_attr_list_progress(inp, cx0);
            }
            assert(spec_element(inp, c0) == spec_markup_tail(inp, c0, kids, cx));
        }
        self.markup_tail(el_ast, Ghost(c0))
    }

    /// The second half of a markup element parse, per
    /// [`spec_markup_tail`]: content or nested element, then the
    /// following top-level element, prepended to the root.
    #[verifier::rlimit(100)]
    #[verifier::spinoff_prover]
    fn markup_tail(&mut self, el_ast: Ast, Ghost(c0): Ghost<PCfg>) -> (r: Result<Ast, ParseError>)
        requires
            old(self).wf(),
            c0.st.cc <= old(self).lexer.st().cc,
            old(self).lexer.st().cc == c0.st.cc ==> old(self).curr_type == TokenType::Eof && old(
                self,
            ).lexer.st() == c0.st && spec_peek_tok(old(self).inp(), c0.st).tok_type
                == TokenType::Eof,
            el_ast@.ast_type == AstType::Element,
            el_ast@.val == Seq::<char>::empty(),
            el_ast@.var_type is None,
        ensures
            final(self).wf(),
            final(self).inp() == old(self).inp(),
            final(self).diagnostic == old(self).diagnostic,
            match r {
                Result::Ok(el) => spec_markup_tail(
                    old(self).inp(),
                    c0,
                    el_ast@.children,
                    old(self).cfg(),
                ) matches Result::Ok((sel, pres, cf)) && el@ == sel && final(self).cfg() == cf
                    && final(self).root@ == (SpecAst {
                    children: pres.reverse() + old(self).root@.children,
                    ..old(self).root@
                }),
                Result::Err(e) => spec_markup_tail(
                    old(self).inp(),
                    c0,
                    el_ast@.children,
                    old(self).cfg(),
                ) == Result::<(SpecAst, Seq<SpecAst>, PCfg), ParseError>::Err(e),
            },
        decreases 4 * (old(self).lexer.input@.len() + 2 - c0.st.cc) + 1,
    {
        let ghost inp = self.inp();
        let ghost cx = self.cfg();
        let ghost kids = el_ast@.children;
        let ghost root0 = self.root@;
        let mut el_ast = el_ast;
        let ghost pres3: Seq<SpecAst>;
        if self.peek() == TokenType::LeftParen {
            proof {
                assert(c0.st.cc < cx.st.cc && cx.st.cc <= inp.len() + 2);
            }
            let e3 = match self.element() {
                Result::Ok(a) => a,
                Result::Err(e) => {
                    return Result::Err(e);
                },
            };
            proof {
                pres3 = (spec_element(inp, cx)->Ok_0).1;
            }
            el_ast.push_child(e3);
        } else {
            let e3 = match self.term() {
                Result::Ok(a) => a,
                Result::Err(e) => {
                    return Result::Err(e);
                },
            };
            proof {
                pres3 = Seq::<SpecAst>::empty();
            }
            el_ast.push_child(e3);
        }
        let ghost cy = self.cfg();
        proof {
            if spec_peek_tok(inp, cx.st).tok_type == TokenType::LeftParen {
                lemma_element_progress(inp, cx);
            } else {
                lemma_term_progress(inp, cx);
            }
        }
        let ghost guard_ok = c0.st.cc < cy.st.cc && cy.st.cc <= inp.len() + 2;
        proof {
            if !guard_ok {
                assert(cy.ty == TokenType::Eof);
            }
        }
        let next = match self.element() {
            Result::Ok(a) => a,
            Result::Err(e) => {
                proof {
                    if !guard_ok {
                        assert(false);
                    }
                }
                return Result::Err(e);
            },
        };
        let ghost pres_n = if guard_ok {
            (spec_element(inp, cy)->Ok_0).1
        } else {
            Seq::<SpecAst>::empty()
        };
        self.root_prepend(next);
        proof {
            if !guard_ok {
                assert(next@ == SpecAst::leaf(AstType::Eof));
            }
            assert(self.root@.children =~= (pres3 + pres_n + seq![next@]).reverse()
                + root0.children);
        }
        Result::Ok(el_ast)
    }

    /// Parse a braced element.
    #[verifier::rlimit(100)]
    #[verifier::spinoff_prover]
    fn element_brace(&mut self) -> (r: Result<Ast, ParseError>)
        requires
            old(self).wf(),
            old(self).curr_type == TokenType::LeftBrace,
        ensures
            final(self).wf(),
            final(self).inp() == old(self).inp(),
            final(self).diagnostic == old(self).diagnostic,
            match r {
                Result::Ok(el) => spec_element(old(self).inp(), old(self).cfg()) matches Result::Ok(
                    (sel, pres, cf),
                ) && el@ == sel && final(self).cfg() == cf && final(self).root@ == (SpecAst {
                    children: pres.reverse() + old(self).root@.children,
                    ..old(self).root@
                }),
                Result::Err(e) => spec_element(old(self).inp(), old(self).cfg()) == Result::<
                    (SpecAst, Seq<SpecAst>, PCfg),
                    ParseError,
                >::Err(e),
            },
        decreases 4 * (old(self).lexer.input@.len() + 2 - old(self).lexer.char_count) + 2,
    {
        let ghost inp = self.inp();
        let ghost c0 = self.cfg();
        let ghost root0 = self.root@;
        self.get_next_tok();
        let ghost c1 = self.cfg();
        let mut el_ast = Ast::new(AstType::Element);
        proof {
            lemma_cfg_next_progress(inp, c0);
        }
        let ghost guard_ok = c0.st.cc < c1.st.cc && c1.st.cc <= inp.len() + 2;
        proof {
            if !guard_ok {
                assert(c1.ty == TokenType::Eof);
            }
        }
        let inner = match self.element() {
            Result::Ok(a) => a,
            Result::Err(e) => {
                proof {
                    if !guard_ok {
                        assert(false);
                    }
                }
                return Result::Err(e);
            },
        };
        let ghost pres = if guard_ok {
            (spec_element(inp, c1)->Ok_0).1
        } else {
            Seq::<SpecAst>::empty()
        };
        el_ast.push_child(inner);
        proof {
            if !guard_ok {
                assert(inner@ == SpecAst::leaf(AstType::Eof));
            }
        }
        match self.expect(TokenType::RightBrace) {
            Result::Ok(()) => {},
            Result::Err(e) => {
                return Result::Err(e);
            },
        }
        proof {
            assert(el_ast@.children =~= seq![inner@]);
        }
        Result::Ok(el_ast)
    }

    /// Record a parse error in the diagnostic collector, rendered per
    /// [`spec_render_parse_error`].
    fn record_parse_error(&mut self, e: ParseError)
        ensures
            final(self).diagnostic.spec_errors() == old(self).diagnostic.spec_errors().push(
                spec_render_parse_error(e),
            ),
            final(self).diagnostic.spec_warnings() == old(self).diagnostic.spec_warnings(),
            final(self).lexer == old(self).lexer,
            final(self).symbol_table == old(self).symbol_table,
            final(self).root == old(self).root,
            final(self).curr_val == old(self).curr_val,
            final(self).curr_type == old(self).curr_type,
            final(self).curr_pos == old(self).curr_pos,
            final(self).curr_line == old(self).curr_line,
    {
        match e {
            ParseError::NothingToParse => {
                self.diagnostic.new_err("tank: End of input reached, nothing to parse!");
            },
            ParseError::Expected { expected, found, line, pos } => {
                let mut m = String::new();
                m.append("Expected ");
                m.append(token_type_name(expected));
                m.append(", found ");
                m.append(token_type_name(found));
                let tok = Token::new(found, pos, line);
                self.diagnostic.parse_err(&m, &tok);
                proof {
                    assert(m@ =~= "Expected "@ + spec_token_type_name(expected) + ", found "@
                        + spec_token_type_name(found));
                }
            },
            ParseError::UnexpectedTerm { found, line, pos } => {
                let mut m = String::new();
                m.append("Unexpected ");
                m.append(token_type_name(found));
                m.append(" in term");
                let tok = Token::new(found, pos, line);
                self.diagnostic.parse_err(&m, &tok);
                proof {
                    assert(m@ =~= "Unexpected "@ + spec_token_type_name(found) + " in term"@);
                }
            },
            ParseError::ExpectedIn { line, pos } => {
                let m = "Expected 'in' at for loop".to_owned();
                let tok = Token::new(TokenType::Eof, pos, line);
                self.diagnostic.parse_err(&m, &tok);
            },
            ParseError::Symbol { err, line, pos } => {
                let m = match err {
                    SymbolError::InvalidAst => "Invalid ast type found in symbol table".to_owned(),
                    SymbolError::NotEnoughChildren => "Invalid ast passed to symbol table".to_owned(),
                    SymbolError::MissingType => "Variable declared without a type".to_owned(),
                    SymbolError::Redeclared => "Redeclared symbol found".to_owned(),
                };
                let tok = Token::new(TokenType::Eof, pos, line);
                self.diagnostic.parse_err(&m, &tok);
            },
        }
    }

    /// Run the parse: build the first element and every following
    /// top-level element under [`Parser::root`], filling the symbol
    /// table.  An error is recorded in the diagnostics and returned;
    /// there is no recovery.
    pub fn parse(&mut self) -> (r: Result<(), ParseError>)
        requires
            old(self).wf(),
        ensures
            final(self).wf(),
            final(self).inp() == old(self).inp(),
            match r {
                Result::Ok(()) => spec_parse_at(old(self).inp(), old(self).cfg()) matches Result::Ok(
                    (el, pres, cf),
                ) && final(self).cfg() == cf && final(self).root@ == (SpecAst {
                    children: seq![el] + pres.reverse() + old(self).root@.children,
                    ..old(self).root@
                }) && final(self).diagnostic == old(self).diagnostic,
                Result::Err(e) => spec_parse_at(old(self).inp(), old(self).cfg()) == Result::<
                    (SpecAst, Seq<SpecAst>, PCfg),
                    ParseError,
                >::Err(e) && final(self).diagnostic.spec_errors()
                    == old(self).diagnostic.spec_errors().push(spec_render_parse_error(e))
                    && final(self).diagnostic.spec_warnings()
                    == old(self).diagnostic.spec_warnings(),
            },
    {
        if self.curr_type == TokenType::Eof {
            let e = ParseError::NothingToParse;
            self.record_parse_error(e);
            return Result::Err(e);
        }
        let ghost root0 = self.root@;
        let el = match self.element() {
            Result::Ok(a) => a,
            Result::Err(e) => {
                self.record_parse_error(e);
                return Result::Err(e);
            },
        };
        self.root_prepend(el);
        proof {
            let pres = (spec_element(old(self).inp(), old(self).cfg())->Ok_0).1;
            assert(self.root@.children =~= seq![el@] + pres.reverse() + root0.children);
        }
        Result::Ok(())
    }
}

} // verus!
