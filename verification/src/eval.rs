//! The evaluator: resolves comparison expressions against the symbol
//! table to booleans.
//!
//! The left operand must be an identifier bound in the table; its
//! textual value is read as a signed integer.  The right operand's
//! literal text is read as a signed integer directly.  A missing
//! binding or a non-numeric operand is an error, never a `false`.

use vstd::prelude::*;
use vstd::string::StrSliceExecFns;
use crate::ast::{lemma_view_children, Ast, SpecAst};
use crate::strutil::{is_digit10, spec_is_digit10};
use crate::symbol_table::{lookup, SpecSymbol, SymbolTable};

verus! {

/// Why an expression could not be evaluated.
#[derive(Debug, PartialEq, Eq, Structural, Clone, Copy)]
pub enum EvalError {
    /// The expression node has fewer than two operand children.
    NotEnoughChildren,
    /// The left operand names no binding in the symbol table.
    UndefinedVariable,
    /// An operand's text is not a signed decimal integer.
    NotAnInteger,
}

/// The value of a run of decimal digits, most significant first.
pub open spec fn digits_val(s: Seq<char>) -> int
    decreases s.len(),
{
    if s.len() == 0 {
        0
    } else {
        digits_val(s.drop_last()) * 10 + (s.last() as u32 - 48)
    }
}

/// Whether every character is a decimal digit.
pub open spec fn all_digits(s: Seq<char>) -> bool {
    forall|i: int| 0 <= i < s.len() ==> spec_is_digit10(#[trigger] s[i])
}

/// What reading a signed decimal integer from text yields, as
/// `str::parse::<i64>` decides it: an optional sign, then one or more
/// digits, the value within the type's range; anything else is no
/// integer.
pub open spec fn spec_parse_i64(s: Seq<char>) -> Option<i64> {
    let neg = s.len() > 0 && s[0] == '-';
    let ds = if s.len() > 0 && (s[0] == '-' || s[0] == '+') {
        s.drop_first()
    } else {
        s
    };
    if ds.len() == 0 || !all_digits(ds) {
        Option::None
    } else {
        let v = if neg {
            -digits_val(ds)
        } else {
            digits_val(ds)
        };
        if i64::MIN <= v <= i64::MAX {
            Option::Some(v as i64)
        } else {
            Option::None
        }
    }
}

/// A digit run's value does not shrink when digits are appended.
proof fn lemma_digits_val_prefix(s: Seq<char>, j: int)
    requires
        0 <= j <= s.len(),
        all_digits(s),
    ensures
        0 <= digits_val(s.take(j)) <= digits_val(s),
    decreases s.len() - j,
{
    if j == s.len() {
        assert(s.take(j) =~= s);
        lemma_digits_val_nonneg(s);
    } else {
        lemma_digits_val_prefix(s, j + 1);
        lemma_digits_val_nonneg(s.take(j));
        assert(s.take(j + 1).drop_last() =~= s.take(j));
        assert(digits_val(s.take(j + 1)) == digits_val(s.take(j)) * 10 + (s[j] as u32 - 48));
    }
}

/// A digit run's value is never negative.
proof fn lemma_digits_val_nonneg(s: Seq<char>)
    requires
        all_digits(s),
    ensures
        digits_val(s) >= 0,
    decreases s.len(),
{
    if s.len() > 0 {
        lemma_digits_val_nonneg(s.drop_last());
        assert(all_digits(s.drop_last()));
    }
}

/// Read a signed decimal integer, per [`spec_parse_i64`].
pub fn parse_i64(s: &str) -> (r: Result<i64, EvalError>)
    ensures
        match r {
            Result::Ok(v) => spec_parse_i64(s@) == Option::Some(v),
            Result::Err(e) => spec_parse_i64(s@) is None && e == EvalError::NotAnInteger,
        },
{
    let n = s.unicode_len();
    let mut i: usize = 0;
    let mut neg = false;
    if n > 0 {
        let c0 = s.get_char(0);
        if c0 == '-' {
            neg = true;
            i = 1;
        } else if c0 == '+' {
            i = 1;
        }
    }
    let ghost ds = if s@.len() > 0 && (s@[0] == '-' || s@[0] == '+') {
        s@.drop_first()
    } else {
        s@
    };
    if i >= n {
        return Result::Err(EvalError::NotAnInteger);
    }
    let limit: u64 = if neg {
        9223372036854775808
    } else {
        9223372036854775807
    };
    let mut mag: u64 = 0;
    let mut j: usize = i;
    while j < n
        invariant
            n == s@.len(),
            i <= j <= n,
            i <= 1,
            i < n,
            ds == s@.subrange(i as int, n as int),
            neg == (s@.len() > 0 && s@[0] == '-'),
            (i == 1) == (s@.len() > 0 && (s@[0] == '-' || s@[0] == '+')),
            limit == (if neg {
                9223372036854775808u64
            } else {
                9223372036854775807u64
            }),
            mag == digits_val(ds.take(j - i)),
            mag <= limit,
            all_digits(ds.take(j - i)),
        decreases n - j,
    {
        let c = s.get_char(j);
        if !is_digit10(c) {
            proof {
                assert(ds[j - i] == s@[j as int]);
                assert(!all_digits(ds));
            }
            return Result::Err(EvalError::NotAnInteger);
        }
        let d: u64 = (c as u32 - 48) as u64;
        if mag > (limit - d) / 10 {
            proof {
                assert(ds[j - i] == s@[j as int]);
                assert(ds.take(j + 1 - i).drop_last() =~= ds.take(j - i));
                assert(ds.take(j + 1 - i).last() == s@[j as int]);
                assert(digits_val(ds.take(j + 1 - i)) == mag * 10 + d);
                assert(mag * 10 + d > limit) by (nonlinear_arith)
                    requires
                        mag > (limit - d) / 10,
                        d <= 9,
                        limit >= d,
                ;
                assert(digits_val(ds.take(j + 1 - i)) > limit);
                assert(ds.len() > 0);
                let ghost spec_ds = if s@.len() > 0 && (s@[0] == '-' || s@[0] == '+') {
                    s@.drop_first()
                } else {
                    s@
                };
                assert(spec_ds =~= ds);
                if all_digits(ds) {
                    lemma_digits_val_prefix(ds, j + 1 - i);
                    assert(digits_val(ds) > limit);
                    let ghost v = if neg {
                        -digits_val(ds)
                    } else {
                        digits_val(ds)
                    };
                    assert(!(i64::MIN <= v <= i64::MAX));
                    assert(spec_parse_i64(s@) == Option::<i64>::None);
                } else {
                    assert(spec_parse_i64(s@) == Option::<i64>::None);
                }
                assert(spec_parse_i64(s@) is None);
            }
            return Result::Err(EvalError::NotAnInteger);
        }
        mag = mag * 10 + d;
        j = j + 1;
        proof {
            assert(ds.take(j - i).drop_last() =~= ds.take(j - 1 - i));
            assert(ds.take(j - i).last() == s@[j - 1]);
            assert(mag == digits_val(ds.take(j - i)));
        }
    }
    proof {
        assert(ds.take(n - i) =~= ds);
    }
    if neg {
        if mag == 9223372036854775808 {
            Result::Ok(i64::MIN)
        } else {
            Result::Ok(-(mag as i64))
        }
    } else {
        Result::Ok(mag as i64)
    }
}

/// What resolving a comparison's operands yields: the left child's name
/// looked up in the table and read as an integer, and the right child's
/// text read as an integer directly.
pub open spec fn spec_operands(table: Seq<SpecSymbol>, a: SpecAst) -> Result<(i64, i64), EvalError> {
    if a.children.len() < 2 {
        Result::Err(EvalError::NotEnoughChildren)
    } else {
        match lookup(table, a.children[0].val) {
            Option::None => Result::Err(EvalError::UndefinedVariable),
            Option::Some(sym) => match spec_parse_i64(sym.val) {
                Option::None => Result::Err(EvalError::NotAnInteger),
                Option::Some(v1) => match spec_parse_i64(a.children[1].val) {
                    Option::None => Result::Err(EvalError::NotAnInteger),
                    Option::Some(v2) => Result::Ok((v1, v2)),
                },
            },
        }
    }
}

/// The evaluator of comparison expressions, reading the symbol table.
pub struct Evaluator {
    /// The table bindings are resolved against.
    pub symbol_table: SymbolTable,
}

impl Evaluator {
    /// An evaluator over the given table.
    pub fn new(m_symbol_table: SymbolTable) -> (e: Evaluator)
        ensures
            e.symbol_table == m_symbol_table,
    {
        Evaluator { symbol_table: m_symbol_table }
    }

    /// Resolve both operands of a two-child comparison node, per
    /// [`spec_operands`].
    fn unwrap_ast(&self, ast: &Ast) -> (r: Result<(i64, i64), EvalError>)
        ensures
            match r {
                Result::Ok(p) => spec_operands(self.symbol_table@, ast@) == Result::<
                    (i64, i64),
                    EvalError,
                >::Ok(p),
                Result::Err(e) => spec_operands(self.symbol_table@, ast@) == Result::<
                    (i64, i64),
                    EvalError,
                >::Err(e),
            },
    {
        proof {
            lemma_view_children(ast);
        }
        if ast.children.len() < 2 {
            return Result::Err(EvalError::NotEnoughChildren);
        }
        let first_term = &ast.children[0];
        let second_term = &ast.children[1];
        let symbol = match self.symbol_table.get(first_term.val.as_str()) {
            Option::Some(sym) => sym,
            Option::None => {
                return Result::Err(EvalError::UndefinedVariable);
            },
        };
        let first_val = match parse_i64(symbol.val.as_str()) {
            Result::Ok(v) => v,
            Result::Err(e) => {
                return Result::Err(e);
            },
        };
        let second_val = match parse_i64(second_term.val.as_str()) {
            Result::Ok(v) => v,
            Result::Err(e) => {
                return Result::Err(e);
            },
        };
        Result::Ok((first_val, second_val))
    }

    /// Whether the left operand is strictly greater than the right.
    pub fn gt(&self, ast: &Ast) -> (r: Result<bool, EvalError>)
        ensures
            match r {
                Result::Ok(b) => spec_operands(self.symbol_table@, ast@) matches Result::Ok(
                    (x, y),
                ) && b == (x > y),
                Result::Err(e) => spec_operands(self.symbol_table@, ast@) == Result::<
                    (i64, i64),
                    EvalError,
                >::Err(e),
            },
    {
        match self.unwrap_ast(ast) {
            Result::Ok(val_pair) => Result::Ok(val_pair.0 > val_pair.1),
            Result::Err(e) => Result::Err(e),
        }
    }

    /// Whether the left operand is greater than or equal to the right.
    pub fn gt_equals(&self, ast: &Ast) -> (r: Result<bool, EvalError>)
        ensures
            match r {
                Result::Ok(b) => spec_operands(self.symbol_table@, ast@) matches Result::Ok(
                    (x, y),
                ) && b == (x >= y),
                Result::Err(e) => spec_operands(self.symbol_table@, ast@) == Result::<
                    (i64, i64),
                    EvalError,
                >::Err(e),
            },
    {
        match self.unwrap_ast(ast) {
            Result::Ok(val_pair) => Result::Ok(val_pair.0 >= val_pair.1),
            Result::Err(e) => Result::Err(e),
        }
    }

    /// Whether the left operand is strictly less than the right.
    pub fn lt(&self, ast: &Ast) -> (r: Result<bool, EvalError>)
        ensures
            match r {
                Result::Ok(b) => spec_operands(self.symbol_table@, ast@) matches Result::Ok(
                    (x, y),
                ) && b == (x < y),
                Result::Err(e) => spec_operands(self.symbol_table@, ast@) == Result::<
                    (i64, i64),
                    EvalError,
                >::Err(e),
            },
    {
        match self.unwrap_ast(ast) {
            Result::Ok(val_pair) => Result::Ok(val_pair.0 < val_pair.1),
            Result::Err(e) => Result::Err(e),
        }
    }

    /// Whether the left operand is less than or equal to the right.
    pub fn lt_equals(&self, ast: &Ast) -> (r: Result<bool, EvalError>)
        ensures
            match r {
                Result::Ok(b) => spec_operands(self.symbol_table@, ast@) matches Result::Ok(
                    (x, y),
                ) && b == (x <= y),
                Result::Err(e) => spec_operands(self.symbol_table@, ast@) == Result::<
                    (i64, i64),
                    EvalError,
                >::Err(e),
            },
    {
        match self.unwrap_ast(ast) {
            Result::Ok(val_pair) => Result::Ok(val_pair.0 <= val_pair.1),
            Result::Err(e) => Result::Err(e),
        }
    }

    /// Whether the operands are equal.
    pub fn equals_equals(&self, ast: &Ast) -> (r: Result<bool, EvalError>)
        ensures
            match r {
                Result::Ok(b) => spec_operands(self.symbol_table@, ast@) matches Result::Ok(
                    (x, y),
                ) && b == (x == y),
                Result::Err(e) => spec_operands(self.symbol_table@, ast@) == Result::<
                    (i64, i64),
                    EvalError,
                >::Err(e),
            },
    {
        match self.unwrap_ast(ast) {
            Result::Ok(val_pair) => Result::Ok(val_pair.0 == val_pair.1),
            Result::Err(e) => Result::Err(e),
        }
    }

    /// Whether the operands differ.
    pub fn not_equals(&self, ast: &Ast) -> (r: Result<bool, EvalError>)
        ensures
            match r {
                Result::Ok(b) => spec_operands(self.symbol_table@, ast@) matches Result::Ok(
                    (x, y),
                ) && b == (x != y),
                Result::Err(e) => spec_operands(self.symbol_table@, ast@) == Result::<
                    (i64, i64),
                    EvalError,
                >::Err(e),
            },
    {
        match self.unwrap_ast(ast) {
            Result::Ok(val_pair) => Result::Ok(val_pair.0 != val_pair.1),
            Result::Err(e) => Result::Err(e),
        }
    }
}

} // verus!
