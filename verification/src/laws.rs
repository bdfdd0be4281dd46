//! The laws the compiler obeys, stated over the specification
//! functions the executable contracts are written against.

use vstd::prelude::*;
use crate::ast::{AstType, SpecAst};
use crate::eval::spec_operands;
use crate::gen::{
    spec_attr_pairs, spec_expr_or_element, spec_gen_attr_list, spec_gen_element, spec_gen_for,
    spec_gen_if, GenError, SpecScope,
};
use crate::parser::{spec_init_cfg, spec_parse_at};
use crate::symbol_table::{
    lemma_lookup_append, lookup, spec_insert, SpecSymbol, SymbolError,
};

verus! {

/// A well-formed single markup element `name() -> content` emits
/// exactly `<name>`, a newline, the content indented by one unit, a
/// newline, and the closing tag `</name>` with a newline.
pub proof fn law_single_element_output(
    table: Seq<SpecSymbol>,
    name: Seq<char>,
    content: Seq<char>,
)
    ensures
        spec_gen_element(
            table,
            SpecAst {
                ast_type: AstType::Element,
                val: Seq::<char>::empty(),
                var_type: Option::None,
                children: seq![
                    SpecAst::leaf_val(AstType::ElementName, name),
                    SpecAst::leaf(AstType::AttrList),
                    SpecAst::leaf_val(AstType::Ident, content),
                ],
            },
            Seq::<SpecScope>::empty(),
        ) == Result::<(Seq<char>, Seq<SpecScope>), GenError>::Ok(
            (
                seq!['<'] + name + seq!['>', '\n', ' ', ' '] + content + seq!['\n', '<', '/'] + name
                    + seq!['>', '\n'],
                Seq::<SpecScope>::empty(),
            ),
        ),
{
    let a = SpecAst {
        ast_type: AstType::Element,
        val: Seq::<char>::empty(),
        var_type: Option::None,
        children: seq![
            SpecAst::leaf_val(AstType::ElementName, name),
            SpecAst::leaf(AstType::AttrList),
            SpecAst::leaf_val(AstType::Ident, content),
        ],
    };
    let st0 = Seq::<SpecScope>::empty();
    let r = spec_gen_element(table, a, st0);
    assert(crate::emit::spec_spaces(0) =~= Seq::<char>::empty());
    assert(crate::emit::spec_spaces(1) =~= seq![' ']);
    assert(crate::emit::spec_spaces(2) =~= seq![' ', ' ']);
    let one = SpecScope { indentation: 0, val: name };
    assert(st0.push(one).last() == one);
    assert(st0.push(one).drop_last() =~= st0);
    assert(crate::gen::spec_closing_all(st0) =~= Seq::<char>::empty());
    assert(crate::gen::spec_closing_all(st0.push(one)) =~= seq!['<', '/'] + name + seq![
        '>',
        '\n',
    ]);
    assert(r is Ok);
    assert((r->Ok_0).0 =~= seq!['<'] + name + seq!['>', '\n', ' ', ' '] + content + seq![
        '\n',
        '<',
        '/',
    ] + name + seq!['>', '\n']);
}

/// Nested elements close in strict reverse order of opening:
/// `n1() -> n2() -> content` yields `<n1>`, `<n2>` indented one unit,
/// the content indented two, then `</n2>` and `</n1>` back out.
pub proof fn law_nested_elements_output(
    table: Seq<SpecSymbol>,
    n1: Seq<char>,
    n2: Seq<char>,
    content: Seq<char>,
)
    ensures
        spec_gen_element(
            table,
            SpecAst {
                ast_type: AstType::Element,
                val: Seq::<char>::empty(),
                var_type: Option::None,
                children: seq![
                    SpecAst::leaf_val(AstType::ElementName, n1),
                    SpecAst::leaf(AstType::AttrList),
                    SpecAst {
                        ast_type: AstType::Element,
                        val: Seq::<char>::empty(),
                        var_type: Option::None,
                        children: seq![
                            SpecAst::leaf_val(AstType::ElementName, n2),
                            SpecAst::leaf(AstType::AttrList),
                            SpecAst::leaf_val(AstType::Ident, content),
                        ],
                    },
                ],
            },
            Seq::<SpecScope>::empty(),
        ) == Result::<(Seq<char>, Seq<SpecScope>), GenError>::Ok(
            (
                seq!['<'] + n1 + seq!['>', '\n', ' ', ' ', '<'] + n2 + seq![
                    '>',
                    '\n',
                    ' ',
                    ' ',
                    ' ',
                    ' ',
                ] + content + seq!['\n', ' ', ' ', '<', '/'] + n2 + seq!['>', '\n', '<', '/'] + n1
                    + seq!['>', '\n'],
                Seq::<SpecScope>::empty(),
            ),
        ),
{
    let inner = SpecAst {
        ast_type: AstType::Element,
        val: Seq::<char>::empty(),
        var_type: Option::None,
        children: seq![
            SpecAst::leaf_val(AstType::ElementName, n2),
            SpecAst::leaf(AstType::AttrList),
            SpecAst::leaf_val(AstType::Ident, content),
        ],
    };
    let outer = SpecAst {
        ast_type: AstType::Element,
        val: Seq::<char>::empty(),
        var_type: Option::None,
        children: seq![
            SpecAst::leaf_val(AstType::ElementName, n1),
            SpecAst::leaf(AstType::AttrList),
            inner,
        ],
    };
    let st0 = Seq::<SpecScope>::empty();
    assert(crate::emit::spec_spaces(0) =~= Seq::<char>::empty());
    assert(crate::emit::spec_spaces(1) =~= seq![' ']);
    assert(crate::emit::spec_spaces(2) =~= seq![' ', ' ']);
    assert(crate::emit::spec_spaces(3) =~= seq![' ', ' ', ' ']);
    assert(crate::emit::spec_spaces(4) =~= seq![' ', ' ', ' ', ' ']);
    let s1 = SpecScope { indentation: 0, val: n1 };
    let s2 = SpecScope { indentation: 2, val: n2 };
    let st1 = st0.push(s1);
    let st2 = st1.push(s2);
    assert(st1.len() == 1);
    assert(st2.last() == s2);
    assert(st2.drop_last() =~= st1);
    assert(st1.last() == s1);
    assert(st1.drop_last() =~= st0);
    assert(crate::gen::spec_closing_all(st0) =~= Seq::<char>::empty());
    assert(crate::gen::spec_closing_all(st1) =~= seq!['<', '/'] + n1 + seq!['>', '\n']);
    assert(crate::gen::spec_closing_all(st2) =~= seq![' ', ' ', '<', '/'] + n2 + seq![
        '>',
        '\n',
        '<',
        '/',
    ] + n1 + seq!['>', '\n']);
    let ri = spec_gen_element(table, inner, st1);
    assert(ri is Ok);
    assert((ri->Ok_0).0 =~= seq![' ', ' ', '<'] + n2 + seq!['>', '\n', ' ', ' ', ' ', ' ']
        + content + seq!['\n', ' ', ' ', '<', '/'] + n2 + seq!['>', '\n', '<', '/'] + n1 + seq![
        '>',
        '\n',
    ]);
    let r = spec_gen_element(table, outer, st0);
    assert(r is Ok);
    assert((r->Ok_0).0 =~= seq!['<'] + n1 + seq!['>', '\n', ' ', ' ', '<'] + n2 + seq![
        '>',
        '\n',
        ' ',
        ' ',
        ' ',
        ' ',
    ] + content + seq!['\n', ' ', ' ', '<', '/'] + n2 + seq!['>', '\n', '<', '/'] + n1 + seq![
        '>',
        '\n',
    ]);
}

/// The attribute pair walk succeeds exactly when every token from `i`
/// on is an identifier.
pub proof fn lemma_attr_pairs_ok_iff(kids: Seq<SpecAst>, i: int)
    requires
        0 <= i <= kids.len(),
        (kids.len() - i) % 2 == 0,
    ensures
        spec_attr_pairs(kids, i) is Ok <==> (forall|j: int|
            i <= j < kids.len() ==> (#[trigger] kids[j]).ast_type == AstType::Ident),
    decreases kids.len() - i,
{
    if i + 2 > kids.len() {
    } else {
        lemma_attr_pairs_ok_iff(kids, i + 2);
    }
}

/// An attribute list with an even count of identifier tokens generates;
/// an odd count, or a non-identifier token in any position, is a fatal
/// error.
pub proof fn law_attr_list(a: SpecAst)
    ensures
        a.children.len() % 2 == 0 ==> (spec_gen_attr_list(a) is Ok <==> (forall|j: int|
            0 <= j < a.children.len() ==> (#[trigger] a.children[j]).ast_type == AstType::Ident)),
        a.children.len() % 2 != 0 ==> spec_gen_attr_list(a) == Result::<
            Seq<char>,
            GenError,
        >::Err(GenError::AttrArity),
{
    if a.children.len() % 2 == 0 && a.children.len() > 0 {
        lemma_attr_pairs_ok_iff(a.children, 0);
    }
}

/// An `if` emits its body's output exactly when the comparison holds
/// of the left operand's bound integer value and the right operand's
/// literal integer value, for each of the six comparison operators.
pub proof fn law_if_comparison(
    table: Seq<SpecSymbol>,
    w: SpecAst,
    stack: Seq<SpecScope>,
    x: i64,
    y: i64,
)
    requires
        w.children.len() == 2,
        w.children[0].children.len() >= 2,
        spec_operands(table, w.children[0]) == Result::<(i64, i64), crate::eval::EvalError>::Ok(
            (x, y),
        ),
    ensures
        w.children[0].ast_type == AstType::Gt ==> spec_gen_if(table, w, stack) == (if x > y {
            spec_expr_or_element(table, w.children[1], stack)
        } else {
            Result::<(Seq<char>, Seq<SpecScope>), GenError>::Ok((Seq::<char>::empty(), stack))
        }),
        w.children[0].ast_type == AstType::GtEquals ==> spec_gen_if(table, w, stack) == (if x >= y {
            spec_expr_or_element(table, w.children[1], stack)
        } else {
            Result::<(Seq<char>, Seq<SpecScope>), GenError>::Ok((Seq::<char>::empty(), stack))
        }),
        w.children[0].ast_type == AstType::Lt ==> spec_gen_if(table, w, stack) == (if x < y {
            spec_expr_or_element(table, w.children[1], stack)
        } else {
            Result::<(Seq<char>, Seq<SpecScope>), GenError>::Ok((Seq::<char>::empty(), stack))
        }),
        w.children[0].ast_type == AstType::LtEquals ==> spec_gen_if(table, w, stack) == (if x <= y {
            spec_expr_or_element(table, w.children[1], stack)
        } else {
            Result::<(Seq<char>, Seq<SpecScope>), GenError>::Ok((Seq::<char>::empty(), stack))
        }),
        w.children[0].ast_type == AstType::EqualsEquals ==> spec_gen_if(table, w, stack) == (
        if x == y {
            spec_expr_or_element(table, w.children[1], stack)
        } else {
            Result::<(Seq<char>, Seq<SpecScope>), GenError>::Ok((Seq::<char>::empty(), stack))
        }),
        w.children[0].ast_type == AstType::NotEquals ==> spec_gen_if(table, w, stack) == (if x != y {
            spec_expr_or_element(table, w.children[1], stack)
        } else {
            Result::<(Seq<char>, Seq<SpecScope>), GenError>::Ok((Seq::<char>::empty(), stack))
        }),
{
}

/// Redeclaring a previously declared identifier is always a fatal
/// symbol error, whatever the second declaration's type or value.
pub proof fn law_redeclare_fatal(t: Seq<SpecSymbol>, a: SpecAst, b: SpecAst, t2: Seq<SpecSymbol>)
    requires
        spec_insert(t, a) == Result::<Seq<SpecSymbol>, SymbolError>::Ok(t2),
        b.ast_type == AstType::AssignExpr,
        b.children.len() >= 2,
        b.children[0].var_type is Some,
        b.children[0].val == a.children[0].val,
    ensures
        spec_insert(t2, b) == Result::<Seq<SpecSymbol>, SymbolError>::Err(SymbolError::Redeclared),
{
    let s = SpecSymbol {
        name: a.children[0].val,
        sym_type: a.children[0].var_type->Some_0,
        val: a.children[1].val,
        scope: "global"@,
    };
    lemma_lookup_append(t, s, b.children[0].val);
}

/// A `for` over an unbound source is a fatal error, and nothing of the
/// loop is emitted: generation stops with no output for the node.
pub proof fn law_unbound_for_fatal(table: Seq<SpecSymbol>, a: SpecAst, stack: Seq<SpecScope>)
    requires
        a.children.len() >= 2,
        lookup(table, a.children[1].val) is None,
    ensures
        spec_gen_for(table, a, stack) == Result::<(Seq<char>, Seq<SpecScope>), GenError>::Err(
            GenError::UnboundLoopSource,
        ),
{
}

/// An element whose first child is an assignment produces zero bytes of
/// output and leaves the open-element stack as it was.
pub proof fn law_assignment_element_silent(table: Seq<SpecSymbol>, a: SpecAst, stack: Seq<SpecScope>)
    requires
        a.children.len() > 0,
        a.children[0].ast_type == AstType::AssignExpr,
    ensures
        spec_gen_element(table, a, stack) == Result::<(Seq<char>, Seq<SpecScope>), GenError>::Ok(
            (Seq::<char>::empty(), stack),
        ),
{
}

/// Parsing is a function of the source text and the seeded table alone:
/// parsing the same text twice yields structurally identical trees, to
/// the last tag and child.
pub proof fn law_parse_deterministic(s1: Seq<char>, s2: Seq<char>, table: Seq<SpecSymbol>)
    requires
        s1 == s2,
    ensures
        spec_parse_at(s1, spec_init_cfg(s1, table)) == spec_parse_at(s2, spec_init_cfg(s2, table)),
{
}

} // verus!
