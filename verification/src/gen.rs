//! The generator: walks the AST, deciding with the evaluator and the
//! symbol table what to emit, and writes indented HTML through the
//! emitter.  One stack of open element names produces the closing tags
//! in reverse order of opening.

use vstd::prelude::*;
use vstd::string::StringExecFns;
use crate::ast::{lemma_view_children, spec_ast_type_name, ast_type_name, Ast, AstType, SpecAst};
use crate::emit::{spec_closing_tag, spec_spaces, Emitter};
use crate::error::{Diagnostic, GenDiagnostic};
use crate::eval::{spec_operands, EvalError, Evaluator};
use crate::symbol_table::{lookup, SpecSymbol, SymbolTable};

verus! {

/// One open element: the indentation it was emitted at, and its name,
/// kept for the closing tag.
#[derive(Debug)]
pub struct Scope {
    /// Number of spaces written before the opening tag.
    pub indentation: usize,
    /// The element name.
    pub val: String,
}

/// The mathematical value of a [`Scope`].
pub struct SpecScope {
    pub indentation: nat,
    pub val: Seq<char>,
}

impl View for Scope {
    type V = SpecScope;

    open spec fn view(&self) -> SpecScope {
        SpecScope { indentation: self.indentation as nat, val: self.val@ }
    }
}

/// The open elements a scope stack holds.
pub open spec fn stack_view(v: Seq<Scope>) -> Seq<SpecScope> {
    Seq::new(
        v.len(),
        |i: int|
            if 0 <= i < v.len() {
                v[i]@
            } else {
                SpecScope { indentation: 0, val: Seq::<char>::empty() }
            },
    )
}

/// Why generation stopped.
#[derive(Debug, PartialEq, Eq, Structural, Clone, Copy)]
pub enum GenError {
    /// An element node without children.
    NoChildrenElement,
    /// An element node with fewer than the three demanded children.
    ElementArity,
    /// An element's content child of a kind no content can have.
    UnexpectedContent,
    /// An `if` node without children.
    IfNoChildren,
    /// An `if` condition with fewer than two operands.
    IfExprArity,
    /// An `if` node whose condition held but that has no body child.
    IfMissingBody,
    /// A `for` node with fewer than two children.
    ForArity,
    /// A `for` loop whose source variable is not bound.
    UnboundLoopSource,
    /// An attribute list with an odd count of tokens.
    AttrArity,
    /// An attribute key or value that is not an identifier.
    AttrNotIdent { found: AstType },
    /// Elements nested too deeply to compute an indentation.
    TooDeep,
    /// A condition whose operands could not be evaluated.
    Eval { err: EvalError },
}

/// The diagnostic line recorded for a generation error.
pub open spec fn spec_render_gen_error(e: GenError) -> Seq<char> {
    match e {
        GenError::NoChildrenElement => "tank: Invalid element found, no children present in ast"@,
        GenError::ElementArity => "tank: Invalid Element ast found, not enough children present"@,
        GenError::UnexpectedContent => "tank: Unexpected ast type found"@,
        GenError::IfNoChildren => "tank: Invalid ast found, no children for if expression"@,
        GenError::IfExprArity => "tank: Invalid expression found, not enough children in if expression"@,
        GenError::IfMissingBody => "tank: Invalid ast found, no body for if expression"@,
        GenError::ForArity => "tank: Invalid ast found, not enough children found in for expression"@,
        GenError::UnboundLoopSource => "tank: Error - loop source variable is undefined."@,
        GenError::AttrArity => "tank: Invalid attribute list found, odd number of attribute tokens"@,
        GenError::AttrNotIdent { found } => "tank: Wrong ast type found, expected Ident, found "@
            + spec_ast_type_name(found),
        GenError::TooDeep => "tank: Element nesting too deep"@,
        GenError::Eval { err } => match err {
            EvalError::NotEnoughChildren => "tank: Invalid expression ast found, not enough children"@,
            EvalError::UndefinedVariable => "tank: Invalid expression found, could not find identifier"@,
            EvalError::NotAnInteger => "tank: Expected an integer"@,
        },
    }
}

/// The closing tags for every open element, innermost first.
pub open spec fn spec_closing_all(stack: Seq<SpecScope>) -> Seq<char>
    decreases stack.len(),
{
    if stack.len() == 0 {
        Seq::<char>::empty()
    } else {
        spec_spaces(stack.last().indentation) + spec_closing_tag(stack.last().val)
            + spec_closing_all(stack.drop_last())
    }
}

/// What emitting an element name does: indentation at two spaces per
/// open element, `<`, the name; the name and its indentation go on the
/// stack.
pub open spec fn spec_gen_el_name(a: SpecAst, stack: Seq<SpecScope>) -> (Seq<char>, Seq<SpecScope>) {
    let ind = 2 * stack.len();
    (
        spec_spaces(ind) + seq!['<'] + a.val,
        stack.push(SpecScope { indentation: ind, val: a.val }),
    )
}

/// The text of the attribute pairs from index `i` on: each key, `=`,
/// the quoted value, and a single space between pairs.  A key or value
/// that is not an identifier is a fatal error.
pub open spec fn spec_attr_pairs(kids: Seq<SpecAst>, i: int) -> Result<Seq<char>, GenError>
    decreases kids.len() - i,
{
    if i + 2 > kids.len() {
        Result::Ok(Seq::<char>::empty())
    } else if kids[i].ast_type != AstType::Ident {
        Result::Err(GenError::AttrNotIdent { found: kids[i].ast_type })
    } else if kids[i + 1].ast_type != AstType::Ident {
        Result::Err(GenError::AttrNotIdent { found: kids[i + 1].ast_type })
    } else {
        let pair = kids[i].val + seq!['='] + seq!['"'] + kids[i + 1].val + seq!['"'] + (
        if i + 2 != kids.len() {
            seq![' ']
        } else {
            Seq::<char>::empty()
        });
        match spec_attr_pairs(kids, i + 2) {
            Result::Err(e) => Result::Err(e),
            Result::Ok(rest) => Result::Ok(pair + rest),
        }
    }
}

/// What emitting an attribute list does: a space, the pairs, then `>`
/// and a newline; an odd count of tokens is a fatal error.
pub open spec fn spec_gen_attr_list(a: SpecAst) -> Result<Seq<char>, GenError> {
    if a.children.len() == 0 {
        Result::Ok(seq!['>', '\n'])
    } else if a.children.len() % 2 != 0 {
        Result::Err(GenError::AttrArity)
    } else {
        match spec_attr_pairs(a.children, 0) {
            Result::Err(e) => Result::Err(e),
            Result::Ok(t) => Result::Ok(seq![' '] + t + seq!['>', '\n']),
        }
    }
}

/// What emitting element content does: indentation, the content text,
/// a newline, then every open closing tag in reverse order; the stack
/// empties.
pub open spec fn spec_gen_el_contents(a: SpecAst, stack: Seq<SpecScope>) -> Seq<char> {
    spec_spaces(2 * stack.len()) + a.val + seq!['\n'] + spec_closing_all(stack)
}

/// What one condition evaluation yields, by the node's operator tag;
/// a node that is no comparison holds nothing back: the condition is
/// false.
pub open spec fn spec_eval_cond(table: Seq<SpecSymbol>, ex: SpecAst) -> Result<bool, EvalError> {
    if ex.ast_type == AstType::Gt {
        match spec_operands(table, ex) {
            Result::Ok((x, y)) => Result::Ok(x > y),
            Result::Err(e) => Result::Err(e),
        }
    } else if ex.ast_type == AstType::GtEquals {
        match spec_operands(table, ex) {
            Result::Ok((x, y)) => Result::Ok(x >= y),
            Result::Err(e) => Result::Err(e),
        }
    } else if ex.ast_type == AstType::Lt {
        match spec_operands(table, ex) {
            Result::Ok((x, y)) => Result::Ok(x < y),
            Result::Err(e) => Result::Err(e),
        }
    } else if ex.ast_type == AstType::LtEquals {
        match spec_operands(table, ex) {
            Result::Ok((x, y)) => Result::Ok(x <= y),
            Result::Err(e) => Result::Err(e),
        }
    } else if ex.ast_type == AstType::EqualsEquals {
        match spec_operands(table, ex) {
            Result::Ok((x, y)) => Result::Ok(x == y),
            Result::Err(e) => Result::Err(e),
        }
    } else if ex.ast_type == AstType::NotEquals {
        match spec_operands(table, ex) {
            Result::Ok((x, y)) => Result::Ok(x != y),
            Result::Err(e) => Result::Err(e),
        }
    } else {
        Result::Ok(false)
    }
}

/// What generating an element yields: nothing for an assignment
/// element; else the name, the attributes, and the content — nested
/// element, literal text (which closes all open tags), or nothing for
/// the end-of-input leaf.
pub open spec fn spec_gen_element(table: Seq<SpecSymbol>, a: SpecAst, stack: Seq<SpecScope>) -> Result<
    (Seq<char>, Seq<SpecScope>),
    GenError,
>
    decreases a, 0int,
{
    if a.children.len() == 0 {
        Result::Err(GenError::NoChildrenElement)
    } else if a.children[0].ast_type == AstType::AssignExpr {
        Result::Ok((Seq::<char>::empty(), stack))
    } else if a.children.len() < 3 {
        Result::Err(GenError::ElementArity)
    } else if stack.len() > usize::MAX as int / 2 - 2 {
        Result::Err(GenError::TooDeep)
    } else {
        let r1 = spec_gen_el_name(a.children[0], stack);
        match spec_gen_attr_list(a.children[1]) {
            Result::Err(e) => Result::Err(e),
            Result::Ok(t2) => {
                if a.children[2].ast_type == AstType::Element {
                    match spec_gen_element(table, a.children[2], r1.1) {
                        Result::Err(e) => Result::Err(e),
                        Result::Ok((t3, s3)) => Result::Ok((r1.0 + t2 + t3, s3)),
                    }
                } else if a.children[2].ast_type == AstType::Ident {
                    Result::Ok(
                        (
                            r1.0 + t2 + spec_gen_el_contents(a.children[2], r1.1),
                            Seq::<SpecScope>::empty(),
                        ),
                    )
                } else if a.children[2].ast_type == AstType::Eof {
                    Result::Ok((r1.0 + t2, r1.1))
                } else {
                    Result::Err(GenError::UnexpectedContent)
                }
            },
        }
    }
}

/// What generating an `if` yields: its body's output when the
/// condition holds of the symbol table, nothing when it does not, and
/// a fatal error for a malformed condition.
pub open spec fn spec_gen_if(table: Seq<SpecSymbol>, a: SpecAst, stack: Seq<SpecScope>) -> Result<
    (Seq<char>, Seq<SpecScope>),
    GenError,
>
    decreases a, 0int,
{
    if a.children.len() == 0 {
        Result::Err(GenError::IfNoChildren)
    } else if a.children[0].children.len() < 2 {
        Result::Err(GenError::IfExprArity)
    } else {
        match spec_eval_cond(table, a.children[0]) {
            Result::Err(e) => Result::Err(GenError::Eval { err: e }),
            Result::Ok(b) => {
                if !b {
                    Result::Ok((Seq::<char>::empty(), stack))
                } else if a.children.len() < 2 {
                    Result::Err(GenError::IfMissingBody)
                } else {
                    spec_expr_or_element(table, a.children[1], stack)
                }
            },
        }
    }
}

/// What generating a `for` yields: a fatal error where the loop source
/// is unbound, before anything is emitted; else the body's output, at
/// most once.
pub open spec fn spec_gen_for(table: Seq<SpecSymbol>, a: SpecAst, stack: Seq<SpecScope>) -> Result<
    (Seq<char>, Seq<SpecScope>),
    GenError,
>
    decreases a, 0int,
{
    if a.children.len() < 2 {
        Result::Err(GenError::ForArity)
    } else if lookup(table, a.children[1].val) is None {
        Result::Err(GenError::UnboundLoopSource)
    } else if a.children.len() == 2 {
        Result::Ok((Seq::<char>::empty(), stack))
    } else {
        spec_expr_or_element(table, a.children[2], stack)
    }
}

/// What generating one node yields, by its kind; a kind the generator
/// does not emit yields nothing.
pub open spec fn spec_expr_or_element(
    table: Seq<SpecSymbol>,
    a: SpecAst,
    stack: Seq<SpecScope>,
) -> Result<(Seq<char>, Seq<SpecScope>), GenError>
    decreases a, 1int,
{
    if a.ast_type == AstType::Element {
        spec_gen_element(table, a, stack)
    } else if a.ast_type == AstType::IfExpr {
        spec_gen_if(table, a, stack)
    } else if a.ast_type == AstType::ForExpr {
        spec_gen_for(table, a, stack)
    } else {
        Result::Ok((Seq::<char>::empty(), stack))
    }
}

/// What generating a template's top-level nodes yields: each node's
/// output in order, each generated over an emptied element stack.
pub open spec fn spec_output_loop(table: Seq<SpecSymbol>, kids: Seq<SpecAst>, i: int) -> Result<
    Seq<char>,
    GenError,
>
    decreases kids.len() - i,
{
    if i < 0 || i >= kids.len() {
        Result::Ok(Seq::<char>::empty())
    } else {
        match spec_expr_or_element(table, kids[i], Seq::<SpecScope>::empty()) {
            Result::Err(e) => Result::Err(e),
            Result::Ok((t, s)) => match spec_output_loop(table, kids, i + 1) {
                Result::Err(e) => Result::Err(e),
                Result::Ok(rest) => Result::Ok(t + rest),
            },
        }
    }
}

/// The non-fatal complaints [`Gen::output`] records before walking the
/// tree: a root that is no template, and a template with nothing in it.
pub open spec fn spec_output_premsgs(t: SpecAst) -> Seq<Seq<char>> {
    let m1: Seq<Seq<char>> = if t.ast_type != AstType::Template {
        seq![
            "tank: Invalid ast provided to generator. Found "@ + spec_ast_type_name(t.ast_type)
                + ", expected Template"@,
        ]
    } else {
        Seq::<Seq<char>>::empty()
    };
    let m2: Seq<Seq<char>> = if t.children.len() == 0 {
        seq!["tank: Empty ast found, nothing to generate."@]
    } else {
        Seq::<Seq<char>>::empty()
    };
    m1 + m2
}

/// The generator: the emitter it writes through, the evaluator (and
/// symbol table) it decides with, the stack of open elements, and the
/// diagnostics.
pub struct Gen {
    /// The output writer.
    pub emitter: Emitter,
    /// Decides `if` conditions against the symbol table.
    pub eval: Evaluator,
    /// The open elements, for closing tags.
    pub el_stack: Vec<Scope>,
    /// Collected generation errors.
    pub diagnostic: GenDiagnostic,
}

impl Gen {
    /// A generator over the given symbol table, with an empty output
    /// buffer.
    pub fn new(symbol_table: SymbolTable) -> (g: Gen)
        ensures
            g.emitter@ == Seq::<char>::empty(),
            g.eval.symbol_table == symbol_table,
            g.el_stack@ == Seq::<Scope>::empty(),
            g.diagnostic.spec_errors() == Seq::<Seq<char>>::empty(),
            g.diagnostic.spec_warnings() == Seq::<Seq<char>>::empty(),
    {
        Gen {
            emitter: Emitter::new(),
            eval: Evaluator::new(symbol_table),
            el_stack: Vec::new(),
            diagnostic: GenDiagnostic::new(),
        }
    }

    /// Everything generated so far.
    pub fn output_text(&self) -> (s: &str)
        ensures
            s@ == self.emitter@,
    {
        self.emitter.output()
    }

    /// Write every open closing tag, innermost first, and empty the
    /// stack.
    fn clear_element_stack(&mut self)
        ensures
            final(self).emitter@ == old(self).emitter@ + spec_closing_all(
                stack_view(old(self).el_stack@),
            ),
            final(self).el_stack@ == Seq::<Scope>::empty(),
            final(self).eval == old(self).eval,
            final(self).diagnostic == old(self).diagnostic,
    {
        proof {
            assert(spec_closing_all(stack_view(self.el_stack@)) + Seq::<char>::empty()
                =~= spec_closing_all(stack_view(old(self).el_stack@)));
        }
        loop
            invariant
                self.eval == old(self).eval,
                self.diagnostic == old(self).diagnostic,
                old(self).emitter@ + spec_closing_all(stack_view(old(self).el_stack@))
                    == self.emitter@ + spec_closing_all(stack_view(self.el_stack@)),
            decreases self.el_stack@.len(),
        {
            let ghost pre = stack_view(self.el_stack@);
            let scope = match self.el_stack.pop() {
                Option::Some(s) => s,
                Option::None => {
                    proof {
                        assert(stack_view(self.el_stack@).len() == 0);
                        assert(spec_closing_all(stack_view(self.el_stack@))
                            =~= Seq::<char>::empty());
                        assert(self.emitter@ =~= old(self).emitter@ + spec_closing_all(
                            stack_view(old(self).el_stack@),
                        ));
                    }
                    return ;
                },
            };
            proof {
                assert(pre.last() == scope@);
                assert(pre.drop_last() =~= stack_view(self.el_stack@));
            }
            self.emitter.space(scope.indentation);
            self.emitter.close_element(scope.val.as_str());
            proof {
                assert(old(self).emitter@ + spec_closing_all(stack_view(old(self).el_stack@))
                    =~= self.emitter@ + spec_closing_all(stack_view(self.el_stack@)));
            }
        }
    }

    /// Inline already-rendered HTML verbatim, closing every open tag
    /// after it: the text half of including another template whose
    /// output already exists.
    pub fn include_html(&mut self, contents: &str)
        ensures
            final(self).emitter@ == old(self).emitter@ + contents@ + spec_closing_all(
                stack_view(old(self).el_stack@),
            ),
            final(self).el_stack@ == Seq::<Scope>::empty(),
            final(self).eval == old(self).eval,
            final(self).diagnostic == old(self).diagnostic,
    {
        self.emitter.emit(contents);
        self.clear_element_stack();
        proof {
            assert(final(self).emitter@ =~= old(self).emitter@ + contents@ + spec_closing_all(
                stack_view(old(self).el_stack@),
            ));
        }
    }

    /// Write an element's name and push its scope.
    fn gen_el_name(&mut self, ast: &Ast)
        requires
            2 * old(self).el_stack@.len() + 2 <= usize::MAX,
        ensures
            final(self).emitter@ == old(self).emitter@ + spec_gen_el_name(
                ast@,
                stack_view(old(self).el_stack@),
            ).0,
            stack_view(final(self).el_stack@) == spec_gen_el_name(
                ast@,
                stack_view(old(self).el_stack@),
            ).1,
            final(self).eval == old(self).eval,
            final(self).diagnostic == old(self).diagnostic,
    {
        let indentation = self.el_stack.len() * 2;
        let el_scope = Scope { indentation: indentation, val: ast.val.clone() };
        self.el_stack.push(el_scope);
        self.emitter.space(indentation);
        self.emitter.left_angle_bracket();
        self.emitter.emit(ast.val.as_str());
        proof {
            assert(final(self).emitter@ =~= old(self).emitter@ + spec_gen_el_name(
                ast@,
                stack_view(old(self).el_stack@),
            ).0);
            assert(stack_view(self.el_stack@) =~= spec_gen_el_name(
                ast@,
                stack_view(old(self).el_stack@),
            ).1);
        }
    }

    /// Write the attribute pairs and close the opening tag, per
    /// [`spec_gen_attr_list`].
    fn gen_attr_list(&mut self, ast: &Ast) -> (r: Result<(), GenError>)
        ensures
            final(self).el_stack == old(self).el_stack,
            final(self).eval == old(self).eval,
            final(self).diagnostic == old(self).diagnostic,
            match r {
                Result::Ok(()) => spec_gen_attr_list(ast@) matches Result::Ok(t)
                    && final(self).emitter@ == old(self).emitter@ + t,
                Result::Err(e) => spec_gen_attr_list(ast@) == Result::<Seq<char>, GenError>::Err(e),
            },
    {
        proof {
            lemma_view_children(ast);
        }
        if ast.children.len() != 0 {
            if ast.children.len() % 2 != 0 {
                return Result::Err(GenError::AttrArity);
            }
            self.emitter.space(1);
            let ghost base = self.emitter@;
            let mut i: usize = 0;
            while i < ast.children.len()
                invariant
                    ast.children@.len() % 2 == 0,
                    i % 2 == 0,
                    i <= ast.children@.len(),
                    ast@.children.len() == ast.children@.len(),
                    forall|k: int|
                        0 <= k < ast.children@.len() ==> #[trigger] ast@.children[k]
                            == ast.children@[k]@,
                    self.el_stack == old(self).el_stack,
                    self.eval == old(self).eval,
                    self.diagnostic == old(self).diagnostic,
                    spec_attr_pairs(ast@.children, 0) matches Result::Ok(t) ==> spec_attr_pairs(
                        ast@.children,
                        i as int,
                    ) is Ok && base + t == self.emitter@ + spec_attr_pairs(
                        ast@.children,
                        i as int,
                    )->Ok_0,
                    spec_attr_pairs(ast@.children, 0) is Err ==> spec_attr_pairs(
                        ast@.children,
                        0,
                    ) == spec_attr_pairs(ast@.children, i as int),
                decreases ast.children@.len() - i,
            {
                let ghost iold = i as int;
                let ghost pre = self.emitter@;
                let attr_key = &ast.children[i];
                if attr_key.ast_type != AstType::Ident {
                    proof {
                        assert(spec_attr_pairs(ast@.children, iold) == Result::<
                            Seq<char>,
                            GenError,
                        >::Err(GenError::AttrNotIdent { found: ast@.children[iold].ast_type }));
                    }
                    return Result::Err(GenError::AttrNotIdent { found: attr_key.ast_type });
                }
                let attr_val = &ast.children[i + 1];
                if attr_val.ast_type != AstType::Ident {
                    proof {
                        assert(spec_attr_pairs(ast@.children, iold) == Result::<
                            Seq<char>,
                            GenError,
                        >::Err(GenError::AttrNotIdent { found: ast@.children[iold + 1].ast_type }));
                    }
                    return Result::Err(GenError::AttrNotIdent { found: attr_val.ast_type });
                }
                self.emitter.emit(attr_key.val.as_str());
                self.emitter.equals();
                self.emitter.string(attr_val.val.as_str());
                if i + 2 != ast.children.len() {
                    self.emitter.space(1);
                }
                i = i + 2;
                proof {
                    assert(spec_spaces(0) =~= Seq::<char>::empty());
                    assert(spec_spaces(1) =~= seq![' ']);
                    let kids = ast@.children;
                    let pair = kids[iold].val + seq!['='] + seq!['"'] + kids[iold + 1].val
                        + seq!['"'] + (if iold + 2 != kids.len() {
                        seq![' ']
                    } else {
                        Seq::<char>::empty()
                    });
                    assert(self.emitter@ =~= pre + pair);
                    if spec_attr_pairs(kids, iold) is Ok {
                        assert(spec_attr_pairs(kids, iold)->Ok_0 == pair + spec_attr_pairs(
                            kids,
                            i as int,
                        )->Ok_0);
                        if spec_attr_pairs(kids, 0) is Ok {
                            assert(base + spec_attr_pairs(kids, 0)->Ok_0 =~= self.emitter@
                                + spec_attr_pairs(kids, i as int)->Ok_0);
                        }
                    }
                }
            }
            proof {
                assert(spec_attr_pairs(ast@.children, ast@.children.len() as int) == Result::<
                    Seq<char>,
                    GenError,
                >::Ok(Seq::<char>::empty()));
                if spec_attr_pairs(ast@.children, 0) is Ok {
                    assert(self.emitter@ + spec_attr_pairs(
                        ast@.children,
                        ast@.children.len() as int,
                    )->Ok_0 =~= self.emitter@);
                }
            }
            self.emitter.right_angle_bracket();
            self.emitter.newline();
            proof {
                assert(spec_spaces(0) =~= Seq::<char>::empty());
                assert(spec_spaces(1) =~= seq![' ']);
                if spec_attr_pairs(ast@.children, 0) is Ok {
                    assert(final(self).emitter@ =~= old(self).emitter@ + (seq![' ']
                        + spec_attr_pairs(ast@.children, 0)->Ok_0 + seq!['>', '\n']));
                }
            }
            Result::Ok(())
        } else {
            self.emitter.right_angle_bracket();
            self.emitter.newline();
            proof {
                assert(final(self).emitter@ =~= old(self).emitter@ + seq!['>', '\n']);
            }
            Result::Ok(())
        }
    }

    /// Write an element's literal content and all pending closing tags.
    fn gen_el_contents(&mut self, ast: &Ast)
        requires
            2 * old(self).el_stack@.len() <= usize::MAX,
        ensures
            final(self).emitter@ == old(self).emitter@ + spec_gen_el_contents(
                ast@,
                stack_view(old(self).el_stack@),
            ),
            final(self).el_stack@ == Seq::<Scope>::empty(),
            final(self).eval == old(self).eval,
            final(self).diagnostic == old(self).diagnostic,
    {
        let indentation = self.el_stack.len() * 2;
        self.emitter.space(indentation);
        self.emitter.emit(ast.val.as_str());
        self.emitter.newline();
        self.clear_element_stack();
        proof {
            assert(final(self).emitter@ =~= old(self).emitter@ + spec_gen_el_contents(
                ast@,
                stack_view(old(self).el_stack@),
            ));
        }
    }

    /// Generate one element, per [`spec_gen_element`].
    fn gen_element(&mut self, ast: &Ast) -> (r: Result<(), GenError>)
        ensures
            final(self).eval == old(self).eval,
            final(self).diagnostic == old(self).diagnostic,
            match r {
                Result::Ok(()) => spec_gen_element(
                    old(self).eval.symbol_table@,
                    ast@,
                    stack_view(old(self).el_stack@),
                ) matches Result::Ok((t, s)) && final(self).emitter@ == old(self).emitter@ + t
                    && stack_view(final(self).el_stack@) == s,
                Result::Err(e) => spec_gen_element(
                    old(self).eval.symbol_table@,
                    ast@,
                    stack_view(old(self).el_stack@),
                ) == Result::<(Seq<char>, Seq<SpecScope>), GenError>::Err(e),
            },
        decreases ast, 0int,
    {
        proof {
            lemma_view_children(ast);
        }
        if ast.children.len() == 0 {
            return Result::Err(GenError::NoChildrenElement);
        }
        if ast.children[0].ast_type == AstType::AssignExpr {
            proof {
                assert(final(self).emitter@ =~= old(self).emitter@ + Seq::<char>::empty());
            }
            return Result::Ok(());
        }
        if ast.children.len() < 3 {
            return Result::Err(GenError::ElementArity);
        }
        if self.el_stack.len() > usize::MAX / 2 - 2 {
            return Result::Err(GenError::TooDeep);
        }
        self.gen_el_name(&ast.children[0]);
        match self.gen_attr_list(&ast.children[1]) {
            Result::Ok(()) => {},
            Result::Err(e) => {
                return Result::Err(e);
            },
        }
        let ghost st0 = stack_view(old(self).el_stack@);
        let ghost table = old(self).eval.symbol_table@;
        let ghost nm = spec_gen_el_name(ast@.children[0], st0);
        let ghost t2 = spec_gen_attr_list(ast@.children[1])->Ok_0;
        if ast.children[2].ast_type == AstType::Element {
            match self.gen_element(&ast.children[2]) {
                Result::Ok(()) => {
                    proof {
                        let t3 = (spec_gen_element(table, ast@.children[2], nm.1)->Ok_0).0;
                        assert(self.emitter@ =~= old(self).emitter@ + (nm.0 + t2 + t3));
                    }
                    Result::Ok(())
                },
                Result::Err(e) => Result::Err(e),
            }
        } else if ast.children[2].ast_type == AstType::Ident {
            self.gen_el_contents(&ast.children[2]);
            proof {
                let t3 = spec_gen_el_contents(ast@.children[2], nm.1);
                assert(self.emitter@ =~= old(self).emitter@ + (nm.0 + t2 + t3));
                assert(stack_view(self.el_stack@) =~= Seq::<SpecScope>::empty());
            }
            Result::Ok(())
        } else if ast.children[2].ast_type == AstType::Eof {
            proof {
                assert(self.emitter@ =~= old(self).emitter@ + (nm.0 + t2));
            }
            Result::Ok(())
        } else {
            Result::Err(GenError::UnexpectedContent)
        }
    }

    /// Generate an `if`, per [`spec_gen_if`].
    fn gen_if(&mut self, ast: &Ast) -> (r: Result<(), GenError>)
        ensures
            final(self).eval == old(self).eval,
            final(self).diagnostic == old(self).diagnostic,
            match r {
                Result::Ok(()) => spec_gen_if(
                    old(self).eval.symbol_table@,
                    ast@,
                    stack_view(old(self).el_stack@),
                ) matches Result::Ok((t, s)) && final(self).emitter@ == old(self).emitter@ + t
                    && stack_view(final(self).el_stack@) == s,
                Result::Err(e) => spec_gen_if(
                    old(self).eval.symbol_table@,
                    ast@,
                    stack_view(old(self).el_stack@),
                ) == Result::<(Seq<char>, Seq<SpecScope>), GenError>::Err(e),
            },
        decreases ast, 0int,
    {
        proof {
            lemma_view_children(ast);
        }
        if ast.children.len() == 0 {
            return Result::Err(GenError::IfNoChildren);
        }
        let expr = &ast.children[0];
        proof {
            lemma_view_children(expr);
        }
        if expr.children.len() < 2 {
            return Result::Err(GenError::IfExprArity);
        }
        let cond = if expr.ast_type == AstType::Gt {
            self.eval.gt(expr)
        } else if expr.ast_type == AstType::GtEquals {
            self.eval.gt_equals(expr)
        } else if expr.ast_type == AstType::Lt {
            self.eval.lt(expr)
        } else if expr.ast_type == AstType::LtEquals {
            self.eval.lt_equals(expr)
        } else if expr.ast_type == AstType::EqualsEquals {
            self.eval.equals_equals(expr)
        } else if expr.ast_type == AstType::NotEquals {
            self.eval.not_equals(expr)
        } else {
            Result::Ok(false)
        };
        let is_gen = match cond {
            Result::Ok(b) => b,
            Result::Err(e) => {
                return Result::Err(GenError::Eval { err: e });
            },
        };
        if is_gen {
            if ast.children.len() < 2 {
                return Result::Err(GenError::IfMissingBody);
            }
            self.expr_or_element(&ast.children[1])
        } else {
            proof {
                assert(final(self).emitter@ =~= old(self).emitter@ + Seq::<char>::empty());
            }
            Result::Ok(())
        }
    }

    /// Generate a `for`, per [`spec_gen_for`]: an unbound loop source
    /// is a fatal error before anything is emitted.
    fn gen_for(&mut self, ast: &Ast) -> (r: Result<(), GenError>)
        ensures
            final(self).eval == old(self).eval,
            final(self).diagnostic == old(self).diagnostic,
            match r {
                Result::Ok(()) => spec_gen_for(
                    old(self).eval.symbol_table@,
                    ast@,
                    stack_view(old(self).el_stack@),
                ) matches Result::Ok((t, s)) && final(self).emitter@ == old(self).emitter@ + t
                    && stack_view(final(self).el_stack@) == s,
                Result::Err(e) => spec_gen_for(
                    old(self).eval.symbol_table@,
                    ast@,
                    stack_view(old(self).el_stack@),
                ) == Result::<(Seq<char>, Seq<SpecScope>), GenError>::Err(e),
            },
        decreases ast, 0int,
    {
        proof {
            lemma_view_children(ast);
        }
        if ast.children.len() < 2 {
            return Result::Err(GenError::ForArity);
        }
        let second_ident = &ast.children[1];
        match self.eval.symbol_table.get(second_ident.val.as_str()) {
            Option::Some(_) => {},
            Option::None => {
                return Result::Err(GenError::UnboundLoopSource);
            },
        }
        if ast.children.len() == 2 {
            proof {
                assert(final(self).emitter@ =~= old(self).emitter@ + Seq::<char>::empty());
            }
            return Result::Ok(());
        }
        self.expr_or_element(&ast.children[2])
    }

    /// Generate one node by its kind, per [`spec_expr_or_element`].
    fn expr_or_element(&mut self, ast: &Ast) -> (r: Result<(), GenError>)
        ensures
            final(self).eval == old(self).eval,
            final(self).diagnostic == old(self).diagnostic,
            match r {
                Result::Ok(()) => spec_expr_or_element(
                    old(self).eval.symbol_table@,
                    ast@,
                    stack_view(old(self).el_stack@),
                ) matches Result::Ok((t, s)) && final(self).emitter@ == old(self).emitter@ + t
                    && stack_view(final(self).el_stack@) == s,
                Result::Err(e) => spec_expr_or_element(
                    old(self).eval.symbol_table@,
                    ast@,
                    stack_view(old(self).el_stack@),
                ) == Result::<(Seq<char>, Seq<SpecScope>), GenError>::Err(e),
            },
        decreases ast, 1int,
    {
        if ast.ast_type == AstType::Element {
            self.gen_element(ast)
        } else if ast.ast_type == AstType::IfExpr {
            self.gen_if(ast)
        } else if ast.ast_type == AstType::ForExpr {
            self.gen_for(ast)
        } else {
            proof {
                assert(final(self).emitter@ =~= old(self).emitter@ + Seq::<char>::empty());
            }
            Result::Ok(())
        }
    }

    /// Record a fatal generation error, rendered per
    /// [`spec_render_gen_error`].
    fn record_gen_error(&mut self, e: GenError)
        ensures
            final(self).diagnostic.spec_errors() == old(self).diagnostic.spec_errors().push(
                spec_render_gen_error(e),
            ),
            final(self).diagnostic.spec_warnings() == old(self).diagnostic.spec_warnings(),
            final(self).emitter == old(self).emitter,
            final(self).eval == old(self).eval,
            final(self).el_stack == old(self).el_stack,
    {
        match e {
            GenError::NoChildrenElement => {
                self.diagnostic.new_err("tank: Invalid element found, no children present in ast");
            },
            GenError::ElementArity => {
                self.diagnostic.new_err(
                    "tank: Invalid Element ast found, not enough children present",
                );
            },
            GenError::UnexpectedContent => {
                self.diagnostic.new_err("tank: Unexpected ast type found");
            },
            GenError::IfNoChildren => {
                self.diagnostic.new_err("tank: Invalid ast found, no children for if expression");
            },
            GenError::IfExprArity => {
                self.diagnostic.new_err(
                    "tank: Invalid expression found, not enough children in if expression",
                );
            },
            GenError::IfMissingBody => {
                self.diagnostic.new_err("tank: Invalid ast found, no body for if expression");
            },
            GenError::ForArity => {
                self.diagnostic.new_err(
                    "tank: Invalid ast found, not enough children found in for expression",
                );
            },
            GenError::UnboundLoopSource => {
                self.diagnostic.new_err("tank: Error - loop source variable is undefined.");
            },
            GenError::AttrArity => {
                self.diagnostic.new_err(
                    "tank: Invalid attribute list found, odd number of attribute tokens",
                );
            },
            GenError::AttrNotIdent { found } => {
                let mut m = String::new();
                m.append("tank: Wrong ast type found, expected Ident, found ");
                m.append(ast_type_name(found));
                self.diagnostic.new_err(m.as_str());
            },
            GenError::TooDeep => {
                self.diagnostic.new_err("tank: Element nesting too deep");
            },
            GenError::Eval { err } => {
                match err {
                    EvalError::NotEnoughChildren => {
                        self.diagnostic.new_err(
                            "tank: Invalid expression ast found, not enough children",
                        );
                    },
                    EvalError::UndefinedVariable => {
                        self.diagnostic.new_err(
                            "tank: Invalid expression found, could not find identifier",
                        );
                    },
                    EvalError::NotAnInteger => {
                        self.diagnostic.new_err("tank: Expected an integer");
                    },
                }
            },
        }
    }

    /// Generate the whole template: every top-level node in order, the
    /// element stack emptied before each.  A root that is no template,
    /// or an empty one, is complained about but walked all the same; a
    /// fatal error is recorded and returned, and aborts generation.
    pub fn output(&mut self, template: &Ast) -> (r: Result<(), GenError>)
        ensures
            final(self).eval == old(self).eval,
            match r {
                Result::Ok(()) => spec_output_loop(
                    old(self).eval.symbol_table@,
                    template@.children,
                    0,
                ) matches Result::Ok(t) && final(self).emitter@ == old(self).emitter@ + t
                    && final(self).diagnostic.spec_errors()
                    == old(self).diagnostic.spec_errors() + spec_output_premsgs(template@),
                Result::Err(e) => spec_output_loop(
                    old(self).eval.symbol_table@,
                    template@.children,
                    0,
                ) == Result::<Seq<char>, GenError>::Err(e) && final(self).diagnostic.spec_errors()
                    == old(self).diagnostic.spec_errors() + spec_output_premsgs(template@).push(
                    spec_render_gen_error(e),
                ),
            },
            final(self).diagnostic.spec_warnings() == old(self).diagnostic.spec_warnings(),
    {
        proof {
            lemma_view_children(template);
        }
        if template.ast_type != AstType::Template {
            let mut m = String::new();
            m.append("tank: Invalid ast provided to generator. Found ");
            m.append(ast_type_name(template.ast_type));
            m.append(", expected Template");
            self.diagnostic.new_err(m.as_str());
        }
        if template.children.len() == 0 {
            self.diagnostic.new_err("tank: Empty ast found, nothing to generate.");
        }
        proof {
            assert(self.diagnostic.spec_errors() =~= old(self).diagnostic.spec_errors()
                + spec_output_premsgs(template@));
        }
        let ghost base = self.emitter@;
        let ghost table = self.eval.symbol_table@;
        let mut i: usize = 0;
        while i < template.children.len()
            invariant
                i <= template.children@.len(),
                template@.children.len() == template.children@.len(),
                forall|k: int|
                    0 <= k < template.children@.len() ==> #[trigger] template@.children[k]
                        == template.children@[k]@,
                self.eval == old(self).eval,
                table == self.eval.symbol_table@,
                self.diagnostic.spec_errors() == old(self).diagnostic.spec_errors()
                    + spec_output_premsgs(template@),
                self.diagnostic.spec_warnings() == old(self).diagnostic.spec_warnings(),
                spec_output_loop(table, template@.children, 0) matches Result::Ok(t)
                    ==> spec_output_loop(table, template@.children, i as int) is Ok && base + t
                    == self.emitter@ + spec_output_loop(table, template@.children, i as int)->Ok_0,
                spec_output_loop(table, template@.children, 0) is Err ==> spec_output_loop(
                    table,
                    template@.children,
                    0,
                ) == spec_output_loop(table, template@.children, i as int),
            decreases template.children@.len() - i,
        {
            self.el_stack.clear();
            proof {
                assert(stack_view(self.el_stack@) =~= Seq::<SpecScope>::empty());
            }
            let ghost iold = i as int;
            let ghost pre = self.emitter@;
            match self.expr_or_element(&template.children[i]) {
                Result::Ok(()) => {},
                Result::Err(e) => {
                    proof {
                        assert(spec_output_loop(table, template@.children, iold) == Result::<
                            Seq<char>,
                            GenError,
                        >::Err(e));
                        assert(self.diagnostic.spec_errors().push(spec_render_gen_error(e))
                            =~= old(self).diagnostic.spec_errors() + spec_output_premsgs(
                            template@,
                        ).push(spec_render_gen_error(e)));
                    }
                    self.record_gen_error(e);
                    return Result::Err(e);
                },
            }
            i = i + 1;
            proof {
                let kids = template@.children;
                if spec_output_loop(table, kids, iold) is Ok {
                    assert(spec_output_loop(table, kids, iold)->Ok_0 == (spec_expr_or_element(
                        table,
                        kids[iold],
                        Seq::<SpecScope>::empty(),
                    )->Ok_0).0 + spec_output_loop(table, kids, i as int)->Ok_0);
                    if spec_output_loop(table, kids, 0) is Ok {
                        assert(base + spec_output_loop(table, kids, 0)->Ok_0 =~= self.emitter@
                            + spec_output_loop(table, kids, i as int)->Ok_0);
                    }
                }
            }
        }
        proof {
            assert(spec_output_loop(table, template@.children, template@.children.len() as int)
                == Result::<Seq<char>, GenError>::Ok(Seq::<char>::empty()));
            assert(self.emitter@ + Seq::<char>::empty() =~= self.emitter@);
            if spec_output_loop(table, template@.children, 0) is Ok {
                assert(self.emitter@ =~= base + spec_output_loop(
                    table,
                    template@.children,
                    0,
                )->Ok_0);
            }
        }
        Result::Ok(())
    }
}

} // verus!
