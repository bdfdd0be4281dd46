//! The abstract syntax tree built by the parser and walked by the
//! generator.

use vstd::prelude::*;

verus! {

/// The kind of an AST node.
#[derive(Debug, PartialEq, Eq, Structural, Clone, Copy)]
pub enum AstType {
    Template,
    Element,
    Ident,
    ElementName,
    Number,
    AttrList,
    IfExpr,
    ForExpr,
    AssignExpr,
    Plus,
    Minus,
    EqualsEquals,
    Gt,
    Lt,
    GtEquals,
    LtEquals,
    NotEquals,
    Empty,
    Eof,
}

/// The mathematical value of an [`Ast`]: the same tree with all strings
/// read as character sequences.
pub struct SpecAst {
    pub ast_type: AstType,
    pub val: Seq<char>,
    pub var_type: Option<Seq<char>>,
    pub children: Seq<SpecAst>,
}

/// One AST node: a kind tag, a string value (identifier or number text,
/// or an element name), the declared type of a variable where one was
/// written, and the ordered child nodes.
#[derive(Debug)]
pub struct Ast {
    pub ast_type: AstType,
    pub val: String,
    pub var_type: Option<String>,
    pub children: Vec<Ast>,
}

/// The mathematical value of a node: see [`SpecAst`].
pub open spec fn ast_view(a: Ast) -> SpecAst
    decreases a,
{
    SpecAst {
        ast_type: a.ast_type,
        val: a.val@,
        var_type: match a.var_type {
            Option::Some(t) => Option::Some(t@),
            Option::None => Option::None,
        },
        children: Seq::new(
            a.children@.len(),
            |i: int|
                if 0 <= i < a.children@.len() {
                    ast_view(a.children@[i])
                } else {
                    SpecAst::leaf(AstType::Empty)
                },
        ),
    }
}

impl View for Ast {
    type V = SpecAst;

    open spec fn view(&self) -> SpecAst {
        ast_view(*self)
    }
}

impl SpecAst {
    /// A childless node with no value, as [`Ast::new`] builds it.
    pub open spec fn leaf(t: AstType) -> SpecAst {
        SpecAst { ast_type: t, val: Seq::<char>::empty(), var_type: Option::None, children: Seq::<SpecAst>::empty() }
    }

    /// A childless node carrying a value, as [`Ast::new_from_value`] builds it.
    pub open spec fn leaf_val(t: AstType, v: Seq<char>) -> SpecAst {
        SpecAst { ast_type: t, val: v, var_type: Option::None, children: Seq::<SpecAst>::empty() }
    }
}

/// The name of a node kind, as diagnostics spell it.
pub open spec fn spec_ast_type_name(t: AstType) -> Seq<char> {
    match t {
        AstType::Template => "Template"@,
        AstType::Element => "Element"@,
        AstType::Ident => "Ident"@,
        AstType::ElementName => "ElementName"@,
        AstType::Number => "Number"@,
        AstType::AttrList => "AttrList"@,
        AstType::IfExpr => "IfExpr"@,
        AstType::ForExpr => "ForExpr"@,
        AstType::AssignExpr => "AssignExpr"@,
        AstType::Plus => "Plus"@,
        AstType::Minus => "Minus"@,
        AstType::EqualsEquals => "EqualsEquals"@,
        AstType::Gt => "Gt"@,
        AstType::Lt => "Lt"@,
        AstType::GtEquals => "GtEquals"@,
        AstType::LtEquals => "LtEquals"@,
        AstType::NotEquals => "NotEquals"@,
        AstType::Empty => "Empty"@,
        AstType::Eof => "Eof"@,
    }
}

/// The name of a node kind, for diagnostics.
pub fn ast_type_name(t: AstType) -> (s: &'static str)
    ensures
        s@ == spec_ast_type_name(t),
{
    match t {
        AstType::Template => "Template",
        AstType::Element => "Element",
        AstType::Ident => "Ident",
        AstType::ElementName => "ElementName",
        AstType::Number => "Number",
        AstType::AttrList => "AttrList",
        AstType::IfExpr => "IfExpr",
        AstType::ForExpr => "ForExpr",
        AstType::AssignExpr => "AssignExpr",
        AstType::Plus => "Plus",
        AstType::Minus => "Minus",
        AstType::EqualsEquals => "EqualsEquals",
        AstType::Gt => "Gt",
        AstType::Lt => "Lt",
        AstType::GtEquals => "GtEquals",
        AstType::LtEquals => "LtEquals",
        AstType::NotEquals => "NotEquals",
        AstType::Empty => "Empty",
        AstType::Eof => "Eof",
    }
}

/// The view of a node's child list is the list of the children's views.
pub proof fn lemma_view_children(a: &Ast)
    ensures
        a@.children.len() == a.children@.len(),
        forall|i: int|
            0 <= i < a.children@.len() ==> #[trigger] a@.children[i] == a.children@[i]@,
{
}

impl Ast {
    /// A node of the given kind with no value and no children.
    pub fn new(t: AstType) -> (a: Ast)
        ensures
            a@ == SpecAst::leaf(t),
    {
        let a = Ast { ast_type: t, val: String::new(), var_type: Option::None, children: Vec::new() };
        proof {
            assert(a@.children =~= Seq::<SpecAst>::empty());
        }
        a
    }

    /// A node of the given kind carrying a value, with no children.
    pub fn new_from_value(t: AstType, v: &str) -> (a: Ast)
        ensures
            a@ == SpecAst::leaf_val(t, v@),
    {
        let a = Ast { ast_type: t, val: v.to_owned(), var_type: Option::None, children: Vec::new() };
        proof {
            assert(a@.children =~= Seq::<SpecAst>::empty());
        }
        a
    }

    /// Append one child node.
    pub fn push_child(&mut self, c: Ast)
        ensures
            final(self)@ == (SpecAst {
                children: old(self)@.children.push(c@),
                ..old(self)@
            }),
    {
        self.children.push(c);
        proof {
            lemma_view_children(self);
            lemma_view_children(&old(self));
            assert(self@.children =~= old(self)@.children.push(c@));
        }
    }

    /// Record the declared type of the variable this node names.
    pub fn set_var_type(&mut self, t: String)
        ensures
            final(self)@ == (SpecAst { var_type: Option::Some(t@), ..old(self)@ }),
    {
        self.var_type = Option::Some(t);
        proof {
            lemma_view_children(self);
            lemma_view_children(&old(self));
            assert(self@.children =~= old(self)@.children);
        }
    }
}

} // verus!
