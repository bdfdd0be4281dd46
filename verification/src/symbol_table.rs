//! The symbol table: identifier name to declared type, value and scope.

use vstd::prelude::*;
use crate::ast::{lemma_view_children, Ast, AstType, SpecAst};
use crate::strutil::str_eq;

verus! {

/// Why an insertion into the table was refused.
#[derive(Debug, PartialEq, Eq, Structural, Clone, Copy)]
pub enum SymbolError {
    /// The node handed in is not of the kind the operation expects.
    InvalidAst,
    /// A declaration node with fewer than two children.
    NotEnoughChildren,
    /// A declaration without a declared type.
    MissingType,
    /// The name is already bound.
    Redeclared,
}

/// The mathematical value of a [`Symbol`].
pub struct SpecSymbol {
    pub name: Seq<char>,
    pub sym_type: Seq<char>,
    pub val: Seq<char>,
    pub scope: Seq<char>,
}

/// One binding: its name, declared type name, current value (kept as
/// text) and scope tag (`global` or `for`).
#[derive(Debug)]
pub struct Symbol {
    pub name: String,
    pub sym_type: String,
    pub val: String,
    pub scope: String,
}

impl View for Symbol {
    type V = SpecSymbol;

    open spec fn view(&self) -> SpecSymbol {
        SpecSymbol { name: self.name@, sym_type: self.sym_type@, val: self.val@, scope: self.scope@ }
    }
}

/// The binding for `name`, if any: the first entry with that name.
pub open spec fn lookup(t: Seq<SpecSymbol>, name: Seq<char>) -> Option<SpecSymbol>
    decreases t.len(),
{
    if t.len() == 0 {
        Option::None
    } else if t[0].name == name {
        Option::Some(t[0])
    } else {
        lookup(t.drop_first(), name)
    }
}

/// What [`SymbolTable::insert`] does to the table's entries: refuse a
/// node that is not a two-child assignment declaration with a declared
/// type, refuse a name that is already bound, and otherwise append a
/// global-scope entry.
pub open spec fn spec_insert(t: Seq<SpecSymbol>, a: SpecAst) -> Result<Seq<SpecSymbol>, SymbolError> {
    if a.ast_type != AstType::AssignExpr {
        Result::Err(SymbolError::InvalidAst)
    } else if a.children.len() < 2 {
        Result::Err(SymbolError::NotEnoughChildren)
    } else if a.children[0].var_type is None {
        Result::Err(SymbolError::MissingType)
    } else if lookup(t, a.children[0].val) is Some {
        Result::Err(SymbolError::Redeclared)
    } else {
        Result::Ok(
            t + seq![
                SpecSymbol {
                    name: a.children[0].val,
                    sym_type: a.children[0].var_type->Some_0,
                    val: a.children[1].val,
                    scope: "global"@,
                },
            ],
        )
    }
}

/// What [`SymbolTable::insert_for_id`] does: refuse a node that is not
/// an identifier, refuse a bound name, refuse a missing declared type,
/// and otherwise append a loop-scope entry whose value is the name
/// itself.
pub open spec fn spec_insert_for_id(t: Seq<SpecSymbol>, a: SpecAst) -> Result<
    Seq<SpecSymbol>,
    SymbolError,
> {
    if a.ast_type != AstType::Ident {
        Result::Err(SymbolError::InvalidAst)
    } else if lookup(t, a.val) is Some {
        Result::Err(SymbolError::Redeclared)
    } else if a.var_type is None {
        Result::Err(SymbolError::MissingType)
    } else {
        Result::Ok(
            t + seq![
                SpecSymbol {
                    name: a.val,
                    sym_type: a.var_type->Some_0,
                    val: a.val,
                    scope: "for"@,
                },
            ],
        )
    }
}

/// The table of bindings. A name is bound at most once: redeclaring is
/// an error, never a shadow.
pub struct SymbolTable {
    table: Vec<Symbol>,
}

impl View for SymbolTable {
    type V = Seq<SpecSymbol>;

    closed spec fn view(&self) -> Seq<SpecSymbol> {
        Seq::new(self.table@.len(), |i: int| self.table@[i]@)
    }
}

impl SymbolTable {
    /// An empty table.
    pub fn new() -> (t: SymbolTable)
        ensures
            t@ == Seq::<SpecSymbol>::empty(),
    {
        let t = SymbolTable { table: Vec::new() };
        proof {
            assert(t@ =~= Seq::<SpecSymbol>::empty());
        }
        t
    }

    /// Insert the declaration that `ast` holds, per [`spec_insert`]: an
    /// `AssignExpr` whose first child carries the name and declared type
    /// and whose second child carries the value.
    pub fn insert(&mut self, ast: &Ast) -> (res: Result<(), SymbolError>)
        ensures
            match res {
                Result::Ok(()) => spec_insert(old(self)@, ast@) == Result::<
                    Seq<SpecSymbol>,
                    SymbolError,
                >::Ok(final(self)@),
                Result::Err(e) => spec_insert(old(self)@, ast@) == Result::<
                    Seq<SpecSymbol>,
                    SymbolError,
                >::Err(e) && final(self)@ == old(self)@,
            },
    {
        proof {
            lemma_view_children(ast);
        }
        if ast.ast_type != AstType::AssignExpr {
            return Result::Err(SymbolError::InvalidAst);
        }
        if ast.children.len() < 2 {
            return Result::Err(SymbolError::NotEnoughChildren);
        }
        let ident_type = match &ast.children[0].var_type {
            Option::Some(t) => t.clone(),
            Option::None => {
                return Result::Err(SymbolError::MissingType);
            },
        };
        if self.contains_name(ast.children[0].val.as_str()) {
            return Result::Err(SymbolError::Redeclared);
        }
        let sym = Symbol {
            name: ast.children[0].val.clone(),
            sym_type: ident_type,
            val: ast.children[1].val.clone(),
            scope: "global".to_owned(),
        };
        let ghost pre = self@;
        self.table.push(sym);
        proof {
            assert(self@ =~= pre + seq![
                SpecSymbol {
                    name: ast@.children[0].val,
                    sym_type: ast@.children[0].var_type->Some_0,
                    val: ast@.children[1].val,
                    scope: "global"@,
                },
            ]);
        }
        Result::Ok(())
    }

    /// Bind a `for`-loop variable, per [`spec_insert_for_id`]: the node
    /// must be an identifier carrying a declared type.
    pub fn insert_for_id(&mut self, ast: &Ast) -> (res: Result<(), SymbolError>)
        ensures
            match res {
                Result::Ok(()) => spec_insert_for_id(old(self)@, ast@) == Result::<
                    Seq<SpecSymbol>,
                    SymbolError,
                >::Ok(final(self)@),
                Result::Err(e) => spec_insert_for_id(old(self)@, ast@) == Result::<
                    Seq<SpecSymbol>,
                    SymbolError,
                >::Err(e) && final(self)@ == old(self)@,
            },
    {
        proof {
            lemma_view_children(ast);
        }
        if ast.ast_type != AstType::Ident {
            return Result::Err(SymbolError::InvalidAst);
        }
        if self.contains_name(ast.val.as_str()) {
            return Result::Err(SymbolError::Redeclared);
        }
        let ident_type = match &ast.var_type {
            Option::Some(t) => t.clone(),
            Option::None => {
                return Result::Err(SymbolError::MissingType);
            },
        };
        let sym = Symbol {
            name: ast.val.clone(),
            sym_type: ident_type,
            val: ast.val.clone(),
            scope: "for".to_owned(),
        };
        let ghost pre = self@;
        self.table.push(sym);
        proof {
            assert(self@ =~= pre + seq![
                SpecSymbol {
                    name: ast@.val,
                    sym_type: ast@.var_type->Some_0,
                    val: ast@.val,
                    scope: "for"@,
                },
            ]);
        }
        Result::Ok(())
    }

    /// The binding for `key`, if one exists.
    pub fn get(&self, key: &str) -> (res: Option<&Symbol>)
        ensures
            match res {
                Option::Some(s) => lookup(self@, key@) == Option::Some(s@),
                Option::None => lookup(self@, key@) is None,
            },
    {
        let mut i: usize = 0;
        proof {
            assert(self@.skip(0) =~= self@);
        }
        while i < self.table.len()
            invariant
                i <= self.table@.len(),
                lookup(self@, key@) == lookup(self@.skip(i as int), key@),
                forall|j: int| 0 <= j < i ==> self.table@[j]@.name != key@,
            decreases self.table@.len() - i,
        {
            proof {
                assert(self@.skip(i as int)[0] == self.table@[i as int]@);
            }
            if str_eq(self.table[i].name.as_str(), key) {
                return Option::Some(&self.table[i]);
            }
            proof {
                assert(self@.skip(i as int).drop_first() =~= self@.skip(i + 1));
            }
            i = i + 1;
        }
        proof {
            assert(self@.skip(i as int) =~= Seq::<SpecSymbol>::empty());
        }
        Option::None
    }

    /// Whether `key` is bound.
    pub fn contains_name(&self, key: &str) -> (r: bool)
        ensures
            r == (lookup(self@, key@) is Some),
    {
        match self.get(key) {
            Option::Some(_) => true,
            Option::None => false,
        }
    }
}

/// The key/value pairs a pair vector holds, as character sequences.
pub open spec fn pairs_view(v: Seq<(String, String)>) -> Seq<(Seq<char>, Seq<char>)> {
    Seq::new(
        v.len(),
        |i: int|
            if 0 <= i < v.len() {
                (v[i].0@, v[i].1@)
            } else {
                (Seq::<char>::empty(), Seq::<char>::empty())
            },
    )
}

/// What seeding from a key/value mapping does, from pair `i` on: each
/// key becomes a global string-typed binding holding its value; a key
/// already bound is refused.
pub open spec fn spec_seed(
    pv: Seq<(Seq<char>, Seq<char>)>,
    i: int,
    t: Seq<SpecSymbol>,
) -> Result<Seq<SpecSymbol>, SymbolError>
    decreases pv.len() - i,
{
    if i < 0 || i >= pv.len() {
        Result::Ok(t)
    } else if lookup(t, pv[i].0) is Some {
        Result::Err(SymbolError::Redeclared)
    } else {
        spec_seed(
            pv,
            i + 1,
            t + seq![
                SpecSymbol {
                    name: pv[i].0,
                    sym_type: "string"@,
                    val: pv[i].1,
                    scope: "global"@,
                },
            ],
        )
    }
}

/// Seeding from pairwise-distinct keys always succeeds, provided none
/// of them is already bound.
pub proof fn lemma_seed_distinct_ok(pv: Seq<(Seq<char>, Seq<char>)>, i: int, t: Seq<SpecSymbol>)
    requires
        0 <= i <= pv.len(),
        forall|j: int, k: int| 0 <= j < k < pv.len() ==> (#[trigger] pv[j]).0 != (#[trigger] pv[k]).0,
        forall|n: Seq<char>|
            lookup(t, n) is Some ==> exists|j: int| 0 <= j < i && (#[trigger] pv[j]).0 == n,
    ensures
        spec_seed(pv, i, t) is Ok,
    decreases pv.len() - i,
{
    if i < pv.len() {
        if lookup(t, pv[i].0) is Some {
            let j = choose|j: int| 0 <= j < i && pv[j].0 == pv[i].0;
            assert(false);
        }
        let s = SpecSymbol {
            name: pv[i].0,
            sym_type: "string"@,
            val: pv[i].1,
            scope: "global"@,
        };
        let t2 = t + seq![s];
        assert forall|n: Seq<char>| lookup(t2, n) is Some implies exists|j: int|
            0 <= j < i + 1 && (#[trigger] pv[j]).0 == n by {
            lemma_lookup_append(t, s, n);
            if n == s.name {
                assert(pv[i].0 == n);
            } else {
                assert(lookup(t, n) is Some);
            }
        }
        lemma_seed_distinct_ok(pv, i + 1, t2);
    }
}

impl SymbolTable {
    /// A table seeded from an external key/value mapping: each key
    /// becomes a global string-typed binding, per [`spec_seed`].
    pub fn from_existing_map(pairs: &Vec<(String, String)>) -> (r: Result<SymbolTable, SymbolError>)
        ensures
            match r {
                Result::Ok(t) => spec_seed(pairs_view(pairs@), 0, Seq::<SpecSymbol>::empty())
                    == Result::<Seq<SpecSymbol>, SymbolError>::Ok(t@),
                Result::Err(e) => spec_seed(pairs_view(pairs@), 0, Seq::<SpecSymbol>::empty())
                    == Result::<Seq<SpecSymbol>, SymbolError>::Err(e),
            },
    {
        let mut t = SymbolTable::new();
        let ghost pv = pairs_view(pairs@);
        let mut i: usize = 0;
        proof {
            assert(t@ =~= Seq::<SpecSymbol>::empty());
        }
        while i < pairs.len()
            invariant
                i <= pairs@.len(),
                pv == pairs_view(pairs@),
                spec_seed(pv, 0, Seq::<SpecSymbol>::empty()) == spec_seed(pv, i as int, t@),
            decreases pairs@.len() - i,
        {
            let ghost pre = t@;
            if t.contains_name(pairs[i].0.as_str()) {
                return Result::Err(SymbolError::Redeclared);
            }
            let sym = Symbol {
                name: pairs[i].0.clone(),
                sym_type: "string".to_owned(),
                val: pairs[i].1.clone(),
                scope: "global".to_owned(),
            };
            t.table.push(sym);
            i = i + 1;
            proof {
                assert(t@ =~= pre + seq![
                    SpecSymbol {
                        name: pv[i - 1].0,
                        sym_type: "string"@,
                        val: pv[i - 1].1,
                        scope: "global"@,
                    },
                ]);
            }
        }
        Result::Ok(t)
    }

    /// A fresh table holding the same entries.
    pub fn duplicate(&self) -> (t: SymbolTable)
        ensures
            t@ == self@,
    {
        let mut t = SymbolTable { table: Vec::new() };
        let mut i: usize = 0;
        while i < self.table.len()
            invariant
                i <= self.table@.len(),
                t@ == self@.take(i as int),
            decreases self.table@.len() - i,
        {
            let ghost pre = t@;
            let sym = Symbol {
                name: self.table[i].name.clone(),
                sym_type: self.table[i].sym_type.clone(),
                val: self.table[i].val.clone(),
                scope: self.table[i].scope.clone(),
            };
            t.table.push(sym);
            i = i + 1;
            proof {
                assert(t@ =~= pre.push(self@[i - 1]));
                assert(t@ =~= self@.take(i as int));
            }
        }
        proof {
            assert(self@.take(self.table@.len() as int) =~= self@);
        }
        t
    }
}

/// A bound name is found again: looking up the name of an entry just
/// appended yields that entry, and an appended entry does not change
/// what other names resolve to.
pub proof fn lemma_lookup_append(t: Seq<SpecSymbol>, s: SpecSymbol, name: Seq<char>)
    ensures
        lookup(t, s.name) is None ==> lookup(t + seq![s], s.name) == Option::Some(s),
        name != s.name ==> lookup(t + seq![s], name) == lookup(t, name),
    decreases t.len(),
{
    if t.len() == 0 {
        assert((t + seq![s]).drop_first() =~= Seq::<SpecSymbol>::empty());
        assert((t + seq![s])[0] == s);
        assert(lookup(Seq::<SpecSymbol>::empty(), name) is None);
        assert(lookup(t, name) is None);
    } else {
        assert((t + seq![s])[0] == t[0]);
        assert((t + seq![s]).drop_first() =~= t.drop_first() + seq![s]);
        lemma_lookup_append(t.drop_first(), s, name);
    }
}

} // verus!
