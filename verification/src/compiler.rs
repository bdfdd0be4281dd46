//! The compiler: one template's whole pipeline, from source text
//! through parsing and generation to the HTML text.

use vstd::prelude::*;
use vstd::string::StringExecFns;
use crate::ast::SpecAst;
use crate::error::Diagnostic;
use crate::gen::{spec_output_loop, Gen, GenError};
use crate::parser::{spec_init_cfg, spec_parse_at, ParseError, Parser};
use crate::symbol_table::{
    lemma_seed_distinct_ok, pairs_view, spec_seed, SpecSymbol, SymbolTable,
};

verus! {

/// What a JSON configuration text holds, as
/// `serde_json::from_str::<BTreeMap<String, String>>` reads it: the
/// object's entries keyed by name, or nothing where the text is not
/// such an object.
pub uninterp spec fn json_config_entries(s: Seq<char>) -> Option<Seq<(Seq<char>, Seq<char>)>>;

/// Relies on serde_json::from_str::<BTreeMap<String, String>>: reads a
/// JSON object whose values are strings; a map's keys are unique, so
/// the entries handed back carry pairwise distinct keys.
#[verifier::external_body]
fn parse_config_json(s: &str) -> (r: Result<Vec<(String, String)>, ()>)
    ensures
        match r {
            Result::Ok(v) => json_config_entries(s@) == Option::Some(pairs_view(v@)) && (forall|
                j: int,
                k: int,
            |
                0 <= j < k < pairs_view(v@).len() ==> (#[trigger] pairs_view(v@)[j]).0 != (
                #[trigger] pairs_view(v@)[k]).0),
            Result::Err(()) => json_config_entries(s@) is None,
        },
{
    match serde_json::from_str::<std::collections::BTreeMap<String, String>>(s) {
        Ok(m) => Ok(m.into_iter().collect()),
        Err(_) => Err(()),
    }
}

/// Why a compilation failed.
#[derive(Debug, PartialEq, Eq, Structural, Clone, Copy)]
pub enum CompileError {
    /// The configuration text is not a JSON object of strings.
    Config,
    /// Parsing failed.
    Parse { err: ParseError },
    /// Generation failed.
    Gen { err: GenError },
}

/// What compiling a template text over a seeded table yields: the
/// parse's outcome, then the generation's, over the template root the
/// parse built.
pub open spec fn spec_compile(input: Seq<char>, table0: Seq<SpecSymbol>) -> Result<
    Seq<char>,
    CompileError,
> {
    match spec_parse_at(input, spec_init_cfg(input, table0)) {
        Result::Err(e) => Result::Err(CompileError::Parse { err: e }),
        Result::Ok((el, pres, cf)) => match spec_output_loop(
            cf.table,
            seq![el] + pres.reverse(),
            0,
        ) {
            Result::Err(e) => Result::Err(CompileError::Gen { err: e }),
            Result::Ok(t) => Result::Ok(t),
        },
    }
}

/// The compiler for one template: its parser (and through it the
/// symbol table) and the name of the file being compiled.
pub struct Compiler {
    /// The template's parser.
    pub parser: Parser,
    /// The name of the file being compiled, for diagnostics.
    pub filename: String,
}

impl Compiler {
    /// A compiler over the template text, with an empty symbol table.
    pub fn new(file_contents: String, filename: String) -> (c: Compiler)
        requires
            file_contents@.len() <= usize::MAX - 2,
        ensures
            c.parser.wf(),
            c.parser.inp() == file_contents@,
            c.parser.cfg() == spec_init_cfg(file_contents@, Seq::<SpecSymbol>::empty()),
            c.parser.root@ == SpecAst::leaf(crate::ast::AstType::Template),
            c.parser.diagnostic.spec_errors() == Seq::<Seq<char>>::empty(),
            c.filename == filename,
    {
        let sym_tab = SymbolTable::new();
        let parser = Parser::new(file_contents, sym_tab);
        Compiler { parser: parser, filename: filename }
    }

    /// A compiler whose symbol table is seeded from a JSON
    /// configuration text: an object of string values whose entries
    /// become global bindings.  A text that is not such an object is
    /// refused.
    pub fn from_config_file(
        file_contents: String,
        filename: String,
        config_file_contents: &str,
    ) -> (r: Result<Compiler, CompileError>)
        requires
            file_contents@.len() <= usize::MAX - 2,
        ensures
            match r {
                Result::Ok(c) => json_config_entries(config_file_contents@) matches Option::Some(
                    pv,
                ) && spec_seed(pv, 0, Seq::<SpecSymbol>::empty()) matches Result::Ok(tb)
                    && c.parser.wf() && c.parser.inp() == file_contents@ && c.parser.cfg()
                    == spec_init_cfg(file_contents@, tb) && c.parser.root@ == SpecAst::leaf(
                    crate::ast::AstType::Template,
                ) && c.parser.diagnostic.spec_errors() == Seq::<Seq<char>>::empty() && c.filename
                    == filename,
                Result::Err(e) => json_config_entries(config_file_contents@) is None && e
                    == CompileError::Config,
            },
    {
        let pairs = match parse_config_json(config_file_contents) {
            Result::Ok(p) => p,
            Result::Err(()) => {
                return Result::Err(CompileError::Config);
            },
        };
        proof {
            lemma_seed_distinct_ok(pairs_view(pairs@), 0, Seq::<SpecSymbol>::empty());
        }
        let sym_tab = match SymbolTable::from_existing_map(&pairs) {
            Result::Ok(t) => t,
            Result::Err(_) => {
                proof {
                    assert(false);
                }
                SymbolTable::new()
            },
        };
        let parser = Parser::new(file_contents, sym_tab);
        Result::Ok(Compiler { parser: parser, filename: filename })
    }

    /// Compile: parse the template (filling the symbol table), then
    /// generate the HTML text, per [`spec_compile`].  The first error
    /// of either phase aborts the compilation.
    pub fn compile(&mut self) -> (r: Result<String, CompileError>)
        requires
            old(self).parser.wf(),
            old(self).parser.root@ == SpecAst::leaf(crate::ast::AstType::Template),
        ensures
            final(self).parser.wf(),
            match r {
                Result::Ok(html) => spec_compile_from(
                    old(self).parser.inp(),
                    old(self).parser.cfg(),
                ) == Result::<Seq<char>, CompileError>::Ok(html@),
                Result::Err(e) => spec_compile_from(
                    old(self).parser.inp(),
                    old(self).parser.cfg(),
                ) == Result::<Seq<char>, CompileError>::Err(e),
            },
    {
        match self.parser.parse() {
            Result::Ok(()) => {},
            Result::Err(e) => {
                return Result::Err(CompileError::Parse { err: e });
            },
        }
        let sym = self.parser.symbol_table.duplicate();
        let mut gen = Gen::new(sym);
        match gen.output(&self.parser.root) {
            Result::Ok(()) => Result::Ok(gen.output_text().to_owned()),
            Result::Err(e) => Result::Err(CompileError::Gen { err: e }),
        }
    }
}

/// What compiling from a parser configuration yields; [`spec_compile`]
/// is this from a fresh parser.
pub open spec fn spec_compile_from(input: Seq<char>, c: crate::parser::PCfg) -> Result<
    Seq<char>,
    CompileError,
> {
    match spec_parse_at(input, c) {
        Result::Err(e) => Result::Err(CompileError::Parse { err: e }),
        Result::Ok((el, pres, cf)) => match spec_output_loop(
            cf.table,
            seq![el] + pres.reverse(),
            0,
        ) {
            Result::Err(e) => Result::Err(CompileError::Gen { err: e }),
            Result::Ok(t) => Result::Ok(t),
        },
    }
}

/// Compiling a fresh compiler is compiling its input over its table.
pub proof fn lemma_spec_compile_unfold(input: Seq<char>, table0: Seq<SpecSymbol>)
    ensures
        spec_compile(input, table0) == spec_compile_from(input, spec_init_cfg(input, table0)),
{
}

} // verus!
