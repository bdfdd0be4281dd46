//! Diagnostics: errors and warnings collected during parsing and
//! generation, checked at phase boundaries.

use vstd::prelude::*;
use vstd::string::StringExecFns;
use crate::strutil::{append_decimal, spec_decimal};
use crate::token::Token;

verus! {

/// A diagnostic line for a parse error at a source position:
/// `tank: Parse error at line <L>, pos <P> - <message>`.
pub open spec fn spec_parse_err_msg(err: Seq<char>, line: nat, pos: nat) -> Seq<char> {
    "tank: Parse error at line "@ + spec_decimal(line) + ", pos "@ + spec_decimal(pos) + " - "@
        + err
}

/// A collector of error and warning messages.
pub trait Diagnostic {
    /// The error messages collected so far.
    spec fn spec_errors(&self) -> Seq<Seq<char>>;

    /// The warning messages collected so far.
    spec fn spec_warnings(&self) -> Seq<Seq<char>>;

    /// Whether any error was collected: an error is fatal for the
    /// compilation once its phase ends.
    fn is_err(&self) -> (r: bool)
        ensures
            r == (self.spec_errors().len() != 0),
    ;

    /// Whether any warning was collected.
    fn is_warn(&self) -> (r: bool)
        ensures
            r == (self.spec_warnings().len() != 0),
    ;

    /// Whether anything at all was collected.
    fn has_diag(&self) -> (r: bool)
        ensures
            r == (self.spec_errors().len() != 0 || self.spec_warnings().len() != 0),
    ;

    /// Collect one error message.
    fn new_err(&mut self, err_message: &str)
        ensures
            final(self).spec_errors() == old(self).spec_errors().push(err_message@),
            final(self).spec_warnings() == old(self).spec_warnings(),
    ;
}

/// The messages a `Vec<String>` holds, as character sequences.
pub open spec fn messages_view(v: Seq<String>) -> Seq<Seq<char>> {
    Seq::new(v.len(), |i: int| if 0 <= i < v.len() { v[i]@ } else { Seq::<char>::empty() })
}

/// The parser's diagnostic collector.
pub struct ParseDiagnostic {
    errors: Vec<String>,
    warnings: Vec<String>,
}

impl ParseDiagnostic {
    /// An empty collector.
    pub fn new() -> (d: ParseDiagnostic)
        ensures
            d.spec_errors() == Seq::<Seq<char>>::empty(),
            d.spec_warnings() == Seq::<Seq<char>>::empty(),
    {
        let d = ParseDiagnostic { errors: Vec::new(), warnings: Vec::new() };
        proof {
            assert(d.spec_errors() =~= Seq::<Seq<char>>::empty());
            assert(d.spec_warnings() =~= Seq::<Seq<char>>::empty());
        }
        d
    }

    /// Collect a parse error with the position of the token it was
    /// found at, in the form
    /// `tank: Parse error at line <L>, pos <P> - <message>`.
    pub fn parse_err(&mut self, err: &String, token: &Token)
        ensures
            final(self).spec_errors() == old(self).spec_errors().push(
                spec_parse_err_msg(err@, token.line_num as nat, token.char_pos as nat),
            ),
            final(self).spec_warnings() == old(self).spec_warnings(),
    {
        let mut msg = String::new();
        msg.append("tank: Parse error at line ");
        append_decimal(&mut msg, token.line_num);
        msg.append(", pos ");
        append_decimal(&mut msg, token.char_pos);
        msg.append(" - ");
        msg.append(err.as_str());
        let ghost pre = self.errors@;
        self.errors.push(msg);
        proof {
            assert(msg@ =~= spec_parse_err_msg(err@, token.line_num as nat, token.char_pos as nat));
            assert(self.spec_errors() =~= old(self).spec_errors().push(
                spec_parse_err_msg(err@, token.line_num as nat, token.char_pos as nat),
            ));
        }
    }

    /// The collected error messages.
    pub fn errors(&self) -> (v: &Vec<String>)
        ensures
            messages_view(v@) == self.spec_errors(),
    {
        &self.errors
    }

    /// The collected warning messages.
    pub fn warnings(&self) -> (v: &Vec<String>)
        ensures
            messages_view(v@) == self.spec_warnings(),
    {
        &self.warnings
    }
}

impl Diagnostic for ParseDiagnostic {
    closed spec fn spec_errors(&self) -> Seq<Seq<char>> {
        messages_view(self.errors@)
    }

    closed spec fn spec_warnings(&self) -> Seq<Seq<char>> {
        messages_view(self.warnings@)
    }

    fn is_err(&self) -> (r: bool) {
        self.errors.len() != 0
    }

    fn is_warn(&self) -> (r: bool) {
        self.warnings.len() != 0
    }

    fn has_diag(&self) -> (r: bool) {
        self.errors.len() != 0 || self.warnings.len() != 0
    }

    fn new_err(&mut self, err_message: &str) {
        let ghost pre = self.errors@;
        self.errors.push(err_message.to_owned());
        proof {
            assert(self.spec_errors() =~= old(self).spec_errors().push(err_message@));
            assert(self.spec_warnings() =~= old(self).spec_warnings());
        }
    }
}

/// The generator's diagnostic collector.
pub struct GenDiagnostic {
    errors: Vec<String>,
    warnings: Vec<String>,
}

impl GenDiagnostic {
    /// An empty collector.
    pub fn new() -> (d: GenDiagnostic)
        ensures
            d.spec_errors() == Seq::<Seq<char>>::empty(),
            d.spec_warnings() == Seq::<Seq<char>>::empty(),
    {
        let d = GenDiagnostic { errors: Vec::new(), warnings: Vec::new() };
        proof {
            assert(d.spec_errors() =~= Seq::<Seq<char>>::empty());
            assert(d.spec_warnings() =~= Seq::<Seq<char>>::empty());
        }
        d
    }

    /// The collected error messages.
    pub fn errors(&self) -> (v: &Vec<String>)
        ensures
            messages_view(v@) == self.spec_errors(),
    {
        &self.errors
    }

    /// The collected warning messages.
    pub fn warnings(&self) -> (v: &Vec<String>)
        ensures
            messages_view(v@) == self.spec_warnings(),
    {
        &self.warnings
    }
}

impl Diagnostic for GenDiagnostic {
    closed spec fn spec_errors(&self) -> Seq<Seq<char>> {
        messages_view(self.errors@)
    }

    closed spec fn spec_warnings(&self) -> Seq<Seq<char>> {
        messages_view(self.warnings@)
    }

    fn is_err(&self) -> (r: bool) {
        self.errors.len() != 0
    }

    fn is_warn(&self) -> (r: bool) {
        self.warnings.len() != 0
    }

    fn has_diag(&self) -> (r: bool) {
        self.errors.len() != 0 || self.warnings.len() != 0
    }

    fn new_err(&mut self, err_message: &str) {
        let ghost pre = self.errors@;
        self.errors.push(err_message.to_owned());
        proof {
            assert(self.spec_errors() =~= old(self).spec_errors().push(err_message@));
            assert(self.spec_warnings() =~= old(self).spec_warnings());
        }
    }
}

} // verus!
