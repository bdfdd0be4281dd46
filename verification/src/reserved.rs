//! The fixed set of reserved words: keywords and primitive type names.

use vstd::prelude::*;
use crate::strutil::str_eq;

verus! {

/// Whether `w` is one of the language's reserved words.
pub open spec fn is_reserved_word(w: Seq<char>) -> bool {
    ||| w == "if"@
    ||| w == "let"@
    ||| w == "for"@
    ||| w == "in"@
    ||| w == "int"@
    ||| w == "bool"@
    ||| w == "string"@
}

/// The reserved-word table: the keywords `if`, `let`, `for`, `in` and
/// the type names `int`, `bool`, `string`.
#[derive(Debug)]
pub struct Reserved {
    pub words: Vec<String>,
}

impl Reserved {
    /// Every reserved word, and nothing else.
    pub open spec fn wf(&self) -> bool {
        &&& self.words@.len() == 7
        &&& self.words@[0]@ == "if"@
        &&& self.words@[1]@ == "let"@
        &&& self.words@[2]@ == "for"@
        &&& self.words@[3]@ == "in"@
        &&& self.words@[4]@ == "int"@
        &&& self.words@[5]@ == "bool"@
        &&& self.words@[6]@ == "string"@
    }

    /// The table holding exactly the reserved words.
    pub fn new() -> (r: Reserved)
        ensures
            r.wf(),
    {
        let mut w: Vec<String> = Vec::new();
        w.push("if".to_owned());
        w.push("let".to_owned());
        w.push("for".to_owned());
        w.push("in".to_owned());
        w.push("int".to_owned());
        w.push("bool".to_owned());
        w.push("string".to_owned());
        Reserved { words: w }
    }

    /// Whether `w` is reserved.
    pub fn contains(&self, w: &str) -> (r: bool)
        requires
            self.wf(),
        ensures
            r == is_reserved_word(w@),
    {
        let mut i: usize = 0;
        let mut found = false;
        while i < self.words.len()
            invariant
                self.wf(),
                i <= self.words@.len(),
                found == exists|j: int| 0 <= j < i && self.words@[j]@ == w@,
            decreases self.words@.len() - i,
        {
            if str_eq(self.words[i].as_str(), w) {
                found = true;
                proof {
                    assert(self.words@[i as int]@ == w@);
                }
            }
            i = i + 1;
        }
        proof {
            if found {
                let j = choose|j: int| 0 <= j < 7 && self.words@[j]@ == w@;
                assert(is_reserved_word(w@));
            }
            if is_reserved_word(w@) {
                if w@ == "if"@ {
                    assert(self.words@[0]@ == w@);
                } else if w@ == "let"@ {
                    assert(self.words@[1]@ == w@);
                } else if w@ == "for"@ {
                    assert(self.words@[2]@ == w@);
                } else if w@ == "in"@ {
                    assert(self.words@[3]@ == w@);
                } else if w@ == "int"@ {
                    assert(self.words@[4]@ == w@);
                } else if w@ == "bool"@ {
                    assert(self.words@[5]@ == w@);
                } else {
                    assert(self.words@[6]@ == w@);
                }
            }
        }
        found
    }
}

} // verus!
