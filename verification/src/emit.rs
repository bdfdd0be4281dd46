//! Low-level HTML text output: raw writes, brackets, quoting,
//! indentation and closing tags, appended to an in-memory buffer.

use vstd::prelude::*;
use vstd::string::StringExecFns;
use crate::strutil::push_char;

verus! {

/// `n` spaces.
pub open spec fn spec_spaces(n: nat) -> Seq<char>
    decreases n,
{
    if n == 0 {
        Seq::<char>::empty()
    } else {
        spec_spaces((n - 1) as nat) + seq![' ']
    }
}

/// The closing tag for an element name: `</name>` and a newline.
pub open spec fn spec_closing_tag(name: Seq<char>) -> Seq<char> {
    seq!['<', '/'] + name + seq!['>', '\n']
}

/// The output writer: every operation appends formatted text to the
/// buffer that [`Emitter::output`] exposes.
pub struct Emitter {
    output: String,
}

impl View for Emitter {
    type V = Seq<char>;

    closed spec fn view(&self) -> Seq<char> {
        self.output@
    }
}

impl Emitter {
    /// An emitter with an empty buffer.
    pub fn new() -> (e: Emitter)
        ensures
            e@ == Seq::<char>::empty(),
    {
        Emitter { output: String::new() }
    }

    /// Everything emitted so far.
    pub fn output(&self) -> (s: &str)
        ensures
            s@ == self@,
    {
        self.output.as_str()
    }

    /// Append raw text.
    pub fn emit(&mut self, output: &str)
        ensures
            final(self)@ == old(self)@ + output@,
    {
        self.output.append(output);
    }

    /// Append `<`.
    pub fn left_angle_bracket(&mut self)
        ensures
            final(self)@ == old(self)@ + seq!['<'],
    {
        push_char(&mut self.output, '<');
    }

    /// Append `>`.
    pub fn right_angle_bracket(&mut self)
        ensures
            final(self)@ == old(self)@ + seq!['>'],
    {
        push_char(&mut self.output, '>');
    }

    /// Append `=`.
    pub fn equals(&mut self)
        ensures
            final(self)@ == old(self)@ + seq!['='],
    {
        push_char(&mut self.output, '=');
    }

    /// Append the closing tag `</tag_value>` and a newline.
    pub fn close_element(&mut self, tag_value: &str)
        ensures
            final(self)@ == old(self)@ + spec_closing_tag(tag_value@),
    {
        push_char(&mut self.output, '<');
        push_char(&mut self.output, '/');
        self.output.append(tag_value);
        push_char(&mut self.output, '>');
        push_char(&mut self.output, '\n');
        proof {
            assert(self@ =~= old(self)@ + spec_closing_tag(tag_value@));
        }
    }

    /// Append `count` spaces: indentation for nesting, or the separator
    /// between attributes.
    pub fn space(&mut self, count: usize)
        ensures
            final(self)@ == old(self)@ + spec_spaces(count as nat),
    {
        let mut i: usize = 0;
        proof {
            assert(old(self)@ + spec_spaces(0) =~= old(self)@);
        }
        while i < count
            invariant
                i <= count,
                self@ == old(self)@ + spec_spaces(i as nat),
            decreases count - i,
        {
            push_char(&mut self.output, ' ');
            i = i + 1;
            proof {
                assert(old(self)@ + spec_spaces((i - 1) as nat) + seq![' '] =~= old(self)@
                    + spec_spaces(i as nat));
            }
        }
    }

    /// Append the value wrapped in double quotes.
    pub fn string(&mut self, str_val: &str)
        ensures
            final(self)@ == old(self)@ + seq!['"'] + str_val@ + seq!['"'],
    {
        push_char(&mut self.output, '"');
        self.output.append(str_val);
        push_char(&mut self.output, '"');
        proof {
            assert(self@ =~= old(self)@ + seq!['"'] + str_val@ + seq!['"']);
        }
    }

    /// Append a newline.
    pub fn newline(&mut self)
        ensures
            final(self)@ == old(self)@ + seq!['\n'],
    {
        push_char(&mut self.output, '\n');
    }
}

} // verus!
