//! Names of processes.
use vstd::prelude::*;

use crate::text::chars_of;

verus! {

/// Whether `c` has the Unicode `White_Space` property: the code points
/// that PropList.txt lists for it, U+0009 to U+000D, U+0020, U+0085,
/// U+00A0, U+1680, U+2000 to U+200A, U+2028, U+2029, U+202F, U+205F and
/// U+3000.
pub open spec fn is_white_space(c: char) -> bool {
    let u = c as u32;
    ||| 0x09 <= u <= 0x0d
    ||| u == 0x20
    ||| u == 0x85
    ||| u == 0xa0
    ||| u == 0x1680
    ||| 0x2000 <= u <= 0x200a
    ||| u == 0x2028
    ||| u == 0x2029
    ||| u == 0x202f
    ||| u == 0x205f
    ||| u == 0x3000
}

/// Trusted: calls `char::is_whitespace`, which the standard library
/// documents as returning whether the character has the Unicode
/// `White_Space` property; the contract states that property as the set
/// of code points Unicode assigns it.
#[verifier::external_body]
fn char_is_whitespace(c: char) -> (b: bool)
    ensures
        b == is_white_space(c),
{
    c.is_whitespace()
}

/// Whether some character of `s` is white space.
pub open spec fn has_white_space(s: Seq<char>) -> bool {
    exists|i: int| 0 <= i < s.len() && is_white_space(#[trigger] s[i])
}

/// The name of a process: text without white space between words.
#[derive(Clone, Copy, Debug)]
pub struct ProcessName(&'static str);

impl ProcessName {
    /// The name, or an error when `name` holds any white space.
    pub fn new(name: &'static str) -> (r: Result<ProcessName, &'static str>)
        ensures
            r is Ok <==> !has_white_space(name@),
            r matches Ok(p) ==> p.spec_name() == name@,
            r matches Err(e) ==> e@ == "Process name must not contain whitespace."@,
    {
        let cs = chars_of(name);
        let mut i: usize = 0;
        while i < cs.len()
            invariant
                i <= cs@.len(),
                cs@ == name@,
                forall|k: int| 0 <= k < i ==> !is_white_space(#[trigger] name@[k]),
            decreases cs@.len() - i,
        {
            if char_is_whitespace(cs[i]) {
                return Err("Process name must not contain whitespace.");
            }
            i = i + 1;
        }
        Ok(ProcessName(name))
    }

    pub closed spec fn spec_name(&self) -> Seq<char> {
        self.0@
    }

    pub fn name(&self) -> (s: &'static str)
        ensures
            s@ == self.spec_name(),
    {
        self.0
    }
}

} // verus!
