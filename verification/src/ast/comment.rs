//! Comments: the text after a `#` up to the end of the line.

use vstd::prelude::*;
use crate::text::chars_of;
use crate::text::string_of_range;

verus! {

/// A comment, without its leading `#`.
#[derive(Clone, Debug, PartialEq, Eq)]
pub struct Comment(pub String);

impl View for Comment {
    type V = Seq<char>;

    open spec fn view(&self) -> Seq<char> {
        self.0@
    }
}

/// Errors that may occur when parsing a `Comment`.
#[derive(Clone, Debug, PartialEq, Eq, Structural)]
pub enum ParseCommentError {
    NoStartingHash,
    ContainsEol,
}

/// Whether `s` holds a line break character.
pub open spec fn has_line_break(s: Seq<char>) -> bool {
    exists|i: int| 0 <= i < s.len() && (s[i] == '\n' || s[i] == '\r')
}

impl Comment {
    /// Parses `#text` into the comment `text`; the text may not hold a line break.
    pub fn from_str(s: &str) -> (r: Result<Comment, ParseCommentError>)
        ensures
            (s@.len() == 0 || s@[0] != '#') ==> r == Err::<Comment, _>(
                ParseCommentError::NoStartingHash,
            ),
            (s@.len() > 0 && s@[0] == '#' && has_line_break(s@)) ==> r == Err::<Comment, _>(
                ParseCommentError::ContainsEol,
            ),
            (s@.len() > 0 && s@[0] == '#' && !has_line_break(s@)) ==> (r matches Ok(c) && c@
                == s@.skip(1)),
    {
        let v = chars_of(s);
        if v.len() == 0 || v[0] != '#' {
            return Err(ParseCommentError::NoStartingHash);
        }
        let mut i: usize = 0;
        while i < v.len()
            invariant
                0 <= i <= v.len(),
                v@ == s@,
                v@.len() > 0,
                v@[0] == '#',
                forall|j: int| 0 <= j < i ==> v@[j] != '\n' && v@[j] != '\r',
            decreases v.len() - i,
        {
            if v[i] == '\n' || v[i] == '\r' {
                return Err(ParseCommentError::ContainsEol);
            }
            i = i + 1;
        }
        let text = string_of_range(v.as_slice(), 1, v.len());
        assert(v@.subrange(1, v@.len() as int) =~= s@.skip(1));
        Ok(Comment(text))
    }

    /// The comment's text.
    pub fn as_str(&self) -> (s: &str)
        ensures
            s@ == self@,
    {
        self.0.as_str()
    }

    /// The comment's text, as `Display` writes it (without the `#`).
    pub fn to_string(&self) -> (s: String)
        ensures
            s@ == self@,
    {
        self.0.clone()
    }
}

} // verus!
