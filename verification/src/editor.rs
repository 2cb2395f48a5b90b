//! The session's line editor: the characters typed since the last submit.
//!
//! Appending rejects text that starts with a control character, backspace
//! drops the last character of a non-empty line, and submitting hands the
//! line out while clearing the buffer.

use vstd::prelude::*;
use vstd::string::{StrSliceExecFns, StringExecFns};

verus! {

/// A control character: the two ranges the terminal treats as
/// non-printing, the low controls and delete through the high controls.
pub open spec fn is_ctrl(c: char) -> bool {
    (c as u32) < 0x20 || (0x7f <= c as u32 && c as u32 <= 0x9f)
}

/// Whether an event string starts with a printable character, which is
/// what makes the editor take it.
pub open spec fn printable_start(s: Seq<char>) -> bool {
    s.len() > 0 && !is_ctrl(s[0])
}

/// The accumulated input line of one session.
pub struct LineEditor {
    pub line: String,
}

impl LineEditor {
    /// An editor with an empty line.
    pub fn new() -> (r: LineEditor)
        ensures
            r.line@ == Seq::<char>::empty(),
    {
        LineEditor { line: String::new() }
    }

    /// Append `s` to the line, unless it starts with a control character,
    /// in which case the line is left exactly as it was.  Says whether the
    /// text was taken (and so should be echoed).
    pub fn append(&mut self, s: &str) -> (appended: bool)
        ensures
            appended == printable_start(s@),
            appended ==> final(self).line@ == old(self).line@ + s@,
            !appended ==> final(self).line@ == old(self).line@,
    {
        let n = s.unicode_len();
        if n == 0 {
            return false;
        }
        let c = s.get_char(0);
        if is_ctrl_char(c) {
            false
        } else {
            self.line.append(s);
            true
        }
    }

    /// Drop the last character of the line; on an empty line this is a
    /// no-op.  Says whether a character was removed.
    pub fn backspace(&mut self) -> (removed: bool)
        ensures
            removed == (old(self).line@.len() > 0),
            removed ==> final(self).line@ == old(self).line@.drop_last(),
            !removed ==> final(self).line@ == old(self).line@,
    {
        let n = self.line.as_str().unicode_len();
        if n == 0 {
            false
        } else {
            let shorter = self.line.as_str().substring_char(0, n - 1).to_owned();
            proof {
                assert(shorter@ =~= self.line@.drop_last());
            }
            self.line = shorter;
            true
        }
    }

    /// Hand out the accumulated line and leave the editor empty.
    pub fn take_and_clear(&mut self) -> (r: String)
        ensures
            r@ == take_spec(old(self).line@).0,
            final(self).line@ == take_spec(old(self).line@).1,
    {
        let taken = self.line.clone();
        self.line = String::new();
        taken
    }

    /// Forget the accumulated line.
    pub fn clear(&mut self)
        ensures
            final(self).line@ == Seq::<char>::empty(),
    {
        self.line = String::new();
    }
}

/// Whether `c` is one of the control characters the editor rejects.
pub fn is_ctrl_char(c: char) -> (r: bool)
    ensures
        r == is_ctrl(c),
{
    let n = c as u32;
    n < 0x20 || (0x7f <= n && n <= 0x9f)
}

/// What submitting does to the editor, as a pure state transition: the
/// line handed out, and the line the editor keeps afterwards.
pub open spec fn take_spec(line: Seq<char>) -> (Seq<char>, Seq<char>) {
    (line, Seq::<char>::empty())
}

/// Submitting twice in a row yields the empty line the second time,
/// whatever the line was: the first submit leaves the editor empty, and
/// the second hands that emptiness out.
pub proof fn lemma_take_twice_empty(line: Seq<char>)
    ensures
        take_spec(take_spec(line).1).0 == Seq::<char>::empty(),
{
}

} // verus!
