//! A cursor over the characters of a source text that tracks line and column.

use vstd::prelude::*;
use crate::text::{decimal, decimal_text};

verus! {

/// Number of line feeds among the first `pos` characters of `s`.
pub open spec fn newlines_before(s: Seq<char>, pos: int) -> nat
    decreases pos,
{
    if pos <= 0 || pos > s.len() {
        0
    } else if s[pos - 1] == '\n' {
        newlines_before(s, pos - 1) + 1
    } else {
        newlines_before(s, pos - 1)
    }
}

/// Number of characters between the last line feed before `pos` and `pos`.
pub open spec fn chars_since_newline(s: Seq<char>, pos: int) -> nat
    decreases pos,
{
    if pos <= 0 || pos > s.len() {
        0
    } else if s[pos - 1] == '\n' {
        0
    } else {
        chars_since_newline(s, pos - 1) + 1
    }
}

/// The 1-based line of the character at `pos`.
pub open spec fn line_at(s: Seq<char>, pos: int) -> nat {
    newlines_before(s, pos) + 1
}

/// The 1-based column of the character at `pos`.
pub open spec fn col_at(s: Seq<char>, pos: int) -> nat {
    chars_since_newline(s, pos) + 1
}

/// The text of a diagnostic: the message followed by the position.
pub open spec fn located(msg: Seq<char>, line: nat, col: nat) -> Seq<char> {
    msg + " at line "@ + decimal(line) + ", col "@ + decimal(col)
}

/// A text and a cursor in it.
pub struct InputStream {
    pos: usize,
    newlines: usize,
    since_newline: usize,
    input: Vec<char>,
}

impl InputStream {
    /// The characters of the text.
    pub closed spec fn text(&self) -> Seq<char> {
        self.input@
    }

    /// How many characters have been consumed.
    pub closed spec fn pos(&self) -> nat {
        self.pos as nat
    }

    /// The cursor lies within the text and the counters agree with it.
    pub closed spec fn wf(&self) -> bool {
        &&& self.pos <= self.input@.len()
        &&& self.newlines == newlines_before(self.input@, self.pos as int)
        &&& self.since_newline == chars_since_newline(self.input@, self.pos as int)
    }

    /// The 1-based line of the cursor.
    pub open spec fn line(&self) -> nat {
        line_at(self.text(), self.pos() as int)
    }

    /// The 1-based column of the cursor.
    pub open spec fn col(&self) -> nat {
        col_at(self.text(), self.pos() as int)
    }

    /// The character under the cursor, if any.
    pub open spec fn current(&self) -> Option<char> {
        if self.pos() < self.text().len() {
            Some(self.text()[self.pos() as int])
        } else {
            None
        }
    }

    /// The cursor of a well-formed stream lies within its text.
    pub proof fn lemma_cursor_in_text(&self)
        requires
            self.wf(),
        ensures
            self.pos() <= self.text().len(),
    {
    }

    /// A stream over `input`, its cursor before the first character.
    pub fn new(input: String) -> (r: InputStream)
        ensures
            r.wf(),
            r.text() == input@,
            r.pos() == 0,
    {
        let n = input.as_str().unicode_len();
        let mut chars: Vec<char> = Vec::new();
        let mut i: usize = 0;
        while i < n
            invariant
                n == input@.len(),
                i <= n,
                chars@ == input@.subrange(0, i as int),
            decreases n - i,
        {
            chars.push(input.as_str().get_char(i));
            i += 1;
        }
        assert(chars@ == input@);
        InputStream { pos: 0, newlines: 0, since_newline: 0, input: chars }
    }

    /// The character under the cursor, which stays where it is.
    pub fn peek(&self) -> (r: Option<char>)
        requires
            self.wf(),
        ensures
            r == self.current(),
            self.pos() <= self.text().len(),
    {
        if self.pos < self.input.len() {
            Some(self.input[self.pos])
        } else {
            None
        }
    }

    /// The character under the cursor, which moves behind it; at the end of
    /// the text nothing, and the cursor stays.
    pub fn next(&mut self) -> (r: Option<char>)
        requires
            old(self).wf(),
        ensures
            final(self).wf(),
            final(self).text() == old(self).text(),
            r == old(self).current(),
            final(self).pos() == (if r.is_some() { old(self).pos() + 1 } else { old(self).pos() }),
    {
        if self.pos < self.input.len() {
            let c = self.input[self.pos];
            proof {
                lemma_counters_bounded(self.input@, self.pos as int);
            }
            self.pos += 1;
            if c == '\n' {
                self.newlines += 1;
                self.since_newline = 0;
            } else {
                self.since_newline += 1;
            }
            Some(c)
        } else {
            None
        }
    }

    /// Consumes the longest run of characters on which `test` answers `true`
    /// and returns it: `test` accepted every character of the run, and the
    /// run ends at the end of the text or at a character that `test` refused.
    pub fn read_while<F: Fn(&char) -> bool>(&mut self, test: F) -> (r: String)
        requires
            old(self).wf(),
            forall|c: char| call_requires(test, (&c,)),
        ensures
            final(self).wf(),
            final(self).text() == old(self).text(),
            old(self).pos() <= final(self).pos() <= old(self).text().len(),
            r@ == old(self).text().subrange(old(self).pos() as int, final(self).pos() as int),
            forall|i: int|
                old(self).pos() <= i < final(self).pos() ==> call_ensures(
                    test,
                    (&#[trigger] old(self).text()[i],),
                    true,
                ),
            final(self).pos() < old(self).text().len() ==> call_ensures(
                test,
                (&old(self).text()[final(self).pos() as int],),
                false,
            ),
    {
        let mut out = String::new();
        let ghost start = self.pos as int;
        let ghost s = self.input@;
        loop
            invariant
                self.wf(),
                self.input@ == s,
                0 <= start <= self.pos <= s.len(),
                out@ == s.subrange(start, self.pos as int),
                forall|i: int|
                    start <= i < self.pos ==> call_ensures(test, (&#[trigger] s[i],), true),
                forall|c: char| call_requires(test, (&c,)),
            ensures
                self.wf(),
                self.input@ == s,
                0 <= start <= self.pos <= s.len(),
                out@ == s.subrange(start, self.pos as int),
                forall|i: int|
                    start <= i < self.pos ==> call_ensures(test, (&#[trigger] s[i],), true),
                self.pos < s.len() ==> call_ensures(test, (&s[self.pos as int],), false),
            decreases s.len() - self.pos,
        {
            match self.peek() {
                Some(c) => {
                    if test(&c) {
                        self.next();
                        out.push(c);
                        assert(out@ == s.subrange(start, self.pos as int));
                    } else {
                        break;
                    }
                },
                None => {
                    break;
                },
            }
        }
        out
    }

    /// The diagnostic for `msg` at the cursor: `msg`, then the line and the
    /// column.
    pub fn croak(&self, msg: &str) -> (r: String)
        requires
            self.wf(),
        ensures
            r@ == located(msg@, self.line(), self.col()),
    {
        let mut out = String::from_str(msg);
        out.append(" at line ");
        let line = decimal_text(self.newlines as u128 + 1);
        out.append(line.as_str());
        out.append(", col ");
        let col = decimal_text(self.since_newline as u128 + 1);
        out.append(col.as_str());
        out
    }
}

/// Both counters are at most the number of characters consumed.
proof fn lemma_counters_bounded(s: Seq<char>, pos: int)
    requires
        0 <= pos <= s.len(),
    ensures
        newlines_before(s, pos) <= pos,
        chars_since_newline(s, pos) <= pos,
    decreases pos,
{
    if pos > 0 {
        lemma_counters_bounded(s, pos - 1);
    }
}

} // verus!
