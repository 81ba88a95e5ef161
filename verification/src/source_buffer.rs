use vstd::prelude::*;
use crate::location::SourceLocation;
use crate::text::str_to_chars;

verus! {

/// How a location moves over one character: a new line resets the column and
/// advances the line, anything else advances the column.  The counters
/// saturate at the machine limit rather than wrap.
pub open spec fn spec_advance_location(loc: SourceLocation, c: char) -> SourceLocation {
    if c == '\n' {
        SourceLocation {
            path: loc.path,
            line: if loc.line < usize::MAX {
                (loc.line + 1) as usize
            } else {
                loc.line
            },
            column: 1,
        }
    } else {
        SourceLocation {
            path: loc.path,
            line: loc.line,
            column: if loc.column < usize::MAX {
                (loc.column + 1) as usize
            } else {
                loc.column
            },
        }
    }
}

/// A buffer for scanning source code.  It acts as a forward-only cursor over
/// the characters of the source while keeping track of the line and column the
/// cursor has reached.
pub struct SourceBuffer {
    /// The characters of the source code being processed.
    pub chars: Vec<char>,

    /// How many characters have been consumed so far.
    pub pos: usize,

    /// The logical location of the cursor in the source code.
    pub location: SourceLocation,
}

impl SourceBuffer {
    /// The next character, if the cursor has not reached the end.
    pub open spec fn spec_peek(&self) -> Option<char> {
        if self.pos < self.chars@.len() {
            Some(self.chars@[self.pos as int])
        } else {
            None
        }
    }

    /// The cursor never runs past the end of the source.
    pub open spec fn wf(&self) -> bool {
        self.pos <= self.chars@.len()
    }

    /// Create a new SourceBuffer for the source code found at the given path.
    /// The characters of the source are copied into the buffer.
    pub fn new(path: &str, source: &str) -> (r: SourceBuffer)
        ensures
            r.chars@ == source@,
            r.pos == 0,
            r.location.line == 1,
            r.location.column == 1,
            r.location.path@ == path@,
            r.wf(),
    {
        SourceBuffer {
            chars: str_to_chars(source),
            pos: 0,
            location: SourceLocation::new_from_path(path),
        }
    }

    /// The location the cursor is at in the source code being processed.
    pub fn location(&self) -> (r: &SourceLocation)
        ensures
            r == &self.location,
    {
        &self.location
    }

    /// Take a peek at the next character without consuming it.
    pub fn peek_next(&self) -> (r: Option<char>)
        ensures
            r == self.spec_peek(),
    {
        if self.pos < self.chars.len() {
            Some(self.chars[self.pos])
        } else {
            None
        }
    }

    /// Get and consume the next character, advancing the tracked location.
    pub fn next_char(&mut self) -> (r: Option<char>)
        requires
            old(self).wf(),
        ensures
            final(self).wf(),
            r == old(self).spec_peek(),
            final(self).chars == old(self).chars,
            match r {
                Some(c) => final(self).pos == old(self).pos + 1 && final(self).location
                    == spec_advance_location(old(self).location, c),
                None => *final(self) == *old(self),
            },
    {
        if self.pos < self.chars.len() {
            let c = self.chars[self.pos];
            self.pos = self.pos + 1;
            self.increment_location(c);
            Some(c)
        } else {
            None
        }
    }

    /// Advance the tracked location over one consumed character: one column
    /// for a regular character, a fresh column on the next line for a new
    /// line character.
    pub fn increment_location(&mut self, next: char)
        ensures
            final(self).chars == old(self).chars,
            final(self).pos == old(self).pos,
            final(self).location == spec_advance_location(old(self).location, next),
    {
        if next == '\n' {
            if self.location.line < usize::MAX {
                self.location.line = self.location.line + 1;
            }
            self.location.column = 1;
        } else {
            if self.location.column < usize::MAX {
                self.location.column = self.location.column + 1;
            }
        }
    }
}

} // verus!
