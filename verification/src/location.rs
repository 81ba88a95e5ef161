use vstd::prelude::*;

verus! {

/// The location in the source code where a token was found.  Used throughout
/// the interpreter for error reporting.
#[derive(Debug, PartialEq, Eq)]
pub struct SourceLocation {
    /// Path of the source file, or a tag such as a repl marker.
    pub path: String,

    /// The 1 based line number.
    pub line: usize,

    /// The 1 based column number.
    pub column: usize,
}

impl Clone for SourceLocation {
    /// Clones keep the location's value.
    fn clone(&self) -> (r: Self)
        ensures
            r == *self,
    {
        SourceLocation { path: self.path.clone(), line: self.line, column: self.column }
    }
}

/// Two locations are the same place: the same path text, line and column.
pub open spec fn spec_location_eq(a: SourceLocation, b: SourceLocation) -> bool {
    a.path@ == b.path@ && a.line == b.line && a.column == b.column
}

/// Two optional locations agree under spec_location_eq.
pub open spec fn spec_opt_location_eq(a: Option<SourceLocation>, b: Option<SourceLocation>) -> bool {
    match (a, b) {
        (Some(x), Some(y)) => spec_location_eq(x, y),
        (None, None) => true,
        _ => false,
    }
}

impl SourceLocation {
    /// Create a new SourceLocation with default values.
    pub fn new() -> (r: SourceLocation)
        ensures
            r.path@ == "unspecified"@,
            r.line == 1,
            r.column == 1,
    {
        SourceLocation { path: String::from_str("unspecified"), line: 1, column: 1 }
    }

    /// Create a new SourceLocation at the start of the given source path.
    pub fn new_from_path(path: &str) -> (r: SourceLocation)
        ensures
            r.path@ == path@,
            r.line == 1,
            r.column == 1,
    {
        SourceLocation { path: String::from_str(path), line: 1, column: 1 }
    }

    /// Create a new SourceLocation with all of the needed information.
    pub fn new_from_info(path: &str, line: usize, column: usize) -> (r: SourceLocation)
        ensures
            r.path@ == path@,
            r.line == line,
            r.column == column,
    {
        SourceLocation { path: String::from_str(path), line, column }
    }

    /// The path to the source code or a meaningful description of it.
    pub fn path(&self) -> (r: &String)
        ensures
            r == &self.path,
    {
        &self.path
    }

    /// The 1 based line number in the source code.
    pub fn line(&self) -> (r: usize)
        ensures
            r == self.line,
    {
        self.line
    }

    /// The 1 based column number in the source code.
    pub fn column(&self) -> (r: usize)
        ensures
            r == self.column,
    {
        self.column
    }
}

} // verus!
