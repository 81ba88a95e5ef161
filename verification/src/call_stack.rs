use vstd::prelude::*;
use crate::location::SourceLocation;
use crate::text::{chars_to_string, push_str_chars, push_dec_chars, spec_dec_chars};

verus! {

/// A call stack item records the executing word's name and the location in
/// the source code from which it was called.  Read-only after creation.
#[derive(Debug)]
pub struct CallItem {
    pub location: SourceLocation,
    pub word: String,
}

impl Clone for CallItem {
    /// Clones keep the item's value.
    fn clone(&self) -> (r: Self)
        ensures
            r == *self,
    {
        CallItem { location: self.location.clone(), word: self.word.clone() }
    }
}

impl CallItem {
    /// Create a new call stack item.
    pub fn new(word: String, location: SourceLocation) -> (r: CallItem)
        ensures
            r.word == word,
            r.location == location,
    {
        CallItem { location, word }
    }

    /// Where in the source code the execution of this word was found.
    pub fn location(&self) -> (r: &SourceLocation)
        ensures
            r == &self.location,
    {
        &self.location
    }

    /// The name of the word being executed.
    pub fn word(&self) -> (r: &String)
        ensures
            r == &self.word,
    {
        &self.word
    }
}

/// The rendering of a source location: the path, then the line and column in
/// parentheses.
pub open spec fn spec_location_chars(loc: SourceLocation) -> Seq<char> {
    loc.path@ + " ("@ + spec_dec_chars(loc.line as nat) + ", "@ + spec_dec_chars(
        loc.column as nat,
    ) + ")"@
}

/// Render a source location as the path, then the line and column in
/// parentheses.
pub fn location_to_string(loc: &SourceLocation) -> (r: String)
    ensures
        r@ == spec_location_chars(*loc),
{
    let mut chars: Vec<char> = Vec::new();
    push_str_chars(loc.path.as_str(), &mut chars);
    push_str_chars(" (", &mut chars);
    push_dec_chars(loc.line as u64, &mut chars);
    push_str_chars(", ", &mut chars);
    push_dec_chars(loc.column as u64, &mut chars);
    push_str_chars(")", &mut chars);
    assert(chars@ =~= spec_location_chars(*loc));
    chars_to_string(&chars)
}

/// The rendering of a call stack item: its location, a colon, and the word's
/// name.
pub open spec fn spec_call_item_chars(item: CallItem) -> Seq<char> {
    spec_location_chars(item.location) + ": "@ + item.word@
}

/// Render a call stack item as its location, a colon, and the word's name.
pub fn call_item_to_string(item: &CallItem) -> (r: String)
    ensures
        r@ == spec_call_item_chars(*item),
{
    let mut chars: Vec<char> = Vec::new();
    let loc = location_to_string(&item.location);
    push_str_chars(loc.as_str(), &mut chars);
    push_str_chars(": ", &mut chars);
    push_str_chars(item.word.as_str(), &mut chars);
    assert(chars@ =~= spec_call_item_chars(*item));
    chars_to_string(&chars)
}

/// The stack of call items currently being executed by the interpreter, used
/// to give scripts a stack trace on errors.
pub type CallStack = Vec<CallItem>;

} // verus!
