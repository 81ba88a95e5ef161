use vstd::prelude::*;
use crate::call_stack::{CallItem, CallStack, call_item_to_string, location_to_string,
    spec_call_item_chars, spec_location_chars};
use crate::location::SourceLocation;
use crate::text::{chars_to_string, push_str_chars};

verus! {

/// The result type used by everything that can fail with a script error.
pub type ScriptResult<T> = Result<T, ScriptError>;

/// Any error that occurs during the scanning, compilation or execution of a
/// script.
#[derive(Debug)]
pub struct ScriptError {
    /// The location in the source code the error occurred, if available.
    pub location: Option<SourceLocation>,

    /// The description of the error.
    pub error: String,

    /// The script's call stack at the time of the error, if available.
    pub call_stack: Option<CallStack>,
}

impl Clone for ScriptError {
    /// Clones keep the error's value.
    fn clone(&self) -> (r: Self)
        ensures
            r.location == self.location,
            r.error == self.error,
            match (self.call_stack, r.call_stack) {
                (Some(a), Some(b)) => a@ == b@,
                (None, None) => true,
                _ => false,
            },
    {
        let location = match &self.location {
            Some(loc) => Some(loc.clone()),
            None => None,
        };
        let call_stack = match &self.call_stack {
            Some(stack) => Some(clone_stack(stack)),
            None => None,
        };
        ScriptError { location, error: self.error.clone(), call_stack }
    }
}

/// Clone a call stack item by item.
pub fn clone_stack(stack: &CallStack) -> (r: CallStack)
    ensures
        r@ == stack@,
{
    let mut out: Vec<CallItem> = Vec::new();
    let mut i: usize = 0;
    while i < stack.len()
        invariant
            i <= stack.len(),
            out@ == stack@.subrange(0, i as int),
        decreases stack.len() - i,
    {
        out.push(stack[i].clone());
        i = i + 1;
        assert(out@ =~= stack@.subrange(0, i as int));
    }
    assert(out@ =~= stack@);
    out
}

impl ScriptError {
    /// Create a new ScriptError.
    pub fn new(
        location: Option<SourceLocation>,
        error: String,
        call_stack: Option<CallStack>,
    ) -> (r: ScriptError)
        ensures
            r.location == location,
            r.error == error,
            r.call_stack == call_stack,
    {
        ScriptError { location, error, call_stack }
    }

    /// Create a new ScriptError and wrap it in an Err.
    pub fn new_as_result<T>(
        location: Option<SourceLocation>,
        error: String,
        call_stack: Option<CallStack>,
    ) -> (r: ScriptResult<T>)
        ensures
            r matches Err(e) && e.location == location && e.error == error && e.call_stack
                == call_stack,
    {
        Err(ScriptError::new(location, error, call_stack))
    }

    /// If available, the location in the source code the error occurred.
    pub fn location(&self) -> (r: &Option<SourceLocation>)
        ensures
            r == &self.location,
    {
        &self.location
    }

    /// The description of the error.
    pub fn error(&self) -> (r: &String)
        ensures
            r == &self.error,
    {
        &self.error
    }

    /// If available, the script's call stack at the time of the error.
    pub fn call_stack(&self) -> (r: &Option<CallStack>)
        ensures
            r == &self.call_stack,
    {
        &self.call_stack
    }

    /// Render the error as its location, a colon and the message, followed by
    /// the call stack, newest frame first.
    pub fn to_display_string(&self) -> (r: String)
        ensures
            r@ == spec_error_chars(*self),
    {
        let mut chars: Vec<char> = Vec::new();
        match &self.location {
            Some(loc) => {
                let loc_str = location_to_string(loc);
                push_str_chars(loc_str.as_str(), &mut chars);
                push_str_chars(": ", &mut chars);
            },
            None => {},
        }
        push_str_chars(self.error.as_str(), &mut chars);
        match &self.call_stack {
            Some(stack) => {
                push_str_chars("\n\nCall stack\n", &mut chars);
                let ghost prefix = chars@;
                let mut i: usize = stack.len();
                while i > 0
                    invariant
                        i <= stack@.len(),
                        chars@ == prefix + spec_call_stack_chars(
                            stack@,
                            stack@.len() as int,
                            i as int,
                        ),
                    decreases i,
                {
                    i = i - 1;
                    push_str_chars("  ", &mut chars);
                    let item = call_item_to_string(&stack[i]);
                    push_str_chars(item.as_str(), &mut chars);
                    push_str_chars("\n", &mut chars);
                    proof {
                        lemma_call_stack_chars_snoc(stack@, stack@.len() as int, i as int);
                    }
                    assert(chars@ =~= prefix + spec_call_stack_chars(
                        stack@,
                        stack@.len() as int,
                        i as int,
                    ));
                }
                assert(chars@ =~= spec_error_chars(*self));
            },
            None => {
                assert(chars@ =~= spec_error_chars(*self));
            },
        }
        chars_to_string(&chars)
    }
}

/// The rendering of one call stack frame as a line of its own.
pub open spec fn spec_call_line_chars(item: CallItem) -> Seq<char> {
    "  "@ + spec_call_item_chars(item) + "\n"@
}

/// The rendering of the call stack frames with indices in `[lo, hi)`, newest
/// (highest index) first, one line per frame.
pub open spec fn spec_call_stack_chars(stack: Seq<CallItem>, hi: int, lo: int) -> Seq<char>
    decreases hi - lo,
{
    if hi <= lo || hi > stack.len() || lo < 0 {
        Seq::empty()
    } else {
        spec_call_line_chars(stack[hi - 1]) + spec_call_stack_chars(stack, hi - 1, lo)
    }
}

/// Rendering one more (older) frame extends the rendered text at its end.
proof fn lemma_call_stack_chars_snoc(stack: Seq<CallItem>, hi: int, lo: int)
    requires
        0 <= lo < hi <= stack.len(),
    ensures
        spec_call_stack_chars(stack, hi, lo) == spec_call_stack_chars(stack, hi, lo + 1)
            + spec_call_line_chars(stack[lo]),
    decreases hi - lo,
{
    if hi == lo + 1 {
        reveal_with_fuel(spec_call_stack_chars, 2);
        assert(spec_call_stack_chars(stack, hi, lo) =~= spec_call_stack_chars(stack, hi, lo + 1)
            + spec_call_line_chars(stack[lo]));
    } else {
        lemma_call_stack_chars_snoc(stack, hi - 1, lo);
        assert(spec_call_stack_chars(stack, hi, lo) == spec_call_line_chars(stack[hi - 1])
            + (spec_call_stack_chars(stack, hi - 1, lo + 1) + spec_call_line_chars(stack[lo])));
        assert(spec_call_stack_chars(stack, hi, lo) =~= (spec_call_line_chars(stack[hi - 1])
            + spec_call_stack_chars(stack, hi - 1, lo + 1)) + spec_call_line_chars(stack[lo]));
        assert(spec_call_stack_chars(stack, hi, lo + 1) == spec_call_line_chars(stack[hi - 1])
            + spec_call_stack_chars(stack, hi - 1, lo + 1));
    }
}

/// The full rendering of a script error: the location and message, then the
/// call stack, newest frame first.
pub open spec fn spec_error_chars(e: ScriptError) -> Seq<char> {
    let head = match e.location {
        Some(loc) => spec_location_chars(loc) + ": "@ + e.error@,
        None => e.error@,
    };
    match e.call_stack {
        Some(stack) => head + "\n\nCall stack\n"@ + spec_call_stack_chars(
            stack@,
            stack@.len() as int,
            0,
        ),
        None => head,
    }
}

} // verus!
