use vstd::prelude::*;
use crate::call_stack::{CallItem, CallStack};
use crate::code::{ByteCode, Instruction, Op};
use crate::compilation::CodeConstructor;
use crate::contextual_data::ContextualData;
use crate::contextual_list::ContextualList;
use crate::dictionary::{Dictionary, WordContext, WordInfo, WordRuntime, WordType, WordVisibility};
use crate::error::{ScriptError, ScriptResult};
use crate::location::SourceLocation;
use crate::store::ValueStore;
use crate::tokenizing::Token;
use crate::value::{Value, spec_bool_val, spec_int_val, spec_is_numeric, spec_is_stringable,
    spec_string_val};
use crate::words::NativeWord;

verus! {

/// How deep nested word calls may go before the interpreter gives up with a
/// script error instead of running out of machine stack.
pub const CALL_DEPTH_LIMIT: u64 = 256;

/// How many instructions one invocation of the bytecode loop may execute
/// before the interpreter reports a runaway script.
pub const STEP_LIMIT: u64 = 0x10000000;

/// What executes when a word runs.  A handler carries no environment beyond
/// what stands here, so the dictionary stays a plain value.
pub enum Handler {
    /// A word built into the runtime.
    Native(NativeWord),

    /// A scripted word: its bytecode, and whether the interpreter wraps the
    /// run in a context of its own.
    Scripted(WordContext, ByteCode),

    /// A word that pushes a deep clone of a fixed value: the accessor of a
    /// variable's index, or a constant.
    PushValue(Value),

    /// A word that creates a new instance of the structure definition at the
    /// given store index.
    StructNew(usize),

    /// A word that pops a structure and pushes the field at the given
    /// position.
    StructRead(usize),

    /// A word that pops a structure, then a value, and writes the field at
    /// the given position.
    StructWrite(usize),

    /// A word that pops a variable index holding a structure and pushes the
    /// field at the given position.
    StructVarRead(usize),

    /// A word that pops a variable index holding a structure, then a value,
    /// and writes the field at the given position.
    StructVarWrite(usize),
}

/// Two handlers do the same thing: the same kind, with the same payload,
/// comparing scripted bodies by their instructions.
pub open spec fn spec_handler_eq(a: Handler, b: Handler) -> bool {
    match (a, b) {
        (Handler::Native(x), Handler::Native(y)) => x == y,
        (Handler::Scripted(c1, k1), Handler::Scripted(c2, k2)) => c1 == c2 && k1@ == k2@,
        (Handler::PushValue(x), Handler::PushValue(y)) => x == y,
        (Handler::StructNew(x), Handler::StructNew(y)) => x == y,
        (Handler::StructRead(x), Handler::StructRead(y)) => x == y,
        (Handler::StructWrite(x), Handler::StructWrite(y)) => x == y,
        (Handler::StructVarRead(x), Handler::StructVarRead(y)) => x == y,
        (Handler::StructVarWrite(x), Handler::StructVarWrite(y)) => x == y,
        _ => false,
    }
}

impl Clone for Handler {
    /// Clones keep what the handler does.
    fn clone(&self) -> (r: Self)
        ensures
            spec_handler_eq(r, *self),
    {
        match self {
            Handler::Native(w) => Handler::Native(*w),
            Handler::Scripted(context, code) => Handler::Scripted(
                *context,
                crate::code::clone_code(code),
            ),
            Handler::PushValue(v) => Handler::PushValue(v.clone()),
            Handler::StructNew(i) => Handler::StructNew(*i),
            Handler::StructRead(i) => Handler::StructRead(*i),
            Handler::StructWrite(i) => Handler::StructWrite(*i),
            Handler::StructVarRead(i) => Handler::StructVarRead(*i),
            Handler::StructVarWrite(i) => Handler::StructVarWrite(*i),
        }
    }
}

/// A word's executable entry: its name, where it was registered, and what
/// runs when it executes.
pub struct WordHandlerInfo {
    /// The name of the word.
    pub name: String,

    /// Where the word was registered, in script or native code.
    pub location: SourceLocation,

    /// What runs when the word executes.
    pub handler: Handler,
}

impl Clone for WordHandlerInfo {
    /// Clones keep the entry, with the handler doing the same thing.
    fn clone(&self) -> (r: Self)
        ensures
            r.name == self.name,
            r.location == self.location,
            spec_handler_eq(r.handler, self.handler),
    {
        WordHandlerInfo {
            name: self.name.clone(),
            location: self.location.clone(),
            handler: self.handler.clone(),
        }
    }
}

impl WordHandlerInfo {
    /// Create a new word handler entry.
    pub fn new(name: String, location: SourceLocation, handler: Handler) -> (r: WordHandlerInfo)
        ensures
            r.name == name,
            r.location == location,
            r.handler == handler,
    {
        WordHandlerInfo { name, location, handler }
    }

    /// The name of the word itself.
    pub fn name(&self) -> (r: &String)
        ensures
            r == &self.name,
    {
        &self.name
    }

    /// Where this word was registered.
    pub fn location(&self) -> (r: &SourceLocation)
        ensures
            r == &self.location,
    {
        &self.location
    }
}

/// The list of word handlers, parallel to the dictionary.  A word's handler
/// index is its absolute position here and never changes.
pub type WordList = ContextualList<WordHandlerInfo>;

/// The list of variables.  A variable is an anonymous slot identified by its
/// stable index; releasing a context drops the slots created within it.
pub type VariableList = ContextualList<Value>;

/// The data stack.
pub type ValueStack = Vec<Value>;

/// The list of structure definitions visible per context.  The definitions
/// themselves live in the store, so an instance outlives its definition's
/// visibility.
pub type DataDefinitionList = ContextualList<usize>;

/// The interpreter: the data stack, the dictionary and handler table, the
/// variables, the structure definitions, the store of reference-typed
/// objects, and the stack of compilation contexts.
pub struct SorthInterpreter {
    /// The deepest the data stack has been.
    pub max_depth: usize,

    /// The data stack.
    pub stack: ValueStack,

    /// The last location execution has reached in the source code.
    pub current_location: Option<SourceLocation>,

    /// The call stack, for error reporting.
    pub call_stack: CallStack,

    /// The word dictionary.
    pub dictionary: Dictionary,

    /// The word handler table.
    pub word_handlers: WordList,

    /// The variable list.
    pub variables: VariableList,

    /// The structure definitions visible per context.
    pub data_definitions: DataDefinitionList,

    /// The store of reference-typed objects.
    pub store: ValueStore,

    /// The stack of compilation contexts.
    pub constructors: Vec<CodeConstructor>,

    /// The counter behind generated unique strings.
    pub unique_counter: u64,

    /// The counted loops in flight: for each, its limit, its current index,
    /// and the stack depth at entry, restored when the loop ends.
    pub loop_indices: Vec<(i64, i64, usize)>,
}

impl SorthInterpreter {
    /// The shape the interpreter keeps: well-formed containers whose context
    /// stacks move in lockstep, and well-formed compilation contexts.
    pub open spec fn wf(&self) -> bool {
        &&& self.dictionary.wf()
        &&& self.word_handlers.wf()
        &&& self.variables.wf()
        &&& self.data_definitions.wf()
        &&& self.dictionary.stack@.len() == self.word_handlers.frame_starts@.len()
        &&& self.dictionary.stack@.len() == self.variables.frame_starts@.len()
        &&& self.dictionary.stack@.len() == self.data_definitions.frame_starts@.len()
        &&& forall|k: int|
            0 <= k < self.constructors@.len() ==> (#[trigger] self.constructors@[k]).wf()
    }

    /// How many contexts are open.
    pub open spec fn spec_context_count(&self) -> int {
        self.dictionary.stack@.len() as int
    }

    /// Everything but the data stack, the tracked location and the depth
    /// high-water mark is unchanged between the two states.
    pub open spec fn same_but_stack(pre: SorthInterpreter, post: SorthInterpreter) -> bool {
        &&& post.call_stack == pre.call_stack
        &&& post.dictionary == pre.dictionary
        &&& post.word_handlers == pre.word_handlers
        &&& post.variables == pre.variables
        &&& post.data_definitions == pre.data_definitions
        &&& post.store == pre.store
        &&& post.constructors == pre.constructors
        &&& post.unique_counter == pre.unique_counter
    }

    /// Create a new interpreter: empty stack, empty containers with their
    /// permanent root contexts, an empty store, and no compilation context.
    pub fn new() -> (r: SorthInterpreter)
        ensures
            r.wf(),
            r.stack@.len() == 0,
            r.spec_context_count() == 1,
            r.variables.items@.len() == 0,
            r.constructors@.len() == 0,
            r.dictionary.view_stack() =~= seq![Seq::<(String, WordInfo)>::empty()],
    {
        SorthInterpreter {
            max_depth: 0,
            stack: Vec::new(),
            current_location: None,
            call_stack: Vec::new(),
            dictionary: Dictionary::new(),
            word_handlers: ContextualList::new(),
            variables: ContextualList::new(),
            data_definitions: ContextualList::new(),
            store: ValueStore::new(),
            constructors: Vec::new(),
            unique_counter: 0,
            loop_indices: Vec::new(),
        }
    }

    /// Raise a script error at the current location, with the call stack
    /// captured for the report.
    pub fn script_error_here(&self, message: &str) -> (r: ScriptError)
        ensures
            r.error@ == message@,
    {
        let location = match &self.current_location {
            Some(loc) => Some(loc.clone()),
            None => None,
        };
        ScriptError::new(location, message.to_owned(), Some(crate::error::clone_stack(
            &self.call_stack,
        )))
    }

    /// What has the maximum depth the stack reached so far?
    pub fn stack_max_depth(&self) -> (r: usize)
        ensures
            r == self.max_depth,
    {
        self.max_depth
    }

    /// The full data stack, bottom first.
    pub fn stack(&self) -> (r: &ValueStack)
        ensures
            r == &self.stack,
    {
        &self.stack
    }

    /// Push a value onto the data stack.
    pub fn push(&mut self, value: Value)
        ensures
            final(self).stack@ == old(self).stack@.push(value),
            Self::same_but_stack(*old(self), *final(self)),
            final(self).current_location == old(self).current_location,
            old(self).wf() ==> final(self).wf(),
    {
        self.stack.push(value);
        if self.stack.len() > self.max_depth {
            self.max_depth = self.stack.len();
        }
    }

    /// Pop the top value from the data stack, or fail with a stack underflow
    /// error on an empty stack.
    pub fn pop(&mut self) -> (r: ScriptResult<Value>)
        ensures
            Self::same_but_stack(*old(self), *final(self)),
            final(self).current_location == old(self).current_location,
            final(self).max_depth == old(self).max_depth,
            old(self).wf() ==> final(self).wf(),
            match r {
                Ok(v) => old(self).stack@.len() > 0 && v == old(self).stack@.last() && final(self).stack@ == old(self).stack@.drop_last(),
                Err(_) => old(self).stack@.len() == 0 && final(self).stack@ == old(self).stack@,
            },
    {
        match self.stack.pop() {
            Some(value) => Ok(value),
            None => Err(self.script_error_here("Stack underflow.")),
        }
    }

    /// Pop the top value and read it as an integer.  The value is consumed
    /// even when it is not numeric.
    pub fn pop_as_int(&mut self) -> (r: ScriptResult<i64>)
        ensures
            Self::same_but_stack(*old(self), *final(self)),
            final(self).max_depth == old(self).max_depth,
            old(self).wf() ==> final(self).wf(),
            match r {
                Ok(n) => old(self).stack@.len() > 0 && spec_is_numeric(old(self).stack@.last())
                    && n == spec_int_val(old(self).stack@.last()) && final(self).stack@ == old(self).stack@.drop_last(),
                Err(_) => old(self).stack@.len() == 0 || !spec_is_numeric(old(self).stack@.last()),
            },
    {
        let value = self.pop()?;
        if !value.is_numeric() {
            return Err(self.script_error_here("Expected numeric value."));
        }
        Ok(value.get_int_val())
    }

    /// Pop the top value and read it as a boolean; any value converts.
    pub fn pop_as_bool(&mut self) -> (r: ScriptResult<bool>)
        ensures
            Self::same_but_stack(*old(self), *final(self)),
            final(self).max_depth == old(self).max_depth,
            old(self).wf() ==> final(self).wf(),
            match r {
                Ok(b) => old(self).stack@.len() > 0 && b == spec_bool_val(old(self).stack@.last())
                    && final(self).stack@ == old(self).stack@.drop_last(),
                Err(_) => old(self).stack@.len() == 0 && final(self).stack@ == old(self).stack@,
            },
    {
        let value = self.pop()?;
        Ok(value.get_bool_val())
    }

    /// Pop the top value and read it as a string.  The value is consumed even
    /// when it is not stringable.
    pub fn pop_as_string(&mut self) -> (r: ScriptResult<String>)
        ensures
            Self::same_but_stack(*old(self), *final(self)),
            final(self).max_depth == old(self).max_depth,
            old(self).wf() ==> final(self).wf(),
            match r {
                Ok(s) => old(self).stack@.len() > 0 && spec_is_stringable(old(self).stack@.last())
                    && s@ == spec_string_val(old(self).stack@.last()) && final(self).stack@ == old(self).stack@.drop_last(),
                Err(_) => old(self).stack@.len() == 0 || !spec_is_stringable(
                    old(self).stack@.last(),
                ),
            },
    {
        let value = self.pop()?;
        if !value.is_stringable() {
            return Err(self.script_error_here("Expected a string value."));
        }
        Ok(value.get_string_val())
    }

    /// Pop the top value and read it as a non-negative index.
    pub fn pop_as_usize(&mut self) -> (r: ScriptResult<usize>)
        ensures
            Self::same_but_stack(*old(self), *final(self)),
            final(self).max_depth == old(self).max_depth,
            old(self).wf() ==> final(self).wf(),
            match r {
                Ok(n) => old(self).stack@.len() > 0 && spec_is_numeric(old(self).stack@.last())
                    && spec_int_val(old(self).stack@.last()) >= 0 && n == spec_int_val(
                    old(self).stack@.last(),
                ) && final(self).stack@ == old(self).stack@.drop_last(),
                Err(_) => old(self).stack@.len() == 0 || !spec_is_numeric(old(self).stack@.last())
                    || spec_int_val(old(self).stack@.last()) < 0 || spec_int_val(
                    old(self).stack@.last(),
                ) > usize::MAX,
            },
    {
        let n = self.pop_as_int()?;
        if n < 0 || (n as u64) > (usize::MAX as u64) {
            return Err(self.script_error_here("Expected a non-negative index."));
        }
        Ok(n as usize)
    }

    /// Remove the value at the given depth from the top of the stack and
    /// return it; depth zero is the top itself.
    pub fn pick(&mut self, index: usize) -> (r: ScriptResult<Value>)
        ensures
            Self::same_but_stack(*old(self), *final(self)),
            final(self).max_depth == old(self).max_depth,
            old(self).wf() ==> final(self).wf(),
            match r {
                Ok(v) => old(self).stack@.len() > index && v == old(self).stack@[old(self).stack@.len() - 1 - index] && final(self).stack@ == old(self).stack@.remove(
                    old(self).stack@.len() - 1 - index,
                ),
                Err(_) => old(self).stack@.len() <= index && final(self).stack@ == old(self).stack@,
            },
    {
        if index >= self.stack.len() {
            return Err(self.script_error_here("Stack underflow."));
        }
        let position = self.stack.len() - 1 - index;
        let value = self.stack.remove(position);
        Ok(value)
    }

    /// Pop the top value and insert it back at the given depth from the top.
    pub fn push_to(&mut self, index: usize) -> (r: ScriptResult<()>)
        ensures
            Self::same_but_stack(*old(self), *final(self)),
            final(self).max_depth == old(self).max_depth,
            old(self).wf() ==> final(self).wf(),
            match r {
                Ok(_) => old(self).stack@.len() > 0 && index < old(self).stack@.len() && final(self).stack@ == old(self).stack@.drop_last().insert(
                    old(self).stack@.len() - 1 - index,
                    old(self).stack@.last(),
                ),
                Err(_) => (old(self).stack@.len() == 0 || index >= old(self).stack@.len())
                    && final(self).stack@ == old(self).stack@,
            },
    {
        if self.stack.len() == 0 || index >= self.stack.len() {
            return Err(self.script_error_here("Stack underflow."));
        }
        let value = match self.stack.pop() {
            Some(v) => v,
            None => {
                return Err(self.script_error_here("Stack underflow."));
            },
        };
        let position = self.stack.len() - index;
        self.stack.insert(position, value);
        Ok(())
    }

    /// Open a new context on every contextual container, in lockstep.
    pub fn mark_context(&mut self)
        requires
            old(self).wf(),
        ensures
            final(self).wf(),
            final(self).spec_context_count() == old(self).spec_context_count() + 1,
            final(self).stack == old(self).stack,
            final(self).store == old(self).store,
            final(self).constructors == old(self).constructors,
            final(self).dictionary.view_stack() == old(self).dictionary.view_stack().push(
                Seq::<(String, WordInfo)>::empty(),
            ),
            final(self).variables.items == old(self).variables.items,
            final(self).word_handlers.items == old(self).word_handlers.items,
            final(self).data_definitions.items == old(self).data_definitions.items,
            final(self).call_stack == old(self).call_stack,
            final(self).current_location == old(self).current_location,
    {
        self.dictionary.mark_context();
        self.word_handlers.mark_context();
        self.data_definitions.mark_context();
        self.variables.mark_context();
    }

    /// Whether a context besides the permanent root is open.
    pub open spec fn can_release(&self) -> bool {
        self.spec_context_count() >= 2
    }

    /// Release the current context on every contextual container, in
    /// lockstep, dropping the words, variables and definitions added within
    /// it.
    pub fn release_context(&mut self)
        requires
            old(self).wf(),
            old(self).can_release(),
        ensures
            final(self).wf(),
            final(self).spec_context_count() == old(self).spec_context_count() - 1,
            final(self).stack == old(self).stack,
            final(self).store == old(self).store,
            final(self).constructors == old(self).constructors,
            final(self).dictionary.view_stack() == old(self).dictionary.view_stack().drop_last(),
            final(self).variables.items@ == old(self).variables.items@.take(
                old(self).variables.frame_starts@.last() as int,
            ),
            final(self).call_stack == old(self).call_stack,
            final(self).current_location == old(self).current_location,
    {
        self.dictionary.release_context();
        self.word_handlers.release_context();
        self.data_definitions.release_context();
        self.variables.release_context();
    }

    /// How many contexts are open, the permanent root included.
    pub fn context_count(&self) -> (r: usize)
        ensures
            r == self.spec_context_count(),
    {
        self.dictionary.context_count()
    }

    /// The current list of variables.
    pub fn variables(&self) -> (r: &VariableList)
        ensures
            r == &self.variables,
    {
        &self.variables
    }

    /// The word dictionary.
    pub fn dictionary(&self) -> (r: &Dictionary)
        ensures
            r == &self.dictionary,
    {
        &self.dictionary
    }

    /// The structure definitions visible per context.
    pub fn structure_definitions(&self) -> (r: &DataDefinitionList)
        ensures
            r == &self.data_definitions,
    {
        &self.data_definitions
    }

    /// If set, the location execution has reached in the source code.
    pub fn current_location(&self) -> (r: &Option<SourceLocation>)
        ensures
            r == &self.current_location,
    {
        &self.current_location
    }

    /// Add a new word to the dictionary, registering its handler and giving
    /// it the next handler index.
    pub fn add_word(
        &mut self,
        file: &str,
        line: usize,
        column: usize,
        name: String,
        handler: Handler,
        description: String,
        signature: String,
        runtime: WordRuntime,
        visibility: WordVisibility,
        word_type: WordType,
    )
        requires
            old(self).wf(),
        ensures
            final(self).wf(),
            final(self).spec_context_count() == old(self).spec_context_count(),
            final(self).stack == old(self).stack,
            final(self).store == old(self).store,
            final(self).constructors == old(self).constructors,
            final(self).call_stack == old(self).call_stack,
            final(self).current_location == old(self).current_location,
            final(self).variables.items == old(self).variables.items,
            final(self).data_definitions.items == old(self).data_definitions.items,
            final(self).word_handlers.items@ == old(self).word_handlers.items@.push(
                WordHandlerInfo {
                    name: name,
                    location: final(self).word_handlers.items@.last().location,
                    handler: handler,
                },
            ),
            ({
                let info = final(self).dictionary.spec_lookup(name@);
                info matches Some(w) && w.name == name && w.runtime == runtime && w.visibility
                    == visibility && w.word_type == word_type && w.handler_index == old(self).word_handlers.items@.len() && final(self).word_handlers.items@[
                    w.handler_index as int
                ].handler == handler
            }),
            forall|n: Seq<char>|
                n != name@ ==> #[trigger] final(self).dictionary.spec_lookup(n) == old(self).dictionary.spec_lookup(n),
    {
        let location = SourceLocation::new_from_info(file, line, column);
        let mut word_info = WordInfo::new(location.clone());
        let info = WordHandlerInfo::new(name.clone(), location, handler);
        let index = self.word_handlers.insert(info);
        word_info.name = name.clone();
        word_info.description = description;
        word_info.signature = signature;
        word_info.runtime = runtime;
        word_info.visibility = visibility;
        word_info.word_type = word_type;
        word_info.handler_index = index;
        self.dictionary.insert(name, word_info);
    }

    /// Find a word in the dictionary by name.
    pub fn find_word(&self, word: &str) -> (r: Option<&WordInfo>)
        requires
            self.wf(),
        ensures
            match r {
                Some(info) => self.dictionary.spec_lookup(word@) == Some(*info),
                None => self.dictionary.spec_lookup(word@) is None,
            },
    {
        self.dictionary.try_get(word)
    }

    /// The word handler entry at the given handler index.
    pub fn word_handler_info(&self, index: usize) -> (r: Option<&WordHandlerInfo>)
        ensures
            match r {
                Some(info) => index < self.word_handlers.items@.len() && *info
                    == self.word_handlers.items@[index as int],
                None => index >= self.word_handlers.items@.len(),
            },
    {
        if index >= self.word_handlers.len() {
            return None;
        }
        Some(self.word_handlers.get(index))
    }

    /// The script's call stack.
    pub fn call_stack(&self) -> (r: &CallStack)
        ensures
            r == &self.call_stack,
    {
        &self.call_stack
    }

    /// Push a new frame onto the call stack.
    pub fn call_stack_push(&mut self, name: String, location: SourceLocation)
        ensures
            final(self).call_stack@ == old(self).call_stack@.push(
                CallItem { location: location, word: name },
            ),
            final(self).stack == old(self).stack,
            old(self).wf() ==> final(self).wf(),
            final(self).spec_context_count() == old(self).spec_context_count(),
            final(self).dictionary == old(self).dictionary,
            final(self).word_handlers == old(self).word_handlers,
            final(self).variables == old(self).variables,
            final(self).data_definitions == old(self).data_definitions,
            final(self).store == old(self).store,
            final(self).constructors == old(self).constructors,
            final(self).current_location == old(self).current_location,
    {
        self.call_stack.push(CallItem::new(name, location));
    }

    /// Pop the newest frame from the call stack.
    pub fn call_stack_pop(&mut self) -> (r: ScriptResult<()>)
        ensures
            final(self).stack == old(self).stack,
            old(self).wf() ==> final(self).wf(),
            final(self).spec_context_count() == old(self).spec_context_count(),
            final(self).dictionary == old(self).dictionary,
            final(self).word_handlers == old(self).word_handlers,
            final(self).variables == old(self).variables,
            final(self).data_definitions == old(self).data_definitions,
            final(self).store == old(self).store,
            final(self).constructors == old(self).constructors,
            final(self).current_location == old(self).current_location,
            match r {
                Ok(_) => old(self).call_stack@.len() > 0 && final(self).call_stack@ == old(self).call_stack@.drop_last(),
                Err(_) => old(self).call_stack@.len() == 0 && final(self).call_stack@ == old(self).call_stack@,
            },
    {
        if self.call_stack.len() == 0 {
            return Err(self.script_error_here("Call stack underflow."));
        }
        let _ = self.call_stack.pop();
        Ok(())
    }
}

/// The depth to which values are deep cloned; nesting beyond it is reported
/// as a script error rather than followed forever through a cyclic value.
pub const CLONE_DEPTH: u64 = 64;

/// The depth to which values are compared; nesting beyond it is reported as
/// a script error.
pub const EQ_DEPTH: u64 = 64;

impl SorthInterpreter {
    /// The execution frame every instruction keeps: a well-formed
    /// interpreter whose open context count is back where it started.
    pub open spec fn frame_ok(pre: SorthInterpreter, post: SorthInterpreter) -> bool {
        post.wf() && post.spec_context_count() == pre.spec_context_count()
    }

    /// Define a variable: reserve a fresh slot in the current context and
    /// synthesize a word of the variable's name that pushes the slot's index.
    pub fn define_variable(&mut self, value: &Value) -> (r: ScriptResult<()>)
        requires
            old(self).wf(),
        ensures
            Self::frame_ok(*old(self), *final(self)),
            final(self).stack@ == old(self).stack@,
            match r {
                Ok(_) => spec_is_stringable(*value) && final(self).variables.items@ == old(self).variables.items@.push(Value::Nothing) && (final(self).dictionary.spec_lookup(
                    spec_string_val(*value),
                ) matches Some(w) && w.handler_index < final(self).word_handlers.items@.len()
                    && final(self).word_handlers.items@[w.handler_index as int].handler
                    == Handler::PushValue(Value::Int(old(self).variables.items@.len() as i64))),
                Err(_) => !spec_is_stringable(*value) || old(self).variables.items@.len()
                    > 0x7fffffffffffffff,
            },
    {
        if !value.is_stringable() {
            return Err(self.script_error_here("Invalid variable name."));
        }
        let name = value.get_string_val();
        let index = self.variables.insert(Value::Nothing);
        if (index as u64) > 0x7fffffffffffffffu64 {
            return Err(self.script_error_here("Variable list exhausted."));
        }
        self.add_word(
            "variable",
            1,
            1,
            name,
            Handler::PushValue(Value::Int(index as i64)),
            String::from_str("Access the index for a variable."),
            String::from_str(" -- variable_index"),
            WordRuntime::Normal,
            WordVisibility::Visible,
            WordType::Native,
        );
        Ok(())
    }

    /// Define a constant: pop its value and synthesize a word of the given
    /// name that pushes a deep clone of that value.
    pub fn define_constant(&mut self, value: &Value) -> (r: ScriptResult<()>)
        requires
            old(self).wf(),
        ensures
            Self::frame_ok(*old(self), *final(self)),
            match r {
                Ok(_) => spec_is_stringable(*value) && old(self).stack@.len() > 0 && final(self).stack@ == old(self).stack@.drop_last() && (final(self).dictionary.spec_lookup(
                    spec_string_val(*value),
                ) matches Some(w) && w.handler_index < final(self).word_handlers.items@.len()
                    && final(self).word_handlers.items@[w.handler_index as int].handler
                    == Handler::PushValue(old(self).stack@.last())),
                Err(_) => !spec_is_stringable(*value) || old(self).stack@.len() == 0,
            },
    {
        if !value.is_stringable() {
            return Err(self.script_error_here("Invalid constant name."));
        }
        let name = value.get_string_val();
        let constant = self.pop()?;
        self.add_word(
            "constant",
            1,
            1,
            name,
            Handler::PushValue(constant),
            String::from_str("Access the value of a constant."),
            String::from_str(" -- constant_value"),
            WordRuntime::Normal,
            WordVisibility::Visible,
            WordType::Native,
        );
        Ok(())
    }

    /// Read a variable: pop its index and push the slot's value.
    pub fn read_variable(&mut self) -> (r: ScriptResult<()>)
        requires
            old(self).wf(),
        ensures
            Self::frame_ok(*old(self), *final(self)),
            final(self).variables == old(self).variables,
            match r {
                Ok(_) => old(self).stack@.len() > 0 && spec_is_numeric(old(self).stack@.last())
                    && 0 <= spec_int_val(old(self).stack@.last()) < old(self).variables.items@.len() && final(self).stack@ == old(self).stack@.drop_last().push(
                    old(self).variables.items@[spec_int_val(old(self).stack@.last()) as int],
                ),
                Err(_) => old(self).stack@.len() == 0 || !spec_is_numeric(old(self).stack@.last())
                    || !(0 <= spec_int_val(old(self).stack@.last()) < old(self).variables.items@.len()) || spec_int_val(old(self).stack@.last()) > usize::MAX,
            },
    {
        let index = self.pop_as_usize()?;
        if index >= self.variables.len() {
            return Err(self.script_error_here("Read index out of range of the variable list."));
        }
        let value = self.variables.get(index).clone();
        self.push(value);
        Ok(())
    }

    /// Write a variable: pop its index, pop a value, and store the value in
    /// the slot.
    pub fn write_variable(&mut self) -> (r: ScriptResult<()>)
        requires
            old(self).wf(),
        ensures
            Self::frame_ok(*old(self), *final(self)),
            match r {
                Ok(_) => old(self).stack@.len() >= 2 && spec_is_numeric(old(self).stack@.last())
                    && 0 <= spec_int_val(old(self).stack@.last()) < old(self).variables.items@.len() && final(self).stack@ == old(self).stack@.drop_last().drop_last() && final(self).variables.items@ == old(self).variables.items@.update(
                    spec_int_val(old(self).stack@.last()) as int,
                    old(self).stack@[old(self).stack@.len() - 2],
                ),
                Err(_) => old(self).stack@.len() < 2 || !spec_is_numeric(old(self).stack@.last())
                    || !(0 <= spec_int_val(old(self).stack@.last()) < old(self).variables.items@.len()) || spec_int_val(old(self).stack@.last()) > usize::MAX,
            },
    {
        let index = self.pop_as_usize()?;
        let value = self.pop()?;
        if index >= self.variables.len() {
            return Err(self.script_error_here("Write index out of range of the variable list."));
        }
        self.variables.set(index, value);
        Ok(())
    }

    /// Push a deep clone of a constant value, so that executing code can
    /// never mutate the literal embedded in the program.
    pub fn push_constant_value(&mut self, value: &Value) -> (r: ScriptResult<()>)
        requires
            old(self).wf(),
        ensures
            Self::frame_ok(*old(self), *final(self)),
            crate::store::spec_store_extends(final(self).store@, old(self).store@),
            match r {
                Ok(_) => final(self).stack@.len() == old(self).stack@.len() + 1 && final(self).stack@.drop_last() == old(self).stack@ && crate::store::spec_clone_rel(
                    final(self).store@,
                    *value,
                    final(self).store@,
                    final(self).stack@.last(),
                    CLONE_DEPTH as nat,
                ) && crate::store::spec_fresh_ref(old(self).store@, final(self).stack@.last()),
                Err(_) => final(self).stack@ == old(self).stack@,
            },
    {
        let cloned = match self.store.deep_clone(value, CLONE_DEPTH) {
            Some(c) => c,
            None => {
                return Err(self.script_error_here(
                    "Could not clone a constant value: a reference is dead or the value nests too deeply.",
                ));
            },
        };
        self.push(cloned);
        Ok(())
    }

    /// The absolute instruction index a relative jump operand names from the
    /// given instruction.
    pub fn absolute_index(&self, pc: usize, code_len: usize, operand: &Value) -> (r: ScriptResult<
        usize,
    >)
        ensures
            match r {
                Ok(t) => spec_is_numeric(*operand) && t == pc + spec_int_val(*operand) && t
                    <= code_len,
                Err(_) => !spec_is_numeric(*operand) || pc + spec_int_val(*operand) < 0 || pc
                    + spec_int_val(*operand) > code_len || pc > 0x7fffffffffffffff || code_len
                    > 0x7fffffffffffffff,
            },
    {
        if !operand.is_numeric() {
            return Err(self.script_error_here("Invalid jump target operand."));
        }
        let rel = operand.get_int_val();
        if pc as u64 > 0x7fffffffffffffffu64 || code_len as u64 > 0x7fffffffffffffffu64 {
            return Err(self.script_error_here("Code block too large."));
        }
        let target = (pc as i128) + (rel as i128);
        if target < 0 || target > (code_len as i128) {
            return Err(self.script_error_here("Jump target out of range."));
        }
        Ok(target as usize)
    }

    /// Execute a word by whatever the value names: a word name, a word token,
    /// or a handler index.
    pub fn execute_value(&mut self, value: &Value, depth: u64) -> (r: ScriptResult<()>)
        requires
            old(self).wf(),
        ensures
            Self::frame_ok(*old(self), *final(self)),
        decreases depth, 4int, 0int,
    {
        if depth == 0 {
            return Err(self.script_error_here("Call depth exceeded."));
        }
        let location = match &self.current_location {
            Some(loc) => loc.clone(),
            None => SourceLocation::new(),
        };
        match value {
            Value::String(word_name) => {
                let name = word_name.clone();
                self.execute_word_named(&location, name.as_str(), depth)
            },
            Value::Token(token) => {
                match token {
                    Token::Word(token_location, word_name) => {
                        let loc = token_location.clone();
                        let name = word_name.clone();
                        self.execute_word_named(&loc, name.as_str(), depth)
                    },
                    _ => Err(self.script_error_here("Token is not executable.")),
                }
            },
            Value::Int(index) => {
                if *index < 0 || (*index as u64) > (usize::MAX as u64) {
                    return Err(self.script_error_here("Word handler index out of range."));
                }
                let i = *index as usize;
                self.execute_word_index(&location, i, depth)
            },
            _ => Err(self.script_error_here("Value is not executable.")),
        }
    }

    /// Find and execute a word by name.
    pub fn execute_word_named(&mut self, location: &SourceLocation, word: &str, depth: u64) -> (r:
        ScriptResult<()>)
        requires
            old(self).wf(),
        ensures
            Self::frame_ok(*old(self), *final(self)),
        decreases depth, 3int, 0int,
    {
        if depth == 0 {
            return Err(self.script_error_here("Call depth exceeded."));
        }
        let info = match self.find_word(word) {
            Some(w) => w.clone(),
            None => {
                return Err(self.script_error_here("Word not found."));
            },
        };
        self.execute_word(location, &info, depth)
    }

    /// Execute a word through its dictionary entry.
    pub fn execute_word(&mut self, location: &SourceLocation, word: &WordInfo, depth: u64) -> (r:
        ScriptResult<()>)
        requires
            old(self).wf(),
        ensures
            Self::frame_ok(*old(self), *final(self)),
        decreases depth, 2int, 0int,
    {
        if depth == 0 {
            return Err(self.script_error_here("Call depth exceeded."));
        }
        self.execute_word_index(location, word.handler_index, depth)
    }

    /// Execute a word by its handler index.
    pub fn execute_word_index(&mut self, location: &SourceLocation, index: usize, depth: u64) -> (
        r: ScriptResult<()>)
        requires
            old(self).wf(),
        ensures
            Self::frame_ok(*old(self), *final(self)),
        decreases depth, 1int, 0int,
    {
        if depth == 0 {
            return Err(self.script_error_here("Call depth exceeded."));
        }
        let info = match self.word_handler_info(index) {
            Some(i) => i.clone(),
            None => {
                return Err(self.script_error_here("Word handler index not found."));
            },
        };
        self.current_location = Some(location.clone());
        self.call_stack_push(info.name.clone(), location.clone());
        let result = self.run_handler(info.name.as_str(), info.handler, depth);
        let _ = self.call_stack.pop();
        result
    }

    /// Run a word's handler.
    pub fn run_handler(&mut self, name: &str, handler: Handler, depth: u64) -> (r: ScriptResult<
        (),
    >)
        requires
            old(self).wf(),
        ensures
            Self::frame_ok(*old(self), *final(self)),
            depth > 0 ==> (handler matches Handler::Native(word)
                ==> crate::words::spec_native_effect(word, *old(self), *final(self), r is Ok)),
            depth > 0 && handler is PushValue ==> crate::store::spec_store_extends(
                final(self).store@,
                old(self).store@,
            ) && match r {
                Ok(_) => (handler matches Handler::PushValue(value) && final(self).stack@.len()
                    == old(self).stack@.len() + 1 && final(self).stack@.drop_last() == old(self).stack@ && crate::store::spec_clone_rel(
                    final(self).store@,
                    value,
                    final(self).store@,
                    final(self).stack@.last(),
                    CLONE_DEPTH as nat,
                ) && crate::store::spec_fresh_ref(old(self).store@, final(self).stack@.last())),
                Err(_) => final(self).stack@ == old(self).stack@,
            },
            depth > 0 ==> (handler matches Handler::StructNew(definition_index) ==> (
            crate::store::spec_store_extends(final(self).store@, old(self).store@) && (
            definition_index >= old(self).store@.definitions.len() ==> r is Err) && (r is Ok
                ==> definition_index < old(self).store@.definitions.len() && final(self).stack@.len() == old(self).stack@.len() + 1 && final(self).stack@.drop_last() == old(self).stack@ && (final(self).stack@.last() matches Value::DataObject(j) && j < final(self).store@.objects.len() && final(self).store@.objects[j as int].definition_index
                == definition_index && final(self).store@.objects[j as int].fields@.len() == old(self).store@.definitions[definition_index as int].defaults@.len())))),
            depth > 0 ==> (handler matches Handler::StructRead(field) ==> ((r is Ok <==> old(self).stack@.len() > 0 && (old(self).stack@.last() matches Value::DataObject(i) && i < old(self).store@.objects.len() && field < old(self).store@.objects[i as int].fields@.len()))
                && (r is Ok ==> final(self).store == old(self).store && (old(self).stack@.last() matches Value::DataObject(i) && final(self).stack@ == old(self).stack@.drop_last().push(old(self).store@.objects[i as int].fields@[field as int]))))),
            depth > 0 ==> (handler matches Handler::StructWrite(field) ==> ((r is Ok <==> old(self).stack@.len() >= 2 && (old(self).stack@.last() matches Value::DataObject(i) && i < old(self).store@.objects.len() && field < old(self).store@.objects[i as int].fields@.len()))
                && (r is Ok ==> final(self).stack@ == old(self).stack@.drop_last().drop_last() && (
            old(self).stack@.last() matches Value::DataObject(i) && final(self).store@.objects[i as int].fields@ == old(self).store@.objects[i as int].fields@.update(
                field as int,
                old(self).stack@[old(self).stack@.len() - 2],
            ))))),
            depth > 0 ==> (handler matches Handler::StructVarRead(field) ==> ((r is Ok <==> old(self).stack@.len() > 0 && spec_is_numeric(old(self).stack@.last()) && 0 <= spec_int_val(old(self).stack@.last()) < old(self).variables.items@.len() && spec_int_val(old(self).stack@.last()) <= usize::MAX && (old(self).variables.items@[spec_int_val(old(self).stack@.last()) as int] matches Value::DataObject(
                i,
            ) && i < old(self).store@.objects.len() && field < old(self).store@.objects[i as int].fields@.len())) && (r is Ok ==> final(self).store == old(self).store && (old(self).variables.items@[spec_int_val(old(self).stack@.last()) as int] matches Value::DataObject(
                i,
            ) && final(self).stack@ == old(self).stack@.drop_last().push(
                old(self).store@.objects[i as int].fields@[field as int],
            ))))),
            depth > 0 ==> (handler matches Handler::StructVarWrite(field) ==> ((r is Ok <==> old(self).stack@.len() >= 2 && spec_is_numeric(old(self).stack@.last()) && 0 <= spec_int_val(old(self).stack@.last()) < old(self).variables.items@.len() && spec_int_val(old(self).stack@.last()) <= usize::MAX && (old(self).variables.items@[spec_int_val(old(self).stack@.last()) as int] matches Value::DataObject(
                i,
            ) && i < old(self).store@.objects.len() && field < old(self).store@.objects[i as int].fields@.len())) && (r is Ok ==> final(self).stack@ == old(self).stack@.drop_last().drop_last() && (old(self).variables.items@[spec_int_val(old(self).stack@.last()) as int] matches Value::DataObject(
                i,
            ) && final(self).store@.objects[i as int].fields@ == old(self).store@.objects[
                i as int
            ].fields@.update(field as int, old(self).stack@[old(self).stack@.len() - 2]))))),
        decreases depth, 0int, 3int,
    {
        if depth == 0 {
            return Err(self.script_error_here("Call depth exceeded."));
        }
        match handler {
            Handler::Native(word) => crate::words::run_native(self, word, depth),
            Handler::Scripted(context, code) => {
                if matches!(context, WordContext::Managed) {
                    self.mark_context();
                    let result = self.execute_code(name, &code, depth - 1);
                    self.release_context();
                    result
                } else {
                    self.execute_code(name, &code, depth - 1)
                }
            },
            Handler::PushValue(value) => self.push_constant_value(&value),
            Handler::StructNew(definition_index) => self.struct_new(definition_index),
            Handler::StructRead(field) => self.struct_read(field),
            Handler::StructWrite(field) => self.struct_write(field),
            Handler::StructVarRead(field) => self.struct_var_read(field),
            Handler::StructVarWrite(field) => self.struct_var_write(field),
        }
    }

    /// Create a new instance of a structure definition, with fields deep
    /// cloned from the definition's defaults, and push it.
    pub fn struct_new(&mut self, definition_index: usize) -> (r: ScriptResult<()>)
        requires
            old(self).wf(),
        ensures
            Self::frame_ok(*old(self), *final(self)),
            definition_index >= old(self).store@.definitions.len() ==> r is Err,
            r is Ok ==> definition_index < old(self).store@.definitions.len() && final(self).stack@.len() == old(self).stack@.len() + 1 && final(self).stack@.drop_last() == old(self).stack@ && (final(self).stack@.last() matches Value::DataObject(j) && j < final(self).store@.objects.len() && final(self).store@.objects[j as int].definition_index
                == definition_index && final(self).store@.objects[j as int].fields@.len() == old(self).store@.definitions[definition_index as int].defaults@.len()),
            crate::store::spec_store_extends(final(self).store@, old(self).store@),
    {
        if definition_index >= self.store.definitions.len() {
            proof {
                crate::store::lemma_extend_same(self.store@);
            }
            return Err(self.script_error_here("Structure definition not found."));
        }
        let defaults = crate::store::clone_values(&self.store.definitions[definition_index].defaults);
        let ghost defaults_len = defaults@.len();
        proof {
            crate::store::lemma_extend_same(self.store@);
        }
        let mut fields: Vec<Value> = Vec::new();
        let mut i: usize = 0;
        while i < defaults.len()
            invariant
                self.wf(),
                self.spec_context_count() == old(self).spec_context_count(),
                self.stack == old(self).stack,
                defaults@.len() == defaults_len,
                fields@.len() == i,
                i <= defaults@.len(),
                crate::store::spec_store_extends(self.store@, old(self).store@),
                old(self).store@.definitions.len() > definition_index,
            decreases defaults@.len() - i,
        {
            let ghost s_before = self.store@;
            let cloned = match self.store.deep_clone(&defaults[i], CLONE_DEPTH) {
                Some(c) => c,
                None => {
                    proof {
                        crate::store::lemma_extends_trans(
                            self.store@,
                            s_before,
                            old(self).store@,
                        );
                    }
                    return Err(self.script_error_here("Could not clone a field default."));
                },
            };
            proof {
                crate::store::lemma_extends_trans(self.store@, s_before, old(self).store@);
            }
            fields.push(cloned);
            i = i + 1;
        }
        let object = crate::store::DataObject { definition_index, fields };
        let ghost s_filled = self.store@;
        let index = self.store.alloc_object(object);
        proof {
            crate::store::lemma_extends_trans(self.store@, s_filled, old(self).store@);
            crate::store::lemma_extends_reads(self.store@, old(self).store@);
        }
        self.push(Value::DataObject(index));
        proof {
            assert(self.stack@.drop_last() =~= old(self).stack@);
        }
        Ok(())
    }

    /// Pop a structure and push the field at the given position.
    pub fn struct_read(&mut self, field: usize) -> (r: ScriptResult<()>)
        requires
            old(self).wf(),
        ensures
            Self::frame_ok(*old(self), *final(self)),
            r is Ok <==> old(self).stack@.len() > 0 && (old(self).stack@.last() matches Value::DataObject(i) && i < old(self).store@.objects.len()
                && field < old(self).store@.objects[i as int].fields@.len()),
            r is Ok ==> final(self).store == old(self).store && (old(self).stack@.last() matches Value::DataObject(i) && final(self).stack@ == old(self).stack@.drop_last().push(old(self).store@.objects[i as int].fields@[field as int])),
    {
        let value = self.pop()?;
        let object_index = match value {
            Value::DataObject(i) => i,
            _ => {
                return Err(self.script_error_here("Expected a data object."));
            },
        };
        if object_index >= self.store.objects.len() {
            return Err(self.script_error_here("Data object reference is dead."));
        }
        if field >= self.store.objects[object_index].fields.len() {
            return Err(self.script_error_here("Field index out of range for structure."));
        }
        let read = self.store.objects[object_index].fields[field].clone();
        self.push(read);
        Ok(())
    }

    /// Pop a structure, pop a value, and write the field at the given
    /// position.
    pub fn struct_write(&mut self, field: usize) -> (r: ScriptResult<()>)
        requires
            old(self).wf(),
        ensures
            Self::frame_ok(*old(self), *final(self)),
            r is Ok <==> old(self).stack@.len() >= 2 && (old(self).stack@.last() matches Value::DataObject(i) && i < old(self).store@.objects.len()
                && field < old(self).store@.objects[i as int].fields@.len()),
            r is Ok ==> final(self).stack@ == old(self).stack@.drop_last().drop_last() && (old(self).stack@.last() matches Value::DataObject(i) && final(self).store@.objects[i as int].fields@ == old(self).store@.objects[
                i as int
            ].fields@.update(field as int, old(self).stack@[old(self).stack@.len() - 2])),
    {
        let value = self.pop()?;
        let object_index = match value {
            Value::DataObject(i) => i,
            _ => {
                return Err(self.script_error_here("Expected a data object."));
            },
        };
        let new_value = self.pop()?;
        self.store_object_field(object_index, field, new_value)
    }

    /// Pop a variable index naming a structure and push the field at the
    /// given position.
    pub fn struct_var_read(&mut self, field: usize) -> (r: ScriptResult<()>)
        requires
            old(self).wf(),
        ensures
            Self::frame_ok(*old(self), *final(self)),
            r is Ok <==> old(self).stack@.len() > 0 && spec_is_numeric(old(self).stack@.last())
                && 0 <= spec_int_val(old(self).stack@.last()) < old(self).variables.items@.len()
                && spec_int_val(old(self).stack@.last()) <= usize::MAX && (old(self).variables.items@[spec_int_val(old(self).stack@.last()) as int] matches Value::DataObject(
                i,
            ) && i < old(self).store@.objects.len() && field < old(self).store@.objects[i as int].fields@.len()),
            r is Ok ==> final(self).store == old(self).store && (old(self).variables.items@[spec_int_val(old(self).stack@.last()) as int] matches Value::DataObject(
                i,
            ) && final(self).stack@ == old(self).stack@.drop_last().push(
                old(self).store@.objects[i as int].fields@[field as int],
            )),
    {
        let var_index = self.pop_as_usize()?;
        if var_index >= self.variables.len() {
            return Err(self.script_error_here("Index out of range for the variable list."));
        }
        let object_index = match self.variables.get(var_index) {
            Value::DataObject(i) => *i,
            _ => {
                return Err(self.script_error_here("Expected a data object."));
            },
        };
        if object_index >= self.store.objects.len() {
            return Err(self.script_error_here("Data object reference is dead."));
        }
        if field >= self.store.objects[object_index].fields.len() {
            return Err(self.script_error_here("Field index out of range for structure."));
        }
        let read = self.store.objects[object_index].fields[field].clone();
        self.push(read);
        Ok(())
    }

    /// Pop a variable index naming a structure, pop a value, and write the
    /// field at the given position.
    pub fn struct_var_write(&mut self, field: usize) -> (r: ScriptResult<()>)
        requires
            old(self).wf(),
        ensures
            Self::frame_ok(*old(self), *final(self)),
            r is Ok <==> old(self).stack@.len() >= 2 && spec_is_numeric(old(self).stack@.last())
                && 0 <= spec_int_val(old(self).stack@.last()) < old(self).variables.items@.len()
                && spec_int_val(old(self).stack@.last()) <= usize::MAX && (old(self).variables.items@[spec_int_val(old(self).stack@.last()) as int] matches Value::DataObject(
                i,
            ) && i < old(self).store@.objects.len() && field < old(self).store@.objects[i as int].fields@.len()),
            r is Ok ==> final(self).stack@ == old(self).stack@.drop_last().drop_last() && (old(self).variables.items@[spec_int_val(old(self).stack@.last()) as int] matches Value::DataObject(
                i,
            ) && final(self).store@.objects[i as int].fields@ == old(self).store@.objects[
                i as int
            ].fields@.update(field as int, old(self).stack@[old(self).stack@.len() - 2])),
    {
        let var_index = self.pop_as_usize()?;
        let new_value = self.pop()?;
        if var_index >= self.variables.len() {
            return Err(self.script_error_here("Index out of range for the variable list."));
        }
        let object_index = match self.variables.get(var_index) {
            Value::DataObject(i) => *i,
            _ => {
                return Err(self.script_error_here("Expected a data object."));
            },
        };
        self.store_object_field(object_index, field, new_value)
    }

    /// Write one field of a structure instance in the store.
    pub fn store_object_field(&mut self, object_index: usize, field: usize, value: Value) -> (r:
        ScriptResult<()>)
        requires
            old(self).wf(),
        ensures
            Self::frame_ok(*old(self), *final(self)),
            final(self).stack == old(self).stack,
            match r {
                Ok(_) => object_index < old(self).store@.objects.len() && field < old(self).store@.objects[object_index as int].fields@.len() && final(self).store@.objects[object_index as int].fields@ == old(self).store@.objects[
                    object_index as int
                ].fields@.update(field as int, value),
                Err(_) => object_index >= old(self).store@.objects.len() || field >= old(self).store@.objects[object_index as int].fields@.len(),
            },
    {
        if object_index >= self.store.objects.len() {
            return Err(self.script_error_here("Data object reference is dead."));
        }
        if field >= self.store.objects[object_index].fields.len() {
            return Err(self.script_error_here("Field index out of range for structure."));
        }
        let definition_index = self.store.objects[object_index].definition_index;
        let mut fields = crate::store::clone_values(&self.store.objects[object_index].fields);
        fields.set(field, value);
        let updated = crate::store::DataObject { definition_index, fields };
        self.store.objects.set(object_index, updated);
        proof {
            assert(final(self).store@.objects[object_index as int].fields@ =~= old(self).store@.objects[object_index as int].fields@.update(field as int, value));
        }
        Ok(())
    }

    /// Execute a block of bytecode, with the given name standing for it in
    /// call frames.  Contexts marked by the block and not released are closed
    /// on every exit path, and a normal return with unbalanced contexts is a
    /// script error; either way the open context count is back where it
    /// started.  A script error inside the block lands at the newest catch
    /// mark, with the error's text pushed onto the stack, and propagates only
    /// where no catch is open.
    /// What one instruction does, per operation: the rows of the machine's
    /// instruction table.  `pre` and `post` are the interpreter before and
    /// after; `loops0/loops1` and `catches0/catches1` are the running block's
    /// loop and catch frames; `ctx0/ctx1` counts the contexts the block has
    /// opened; `r` carries the next instruction index on success.
    pub open spec fn spec_instruction_effect(
        op: Op,
        pre: SorthInterpreter,
        post: SorthInterpreter,
        loops0: Seq<(usize, usize)>,
        loops1: Seq<(usize, usize)>,
        catches0: Seq<usize>,
        catches1: Seq<usize>,
        ctx0: int,
        ctx1: int,
        pc: int,
        code_len: int,
        r: Option<int>,
    ) -> bool {
        let frames_unchanged = loops1 == loops0 && catches1 == catches0 && ctx1 == ctx0
            && post.spec_context_count() == pre.spec_context_count();
        let state_untouched = post.stack == pre.stack && post.variables == pre.variables
            && post.dictionary == pre.dictionary && post.store == pre.store;
        match op {
            Op::DefVariable(v) => frames_unchanged && post.stack@ == pre.stack@ && (r is Some
                ==> r == Some(pc + 1) && spec_is_stringable(v) && post.variables.items@
                == pre.variables.items@.push(Value::Nothing) && (post.dictionary.spec_lookup(
                spec_string_val(v),
            ) matches Some(w) && w.handler_index < post.word_handlers.items@.len()
                && post.word_handlers.items@[w.handler_index as int].handler
                == Handler::PushValue(Value::Int(pre.variables.items@.len() as i64)))) && (
            r is None ==> !spec_is_stringable(v) || pre.variables.items@.len()
                > 0x7fffffffffffffff),
            Op::DefConstant(v) => frames_unchanged && (r is Some ==> r == Some(pc + 1)
                && spec_is_stringable(v) && pre.stack@.len() > 0 && post.stack@
                == pre.stack@.drop_last() && (post.dictionary.spec_lookup(
                spec_string_val(v),
            ) matches Some(w) && w.handler_index < post.word_handlers.items@.len()
                && post.word_handlers.items@[w.handler_index as int].handler
                == Handler::PushValue(pre.stack@.last()))) && (r is None ==> !spec_is_stringable(
                v,
            ) || pre.stack@.len() == 0),
            Op::ReadVariable => frames_unchanged && post.variables == pre.variables && (
            r is Some ==> r == Some(pc + 1) && pre.stack@.len() > 0 && spec_is_numeric(
                pre.stack@.last(),
            ) && 0 <= spec_int_val(pre.stack@.last()) < pre.variables.items@.len() && post.stack@
                == pre.stack@.drop_last().push(
                pre.variables.items@[spec_int_val(pre.stack@.last()) as int],
            )) && (r is None ==> pre.stack@.len() == 0 || !spec_is_numeric(pre.stack@.last())
                || !(0 <= spec_int_val(pre.stack@.last()) < pre.variables.items@.len())
                || spec_int_val(pre.stack@.last()) > usize::MAX),
            Op::WriteVariable => frames_unchanged && (r is Some ==> r == Some(pc + 1)
                && pre.stack@.len() >= 2 && spec_is_numeric(pre.stack@.last()) && 0
                <= spec_int_val(pre.stack@.last()) < pre.variables.items@.len() && post.stack@
                == pre.stack@.drop_last().drop_last() && post.variables.items@
                == pre.variables.items@.update(
                spec_int_val(pre.stack@.last()) as int,
                pre.stack@[pre.stack@.len() - 2],
            )) && (r is None ==> pre.stack@.len() < 2 || !spec_is_numeric(pre.stack@.last())
                || !(0 <= spec_int_val(pre.stack@.last()) < pre.variables.items@.len())
                || spec_int_val(pre.stack@.last()) > usize::MAX),
            Op::Execute(_) => loops1 == loops0 && catches1 == catches0 && ctx1 == ctx0
                && post.spec_context_count() == pre.spec_context_count() && (r is Some ==> r
                == Some(pc + 1)),
            Op::PushConstantValue(v) => frames_unchanged && crate::store::spec_store_extends(
                post.store@,
                pre.store@,
            ) && (r is Some ==> r == Some(pc + 1) && post.stack@.len() == pre.stack@.len() + 1
                && post.stack@.drop_last() == pre.stack@ && crate::store::spec_clone_rel(
                post.store@,
                v,
                post.store@,
                post.stack@.last(),
                CLONE_DEPTH as nat,
            ) && crate::store::spec_fresh_ref(pre.store@, post.stack@.last())) && (r is None
                ==> post.stack@ == pre.stack@),
            Op::MarkLoopExit(v) => state_untouched && catches1 == catches0 && ctx1 == ctx0
                && post.spec_context_count() == pre.spec_context_count() && (r is Some ==> r
                == Some(pc + 1) && spec_is_numeric(v) && 0 <= pc + spec_int_val(v) <= code_len
                && loops1 == loops0.push(
                ((pc + 1) as usize, (pc + spec_int_val(v)) as usize),
            )) && (r is None ==> loops1 == loops0),
            Op::UnmarkLoopExit => state_untouched && catches1 == catches0 && ctx1 == ctx0
                && post.spec_context_count() == pre.spec_context_count() && (r is Some <==> loops0.len()
                > 0) && (r is Some ==> r == Some(pc + 1) && loops1 == loops0.drop_last()) && (
            r is None ==> loops1 == loops0),
            Op::MarkCatch(v) => state_untouched && loops1 == loops0 && ctx1 == ctx0
                && post.spec_context_count() == pre.spec_context_count() && (r is Some ==> r
                == Some(pc + 1) && spec_is_numeric(v) && 0 <= pc + spec_int_val(v) <= code_len
                && catches1 == catches0.push(((pc + spec_int_val(v)) as usize))) && (r is None
                ==> catches1 == catches0),
            Op::UnmarkCatch => state_untouched && loops1 == loops0 && ctx1 == ctx0
                && post.spec_context_count() == pre.spec_context_count() && (r is Some <==> catches0.len()
                > 0) && (r is Some ==> r == Some(pc + 1) && catches1 == catches0.drop_last()) && (
            r is None ==> catches1 == catches0),
            Op::MarkContext => loops1 == loops0 && catches1 == catches0 && (r is Some <==> ctx0
                < usize::MAX) && (r is Some ==> r == Some(pc + 1) && ctx1 == ctx0 + 1
                && post.spec_context_count() == pre.spec_context_count() + 1 && post.stack
                == pre.stack && post.store == pre.store && post.variables.items
                == pre.variables.items && post.dictionary.view_stack()
                == pre.dictionary.view_stack().push(Seq::empty())) && (r is None ==> ctx1 == ctx0
                && state_untouched && post.spec_context_count() == pre.spec_context_count()),
            Op::ReleaseContext => loops1 == loops0 && catches1 == catches0 && (r is Some <==> ctx0
                > 0) && (r is Some ==> r == Some(pc + 1) && ctx1 == ctx0 - 1
                && post.spec_context_count() == pre.spec_context_count() - 1 && post.stack
                == pre.stack && post.store == pre.store && post.dictionary.view_stack()
                == pre.dictionary.view_stack().drop_last() && post.variables.items@
                == pre.variables.items@.take(pre.variables.frame_starts@.last() as int)) && (
            r is None ==> ctx1 == ctx0 && state_untouched && post.spec_context_count()
                == pre.spec_context_count()),
            Op::Jump(v) => state_untouched && frames_unchanged && (r is Some ==> spec_is_numeric(
                v,
            ) && 0 <= pc + spec_int_val(v) <= code_len && r == Some(pc + spec_int_val(v))) && (
            r is None ==> !spec_is_numeric(v) || pc + spec_int_val(v) < 0 || pc + spec_int_val(v)
                > code_len || pc > 0x7fffffffffffffff || code_len > 0x7fffffffffffffff),
            Op::JumpIfZero(v) => frames_unchanged && post.variables == pre.variables
                && post.dictionary == pre.dictionary && post.store == pre.store && (r is Some
                ==> pre.stack@.len() > 0 && post.stack@ == pre.stack@.drop_last()
                && spec_is_numeric(v) && 0 <= pc + spec_int_val(v) <= code_len && r == Some(
                if !spec_bool_val(pre.stack@.last()) {
                    pc + spec_int_val(v)
                } else {
                    pc + 1
                },
            )),
            Op::JumpIfNotZero(v) => frames_unchanged && post.variables == pre.variables
                && post.dictionary == pre.dictionary && post.store == pre.store && (r is Some
                ==> pre.stack@.len() > 0 && post.stack@ == pre.stack@.drop_last()
                && spec_is_numeric(v) && 0 <= pc + spec_int_val(v) <= code_len && r == Some(
                if spec_bool_val(pre.stack@.last()) {
                    pc + spec_int_val(v)
                } else {
                    pc + 1
                },
            )),
            Op::JumpLoopStart => state_untouched && frames_unchanged && (r is Some <==> loops0.len()
                > 0) && (r is Some ==> r == Some(loops0.last().0 as int)),
            Op::JumpLoopExit => state_untouched && frames_unchanged && (r is Some <==> loops0.len()
                > 0) && (r is Some ==> r == Some(loops0.last().1 as int)),
            Op::JumpTarget(_) => state_untouched && frames_unchanged && r == Some(pc + 1),
        }
    }

    /// Execute one instruction at `pc` in a block of `code_len` instructions,
    /// maintaining the block's loop and catch frames and its count of opened
    /// contexts, and answering the next instruction index.  The effect is the
    /// instruction table of `spec_instruction_effect`, row by row.
    pub fn execute_instruction(
        &mut self,
        instruction: &Instruction,
        pc: usize,
        code_len: usize,
        loop_frames: &mut Vec<(usize, usize)>,
        catch_frames: &mut Vec<usize>,
        contexts: &mut usize,
        depth: u64,
    ) -> (r: ScriptResult<usize>)
        requires
            old(self).wf(),
            depth >= 1,
            pc < code_len,
            old(self).spec_context_count() > *old(contexts),
        ensures
            final(self).wf(),
            final(self).spec_context_count() > *final(contexts),
            final(self).spec_context_count() - *final(contexts) == old(self).spec_context_count()
                - *old(contexts),
            Self::spec_instruction_effect(
                instruction.op,
                *old(self),
                *final(self),
                old(loop_frames)@,
                final(loop_frames)@,
                old(catch_frames)@,
                final(catch_frames)@,
                *old(contexts) as int,
                *final(contexts) as int,
                pc as int,
                code_len as int,
                match r {
                    Ok(n) => Some(n as int),
                    Err(_) => None,
                },
            ),
        decreases depth, 0int, 0int,
    {
        match &instruction.op {
            Op::DefVariable(value) => {
                self.define_variable(value)?;
                Ok(pc + 1)
            },
            Op::DefConstant(value) => {
                self.define_constant(value)?;
                Ok(pc + 1)
            },
            Op::ReadVariable => {
                self.read_variable()?;
                Ok(pc + 1)
            },
            Op::WriteVariable => {
                self.write_variable()?;
                Ok(pc + 1)
            },
            Op::Execute(value) => {
                let operand = value.clone();
                self.execute_value(&operand, depth - 1)?;
                Ok(pc + 1)
            },
            Op::PushConstantValue(value) => {
                self.push_constant_value(value)?;
                Ok(pc + 1)
            },
            Op::MarkLoopExit(value) => {
                let absolute = self.absolute_index(pc, code_len, value)?;
                loop_frames.push((pc + 1, absolute));
                Ok(pc + 1)
            },
            Op::UnmarkLoopExit => {
                if loop_frames.len() > 0 {
                    let _ = loop_frames.pop();
                    Ok(pc + 1)
                } else {
                    Err(self.script_error_here("Unbalanced loop exit marker."))
                }
            },
            Op::MarkCatch(value) => {
                let absolute = self.absolute_index(pc, code_len, value)?;
                catch_frames.push(absolute);
                Ok(pc + 1)
            },
            Op::UnmarkCatch => {
                if catch_frames.len() > 0 {
                    let _ = catch_frames.pop();
                    Ok(pc + 1)
                } else {
                    Err(self.script_error_here("Unbalanced catch exit marker."))
                }
            },
            Op::MarkContext => {
                if *contexts == usize::MAX {
                    Err(self.script_error_here("Too many nested contexts."))
                } else {
                    self.mark_context();
                    *contexts = *contexts + 1;
                    Ok(pc + 1)
                }
            },
            Op::ReleaseContext => {
                if *contexts != 0 {
                    *contexts = *contexts - 1;
                    self.release_context();
                    Ok(pc + 1)
                } else {
                    Err(self.script_error_here("Unbalanced context release detected."))
                }
            },
            Op::Jump(value) => {
                let absolute = self.absolute_index(pc, code_len, value)?;
                Ok(absolute)
            },
            Op::JumpIfZero(value) => {
                let found = self.pop_as_bool()?;
                let absolute = self.absolute_index(pc, code_len, value)?;
                if !found {
                    Ok(absolute)
                } else {
                    Ok(pc + 1)
                }
            },
            Op::JumpIfNotZero(value) => {
                let found = self.pop_as_bool()?;
                let absolute = self.absolute_index(pc, code_len, value)?;
                if found {
                    Ok(absolute)
                } else {
                    Ok(pc + 1)
                }
            },
            Op::JumpLoopStart => {
                if loop_frames.len() > 0 {
                    let entry = loop_frames[loop_frames.len() - 1];
                    Ok(entry.0)
                } else {
                    Err(self.script_error_here("Loop start jump outside of a loop."))
                }
            },
            Op::JumpLoopExit => {
                if loop_frames.len() > 0 {
                    let entry = loop_frames[loop_frames.len() - 1];
                    Ok(entry.1)
                } else {
                    Err(self.script_error_here("Loop exit jump outside of a loop."))
                }
            },
            Op::JumpTarget(_) => Ok(pc + 1),
        }
    }

    /// Recover from a script error at the newest catch mark: the newest catch
    /// target is popped, the error's full rendering is pushed onto the data
    /// stack for the handler, and execution resumes at the target.  With no
    /// catch mark open the same error is handed back to propagate.
    pub fn recover_from_error(&mut self, error: ScriptError, catch_frames: &mut Vec<usize>) -> (r:
        Result<usize, ScriptError>)
        ensures
            old(self).wf() ==> final(self).wf(),
            final(self).spec_context_count() == old(self).spec_context_count(),
            final(self).variables == old(self).variables,
            final(self).dictionary == old(self).dictionary,
            final(self).store == old(self).store,
            match r {
                Ok(target) => old(catch_frames)@.len() > 0 && target == old(catch_frames)@.last()
                    && final(catch_frames)@ == old(catch_frames)@.drop_last() && final(self).stack@.len() == old(self).stack@.len() + 1 && final(self).stack@.drop_last()
                    == old(self).stack@ && (final(self).stack@.last() matches Value::String(m)
                    && m@ == crate::error::spec_error_chars(error)),
                Err(e) => old(catch_frames)@.len() == 0 && final(catch_frames)@ == old(
                    catch_frames,
                )@ && final(self).stack@ == old(self).stack@ && e == error,
            },
    {
        match catch_frames.pop() {
            Some(catch_index) => {
                let message = error.to_display_string();
                self.push(Value::String(message));
                proof {
                    assert(self.stack@.drop_last() =~= old(self).stack@);
                }
                Ok(catch_index)
            },
            None => Err(error),
        }
    }

    /// Execute a block of bytecode, with the given name standing for it in
    /// call frames.  Each instruction steps through `execute_instruction`,
    /// whose contract carries the instruction table; a script error lands at
    /// the newest catch mark through `recover_from_error`, with the error's
    /// text pushed for the handler, and propagates only where no catch is
    /// open.  Contexts marked by the block and not released are closed on
    /// every exit path, and a normal return with unbalanced contexts is a
    /// script error; either way the open context count is back where it
    /// started.
    pub fn execute_code(&mut self, name: &str, code: &ByteCode, depth: u64) -> (r: ScriptResult<
        (),
    >)
        requires
            old(self).wf(),
        ensures
            Self::frame_ok(*old(self), *final(self)),
            depth > 0 && code@.len() == 0 ==> r is Ok && final(self).stack == old(self).stack
                && final(self).variables == old(self).variables && final(self).dictionary == old(self).dictionary && final(self).store == old(self).store,
        decreases depth, 1int, 0int,
    {
        if depth == 0 {
            return Err(self.script_error_here("Call depth exceeded."));
        }
        let mut contexts: usize = 0;
        let mut loop_frames: Vec<(usize, usize)> = Vec::new();
        let mut catch_frames: Vec<usize> = Vec::new();
        let mut pc: usize = 0;
        let mut steps: u64 = STEP_LIMIT;
        let code_len = code.len();
        while pc < code_len
            invariant
                depth >= 1,
                self.wf(),
                code_len == code@.len(),
                self.spec_context_count() == old(self).spec_context_count() + contexts,
                old(self).spec_context_count() >= 1,
                code@.len() == 0 ==> contexts == 0 && self.stack == old(self).stack
                    && self.variables == old(self).variables && self.dictionary == old(self).dictionary && self.store == old(self).store,
            decreases steps,
        {
            if steps == 0 {
                self.cleanup_contexts(contexts);
                return Err(self.script_error_here("Execution step budget exhausted."));
            }
            steps = steps - 1;
            let instruction = code[pc].clone();
            let mut call_stack_pushed = false;
            match &instruction.location {
                Some(location) => {
                    self.current_location = Some(location.clone());
                    self.call_stack_push(name.to_owned(), location.clone());
                    call_stack_pushed = true;
                },
                None => {},
            }
            let step = self.execute_instruction(
                &instruction,
                pc,
                code_len,
                &mut loop_frames,
                &mut catch_frames,
                &mut contexts,
                depth,
            );
            let next_pc: usize = match step {
                Ok(next) => next,
                Err(error) => {
                    match self.recover_from_error(error, &mut catch_frames) {
                        Ok(target) => target,
                        Err(propagated) => {
                            if call_stack_pushed {
                                let _ = self.call_stack.pop();
                            }
                            self.cleanup_contexts(contexts);
                            return Err(propagated);
                        },
                    }
                },
            };
            if call_stack_pushed {
                let _ = self.call_stack.pop();
            }
            pc = if next_pc > code_len {
                code_len
            } else {
                next_pc
            };
        }
        if contexts > 0 {
            self.cleanup_contexts(contexts);
            return Err(self.script_error_here("Unbalanced context handling detected."));
        }
        Ok(())
    }

    /// Close the given number of contexts, as the balance of the marks a
    /// block opened and never released.
    pub fn cleanup_contexts(&mut self, contexts: usize)
        requires
            old(self).wf(),
            old(self).spec_context_count() >= contexts + 1,
        ensures
            final(self).wf(),
            final(self).spec_context_count() == old(self).spec_context_count() - contexts,
    {
        let mut remaining = contexts;
        while remaining > 0
            invariant
                self.wf(),
                remaining <= contexts,
                self.spec_context_count() == old(self).spec_context_count() - (
                contexts - remaining),
                old(self).spec_context_count() >= contexts + 1,
            decreases remaining,
        {
            self.release_context();
            remaining = remaining - 1;
        }
    }
}

impl SorthInterpreter {
    /// Open a new compilation context over a token list.
    pub fn context_new(&mut self, tokens: Vec<Token>)
        requires
            old(self).wf(),
        ensures
            final(self).wf(),
            final(self).spec_context_count() == old(self).spec_context_count(),
            final(self).constructors@.len() == old(self).constructors@.len() + 1,
    {
        self.constructors.push(CodeConstructor::new(tokens));
        proof {
            assert forall|k: int| 0 <= k < self.constructors@.len() implies (
            #[trigger] self.constructors@[k]).wf() by {
                if k < self.constructors@.len() - 1 {
                    assert(self.constructors@[k] == old(self).constructors@[k]);
                }
            }
        }
    }

    /// Drop the top compilation context.
    pub fn context_drop(&mut self) -> (r: ScriptResult<()>)
        requires
            old(self).wf(),
        ensures
            final(self).wf(),
            final(self).spec_context_count() == old(self).spec_context_count(),
            r is Ok ==> old(self).constructors@.len() > 0 && final(self).constructors@ == old(self).constructors@.drop_last(),
    {
        if self.constructors.len() == 0 {
            return Err(self.script_error_here("Compile context stack underflow."));
        }
        let _ = self.constructors.pop();
        proof {
            assert forall|k: int| 0 <= k < self.constructors@.len() implies (
            #[trigger] self.constructors@[k]).wf() by {
                assert(self.constructors@[k] == old(self).constructors@[k]);
            }
        }
        Ok(())
    }

    /// Take the top compilation context out for modification.
    fn context_take(&mut self) -> (r: ScriptResult<CodeConstructor>)
        requires
            old(self).wf(),
        ensures
            final(self).wf(),
            final(self).spec_context_count() == old(self).spec_context_count(),
            final(self).stack == old(self).stack,
            final(self).store == old(self).store,
            final(self).dictionary == old(self).dictionary,
            final(self).word_handlers == old(self).word_handlers,
            final(self).variables == old(self).variables,
            final(self).data_definitions == old(self).data_definitions,
            match r {
                Ok(c) => old(self).constructors@.len() > 0 && c == old(self).constructors@.last() && c.wf() && final(self).constructors@ == old(self).constructors@.drop_last(),
                Err(_) => old(self).constructors@.len() == 0 && final(self).constructors@ == old(self).constructors@,
            },
    {
        if self.constructors.len() == 0 {
            return Err(self.script_error_here("No compile context available."));
        }
        let constructor = match self.constructors.pop() {
            Some(c) => c,
            None => {
                return Err(self.script_error_here("No compile context available."));
            },
        };
        proof {
            assert(constructor == old(self).constructors@.last());
            assert forall|k: int| 0 <= k < self.constructors@.len() implies (
            #[trigger] self.constructors@[k]).wf() by {
                assert(self.constructors@[k] == old(self).constructors@[k]);
            }
        }
        Ok(constructor)
    }

    /// Put a compilation context back on top.
    fn context_put(&mut self, constructor: CodeConstructor)
        requires
            old(self).wf(),
            constructor.wf(),
        ensures
            final(self).wf(),
            final(self).spec_context_count() == old(self).spec_context_count(),
            final(self).stack == old(self).stack,
            final(self).store == old(self).store,
            final(self).dictionary == old(self).dictionary,
            final(self).word_handlers == old(self).word_handlers,
            final(self).variables == old(self).variables,
            final(self).data_definitions == old(self).data_definitions,
            final(self).constructors@ == old(self).constructors@.push(constructor),
    {
        self.constructors.push(constructor);
        proof {
            assert forall|k: int| 0 <= k < self.constructors@.len() implies (
            #[trigger] self.constructors@[k]).wf() by {
                if k < self.constructors@.len() - 1 {
                    assert(self.constructors@[k] == old(self).constructors@[k]);
                }
            }
        }
    }

    /// The top compilation context advanced by one token, with everything
    /// else about it unchanged.
    pub open spec fn spec_consumed_token(pre: SorthInterpreter, post: SorthInterpreter) -> bool {
        &&& pre.constructors@.len() > 0
        &&& pre.constructors@.last().cursor < pre.constructors@.last().tokens@.len()
        &&& post.constructors@.len() == pre.constructors@.len()
        &&& post.constructors@.drop_last() == pre.constructors@.drop_last()
        &&& post.constructors@.last().tokens == pre.constructors@.last().tokens
        &&& post.constructors@.last().cursor == pre.constructors@.last().cursor + 1
        &&& post.constructors@.last().insertion == pre.constructors@.last().insertion
        &&& post.constructors@.last().stack == pre.constructors@.last().stack
    }

    /// The token the top compilation context's cursor stands at.
    pub open spec fn spec_cursor_token(pre: SorthInterpreter) -> Token {
        pre.constructors@.last().tokens@[pre.constructors@.last().cursor as int]
    }

    /// Get the next token from the current compilation context's stream,
    /// consuming it.  Reading past the end of the stream, or without an open
    /// compilation context, is an error.
    pub fn next_token(&mut self) -> (r: ScriptResult<Token>)
        requires
            old(self).wf(),
        ensures
            final(self).wf(),
            final(self).spec_context_count() == old(self).spec_context_count(),
            r is Ok <==> old(self).constructors@.len() > 0 && old(self).constructors@.last().cursor < old(self).constructors@.last().tokens@.len(),
            r matches Ok(t) ==> Self::spec_consumed_token(*old(self), *final(self)) && t
                == Self::spec_cursor_token(*old(self)),
    {
        let mut constructor = self.context_take()?;
        let token = constructor.next_token();
        self.context_put(constructor);
        proof {
            assert(self.constructors@.drop_last() =~= old(self).constructors@.drop_last());
        }
        match token {
            Some(t) => Ok(t),
            None => Err(self.script_error_here("Reading past end of token stream.")),
        }
    }

    /// Get the next token as text: the next word or string literal.
    pub fn next_token_text(&mut self) -> (r: ScriptResult<String>)
        requires
            old(self).wf(),
        ensures
            final(self).wf(),
            final(self).spec_context_count() == old(self).spec_context_count(),
            r matches Ok(t) ==> Self::spec_consumed_token(*old(self), *final(self)) && ((
            Self::spec_cursor_token(*old(self)) matches Token::String(_, text) && t@ == text@) || (
            Self::spec_cursor_token(*old(self)) matches Token::Word(_, word) && t@ == word@)),
    {
        let token = self.next_token()?;
        match token.text() {
            Ok(text) => Ok(text.clone()),
            Err(e) => Err(e),
        }
    }

    /// Get the next token as a string literal.
    pub fn next_token_string(&mut self) -> (r: ScriptResult<String>)
        requires
            old(self).wf(),
        ensures
            final(self).wf(),
            final(self).spec_context_count() == old(self).spec_context_count(),
            r matches Ok(t) ==> Self::spec_consumed_token(*old(self), *final(self)) && (
            Self::spec_cursor_token(*old(self)) matches Token::String(_, text) && t@ == text@),
    {
        let token = self.next_token()?;
        match token.string() {
            Ok(text) => Ok(text.clone()),
            Err(e) => Err(e),
        }
    }

    /// Get the next token as a word, together with its location.
    pub fn next_token_word(&mut self) -> (r: ScriptResult<(SourceLocation, String)>)
        requires
            old(self).wf(),
        ensures
            final(self).wf(),
            final(self).spec_context_count() == old(self).spec_context_count(),
            r matches Ok(pair) ==> Self::spec_consumed_token(*old(self), *final(self)) && (
            Self::spec_cursor_token(*old(self)) matches Token::Word(location, word) && pair.1@
                == word@ && crate::location::spec_location_eq(pair.0, location)),
    {
        let token = self.next_token()?;
        let location = token.location().clone();
        match token.word() {
            Ok(word) => Ok((location, word.clone())),
            Err(e) => Err(e),
        }
    }

    /// Whether the current compilation context has a token left.
    pub fn has_next_token(&self) -> (r: bool)
        ensures
            r == (self.constructors@.len() > 0 && self.constructors@.last().cursor
                < self.constructors@.last().tokens@.len()),
    {
        if self.constructors.len() == 0 {
            return false;
        }
        let top = self.constructors.len() - 1;
        let constructor = &self.constructors[top];
        proof {
            assert(self.constructors@[top as int] == self.constructors@.last());
        }
        constructor.has_next_token()
    }

    /// Insert an instruction into the block under construction: the top
    /// construction of the top compilation context receives it, and nothing
    /// else changes.  Without an open compilation context this is an error.
    pub fn insert_user_instruction(&mut self, location: Option<SourceLocation>, op: Op) -> (r:
        ScriptResult<()>)
        requires
            old(self).wf(),
        ensures
            final(self).wf(),
            final(self).spec_context_count() == old(self).spec_context_count(),
            r is Ok <==> old(self).constructors@.len() > 0,
            r is Ok ==> final(self).constructors@.len() == old(self).constructors@.len() && final(self).constructors@.drop_last() == old(self).constructors@.drop_last()
                && crate::compilation::spec_pushed_instruction(
                old(self).constructors@.last(),
                final(self).constructors@.last(),
                Instruction { location: location, op: op },
            ),
            r is Ok ==> final(self).stack == old(self).stack && final(self).store == old(self).store && final(self).dictionary == old(self).dictionary && final(self).variables
                == old(self).variables,
    {
        let mut constructor = self.context_take()?;
        constructor.push_instruction(Instruction::new(location, op));
        self.context_put(constructor);
        proof {
            assert(self.constructors@.drop_last() =~= old(self).constructors@.drop_last());
        }
        Ok(())
    }

    /// Open a fresh construction for a nested block in the current
    /// compilation context.
    pub fn construction_new(&mut self) -> (r: ScriptResult<()>)
        requires
            old(self).wf(),
        ensures
            final(self).wf(),
            final(self).spec_context_count() == old(self).spec_context_count(),
            r is Ok <==> old(self).constructors@.len() > 0,
            r is Ok ==> final(self).constructors@.len() == old(self).constructors@.len() && final(self).constructors@.drop_last() == old(self).constructors@.drop_last(),
            r is Ok ==> final(self).constructors@.last().stack@.len() == old(self).constructors@.last().stack@.len() + 1 && final(self).constructors@.last().stack@.drop_last() == old(self).constructors@.last().stack@ && final(self).constructors@.last().stack@.last().code@.len() == 0 && final(self).constructors@.last().tokens == old(self).constructors@.last().tokens && final(self).constructors@.last().cursor == old(self).constructors@.last().cursor,
    {
        let mut constructor = self.context_take()?;
        constructor.construction_new();
        self.context_put(constructor);
        Ok(())
    }

    /// Open a construction over an existing block of code.
    pub fn construction_new_with_code(&mut self, code: ByteCode) -> (r: ScriptResult<()>)
        requires
            old(self).wf(),
        ensures
            final(self).wf(),
            final(self).spec_context_count() == old(self).spec_context_count(),
            r is Ok <==> old(self).constructors@.len() > 0,
            r is Ok ==> final(self).constructors@.len() == old(self).constructors@.len() && final(self).constructors@.drop_last() == old(self).constructors@.drop_last(),
            r is Ok ==> final(self).constructors@.last().stack@.len() == old(self).constructors@.last().stack@.len() + 1 && final(self).constructors@.last().stack@.drop_last() == old(self).constructors@.last().stack@ && final(self).constructors@.last().stack@.last().code == code,
    {
        let mut constructor = self.context_take()?;
        constructor.construction_new_with_code(code);
        self.context_put(constructor);
        Ok(())
    }

    /// Close and return the top construction of the current compilation
    /// context.
    pub fn construction_pop(&mut self) -> (r: ScriptResult<crate::compilation::Construction>)
        requires
            old(self).wf(),
        ensures
            final(self).wf(),
            final(self).spec_context_count() == old(self).spec_context_count(),
            r is Ok <==> old(self).constructors@.len() > 0 && old(self).constructors@.last().stack@.len() >= 2,
            r matches Ok(c) ==> final(self).constructors@.len() == old(self).constructors@.len() && final(self).constructors@.drop_last() == old(self).constructors@.drop_last() && c == old(self).constructors@.last().stack@.last() && final(self).constructors@.last().stack@ == old(self).constructors@.last().stack@.drop_last() && final(self).constructors@.last().tokens == old(self).constructors@.last().tokens && final(self).constructors@.last().cursor == old(self).constructors@.last().cursor && final(self).constructors@.last().insertion == old(self).constructors@.last().insertion,
    {
        let mut constructor = self.context_take()?;
        let popped = constructor.construction_pop();
        self.context_put(constructor);
        match popped {
            Some(c) => Ok(c),
            None => Err(self.script_error_here("Construction stack underflow.")),
        }
    }

    /// Resolve the jump labels of the block under construction: afterward
    /// every jump family operand is the signed offset to its target and every
    /// jump target's operand is erased, per the resolution relation.
    pub fn construction_resolve_jumps(&mut self) -> (r: ScriptResult<()>)
        requires
            old(self).wf(),
        ensures
            final(self).wf(),
            final(self).spec_context_count() == old(self).spec_context_count(),
            r is Ok ==> old(self).constructors@.len() > 0 && final(self).constructors@.len() == old(self).constructors@.len() && final(self).constructors@.drop_last() == old(self).constructors@.drop_last() && final(self).constructors@.last().stack@.len() == old(self).constructors@.last().stack@.len() && final(self).constructors@.last().stack@.last().code@.len() == old(self).constructors@.last().stack@.last().code@.len() && (forall|k: int| 0 <= k < old(self).constructors@.last().stack@.last().code@.len() ==> crate::compilation::spec_resolved_at(old(self).constructors@.last().stack@.last().code@, final(self).constructors@.last().stack@.last().code@, k)),
            old(self).constructors@.len() > 0 && old(self).constructors@.last().stack@.last().code@.len() < 0x7fffffffffffffff && crate::compilation::spec_labels_resolvable(old(self).constructors@.last().stack@.last().code@) ==> r is Ok,
    {
        let mut constructor = self.context_take()?;
        let top = constructor.stack.len() - 1;
        let mut construction = constructor.stack.remove(top);
        let ok = crate::compilation::resolve_jumps_code(&mut construction.code);
        constructor.stack.insert(top, construction);
        self.context_put(constructor);
        if !ok {
            return Err(self.script_error_here("Unresolved jump label in code block."));
        }
        Ok(())
    }

    /// The size of the block under construction.
    pub fn construction_code_len(&mut self) -> (r: ScriptResult<usize>)
        requires
            old(self).wf(),
        ensures
            final(self).wf(),
            final(self).spec_context_count() == old(self).spec_context_count(),
            r is Ok <==> old(self).constructors@.len() > 0,
            r matches Ok(n) ==> final(self).constructors@ == old(self).constructors@ && n == old(self).constructors@.last().stack@.last().code@.len(),
    {
        let constructor = self.context_take()?;
        let top = constructor.stack.len() - 1;
        let len = constructor.stack[top].code.len();
        self.context_put(constructor);
        Ok(len)
    }

    /// Set the insertion mode of the current compilation context.
    pub fn context_set_insertion(&mut self, insertion: crate::compilation::InsertionLocation) -> (
        r: ScriptResult<()>)
        requires
            old(self).wf(),
        ensures
            final(self).wf(),
            final(self).spec_context_count() == old(self).spec_context_count(),
            r is Ok <==> old(self).constructors@.len() > 0,
            r is Ok ==> final(self).constructors@.len() == old(self).constructors@.len() && final(self).constructors@.drop_last() == old(self).constructors@.drop_last(),
            r is Ok ==> final(self).constructors@.last().insertion == insertion && final(self).constructors@.last().tokens == old(self).constructors@.last().tokens && final(self).constructors@.last().cursor == old(self).constructors@.last().cursor && final(self).constructors@.last().stack == old(self).constructors@.last().stack,
    {
        let mut constructor = self.context_take()?;
        constructor.insertion = insertion;
        self.context_put(constructor);
        Ok(())
    }

    /// One instruction went into the top compilation context, with everything
    /// else unchanged: the effect a non-immediate token's compilation has.
    pub open spec fn spec_emitted(
        pre: SorthInterpreter,
        post: SorthInterpreter,
        instruction: Instruction,
    ) -> bool {
        &&& pre.constructors@.len() > 0
        &&& post.constructors@.len() == pre.constructors@.len()
        &&& post.constructors@.drop_last() == pre.constructors@.drop_last()
        &&& crate::compilation::spec_pushed_instruction(
            pre.constructors@.last(),
            post.constructors@.last(),
            instruction,
        )
        &&& post.stack == pre.stack
        &&& post.store == pre.store
        &&& post.dictionary == pre.dictionary
        &&& post.variables == pre.variables
    }

    /// Compile one token: a number or string literal becomes a push of that
    /// constant; a word bound to an immediate word executes now; any other
    /// word, known or not, compiles to an execute of its name; an unknown
    /// word that parses as a number compiles to a push of that number.
    pub fn process_token(&mut self, token: Token, depth: u64) -> (r: ScriptResult<()>)
        requires
            old(self).wf(),
        ensures
            Self::frame_ok(*old(self), *final(self)),
            depth > 0 ==> match token {
                Token::Number(location, value) => (r is Ok <==> old(self).constructors@.len() > 0)
                    && (r is Ok ==> Self::spec_emitted(
                    *old(self),
                    *final(self),
                    Instruction {
                        location: Some(location),
                        op: Op::PushConstantValue(Value::Int(value)),
                    },
                )),
                Token::String(location, text) => (r is Ok <==> old(self).constructors@.len() > 0)
                    && (r is Ok ==> Self::spec_emitted(
                    *old(self),
                    *final(self),
                    Instruction {
                        location: Some(location),
                        op: Op::PushConstantValue(Value::String(text)),
                    },
                )),
                Token::Word(location, name) => match old(self).dictionary.spec_lookup(name@) {
                    Some(info) => info.runtime == WordRuntime::Normal ==> (r is Ok <==> old(self).constructors@.len() > 0) && (r is Ok ==> Self::spec_emitted(
                        *old(self),
                        *final(self),
                        Instruction {
                            location: Some(location),
                            op: Op::Execute(Value::String(name)),
                        },
                    )),
                    None => (r is Ok <==> old(self).constructors@.len() > 0) && (r is Ok ==> ({
                        let op = if crate::tokenizing::spec_is_number(name@)
                            && crate::tokenizing::spec_to_numeric(name@) is Some {
                            Op::PushConstantValue(
                                Value::Int(crate::tokenizing::spec_to_numeric(name@).unwrap()),
                            )
                        } else {
                            Op::Execute(Value::String(name))
                        };
                        Self::spec_emitted(
                            *old(self),
                            *final(self),
                            Instruction { location: Some(location), op: op },
                        )
                    })),
                },
            },
        decreases depth, 5int, 0int,
    {
        if depth == 0 {
            return Err(self.script_error_here("Call depth exceeded."));
        }
        match token {
            Token::Number(location, value) => {
                self.insert_user_instruction(
                    Some(location),
                    Op::PushConstantValue(Value::Int(value)),
                )
            },
            Token::String(location, text) => {
                self.insert_user_instruction(
                    Some(location),
                    Op::PushConstantValue(Value::String(text)),
                )
            },
            Token::Word(location, name) => {
                let found = match self.find_word(name.as_str()) {
                    Some(info) => Some(info.clone()),
                    None => None,
                };
                match found {
                    Some(info) => {
                        if matches!(info.runtime, WordRuntime::Immediate) {
                            self.execute_word(&location, &info, depth)
                        } else {
                            self.insert_user_instruction(
                                Some(location),
                                Op::Execute(Value::String(name)),
                            )
                        }
                    },
                    None => {
                        if crate::tokenizing::is_number(name.as_str()) {
                            match crate::tokenizing::to_numeric(name.as_str()) {
                                Some(number) => self.insert_user_instruction(
                                    Some(location),
                                    Op::PushConstantValue(Value::Int(number)),
                                ),
                                None => self.insert_user_instruction(
                                    Some(location),
                                    Op::Execute(Value::String(name)),
                                ),
                            }
                        } else {
                            self.insert_user_instruction(
                                Some(location),
                                Op::Execute(Value::String(name)),
                            )
                        }
                    },
                }
            },
        }
    }

    /// Compile a token list into bytecode, executing immediate words along
    /// the way, then resolve its jumps and execute it under the given name.
    pub fn process_source_from_tokens(&mut self, name: &str, tokens: Vec<Token>, depth: u64) -> (
        r: ScriptResult<()>)
        requires
            old(self).wf(),
        ensures
            Self::frame_ok(*old(self), *final(self)),
        decreases depth, 6int, 0int,
    {
        if depth == 0 {
            return Err(self.script_error_here("Call depth exceeded."));
        }
        self.context_new(tokens);
        let mut steps: u64 = STEP_LIMIT;
        loop
            invariant
                self.wf(),
                self.spec_context_count() == old(self).spec_context_count(),
                depth >= 1,
            decreases steps,
        {
            if steps == 0 {
                let _ = self.context_drop();
                return Err(self.script_error_here("Compilation step budget exhausted."));
            }
            steps = steps - 1;
            if !self.has_next_token() {
                break;
            }
            let token = match self.next_token() {
                Ok(t) => t,
                Err(e) => {
                    let _ = self.context_drop();
                    return Err(e);
                },
            };
            match self.process_token(token, depth - 1) {
                Ok(_) => {},
                Err(e) => {
                    let _ = self.context_drop();
                    return Err(e);
                },
            }
        }
        let mut constructor = match self.context_take() {
            Ok(c) => c,
            Err(e) => {
                return Err(e);
            },
        };
        if constructor.stack.len() != 1 {
            return Err(self.script_error_here("Unterminated word definition."));
        }
        let mut construction = match constructor.stack.pop() {
            Some(c) => c,
            None => {
                return Err(self.script_error_here("Construction stack underflow."));
            },
        };
        let resolved = crate::compilation::resolve_jumps_code(&mut construction.code);
        if !resolved {
            return Err(self.script_error_here("Unresolved jump label in code block."));
        }
        self.execute_code(name, &construction.code, depth)
    }

    /// Compile and execute source text.  The path stands for the source in
    /// call frames and error reports.
    pub fn process_source(&mut self, path: &str, source: &str, depth: u64) -> (r: ScriptResult<
        (),
    >)
        requires
            old(self).wf(),
        ensures
            Self::frame_ok(*old(self), *final(self)),
        decreases depth, 7int, 0int,
    {
        if depth == 0 {
            return Err(self.script_error_here("Call depth exceeded."));
        }
        let tokens = crate::tokenizing::tokenize_from_source(path, source)?;
        self.process_source_from_tokens(path, tokens, depth)
    }

    /// Compile and execute source text with the default call depth budget.
    pub fn run_source(&mut self, path: &str, source: &str) -> (r: ScriptResult<()>)
        requires
            old(self).wf(),
        ensures
            Self::frame_ok(*old(self), *final(self)),
    {
        self.process_source(path, source, CALL_DEPTH_LIMIT)
    }

    /// Generate a string that no other call of this word on this interpreter
    /// has produced, for use as a jump label.
    pub fn unique_string(&mut self) -> (r: String)
        ensures
            old(self).wf() ==> final(self).wf(),
            final(self).spec_context_count() == old(self).spec_context_count(),
            final(self).stack == old(self).stack,
    {
        let index = self.unique_counter;
        if self.unique_counter < u64::MAX {
            self.unique_counter = self.unique_counter + 1;
        }
        let mut chars: Vec<char> = Vec::new();
        crate::text::push_str_chars("unique-str-", &mut chars);
        crate::text::push_dec_chars(index, &mut chars);
        crate::text::chars_to_string(&chars)
    }
}

impl SorthInterpreter {
    /// Set the name and definition location of the word being built.
    pub fn construction_set_name_location(&mut self, name: String, location: SourceLocation) -> (
        r: ScriptResult<()>)
        requires
            old(self).wf(),
        ensures
            final(self).wf(),
            final(self).spec_context_count() == old(self).spec_context_count(),
            r is Ok <==> old(self).constructors@.len() > 0,
            r is Ok ==> final(self).constructors@.len() == old(self).constructors@.len() && final(self).constructors@.drop_last() == old(self).constructors@.drop_last() && crate::compilation::spec_top_kept(old(self).constructors@.last(), final(self).constructors@.last()) && final(self).constructors@.last().stack@.last().name == name && final(self).constructors@.last().stack@.last().location == location,
    {
        let mut constructor = self.context_take()?;
        constructor.set_top_name_location(name, location);
        self.context_put(constructor);
        Ok(())
    }

    /// Set when the word being built executes.
    pub fn construction_set_runtime(&mut self, runtime: WordRuntime) -> (r: ScriptResult<()>)
        requires
            old(self).wf(),
        ensures
            final(self).wf(),
            final(self).spec_context_count() == old(self).spec_context_count(),
            r is Ok <==> old(self).constructors@.len() > 0,
            r is Ok ==> final(self).constructors@.len() == old(self).constructors@.len() && final(self).constructors@.drop_last() == old(self).constructors@.drop_last() && crate::compilation::spec_top_kept(old(self).constructors@.last(), final(self).constructors@.last()) && final(self).constructors@.last().stack@.last().runtime == runtime,
    {
        let mut constructor = self.context_take()?;
        constructor.set_top_runtime(runtime);
        self.context_put(constructor);
        Ok(())
    }

    /// Set whether the word being built shows in listings.
    pub fn construction_set_visibility(&mut self, visibility: WordVisibility) -> (r: ScriptResult<
        (),
    >)
        requires
            old(self).wf(),
        ensures
            final(self).wf(),
            final(self).spec_context_count() == old(self).spec_context_count(),
            r is Ok <==> old(self).constructors@.len() > 0,
            r is Ok ==> final(self).constructors@.len() == old(self).constructors@.len() && final(self).constructors@.drop_last() == old(self).constructors@.drop_last() && crate::compilation::spec_top_kept(old(self).constructors@.last(), final(self).constructors@.last()) && final(self).constructors@.last().stack@.last().visibility == visibility,
    {
        let mut constructor = self.context_take()?;
        constructor.set_top_visibility(visibility);
        self.context_put(constructor);
        Ok(())
    }

    /// Set whether the interpreter manages the built word's context.
    pub fn construction_set_context(&mut self, context: WordContext) -> (r: ScriptResult<()>)
        requires
            old(self).wf(),
        ensures
            final(self).wf(),
            final(self).spec_context_count() == old(self).spec_context_count(),
            r is Ok <==> old(self).constructors@.len() > 0,
            r is Ok ==> final(self).constructors@.len() == old(self).constructors@.len() && final(self).constructors@.drop_last() == old(self).constructors@.drop_last() && crate::compilation::spec_top_kept(old(self).constructors@.last(), final(self).constructors@.last()) && final(self).constructors@.last().stack@.last().context == context,
    {
        let mut constructor = self.context_take()?;
        constructor.set_top_context(context);
        self.context_put(constructor);
        Ok(())
    }

    /// Set the description of the word being built.
    pub fn construction_set_description(&mut self, description: String) -> (r: ScriptResult<()>)
        requires
            old(self).wf(),
        ensures
            final(self).wf(),
            final(self).spec_context_count() == old(self).spec_context_count(),
            r is Ok <==> old(self).constructors@.len() > 0,
            r is Ok ==> final(self).constructors@.len() == old(self).constructors@.len() && final(self).constructors@.drop_last() == old(self).constructors@.drop_last() && crate::compilation::spec_top_kept(old(self).constructors@.last(), final(self).constructors@.last()) && final(self).constructors@.last().stack@.last().description == description,
    {
        let mut constructor = self.context_take()?;
        constructor.set_top_description(description);
        self.context_put(constructor);
        Ok(())
    }

    /// Set the stack signature of the word being built.
    pub fn construction_set_signature(&mut self, signature: String) -> (r: ScriptResult<()>)
        requires
            old(self).wf(),
        ensures
            final(self).wf(),
            final(self).spec_context_count() == old(self).spec_context_count(),
            r is Ok <==> old(self).constructors@.len() > 0,
            r is Ok ==> final(self).constructors@.len() == old(self).constructors@.len() && final(self).constructors@.drop_last() == old(self).constructors@.drop_last() && crate::compilation::spec_top_kept(old(self).constructors@.last(), final(self).constructors@.last()) && final(self).constructors@.last().stack@.last().signature == signature,
    {
        let mut constructor = self.context_take()?;
        constructor.set_top_signature(signature);
        self.context_put(constructor);
        Ok(())
    }

    /// Append an instruction at the end of the block under construction,
    /// whatever the insertion mode says.
    pub fn insert_user_instruction_at_end(&mut self, instruction: Instruction) -> (r: ScriptResult<
        (),
    >)
        requires
            old(self).wf(),
        ensures
            final(self).wf(),
            final(self).spec_context_count() == old(self).spec_context_count(),
            r is Ok <==> old(self).constructors@.len() > 0,
            r is Ok ==> final(self).constructors@.len() == old(self).constructors@.len() && final(self).constructors@.drop_last() == old(self).constructors@.drop_last() && crate::compilation::spec_top_kept(old(self).constructors@.last(), final(self).constructors@.last()) && final(self).constructors@.last().stack@.last().code@ == old(self).constructors@.last().stack@.last().code@.push(instruction),
    {
        let mut constructor = self.context_take()?;
        constructor.push_instruction_at_end(instruction);
        self.context_put(constructor);
        Ok(())
    }
}

} // verus!
