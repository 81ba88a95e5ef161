use vstd::prelude::*;
use crate::contextual_data::ContextualData;
use crate::location::SourceLocation;

verus! {

/// When a word is executed: immediately, while the script is still being
/// compiled, or normally, when the compiled bytecode runs.
#[derive(Clone, Copy, PartialEq, Eq)]
pub enum WordRuntime {
    /// The word executes as soon as the compiler sees it.
    Immediate,

    /// The word executes when the compiled bytecode runs.
    Normal,
}

/// What kind of word it is: built into the runtime, or defined by a script.
#[derive(Clone, Copy, PartialEq, Eq)]
pub enum WordType {
    /// The word is built into the runtime.
    Native,

    /// The word was defined by a script.
    Scripted,
}

/// Whether the word shows up in the user facing word listing.
#[derive(Clone, Copy, PartialEq, Eq)]
pub enum WordVisibility {
    /// The word is visible in the listing.
    Visible,

    /// The word is hidden from the listing.
    Hidden,
}

/// How the word's variable and word context is managed.
#[derive(Clone, Copy, PartialEq, Eq)]
pub enum WordContext {
    /// The interpreter opens a context when the word starts and releases it
    /// when the word returns.  This is the default.
    Managed,

    /// The word manages its own contexts.
    Manual,
}

/// The information the dictionary keeps for each word.
pub struct WordInfo {
    /// Where the word was defined.
    pub location: SourceLocation,

    /// The name of the word.
    pub name: String,

    /// When the word executes.
    pub runtime: WordRuntime,

    /// What kind of word it is.
    pub word_type: WordType,

    /// Whether the word is visible in the word listing.
    pub visibility: WordVisibility,

    /// Whether the interpreter manages the word's context.
    pub context: WordContext,

    /// A short description of the word.
    pub description: String,

    /// The word's stack signature.
    pub signature: String,

    /// The index of the word's handler in the interpreter's handler list.
    /// Assigned at registration and never changed.
    pub handler_index: usize,
}

impl Clone for WordInfo {
    /// Clones keep the word information.
    fn clone(&self) -> (r: Self)
        ensures
            r == *self,
    {
        WordInfo {
            location: self.location.clone(),
            name: self.name.clone(),
            runtime: self.runtime,
            word_type: self.word_type,
            visibility: self.visibility,
            context: self.context,
            description: self.description.clone(),
            signature: self.signature.clone(),
            handler_index: self.handler_index,
        }
    }
}

impl WordInfo {
    /// Create a new WordInfo with default values: a normal, native, visible,
    /// managed word with an empty name.
    pub fn new(location: SourceLocation) -> (r: WordInfo)
        ensures
            r.location == location,
            r.name@ == Seq::<char>::empty(),
            r.runtime == WordRuntime::Normal,
            r.word_type == WordType::Native,
            r.visibility == WordVisibility::Visible,
            r.context == WordContext::Managed,
            r.description@ == Seq::<char>::empty(),
            r.signature@ == Seq::<char>::empty(),
            r.handler_index == 0,
    {
        WordInfo {
            location,
            name: String::new(),
            runtime: WordRuntime::Normal,
            word_type: WordType::Native,
            visibility: WordVisibility::Visible,
            context: WordContext::Managed,
            description: String::new(),
            signature: String::new(),
            handler_index: 0,
        }
    }
}

/// One context's bindings, oldest first.  A later binding of the same name
/// shadows an earlier one.
pub type SubDictionary = Vec<(String, WordInfo)>;

/// The newest binding of a name within one context.
pub open spec fn spec_frame_lookup(frame: Seq<(String, WordInfo)>, name: Seq<char>) -> Option<
    WordInfo,
>
    decreases frame.len(),
{
    if frame.len() == 0 {
        None
    } else if frame.last().0@ == name {
        Some(frame.last().1)
    } else {
        spec_frame_lookup(frame.drop_last(), name)
    }
}

/// The newest binding of a name across a stack of contexts, newest context
/// first.
pub open spec fn spec_dict_lookup(stack: Seq<Seq<(String, WordInfo)>>, name: Seq<char>) -> Option<
    WordInfo,
>
    decreases stack.len(),
{
    if stack.len() == 0 {
        None
    } else {
        match spec_frame_lookup(stack.last(), name) {
            Some(info) => Some(info),
            None => spec_dict_lookup(stack.drop_last(), name),
        }
    }
}

/// The word dictionary: a stack of contexts, each holding the bindings made
/// while it was the top context.  Lookup scans newest first, so a later
/// definition shadows an earlier one, and releasing a context forgets exactly
/// the bindings made within it.
pub struct Dictionary {
    /// The stack of contexts, oldest first.
    pub stack: Vec<SubDictionary>,
}

impl Dictionary {
    /// A dictionary always holds at least the permanent root context.
    pub open spec fn wf(&self) -> bool {
        self.stack@.len() >= 1
    }

    /// The view of the dictionary: the bindings of each context.
    pub open spec fn view_stack(&self) -> Seq<Seq<(String, WordInfo)>> {
        self.stack@.map_values(|frame: SubDictionary| frame@)
    }

    /// The newest binding of a name, if any.
    pub open spec fn spec_lookup(&self, name: Seq<char>) -> Option<WordInfo> {
        spec_dict_lookup(self.view_stack(), name)
    }

    /// Create a new dictionary holding only the permanent root context,
    /// empty.
    pub fn new() -> (r: Dictionary)
        ensures
            r.wf(),
            r.stack@.len() == 1,
            r.view_stack() =~= seq![Seq::<(String, WordInfo)>::empty()],
    {
        let mut stack: Vec<SubDictionary> = Vec::new();
        stack.push(Vec::new());
        Dictionary { stack }
    }

    /// Insert a word into the top context, shadowing any earlier binding of
    /// the same name.
    pub fn insert(&mut self, name: String, info: WordInfo)
        requires
            old(self).wf(),
        ensures
            final(self).wf(),
            final(self).view_stack() =~= old(self).view_stack().update(
                old(self).view_stack().len() - 1,
                old(self).view_stack().last().push((name, info)),
            ),
            forall|n: Seq<char>|
                #[trigger] final(self).spec_lookup(n) == if n == name@ {
                    Some(info)
                } else {
                    old(self).spec_lookup(n)
                },
    {
        let top = self.stack.len() - 1;
        let ghost old_stack = self.view_stack();
        let mut frame = self.stack.remove(top);
        frame.push((name, info));
        self.stack.insert(top, frame);
        proof {
            let new_stack = self.view_stack();
            assert(new_stack =~= old_stack.update(
                old_stack.len() - 1,
                old_stack.last().push((name, info)),
            ));
            assert forall|n: Seq<char>| #[trigger]
                self.spec_lookup(n) == if n == name@ {
                    Some(info)
                } else {
                    old(self).spec_lookup(n)
                } by {
                assert(new_stack.last() == old_stack.last().push((name, info)));
                assert(new_stack.drop_last() =~= old_stack.drop_last());
                if n == name@ {
                    assert(spec_frame_lookup(new_stack.last(), n) == Some(info));
                } else {
                    assert(new_stack.last().drop_last() =~= old_stack.last());
                    assert(spec_frame_lookup(new_stack.last(), n) == spec_frame_lookup(
                        old_stack.last(),
                        n,
                    ));
                }
            }
        }
    }

    /// Try to get a word from the dictionary, searching every context and
    /// returning the newest binding of the name.
    pub fn try_get(&self, name: &str) -> (r: Option<&WordInfo>)
        requires
            self.wf(),
        ensures
            match r {
                Some(info) => self.spec_lookup(name@) == Some(*info),
                None => self.spec_lookup(name@) is None,
            },
    {
        let ghost stack = self.view_stack();
        proof {
            assert(stack.take(stack.len() as int) =~= stack);
        }
        let mut fi: usize = self.stack.len();
        while fi > 0
            invariant
                self.wf(),
                stack == self.view_stack(),
                fi <= stack.len(),
                spec_dict_lookup(stack, name@) == spec_dict_lookup(stack.take(fi as int), name@),
            decreases fi,
        {
            fi = fi - 1;
            let frame = &self.stack[fi];
            let ghost fseq = frame@;
            proof {
                assert(fseq == stack[fi as int]);
                assert(fseq.take(fseq.len() as int) =~= fseq);
                assert(stack.take(fi as int + 1).last() == stack[fi as int]);
                assert(stack.take(fi as int + 1).drop_last() =~= stack.take(fi as int));
            }
            let mut ei: usize = frame.len();
            while ei > 0
                invariant
                    self.wf(),
                    stack == self.view_stack(),
                    fi < stack.len(),
                    fseq == frame@,
                    fseq == stack[fi as int],
                    ei <= fseq.len(),
                    spec_dict_lookup(stack, name@) == spec_dict_lookup(
                        stack.take(fi as int + 1),
                        name@,
                    ),
                    spec_frame_lookup(fseq, name@) == spec_frame_lookup(
                        fseq.take(ei as int),
                        name@,
                    ),
                decreases ei,
            {
                ei = ei - 1;
                let entry = &frame[ei];
                proof {
                    assert(fseq.take(ei as int + 1).last() == fseq[ei as int]);
                    assert(fseq.take(ei as int + 1).drop_last() =~= fseq.take(ei as int));
                }
                if string_eq_str(&entry.0, name) {
                    proof {
                        assert(spec_frame_lookup(fseq, name@) == Some(fseq[ei as int].1));
                        assert(stack.take(fi as int + 1).last() == stack[fi as int]);
                        assert(stack.take(fi as int + 1).drop_last() =~= stack.take(fi as int));
                        assert(spec_dict_lookup(stack.take(fi as int + 1), name@) == Some(
                            fseq[ei as int].1,
                        ));
                    }
                    return Some(&entry.1);
                }
            }
            proof {
                assert(fseq.take(0int) =~= Seq::<(String, WordInfo)>::empty());
                assert(spec_frame_lookup(fseq, name@) is None);
                assert(stack.take(fi as int + 1).last() == stack[fi as int]);
                assert(stack.take(fi as int + 1).drop_last() =~= stack.take(fi as int));
            }
        }
        proof {
            assert(stack.take(0int) =~= Seq::<Seq<(String, WordInfo)>>::empty());
        }
        None
    }

    /// How many contexts are open, the permanent root included.
    pub fn context_count(&self) -> (r: usize)
        ensures
            r == self.stack@.len(),
    {
        self.stack.len()
    }
}

/// Compare an owned string with a string slice by characters.
pub fn string_eq_str(a: &String, b: &str) -> (r: bool)
    ensures
        r == (a@ == b@),
{
    let owned = b.to_owned();
    *a == owned
}

impl ContextualData for Dictionary {
    /// The dictionary's well-formedness.
    open spec fn inv(&self) -> bool {
        self.wf()
    }

    /// A release is allowed while a context besides the root is open.
    open spec fn can_release(&self) -> bool {
        self.stack@.len() >= 2
    }

    /// Open a new context: words defined afterward are forgotten by the
    /// matching release.
    fn mark_context(&mut self)
        ensures
            final(self).wf(),
            final(self).view_stack() =~= old(self).view_stack().push(
                Seq::<(String, WordInfo)>::empty(),
            ),
    {
        self.stack.push(Vec::new());
    }

    /// Release the current context and forget the words defined within it.
    /// The root context can never be released.
    fn release_context(&mut self)
        ensures
            final(self).wf(),
            final(self).view_stack() =~= old(self).view_stack().drop_last(),
    {
        let _ = self.stack.pop();
    }
}

/// Whether a merged listing carries the given name.
pub open spec fn spec_name_in(merged: Seq<(String, WordInfo)>, name: Seq<char>) -> bool {
    exists|j: int| 0 <= j < merged.len() && (#[trigger] merged[j]).0@ == name
}

/// A name carried by a listing is still carried after the listing grows.
proof fn lemma_name_in_push(merged: Seq<(String, WordInfo)>, entry: (String, WordInfo), name: Seq<char>)
    requires
        spec_name_in(merged, name),
    ensures
        spec_name_in(merged.push(entry), name),
{
    let j = choose|j: int| 0 <= j < merged.len() && (#[trigger] merged[j]).0@ == name;
    assert(merged.push(entry)[j].0@ == name);
}

/// Whether a listing already carries a name.
fn listing_has_name(listing: &Vec<(String, WordInfo)>, name: &String) -> (r: bool)
    ensures
        r == spec_name_in(listing@, name@),
{
    let mut i: usize = 0;
    while i < listing.len()
        invariant
            i <= listing@.len(),
            forall|j: int| 0 <= j < i ==> (#[trigger] listing@[j]).0@ != name@,
        decreases listing@.len() - i,
    {
        if string_eq_str(&listing[i].0, name.as_str()) {
            return true;
        }
        i = i + 1;
    }
    false
}

impl Dictionary {
    /// A merged, contextless listing of the dictionary: every defined name
    /// appears exactly once, bound to what a lookup of that name answers, so
    /// a name bound in several contexts shows only its newest binding.
    pub fn get_merged(&self) -> (r: Vec<(String, WordInfo)>)
        requires
            self.wf(),
        ensures
            forall|j: int, k: int|
                0 <= j < k < r@.len() ==> (#[trigger] r@[j]).0@ != (#[trigger] r@[k]).0@,
            forall|j: int|
                0 <= j < r@.len() ==> self.spec_lookup((#[trigger] r@[j]).0@) == Some(r@[j].1),
            forall|f: int, e: int|
                0 <= f < self.view_stack().len() && 0 <= e < self.view_stack()[f].len()
                    ==> spec_name_in(r@, (#[trigger] self.view_stack()[f][e]).0@),
    {
        let mut merged: Vec<(String, WordInfo)> = Vec::new();
        let ghost stack = self.view_stack();
        let mut fi: usize = 0;
        while fi < self.stack.len()
            invariant
                self.wf(),
                stack == self.view_stack(),
                fi <= stack.len(),
                forall|j: int, k: int|
                    0 <= j < k < merged@.len() ==> (#[trigger] merged@[j]).0@ != (
                    #[trigger] merged@[k]).0@,
                forall|j: int|
                    0 <= j < merged@.len() ==> self.spec_lookup((#[trigger] merged@[j]).0@)
                        == Some(merged@[j].1),
                forall|f: int, e: int|
                    0 <= f < fi && 0 <= e < stack[f].len() ==> spec_name_in(
                        merged@,
                        (#[trigger] stack[f][e]).0@,
                    ),
            decreases stack.len() - fi,
        {
            let frame_len = self.stack[fi].len();
            let mut ei: usize = 0;
            while ei < frame_len
                invariant
                    self.wf(),
                    stack == self.view_stack(),
                    fi < stack.len(),
                    frame_len == stack[fi as int].len(),
                    ei <= frame_len,
                    forall|j: int, k: int|
                        0 <= j < k < merged@.len() ==> (#[trigger] merged@[j]).0@ != (
                        #[trigger] merged@[k]).0@,
                    forall|j: int|
                        0 <= j < merged@.len() ==> self.spec_lookup((#[trigger] merged@[j]).0@)
                            == Some(merged@[j].1),
                    forall|f: int, e: int|
                        0 <= f < fi && 0 <= e < stack[f].len() ==> spec_name_in(
                            merged@,
                            (#[trigger] stack[f][e]).0@,
                        ),
                    forall|e: int|
                        0 <= e < ei ==> spec_name_in(
                            merged@,
                            (#[trigger] stack[fi as int][e]).0@,
                        ),
                decreases frame_len - ei,
            {
                let ghost prior = merged@;
                let name = self.stack[fi][ei].0.clone();
                proof {
                    assert(stack[fi as int][ei as int].0@ == name@);
                }
                let already = listing_has_name(&merged, &name);
                if !already {
                    let info = match self.try_get(name.as_str()) {
                        Some(found) => found.clone(),
                        None => {
                            proof {
                                lemma_bound_name_is_found(stack, fi as int, ei as int);
                            }
                            WordInfo::new(crate::location::SourceLocation::new())
                        },
                    };
                    merged.push((name, info));
                }
                proof {
                    assert forall|f: int, e: int|
                        0 <= f < fi && 0 <= e < stack[f].len() implies spec_name_in(
                            merged@,
                            (#[trigger] stack[f][e]).0@,
                        ) by {
                        if merged@ != prior {
                            lemma_name_in_push(prior, merged@.last(), stack[f][e].0@);
                            assert(merged@ == prior.push(merged@.last()));
                        }
                    }
                    assert forall|e: int| 0 <= e < ei + 1 implies spec_name_in(
                        merged@,
                        (#[trigger] stack[fi as int][e]).0@,
                    ) by {
                        if e < ei {
                            if merged@ != prior {
                                lemma_name_in_push(
                                    prior,
                                    merged@.last(),
                                    stack[fi as int][e].0@,
                                );
                                assert(merged@ == prior.push(merged@.last()));
                            }
                        } else {
                            if already {
                                if merged@ != prior {
                                    lemma_name_in_push(prior, merged@.last(), name@);
                                    assert(merged@ == prior.push(merged@.last()));
                                }
                                assert(spec_name_in(merged@, name@));
                            } else {
                                assert(merged@[merged@.len() - 1].0@ == name@);
                                assert(spec_name_in(merged@, name@));
                            }
                        }
                    }
                }
                ei = ei + 1;
            }
            fi = fi + 1;
        }
        merged
    }
}

/// A name bound anywhere in the stack of contexts is found by lookup.
proof fn lemma_bound_name_is_found(stack: Seq<Seq<(String, WordInfo)>>, f: int, e: int)
    requires
        0 <= f < stack.len(),
        0 <= e < stack[f].len(),
    ensures
        spec_dict_lookup(stack, stack[f][e].0@) is Some,
    decreases stack.len(),
{
    let name = stack[f][e].0@;
    if f == stack.len() - 1 {
        lemma_bound_name_in_frame(stack.last(), e);
    } else {
        match spec_frame_lookup(stack.last(), name) {
            Some(_) => {},
            None => {
                assert(stack.drop_last()[f] == stack[f]);
                lemma_bound_name_is_found(stack.drop_last(), f, e);
            },
        }
    }
}

/// A name bound in a frame is found by the frame's lookup.
proof fn lemma_bound_name_in_frame(frame: Seq<(String, WordInfo)>, e: int)
    requires
        0 <= e < frame.len(),
    ensures
        spec_frame_lookup(frame, frame[e].0@) is Some,
    decreases frame.len(),
{
    if e == frame.len() - 1 {
    } else {
        if frame.last().0@ != frame[e].0@ {
            assert(frame.drop_last()[e] == frame[e]);
            lemma_bound_name_in_frame(frame.drop_last(), e);
        }
    }
}

} // verus!
