use vstd::prelude::*;
use crate::byte_buffer::ByteBuffer;
use crate::code::{ByteCode, Instruction, Op, clone_code};
use crate::dictionary::WordVisibility;
use crate::value::{Value, spec_int_val, spec_is_numeric, spec_is_stringable, spec_string_val};

verus! {

/// The definition of a structured data object: its name, its field names in
/// order, and the default value of each field.  Read-only once created.
pub struct DataObjectDefinition {
    /// The name of the structure type.
    pub name: String,

    /// The names of the fields, in order.
    pub field_names: Vec<String>,

    /// The default values of the fields, cloned into each new instance.
    pub defaults: Vec<Value>,

    /// Whether the structure and its helper words show up in listings.
    pub visibility: WordVisibility,
}

/// An instance of a structure: the definition it was created from and its
/// field values, by position.
pub struct DataObject {
    /// The index of the structure's definition in the store.
    pub definition_index: usize,

    /// The values of the fields, in definition order.
    pub fields: Vec<Value>,
}

/// The store of every reference-typed object the interpreter owns: vectors,
/// hash tables, structure instances, byte buffers, code blocks, and structure
/// definitions.  A reference value holds an index into one of these arenas;
/// slots are never freed, so an index stays good for the life of the
/// interpreter, and two values holding the same index share one object.
pub struct ValueStore {
    /// The vector arena.
    pub arrays: Vec<Vec<Value>>,

    /// The hash table arena.  Each table is a list of key and value pairs
    /// whose keys are pairwise distinct under the language's equality.
    pub hashes: Vec<Vec<(Value, Value)>>,

    /// The structure instance arena.
    pub objects: Vec<DataObject>,

    /// The byte buffer arena.
    pub buffers: Vec<ByteBuffer>,

    /// The code block arena.
    pub code_blocks: Vec<ByteCode>,

    /// The structure definition arena.  Definitions are never mutated.
    pub definitions: Vec<DataObjectDefinition>,
}

/// The ghost view of a store: the contents of each arena.
pub ghost struct StoreView {
    pub arrays: Seq<Seq<Value>>,
    pub hashes: Seq<Seq<(Value, Value)>>,
    pub objects: Seq<DataObject>,
    pub buffers: Seq<ByteBuffer>,
    pub code_blocks: Seq<Seq<Instruction>>,
    pub definitions: Seq<DataObjectDefinition>,
}

impl View for ValueStore {
    type V = StoreView;

    open spec fn view(&self) -> StoreView {
        StoreView {
            arrays: self.arrays@.map_values(|a: Vec<Value>| a@),
            hashes: self.hashes@.map_values(|h: Vec<(Value, Value)>| h@),
            objects: self.objects@,
            buffers: self.buffers@,
            code_blocks: self.code_blocks@.map_values(|c: ByteCode| c@),
            definitions: self.definitions@,
        }
    }
}

/// One store extends another: every arena of the old store is a prefix of the
/// new one, with the old slots unchanged.
pub open spec fn spec_store_extends(s1: StoreView, s0: StoreView) -> bool {
    &&& s0.arrays.len() <= s1.arrays.len() && s1.arrays.take(s0.arrays.len() as int) == s0.arrays
    &&& s0.hashes.len() <= s1.hashes.len() && s1.hashes.take(s0.hashes.len() as int) == s0.hashes
    &&& s0.objects.len() <= s1.objects.len() && s1.objects.take(s0.objects.len() as int)
        == s0.objects
    &&& s0.buffers.len() <= s1.buffers.len() && s1.buffers.take(s0.buffers.len() as int)
        == s0.buffers
    &&& s0.code_blocks.len() <= s1.code_blocks.len() && s1.code_blocks.take(
        s0.code_blocks.len() as int,
    ) == s0.code_blocks
    &&& s0.definitions.len() <= s1.definitions.len() && s1.definitions.take(
        s0.definitions.len() as int,
    ) == s0.definitions
}

/// Two store views that agree on every arena but the arrays.
pub open spec fn spec_same_but_arrays(s1: StoreView, s0: StoreView) -> bool {
    &&& s1.hashes == s0.hashes
    &&& s1.objects == s0.objects
    &&& s1.buffers == s0.buffers
    &&& s1.code_blocks == s0.code_blocks
    &&& s1.definitions == s0.definitions
}

/// Two store views that agree on every arena but the hash tables.
pub open spec fn spec_same_but_hashes(s1: StoreView, s0: StoreView) -> bool {
    &&& s1.arrays == s0.arrays
    &&& s1.objects == s0.objects
    &&& s1.buffers == s0.buffers
    &&& s1.code_blocks == s0.code_blocks
    &&& s1.definitions == s0.definitions
}

/// Two store views that agree on every arena but the byte buffers.
pub open spec fn spec_same_but_buffers(s1: StoreView, s0: StoreView) -> bool {
    &&& s1.arrays == s0.arrays
    &&& s1.hashes == s0.hashes
    &&& s1.objects == s0.objects
    &&& s1.code_blocks == s0.code_blocks
    &&& s1.definitions == s0.definitions
}

/// A value clones to another value: scalars carry over unchanged, and a
/// reference value clones to a reference to a new object whose parts are in
/// turn clones of the original's parts, down to the given depth.
pub open spec fn spec_clone_rel(s0: StoreView, a: Value, s1: StoreView, b: Value, depth: nat) -> bool
    decreases depth, 0int,
{
    match a {
        Value::Vec(i) => depth > 0 && (b matches Value::Vec(j) && i < s0.arrays.len() && j
            < s1.arrays.len() && spec_clone_rel_list(
            s0,
            s0.arrays[i as int],
            s1,
            s1.arrays[j as int],
            (depth - 1) as nat,
        )),
        Value::HashMap(i) => depth > 0 && (b matches Value::HashMap(j) && i < s0.hashes.len() && j
            < s1.hashes.len() && spec_clone_rel_pairs(
            s0,
            s0.hashes[i as int],
            s1,
            s1.hashes[j as int],
            (depth - 1) as nat,
        )),
        Value::DataObject(i) => depth > 0 && (b matches Value::DataObject(j) && i
            < s0.objects.len() && j < s1.objects.len() && s1.objects[j as int].definition_index
            == s0.objects[i as int].definition_index && spec_clone_rel_list(
            s0,
            s0.objects[i as int].fields@,
            s1,
            s1.objects[j as int].fields@,
            (depth - 1) as nat,
        )),
        Value::ByteBuffer(i) => b matches Value::ByteBuffer(j) && i < s0.buffers.len() && j
            < s1.buffers.len() && s1.buffers[j as int].buffer@ == s0.buffers[i as int].buffer@
            && s1.buffers[j as int].current_position == s0.buffers[i as int].current_position,
        Value::Code(i) => b matches Value::Code(j) && i < s0.code_blocks.len() && j
            < s1.code_blocks.len() && s1.code_blocks[j as int] == s0.code_blocks[i as int],
        _ => b == a,
    }
}

/// Every element of one list clones to the matching element of the other.
pub open spec fn spec_clone_rel_list(
    s0: StoreView,
    a: Seq<Value>,
    s1: StoreView,
    b: Seq<Value>,
    depth: nat,
) -> bool
    decreases depth, 1int,
{
    a.len() == b.len() && forall|k: int|
        0 <= k < a.len() ==> spec_clone_rel(s0, #[trigger] a[k], s1, b[k], depth)
}

/// Every pair of one table clones to the matching pair of the other.
pub open spec fn spec_clone_rel_pairs(
    s0: StoreView,
    a: Seq<(Value, Value)>,
    s1: StoreView,
    b: Seq<(Value, Value)>,
    depth: nat,
) -> bool
    decreases depth, 1int,
{
    a.len() == b.len() && forall|k: int|
        0 <= k < a.len() ==> spec_clone_rel(s0, (#[trigger] a[k]).0, s1, b[k].0, depth)
            && spec_clone_rel(s0, a[k].1, s1, b[k].1, depth)
}

impl ValueStore {
    /// Create a new, empty store.
    pub fn new() -> (r: ValueStore)
        ensures
            r@.arrays.len() == 0,
            r@.hashes.len() == 0,
            r@.objects.len() == 0,
            r@.buffers.len() == 0,
            r@.code_blocks.len() == 0,
            r@.definitions.len() == 0,
    {
        ValueStore {
            arrays: Vec::new(),
            hashes: Vec::new(),
            objects: Vec::new(),
            buffers: Vec::new(),
            code_blocks: Vec::new(),
            definitions: Vec::new(),
        }
    }

    /// Add a new vector to the store and return its index.
    pub fn alloc_array(&mut self, values: Vec<Value>) -> (r: usize)
        ensures
            final(self)@.arrays == old(self)@.arrays.push(values@),
            final(self)@.hashes == old(self)@.hashes,
            final(self)@.objects == old(self)@.objects,
            final(self)@.buffers == old(self)@.buffers,
            final(self)@.code_blocks == old(self)@.code_blocks,
            final(self)@.definitions == old(self)@.definitions,
            r == old(self)@.arrays.len(),
            spec_store_extends(final(self)@, old(self)@),
    {
        let index = self.arrays.len();
        self.arrays.push(values);
        proof {
            assert(self@.arrays =~= old(self)@.arrays.push(self.arrays@.last()@));
            assert(self@.arrays.take(old(self)@.arrays.len() as int) =~= old(self)@.arrays);
            lemma_extend_refl(old(self)@, final(self)@);
        }
        index
    }

    /// Add a new hash table to the store and return its index.
    pub fn alloc_hash(&mut self, pairs: Vec<(Value, Value)>) -> (r: usize)
        ensures
            final(self)@.hashes == old(self)@.hashes.push(pairs@),
            final(self)@.arrays == old(self)@.arrays,
            final(self)@.objects == old(self)@.objects,
            final(self)@.buffers == old(self)@.buffers,
            final(self)@.code_blocks == old(self)@.code_blocks,
            final(self)@.definitions == old(self)@.definitions,
            r == old(self)@.hashes.len(),
            spec_store_extends(final(self)@, old(self)@),
    {
        let index = self.hashes.len();
        self.hashes.push(pairs);
        proof {
            assert(self@.hashes =~= old(self)@.hashes.push(self.hashes@.last()@));
            assert(self@.hashes.take(old(self)@.hashes.len() as int) =~= old(self)@.hashes);
            lemma_extend_refl(old(self)@, final(self)@);
        }
        index
    }

    /// Add a new structure instance to the store and return its index.
    pub fn alloc_object(&mut self, object: DataObject) -> (r: usize)
        ensures
            final(self)@.objects == old(self)@.objects.push(object),
            final(self)@.arrays == old(self)@.arrays,
            final(self)@.hashes == old(self)@.hashes,
            final(self)@.buffers == old(self)@.buffers,
            final(self)@.code_blocks == old(self)@.code_blocks,
            final(self)@.definitions == old(self)@.definitions,
            r == old(self)@.objects.len(),
            spec_store_extends(final(self)@, old(self)@),
    {
        let index = self.objects.len();
        self.objects.push(object);
        proof {
            assert(self@.objects.take(old(self)@.objects.len() as int) =~= old(self)@.objects);
            lemma_extend_refl(old(self)@, final(self)@);
        }
        index
    }

    /// Add a new byte buffer to the store and return its index.
    pub fn alloc_buffer(&mut self, buffer: ByteBuffer) -> (r: usize)
        ensures
            final(self)@.buffers == old(self)@.buffers.push(buffer),
            final(self)@.arrays == old(self)@.arrays,
            final(self)@.hashes == old(self)@.hashes,
            final(self)@.objects == old(self)@.objects,
            final(self)@.code_blocks == old(self)@.code_blocks,
            final(self)@.definitions == old(self)@.definitions,
            r == old(self)@.buffers.len(),
            spec_store_extends(final(self)@, old(self)@),
    {
        let index = self.buffers.len();
        self.buffers.push(buffer);
        proof {
            assert(self@.buffers.take(old(self)@.buffers.len() as int) =~= old(self)@.buffers);
            lemma_extend_refl(old(self)@, final(self)@);
        }
        index
    }

    /// Add a new code block to the store and return its index.
    pub fn alloc_code(&mut self, code: ByteCode) -> (r: usize)
        ensures
            final(self)@.code_blocks == old(self)@.code_blocks.push(code@),
            final(self)@.arrays == old(self)@.arrays,
            final(self)@.hashes == old(self)@.hashes,
            final(self)@.objects == old(self)@.objects,
            final(self)@.buffers == old(self)@.buffers,
            final(self)@.definitions == old(self)@.definitions,
            r == old(self)@.code_blocks.len(),
            spec_store_extends(final(self)@, old(self)@),
    {
        let index = self.code_blocks.len();
        self.code_blocks.push(code);
        proof {
            assert(self@.code_blocks =~= old(self)@.code_blocks.push(
                self.code_blocks@.last()@,
            ));
            assert(self@.code_blocks.take(old(self)@.code_blocks.len() as int) =~= old(
                self,
            )@.code_blocks);
            lemma_extend_refl(old(self)@, final(self)@);
        }
        index
    }

    /// Add a new structure definition to the store and return its index.
    pub fn alloc_definition(&mut self, definition: DataObjectDefinition) -> (r: usize)
        ensures
            final(self)@.definitions == old(self)@.definitions.push(definition),
            final(self)@.arrays == old(self)@.arrays,
            final(self)@.hashes == old(self)@.hashes,
            final(self)@.objects == old(self)@.objects,
            final(self)@.buffers == old(self)@.buffers,
            final(self)@.code_blocks == old(self)@.code_blocks,
            r == old(self)@.definitions.len(),
            spec_store_extends(final(self)@, old(self)@),
    {
        let index = self.definitions.len();
        self.definitions.push(definition);
        proof {
            assert(self@.definitions.take(old(self)@.definitions.len() as int) =~= old(
                self,
            )@.definitions);
            lemma_extend_refl(old(self)@, final(self)@);
        }
        index
    }
}

/// A store whose arenas did not change extends itself, and pushing onto one
/// arena keeps the extension.
proof fn lemma_extend_refl(s0: StoreView, s1: StoreView)
    requires
        s0.arrays.len() <= s1.arrays.len(),
        s1.arrays.take(s0.arrays.len() as int) =~= s0.arrays,
        s0.hashes.len() <= s1.hashes.len(),
        s1.hashes.take(s0.hashes.len() as int) =~= s0.hashes,
        s0.objects.len() <= s1.objects.len(),
        s1.objects.take(s0.objects.len() as int) =~= s0.objects,
        s0.buffers.len() <= s1.buffers.len(),
        s1.buffers.take(s0.buffers.len() as int) =~= s0.buffers,
        s0.code_blocks.len() <= s1.code_blocks.len(),
        s1.code_blocks.take(s0.code_blocks.len() as int) =~= s0.code_blocks,
        s0.definitions.len() <= s1.definitions.len(),
        s1.definitions.take(s0.definitions.len() as int) =~= s0.definitions,
    ensures
        spec_store_extends(s1, s0),
{
}

/// Store extension carries over: a store extending another extends everything
/// that one extends.
pub proof fn lemma_extends_trans(s2: StoreView, s1: StoreView, s0: StoreView)
    requires
        spec_store_extends(s2, s1),
        spec_store_extends(s1, s0),
    ensures
        spec_store_extends(s2, s0),
{
    assert(s2.arrays.take(s0.arrays.len() as int) =~= s1.arrays.take(s0.arrays.len() as int));
    assert(s2.hashes.take(s0.hashes.len() as int) =~= s1.hashes.take(s0.hashes.len() as int));
    assert(s2.objects.take(s0.objects.len() as int) =~= s1.objects.take(s0.objects.len() as int));
    assert(s2.buffers.take(s0.buffers.len() as int) =~= s1.buffers.take(s0.buffers.len() as int));
    assert(s2.code_blocks.take(s0.code_blocks.len() as int) =~= s1.code_blocks.take(
        s0.code_blocks.len() as int,
    ));
    assert(s2.definitions.take(s0.definitions.len() as int) =~= s1.definitions.take(
        s0.definitions.len() as int,
    ));
}

/// A slot of the old store reads the same in any store extending it.
pub proof fn lemma_extends_reads(s1: StoreView, s0: StoreView)
    requires
        spec_store_extends(s1, s0),
    ensures
        forall|i: int| 0 <= i < s0.arrays.len() ==> #[trigger] s1.arrays[i] == s0.arrays[i],
        forall|i: int| 0 <= i < s0.hashes.len() ==> #[trigger] s1.hashes[i] == s0.hashes[i],
        forall|i: int| 0 <= i < s0.objects.len() ==> #[trigger] s1.objects[i] == s0.objects[i],
        forall|i: int| 0 <= i < s0.buffers.len() ==> #[trigger] s1.buffers[i] == s0.buffers[i],
        forall|i: int|
            0 <= i < s0.code_blocks.len() ==> #[trigger] s1.code_blocks[i] == s0.code_blocks[i],
        forall|i: int|
            0 <= i < s0.definitions.len() ==> #[trigger] s1.definitions[i] == s0.definitions[i],
{
    assert forall|i: int| 0 <= i < s0.arrays.len() implies #[trigger] s1.arrays[i]
        == s0.arrays[i] by {
        assert(s1.arrays.take(s0.arrays.len() as int)[i] == s1.arrays[i]);
    }
    assert forall|i: int| 0 <= i < s0.hashes.len() implies #[trigger] s1.hashes[i]
        == s0.hashes[i] by {
        assert(s1.hashes.take(s0.hashes.len() as int)[i] == s1.hashes[i]);
    }
    assert forall|i: int| 0 <= i < s0.objects.len() implies #[trigger] s1.objects[i]
        == s0.objects[i] by {
        assert(s1.objects.take(s0.objects.len() as int)[i] == s1.objects[i]);
    }
    assert forall|i: int| 0 <= i < s0.buffers.len() implies #[trigger] s1.buffers[i]
        == s0.buffers[i] by {
        assert(s1.buffers.take(s0.buffers.len() as int)[i] == s1.buffers[i]);
    }
    assert forall|i: int| 0 <= i < s0.code_blocks.len() implies #[trigger] s1.code_blocks[i]
        == s0.code_blocks[i] by {
        assert(s1.code_blocks.take(s0.code_blocks.len() as int)[i] == s1.code_blocks[i]);
    }
    assert forall|i: int| 0 <= i < s0.definitions.len() implies #[trigger] s1.definitions[i]
        == s0.definitions[i] by {
        assert(s1.definitions.take(s0.definitions.len() as int)[i] == s1.definitions[i]);
    }
}

/// The clone relation only looks at slots inside the store it holds over, so
/// it carries over to any store extending that one.
pub proof fn lemma_clone_rel_mono(s0: StoreView, s1: StoreView, a: Value, b: Value, depth: nat)
    requires
        spec_store_extends(s1, s0),
        spec_clone_rel(s0, a, s0, b, depth),
    ensures
        spec_clone_rel(s1, a, s1, b, depth),
    decreases depth, 0int,
{
    lemma_extends_reads(s1, s0);
    match (a, b) {
        (Value::Vec(i), Value::Vec(j)) => {
            if spec_clone_rel(s0, a, s0, b, depth) {
                lemma_clone_rel_list_mono(
                    s0,
                    s1,
                    s0.arrays[i as int],
                    s0.arrays[j as int],
                    (depth - 1) as nat,
                );
            }
        },
        (Value::HashMap(i), Value::HashMap(j)) => {
            if spec_clone_rel(s0, a, s0, b, depth) {
                lemma_clone_rel_pairs_mono(
                    s0,
                    s1,
                    s0.hashes[i as int],
                    s0.hashes[j as int],
                    (depth - 1) as nat,
                );
            }
        },
        (Value::DataObject(i), Value::DataObject(j)) => {
            if spec_clone_rel(s0, a, s0, b, depth) {
                lemma_clone_rel_list_mono(
                    s0,
                    s1,
                    s0.objects[i as int].fields@,
                    s0.objects[j as int].fields@,
                    (depth - 1) as nat,
                );
            }
        },
        _ => {},
    }
}

/// The element-wise clone relation carries over to an extending store.
pub proof fn lemma_clone_rel_list_mono(
    s0: StoreView,
    s1: StoreView,
    a: Seq<Value>,
    b: Seq<Value>,
    depth: nat,
)
    requires
        spec_store_extends(s1, s0),
        spec_clone_rel_list(s0, a, s0, b, depth),
    ensures
        spec_clone_rel_list(s1, a, s1, b, depth),
    decreases depth, 1int,
{
    assert forall|k: int| 0 <= k < a.len() implies spec_clone_rel(
        s1,
        #[trigger] a[k],
        s1,
        b[k],
        depth,
    ) by {
        lemma_clone_rel_mono(s0, s1, a[k], b[k], depth);
    }
}

/// The pair-wise clone relation carries over to an extending store.
pub proof fn lemma_clone_rel_pairs_mono(
    s0: StoreView,
    s1: StoreView,
    a: Seq<(Value, Value)>,
    b: Seq<(Value, Value)>,
    depth: nat,
)
    requires
        spec_store_extends(s1, s0),
        spec_clone_rel_pairs(s0, a, s0, b, depth),
    ensures
        spec_clone_rel_pairs(s1, a, s1, b, depth),
    decreases depth, 1int,
{
    assert forall|k: int| 0 <= k < a.len() implies spec_clone_rel(
        s1,
        (#[trigger] a[k]).0,
        s1,
        b[k].0,
        depth,
    ) && spec_clone_rel(s1, a[k].1, s1, b[k].1, depth) by {
        lemma_clone_rel_mono(s0, s1, a[k].0, b[k].0, depth);
        lemma_clone_rel_mono(s0, s1, a[k].1, b[k].1, depth);
    }
}

/// Whether a reference value points at a slot the store does not yet hold.
pub open spec fn spec_fresh_ref(s: StoreView, b: Value) -> bool {
    match b {
        Value::Vec(j) => j >= s.arrays.len(),
        Value::HashMap(j) => j >= s.hashes.len(),
        Value::DataObject(j) => j >= s.objects.len(),
        Value::ByteBuffer(j) => j >= s.buffers.len(),
        Value::Code(j) => j >= s.code_blocks.len(),
        _ => true,
    }
}

/// Clone a list of values one by one, sharing the referenced objects.
pub fn clone_values(values: &Vec<Value>) -> (r: Vec<Value>)
    ensures
        r@ == values@,
{
    let mut out: Vec<Value> = Vec::new();
    let mut i: usize = 0;
    while i < values.len()
        invariant
            i <= values@.len(),
            out@ == values@.subrange(0, i as int),
        decreases values@.len() - i,
    {
        out.push(values[i].clone());
        i = i + 1;
        assert(out@ =~= values@.subrange(0, i as int));
    }
    assert(out@ =~= values@);
    out
}

/// Clone a list of key and value pairs one by one.
pub fn clone_pairs(pairs: &Vec<(Value, Value)>) -> (r: Vec<(Value, Value)>)
    ensures
        r@ == pairs@,
{
    let mut out: Vec<(Value, Value)> = Vec::new();
    let mut i: usize = 0;
    while i < pairs.len()
        invariant
            i <= pairs@.len(),
            out@ == pairs@.subrange(0, i as int),
        decreases pairs@.len() - i,
    {
        let entry = &pairs[i];
        out.push((entry.0.clone(), entry.1.clone()));
        i = i + 1;
        assert(out@ =~= pairs@.subrange(0, i as int));
    }
    assert(out@ =~= pairs@);
    out
}


/// A value the store can clone to the given depth: every reference in it is
/// live, and its nesting stays within the depth.
pub open spec fn spec_clone_ready(s: StoreView, v: Value, depth: nat) -> bool
    decreases depth, 0int,
{
    match v {
        Value::Vec(i) => depth > 0 && i < s.arrays.len() && spec_clone_ready_list(
            s,
            s.arrays[i as int],
            (depth - 1) as nat,
        ),
        Value::HashMap(i) => depth > 0 && i < s.hashes.len() && spec_clone_ready_pairs(
            s,
            s.hashes[i as int],
            (depth - 1) as nat,
        ),
        Value::DataObject(i) => depth > 0 && i < s.objects.len() && spec_clone_ready_list(
            s,
            s.objects[i as int].fields@,
            (depth - 1) as nat,
        ),
        Value::ByteBuffer(i) => i < s.buffers.len(),
        Value::Code(i) => i < s.code_blocks.len(),
        _ => true,
    }
}

/// Every element of the list is ready to clone.
pub open spec fn spec_clone_ready_list(s: StoreView, items: Seq<Value>, depth: nat) -> bool
    decreases depth, 1int,
{
    forall|k: int| 0 <= k < items.len() ==> spec_clone_ready(s, #[trigger] items[k], depth)
}

/// Every pair of the table is ready to clone.
pub open spec fn spec_clone_ready_pairs(s: StoreView, pairs: Seq<(Value, Value)>, depth: nat) -> bool
    decreases depth, 1int,
{
    forall|k: int|
        0 <= k < pairs.len() ==> spec_clone_ready(s, (#[trigger] pairs[k]).0, depth)
            && spec_clone_ready(s, pairs[k].1, depth)
}

/// Readiness only looks at live slots, so it carries over to any store
/// extending the one it holds over.
pub proof fn lemma_clone_ready_mono(s0: StoreView, s1: StoreView, v: Value, depth: nat)
    requires
        spec_store_extends(s1, s0),
        spec_clone_ready(s0, v, depth),
    ensures
        spec_clone_ready(s1, v, depth),
    decreases depth, 0int,
{
    lemma_extends_reads(s1, s0);
    match v {
        Value::Vec(i) => {
            lemma_clone_ready_list_mono(s0, s1, s0.arrays[i as int], (depth - 1) as nat);
        },
        Value::HashMap(i) => {
            lemma_clone_ready_pairs_mono(s0, s1, s0.hashes[i as int], (depth - 1) as nat);
        },
        Value::DataObject(i) => {
            lemma_clone_ready_list_mono(s0, s1, s0.objects[i as int].fields@, (depth - 1) as nat);
        },
        _ => {},
    }
}

/// Element-wise readiness carries over to an extending store.
pub proof fn lemma_clone_ready_list_mono(s0: StoreView, s1: StoreView, items: Seq<Value>, depth: nat)
    requires
        spec_store_extends(s1, s0),
        spec_clone_ready_list(s0, items, depth),
    ensures
        spec_clone_ready_list(s1, items, depth),
    decreases depth, 1int,
{
    assert forall|k: int| 0 <= k < items.len() implies spec_clone_ready(
        s1,
        #[trigger] items[k],
        depth,
    ) by {
        lemma_clone_ready_mono(s0, s1, items[k], depth);
    }
}

/// Pair-wise readiness carries over to an extending store.
pub proof fn lemma_clone_ready_pairs_mono(
    s0: StoreView,
    s1: StoreView,
    pairs: Seq<(Value, Value)>,
    depth: nat,
)
    requires
        spec_store_extends(s1, s0),
        spec_clone_ready_pairs(s0, pairs, depth),
    ensures
        spec_clone_ready_pairs(s1, pairs, depth),
    decreases depth, 1int,
{
    assert forall|k: int| 0 <= k < pairs.len() implies spec_clone_ready(
        s1,
        (#[trigger] pairs[k]).0,
        depth,
    ) && spec_clone_ready(s1, pairs[k].1, depth) by {
        lemma_clone_ready_mono(s0, s1, pairs[k].0, depth);
        lemma_clone_ready_mono(s0, s1, pairs[k].1, depth);
    }
}

impl ValueStore {
    /// Produce a deep clone of a value: a value equal to the original whose
    /// transitive reference graph is disjoint from it, built by copying every
    /// referenced object into fresh store slots down to the given depth.
    /// Nothing fails for a value whose references are live and whose nesting
    /// stays within the depth; a scalar always clones.
    pub fn deep_clone(&mut self, v: &Value, depth: u64) -> (r: Option<Value>)
        ensures
            spec_store_extends(final(self)@, old(self)@),
            r matches Some(b) ==> spec_clone_rel(final(self)@, *v, final(self)@, b, depth as nat)
                && spec_fresh_ref(old(self)@, b),
            !(v is Vec) && !(v is HashMap) && !(v is DataObject) && !(v is ByteBuffer) && !(
            v is Code) ==> r == Some(*v),
            spec_clone_ready(old(self)@, *v, depth as nat) ==> r is Some,
        decreases depth,
    {
        let ghost s0 = self@;
        proof {
            lemma_extend_same(s0);
        }
        match v {
            Value::Vec(index) => {
                let i = *index;
                if depth == 0 || i >= self.arrays.len() {
                    return None;
                }
                let src = clone_values(&self.arrays[i]);
                let ghost src_view = src@;
                let mut out: Vec<Value> = Vec::new();
                let mut k: usize = 0;
                while k < src.len()
                    invariant
                        depth >= 1,
                        *v == Value::Vec(i),
                        i < s0.arrays.len(),
                        src_view == s0.arrays[i as int],
                        s0 == old(self)@,
                        k <= src@.len(),
                        src@ == src_view,
                        out@.len() == k,
                        spec_store_extends(self@, s0),
                        forall|m: int|
                            0 <= m < k ==> spec_clone_rel(
                                self@,
                                #[trigger] src@[m],
                                self@,
                                out@[m],
                                (depth - 1) as nat,
                            ),
                    decreases src@.len() - k,
                {
                    let ghost s_before = self@;
                    let cloned = match self.deep_clone(&src[k], depth - 1) {
                        Some(c) => c,
                        None => {
                            proof {
                                lemma_extends_trans(self@, s_before, s0);
                                if spec_clone_ready(s0, *v, depth as nat) {
                                    lemma_clone_ready_mono(
                                        s0,
                                        s_before,
                                        src_view[k as int],
                                        (depth - 1) as nat,
                                    );
                                    assert(false);
                                }
                            }
                            return None;
                        },
                    };
                    proof {
                        lemma_extends_trans(self@, s_before, s0);
                        assert forall|m: int| 0 <= m < k implies spec_clone_rel(
                            self@,
                            #[trigger] src@[m],
                            self@,
                            out@[m],
                            (depth - 1) as nat,
                        ) by {
                            lemma_clone_rel_mono(
                                s_before,
                                self@,
                                src@[m],
                                out@[m],
                                (depth - 1) as nat,
                            );
                        }
                    }
                    out.push(cloned);
                    k = k + 1;
                }
                let ghost s_filled = self@;
                let ghost out_view = out@;
                let j = self.alloc_array(out);
                proof {
                    lemma_extends_trans(self@, s_filled, s0);
                    lemma_extends_reads(self@, s_filled);
                    lemma_extends_reads(self@, s0);
                    assert(self@.arrays[j as int] == out_view);
                    assert(self@.arrays[i as int] == s0.arrays[i as int]);
                    assert forall|m: int| 0 <= m < src_view.len() implies spec_clone_rel(
                        self@,
                        #[trigger] src_view[m],
                        self@,
                        out_view[m],
                        (depth - 1) as nat,
                    ) by {
                        lemma_clone_rel_mono(
                            s_filled,
                            self@,
                            src_view[m],
                            out_view[m],
                            (depth - 1) as nat,
                        );
                    }
                }
                Some(Value::Vec(j))
            },
            Value::HashMap(index) => {
                let i = *index;
                if depth == 0 || i >= self.hashes.len() {
                    return None;
                }
                let src = clone_pairs(&self.hashes[i]);
                let ghost src_view = src@;
                let mut out: Vec<(Value, Value)> = Vec::new();
                let mut k: usize = 0;
                while k < src.len()
                    invariant
                        depth >= 1,
                        *v == Value::HashMap(i),
                        i < s0.hashes.len(),
                        src_view == s0.hashes[i as int],
                        s0 == old(self)@,
                        k <= src@.len(),
                        src@ == src_view,
                        out@.len() == k,
                        spec_store_extends(self@, s0),
                        forall|m: int|
                            0 <= m < k ==> spec_clone_rel(
                                self@,
                                (#[trigger] src@[m]).0,
                                self@,
                                out@[m].0,
                                (depth - 1) as nat,
                            ) && spec_clone_rel(
                                self@,
                                src@[m].1,
                                self@,
                                out@[m].1,
                                (depth - 1) as nat,
                            ),
                    decreases src@.len() - k,
                {
                    let ghost s_before = self@;
                    let key = src[k].0.clone();
                    let value = src[k].1.clone();
                    let cloned_key = match self.deep_clone(&key, depth - 1) {
                        Some(c) => c,
                        None => {
                            proof {
                                lemma_extends_trans(self@, s_before, s0);
                                if spec_clone_ready(s0, *v, depth as nat) {
                                    lemma_clone_ready_mono(
                                        s0,
                                        s_before,
                                        src_view[k as int].0,
                                        (depth - 1) as nat,
                                    );
                                    assert(false);
                                }
                            }
                            return None;
                        },
                    };
                    let ghost s_mid = self@;
                    let cloned_value = match self.deep_clone(&value, depth - 1) {
                        Some(c) => c,
                        None => {
                            proof {
                                lemma_extends_trans(self@, s_mid, s_before);
                                lemma_extends_trans(self@, s_before, s0);
                                lemma_extends_trans(s_mid, s_before, s0);
                                if spec_clone_ready(s0, *v, depth as nat) {
                                    lemma_clone_ready_mono(
                                        s0,
                                        s_mid,
                                        src_view[k as int].1,
                                        (depth - 1) as nat,
                                    );
                                    assert(false);
                                }
                            }
                            return None;
                        },
                    };
                    proof {
                        lemma_extends_trans(self@, s_mid, s_before);
                        lemma_extends_trans(self@, s_before, s0);
                        lemma_clone_rel_mono(s_mid, self@, key, cloned_key, (depth - 1) as nat);
                        assert forall|m: int| 0 <= m < k implies spec_clone_rel(
                            self@,
                            (#[trigger] src@[m]).0,
                            self@,
                            out@[m].0,
                            (depth - 1) as nat,
                        ) && spec_clone_rel(
                            self@,
                            src@[m].1,
                            self@,
                            out@[m].1,
                            (depth - 1) as nat,
                        ) by {
                            lemma_clone_rel_mono(
                                s_before,
                                self@,
                                src@[m].0,
                                out@[m].0,
                                (depth - 1) as nat,
                            );
                            lemma_clone_rel_mono(
                                s_before,
                                self@,
                                src@[m].1,
                                out@[m].1,
                                (depth - 1) as nat,
                            );
                        }
                    }
                    out.push((cloned_key, cloned_value));
                    k = k + 1;
                }
                let ghost s_filled = self@;
                let ghost out_view = out@;
                let j = self.alloc_hash(out);
                proof {
                    lemma_extends_trans(self@, s_filled, s0);
                    lemma_extends_reads(self@, s_filled);
                    lemma_extends_reads(self@, s0);
                    assert(self@.hashes[j as int] == out_view);
                    assert(self@.hashes[i as int] == s0.hashes[i as int]);
                    assert forall|m: int| 0 <= m < src_view.len() implies spec_clone_rel(
                        self@,
                        (#[trigger] src_view[m]).0,
                        self@,
                        out_view[m].0,
                        (depth - 1) as nat,
                    ) && spec_clone_rel(
                        self@,
                        src_view[m].1,
                        self@,
                        out_view[m].1,
                        (depth - 1) as nat,
                    ) by {
                        lemma_clone_rel_mono(
                            s_filled,
                            self@,
                            src_view[m].0,
                            out_view[m].0,
                            (depth - 1) as nat,
                        );
                        lemma_clone_rel_mono(
                            s_filled,
                            self@,
                            src_view[m].1,
                            out_view[m].1,
                            (depth - 1) as nat,
                        );
                    }
                }
                Some(Value::HashMap(j))
            },
            Value::DataObject(index) => {
                let i = *index;
                if depth == 0 || i >= self.objects.len() {
                    return None;
                }
                let definition_index = self.objects[i].definition_index;
                let src = clone_values(&self.objects[i].fields);
                let ghost src_view = src@;
                let mut out: Vec<Value> = Vec::new();
                let mut k: usize = 0;
                while k < src.len()
                    invariant
                        depth >= 1,
                        *v == Value::DataObject(i),
                        i < s0.objects.len(),
                        src_view == s0.objects[i as int].fields@,
                        s0 == old(self)@,
                        k <= src@.len(),
                        src@ == src_view,
                        out@.len() == k,
                        spec_store_extends(self@, s0),
                        forall|m: int|
                            0 <= m < k ==> spec_clone_rel(
                                self@,
                                #[trigger] src@[m],
                                self@,
                                out@[m],
                                (depth - 1) as nat,
                            ),
                    decreases src@.len() - k,
                {
                    let ghost s_before = self@;
                    let cloned = match self.deep_clone(&src[k], depth - 1) {
                        Some(c) => c,
                        None => {
                            proof {
                                lemma_extends_trans(self@, s_before, s0);
                                if spec_clone_ready(s0, *v, depth as nat) {
                                    lemma_clone_ready_mono(
                                        s0,
                                        s_before,
                                        src_view[k as int],
                                        (depth - 1) as nat,
                                    );
                                    assert(false);
                                }
                            }
                            return None;
                        },
                    };
                    proof {
                        lemma_extends_trans(self@, s_before, s0);
                        assert forall|m: int| 0 <= m < k implies spec_clone_rel(
                            self@,
                            #[trigger] src@[m],
                            self@,
                            out@[m],
                            (depth - 1) as nat,
                        ) by {
                            lemma_clone_rel_mono(
                                s_before,
                                self@,
                                src@[m],
                                out@[m],
                                (depth - 1) as nat,
                            );
                        }
                    }
                    out.push(cloned);
                    k = k + 1;
                }
                let ghost s_filled = self@;
                let ghost out_view = out@;
                let j = self.alloc_object(DataObject { definition_index, fields: out });
                proof {
                    lemma_extends_trans(self@, s_filled, s0);
                    lemma_extends_reads(self@, s_filled);
                    lemma_extends_reads(self@, s0);
                    assert(self@.objects[j as int].fields@ == out_view);
                    assert(self@.objects[i as int] == s0.objects[i as int]);
                    assert forall|m: int| 0 <= m < src_view.len() implies spec_clone_rel(
                        self@,
                        #[trigger] src_view[m],
                        self@,
                        out_view[m],
                        (depth - 1) as nat,
                    ) by {
                        lemma_clone_rel_mono(
                            s_filled,
                            self@,
                            src_view[m],
                            out_view[m],
                            (depth - 1) as nat,
                        );
                    }
                }
                Some(Value::DataObject(j))
            },
            Value::ByteBuffer(index) => {
                let i = *index;
                if i >= self.buffers.len() {
                    return None;
                }
                let copy = self.buffers[i].clone();
                let j = self.alloc_buffer(copy);
                proof {
                    lemma_extends_reads(self@, s0);
                }
                Some(Value::ByteBuffer(j))
            },
            Value::Code(index) => {
                let i = *index;
                if i >= self.code_blocks.len() {
                    return None;
                }
                let copy = clone_code(&self.code_blocks[i]);
                let j = self.alloc_code(copy);
                proof {
                    lemma_extends_reads(self@, s0);
                }
                Some(Value::Code(j))
            },
            _ => {
                proof {
                    lemma_extend_same(self@);
                }
                Some(v.clone())
            },
        }
    }
}

/// Every store extends itself.
pub proof fn lemma_extend_same(s: StoreView)
    ensures
        spec_store_extends(s, s),
{
    assert(s.arrays.take(s.arrays.len() as int) =~= s.arrays);
    assert(s.hashes.take(s.hashes.len() as int) =~= s.hashes);
    assert(s.objects.take(s.objects.len() as int) =~= s.objects);
    assert(s.buffers.take(s.buffers.len() as int) =~= s.buffers);
    assert(s.code_blocks.take(s.code_blocks.len() as int) =~= s.code_blocks);
    assert(s.definitions.take(s.definitions.len() as int) =~= s.definitions);
}

/// The language's equality on values, over a given store, down to a given
/// depth.  Two numeric values compare by their integer readings; two
/// stringable values compare by their string readings; container values of
/// the same kind compare structurally through the store; everything else is
/// unequal.  Containers nested beyond the depth compare unequal.
pub open spec fn spec_value_eq(s: StoreView, a: Value, b: Value, fuel: nat) -> bool
    decreases fuel, 0int, 0int,
{
    if spec_is_numeric(a) && spec_is_numeric(b) {
        spec_int_val(a) == spec_int_val(b)
    } else if spec_is_stringable(a) && spec_is_stringable(b) {
        spec_string_val(a) == spec_string_val(b)
    } else {
        match (a, b) {
            (Value::Vec(i), Value::Vec(j)) => fuel > 0 && i < s.arrays.len() && j < s.arrays.len()
                && spec_value_eq_list(
                s,
                s.arrays[i as int],
                s.arrays[j as int],
                (fuel - 1) as nat,
            ),
            (Value::HashMap(i), Value::HashMap(j)) => fuel > 0 && i < s.hashes.len() && j
                < s.hashes.len() && spec_table_eq(
                s,
                s.hashes[i as int],
                s.hashes[j as int],
                (fuel - 1) as nat,
            ),
            (Value::DataObject(i), Value::DataObject(j)) => fuel > 0 && i < s.objects.len() && j
                < s.objects.len() && s.objects[i as int].definition_index < s.definitions.len()
                && s.objects[j as int].definition_index < s.definitions.len() && s.definitions[
                s.objects[i as int].definition_index as int
            ].name@ == s.definitions[s.objects[j as int].definition_index as int].name@
                && spec_value_eq_list(
                s,
                s.objects[i as int].fields@,
                s.objects[j as int].fields@,
                (fuel - 1) as nat,
            ),
            (Value::ByteBuffer(i), Value::ByteBuffer(j)) => i < s.buffers.len() && j
                < s.buffers.len() && s.buffers[i as int].buffer@ == s.buffers[j as int].buffer@
                && s.buffers[i as int].current_position == s.buffers[j as int].current_position,
            (Value::Token(x), Value::Token(y)) => crate::tokenizing::spec_token_eq(x, y),
            (Value::Code(i), Value::Code(j)) => fuel > 0 && i < s.code_blocks.len() && j
                < s.code_blocks.len() && spec_code_eq(
                s,
                s.code_blocks[i as int],
                s.code_blocks[j as int],
                (fuel - 1) as nat,
            ),
            (Value::Bool(x), Value::Bool(y)) => x == y,
            _ => false,
        }
    }
}

/// Two lists of values are equal element by element.
pub open spec fn spec_value_eq_list(s: StoreView, a: Seq<Value>, b: Seq<Value>, fuel: nat) -> bool
    decreases fuel, 1int, 0int,
{
    a.len() == b.len() && forall|k: int|
        0 <= k < a.len() ==> spec_value_eq(s, #[trigger] a[k], b[k], fuel)
}

/// The value at the first pair of the table whose key equals the given key.
pub open spec fn spec_table_get(
    s: StoreView,
    pairs: Seq<(Value, Value)>,
    key: Value,
    fuel: nat,
) -> Option<Value>
    decreases fuel, 1int, pairs.len(),
{
    if pairs.len() == 0 {
        None
    } else if spec_value_eq(s, pairs[0].0, key, fuel) {
        Some(pairs[0].1)
    } else {
        spec_table_get(s, pairs.skip(1), key, fuel)
    }
}

/// The table after a write: the first pair whose key equals the written key
/// keeps its key and takes the new value; a missing key appends a new pair.
pub open spec fn spec_table_set(
    s: StoreView,
    pairs: Seq<(Value, Value)>,
    key: Value,
    value: Value,
    fuel: nat,
) -> Seq<(Value, Value)>
    decreases pairs.len(),
{
    if pairs.len() == 0 {
        seq![(key, value)]
    } else if spec_value_eq(s, pairs[0].0, key, fuel) {
        pairs.update(0, (pairs[0].0, value))
    } else {
        seq![pairs[0]].add(spec_table_set(s, pairs.skip(1), key, value, fuel))
    }
}

/// A write whose key first matches at one position updates that pair alone.
pub proof fn lemma_table_set_found(
    s: StoreView,
    pairs: Seq<(Value, Value)>,
    key: Value,
    value: Value,
    fuel: nat,
    p: int,
)
    requires
        0 <= p < pairs.len(),
        spec_value_eq(s, pairs[p].0, key, fuel),
        forall|j: int| 0 <= j < p ==> !spec_value_eq(s, #[trigger] pairs[j].0, key, fuel),
    ensures
        spec_table_set(s, pairs, key, value, fuel) == pairs.update(p, (pairs[p].0, value)),
    decreases p,
{
    if p == 0 {
    } else {
        lemma_table_set_found(s, pairs.skip(1), key, value, fuel, p - 1);
        assert(spec_table_set(s, pairs, key, value, fuel) =~= pairs.update(p, (pairs[p].0, value)));
    }
}

/// A write whose key matches no pair appends the new pair at the end.
pub proof fn lemma_table_set_missing(
    s: StoreView,
    pairs: Seq<(Value, Value)>,
    key: Value,
    value: Value,
    fuel: nat,
)
    requires
        forall|j: int| 0 <= j < pairs.len() ==> !spec_value_eq(s, #[trigger] pairs[j].0, key, fuel),
    ensures
        spec_table_set(s, pairs, key, value, fuel) == pairs.push((key, value)),
    decreases pairs.len(),
{
    if pairs.len() == 0 {
        assert(spec_table_set(s, pairs, key, value, fuel) =~= pairs.push((key, value)));
    } else {
        lemma_table_set_missing(s, pairs.skip(1), key, value, fuel);
        assert(spec_table_set(s, pairs, key, value, fuel) =~= pairs.push((key, value)));
    }
}

/// Two hash tables are equal when they have the same number of pairs and
/// every key of the first finds an equal value in the second.
pub open spec fn spec_table_eq(
    s: StoreView,
    a: Seq<(Value, Value)>,
    b: Seq<(Value, Value)>,
    fuel: nat,
) -> bool
    decreases fuel, 2int, 0int,
{
    a.len() == b.len() && forall|k: int|
        0 <= k < a.len() ==> match spec_table_get(s, b, (#[trigger] a[k]).0, fuel) {
            Some(v) => spec_value_eq(s, a[k].1, v, fuel),
            None => false,
        }
}

/// Two operations are equal when they are the same operation and their
/// operands are equal values.
pub open spec fn spec_op_eq(s: StoreView, a: Op, b: Op, fuel: nat) -> bool
    decreases fuel, 1int, 0int,
{
    match (a, b) {
        (Op::DefVariable(x), Op::DefVariable(y)) => spec_value_eq(s, x, y, fuel),
        (Op::DefConstant(x), Op::DefConstant(y)) => spec_value_eq(s, x, y, fuel),
        (Op::ReadVariable, Op::ReadVariable) => true,
        (Op::WriteVariable, Op::WriteVariable) => true,
        (Op::Execute(x), Op::Execute(y)) => spec_value_eq(s, x, y, fuel),
        (Op::PushConstantValue(x), Op::PushConstantValue(y)) => spec_value_eq(s, x, y, fuel),
        (Op::MarkLoopExit(x), Op::MarkLoopExit(y)) => spec_value_eq(s, x, y, fuel),
        (Op::UnmarkLoopExit, Op::UnmarkLoopExit) => true,
        (Op::MarkCatch(x), Op::MarkCatch(y)) => spec_value_eq(s, x, y, fuel),
        (Op::UnmarkCatch, Op::UnmarkCatch) => true,
        (Op::MarkContext, Op::MarkContext) => true,
        (Op::ReleaseContext, Op::ReleaseContext) => true,
        (Op::Jump(x), Op::Jump(y)) => spec_value_eq(s, x, y, fuel),
        (Op::JumpIfZero(x), Op::JumpIfZero(y)) => spec_value_eq(s, x, y, fuel),
        (Op::JumpIfNotZero(x), Op::JumpIfNotZero(y)) => spec_value_eq(s, x, y, fuel),
        (Op::JumpLoopStart, Op::JumpLoopStart) => true,
        (Op::JumpLoopExit, Op::JumpLoopExit) => true,
        (Op::JumpTarget(x), Op::JumpTarget(y)) => spec_value_eq(s, x, y, fuel),
        _ => false,
    }
}

/// Two code blocks are equal instruction by instruction, locations included.
pub open spec fn spec_code_eq(s: StoreView, a: Seq<Instruction>, b: Seq<Instruction>, fuel: nat) -> bool
    decreases fuel, 2int, 0int,
{
    a.len() == b.len() && forall|k: int|
        0 <= k < a.len() ==> crate::location::spec_opt_location_eq(
            (#[trigger] a[k]).location,
            b[k].location,
        ) && spec_op_eq(s, a[k].op, b[k].op, fuel)
}

impl ValueStore {
    /// Find a key in a table under the language's equality, returning a copy
    /// of the value of the first pair whose key matches, or nothing where no
    /// key does.  Fails only where the comparison runs out of depth or meets
    /// a dead reference.
    pub fn table_find(&self, pairs: &Vec<(Value, Value)>, key: &Value, fuel: u64) -> (r: Option<
        Option<Value>,
    >)
        ensures
            r matches Some(x) ==> x == spec_table_get(self@, pairs@, *key, fuel as nat),
        decreases fuel, 1int,
    {
        let ghost whole = pairs@;
        proof {
            assert(whole.skip(0int) =~= whole);
        }
        let mut i: usize = 0;
        while i < pairs.len()
            invariant
                whole == pairs@,
                i <= whole.len(),
                spec_table_get(self@, whole, *key, fuel as nat) == spec_table_get(
                    self@,
                    whole.skip(i as int),
                    *key,
                    fuel as nat,
                ),
            decreases fuel, 0int, whole.len() - i,
        {
            let entry_key = pairs[i].0.clone();
            let eq = match self.value_eq(&entry_key, key, fuel) {
                Some(e) => e,
                None => {
                    return None;
                },
            };
            proof {
                assert(whole.skip(i as int)[0] == whole[i as int]);
                assert(whole.skip(i as int).skip(1) =~= whole.skip(i as int + 1));
            }
            if eq {
                return Some(Some(pairs[i].1.clone()));
            }
            i = i + 1;
        }
        proof {
            assert(whole.skip(i as int) =~= Seq::<(Value, Value)>::empty());
        }
        Some(None)
    }

    /// Compare two values under the language's equality.  Fails only where
    /// the comparison runs out of depth or meets a dead reference; a
    /// comparison not involving live containers always answers.
    pub fn value_eq(&self, a: &Value, b: &Value, fuel: u64) -> (r: Option<bool>)
        ensures
            r matches Some(x) ==> x == spec_value_eq(self@, *a, *b, fuel as nat),
            spec_is_numeric(*a) && spec_is_numeric(*b) ==> r is Some,
            spec_is_stringable(*a) && spec_is_stringable(*b) ==> r is Some,
        decreases fuel, 0int,
    {
        if a.is_numeric() && b.is_numeric() {
            return Some(a.get_int_val() == b.get_int_val());
        }
        if a.is_stringable() && b.is_stringable() {
            let sa = a.get_string_val();
            let sb = b.get_string_val();
            return Some(sa == sb);
        }
        match (a, b) {
            (Value::Vec(x), Value::Vec(y)) => {
                let i = *x;
                let j = *y;
                if fuel == 0 || i >= self.arrays.len() || j >= self.arrays.len() {
                    return None;
                }
                self.list_eq_arrays(i, j, fuel - 1)
            },
            (Value::HashMap(x), Value::HashMap(y)) => {
                let i = *x;
                let j = *y;
                if fuel == 0 || i >= self.hashes.len() || j >= self.hashes.len() {
                    return None;
                }
                if self.hashes[i].len() != self.hashes[j].len() {
                    return Some(false);
                }
                let ghost pa = self@.hashes[i as int];
                let ghost pb = self@.hashes[j as int];
                let mut k: usize = 0;
                while k < self.hashes[i].len()
                    invariant
                        a is HashMap,
                        b is HashMap,
                        *a == Value::HashMap(i as usize),
                        *b == Value::HashMap(j as usize),
                        fuel as nat > 0,
                        i < self@.hashes.len(),
                        j < self@.hashes.len(),
                        pa == self@.hashes[i as int],
                        pb == self@.hashes[j as int],
                        pa.len() == pb.len(),
                        fuel >= 1,
                        k <= pa.len(),
                        forall|m: int|
                            0 <= m < k ==> match spec_table_get(
                                self@,
                                pb,
                                (#[trigger] pa[m]).0,
                                (fuel - 1) as nat,
                            ) {
                                Some(v) => spec_value_eq(self@, pa[m].1, v, (fuel - 1) as nat),
                                None => false,
                            },
                    decreases fuel, 0int, pa.len() - k,
                {
                    let entry_key = self.hashes[i][k].0.clone();
                    let entry_val = self.hashes[i][k].1.clone();
                    let found = match self.table_find(&self.hashes[j], &entry_key, fuel - 1) {
                        Some(f) => f,
                        None => {
                            return None;
                        },
                    };
                    match found {
                        Some(other_val) => {
                            let eq = match self.value_eq(&entry_val, &other_val, fuel - 1) {
                                Some(e) => e,
                                None => {
                                    return None;
                                },
                            };
                            if !eq {
                                return Some(false);
                            }
                        },
                        None => {
                            return Some(false);
                        },
                    }
                    k = k + 1;
                }
                Some(true)
            },
            (Value::DataObject(x), Value::DataObject(y)) => {
                let i = *x;
                let j = *y;
                if fuel == 0 || i >= self.objects.len() || j >= self.objects.len() {
                    return None;
                }
                let di = self.objects[i].definition_index;
                let dj = self.objects[j].definition_index;
                if di >= self.definitions.len() || dj >= self.definitions.len() {
                    return None;
                }
                let names_eq = {
                    let owned = self.definitions[dj].name.clone();
                    self.definitions[di].name == owned
                };
                if !names_eq {
                    return Some(false);
                }
                self.list_eq_fields(i, j, fuel - 1)
            },
            (Value::ByteBuffer(x), Value::ByteBuffer(y)) => {
                let i = *x;
                let j = *y;
                if i >= self.buffers.len() || j >= self.buffers.len() {
                    return None;
                }
                let same = bytes_eq(&self.buffers[i].buffer, &self.buffers[j].buffer)
                    && self.buffers[i].current_position == self.buffers[j].current_position;
                Some(same)
            },
            (Value::Token(x), Value::Token(y)) => Some(token_eq(x, y)),
            (Value::Code(x), Value::Code(y)) => {
                let i = *x;
                let j = *y;
                if fuel == 0 || i >= self.code_blocks.len() || j >= self.code_blocks.len() {
                    return None;
                }
                self.code_eq_blocks(i, j, fuel - 1)
            },
            (Value::Bool(x), Value::Bool(y)) => Some(*x == *y),
            _ => Some(false),
        }
    }

    /// Compare two vectors of the store element by element.
    fn list_eq_arrays(&self, i: usize, j: usize, fuel: u64) -> (r: Option<bool>)
        requires
            i < self@.arrays.len(),
            j < self@.arrays.len(),
        ensures
            r matches Some(x) ==> x == spec_value_eq_list(
                self@,
                self@.arrays[i as int],
                self@.arrays[j as int],
                fuel as nat,
            ),
        decreases fuel, 1int,
    {
        let ghost va = self@.arrays[i as int];
        let ghost vb = self@.arrays[j as int];
        if self.arrays[i].len() != self.arrays[j].len() {
            return Some(false);
        }
        let mut k: usize = 0;
        while k < self.arrays[i].len()
            invariant
                i < self@.arrays.len(),
                j < self@.arrays.len(),
                va == self@.arrays[i as int],
                vb == self@.arrays[j as int],
                va.len() == vb.len(),
                k <= va.len(),
                forall|m: int|
                    0 <= m < k ==> spec_value_eq(self@, #[trigger] va[m], vb[m], fuel as nat),
            decreases fuel, 0int, va.len() - k,
        {
            let ea = self.arrays[i][k].clone();
            let eb = self.arrays[j][k].clone();
            let eq = match self.value_eq(&ea, &eb, fuel) {
                Some(e) => e,
                None => {
                    return None;
                },
            };
            if !eq {
                return Some(false);
            }
            k = k + 1;
        }
        Some(true)
    }

    /// Compare the fields of two structure instances element by element.
    fn list_eq_fields(&self, i: usize, j: usize, fuel: u64) -> (r: Option<bool>)
        requires
            i < self@.objects.len(),
            j < self@.objects.len(),
        ensures
            r matches Some(x) ==> x == spec_value_eq_list(
                self@,
                self@.objects[i as int].fields@,
                self@.objects[j as int].fields@,
                fuel as nat,
            ),
        decreases fuel, 1int,
    {
        let ghost va = self@.objects[i as int].fields@;
        let ghost vb = self@.objects[j as int].fields@;
        if self.objects[i].fields.len() != self.objects[j].fields.len() {
            return Some(false);
        }
        let mut k: usize = 0;
        while k < self.objects[i].fields.len()
            invariant
                i < self@.objects.len(),
                j < self@.objects.len(),
                va == self@.objects[i as int].fields@,
                vb == self@.objects[j as int].fields@,
                va.len() == vb.len(),
                k <= va.len(),
                forall|m: int|
                    0 <= m < k ==> spec_value_eq(self@, #[trigger] va[m], vb[m], fuel as nat),
            decreases fuel, 0int, va.len() - k,
        {
            let ea = self.objects[i].fields[k].clone();
            let eb = self.objects[j].fields[k].clone();
            let eq = match self.value_eq(&ea, &eb, fuel) {
                Some(e) => e,
                None => {
                    return None;
                },
            };
            if !eq {
                return Some(false);
            }
            k = k + 1;
        }
        Some(true)
    }

    /// Compare two code blocks of the store instruction by instruction.
    fn code_eq_blocks(&self, i: usize, j: usize, fuel: u64) -> (r: Option<bool>)
        requires
            i < self@.code_blocks.len(),
            j < self@.code_blocks.len(),
        ensures
            r matches Some(x) ==> x == spec_code_eq(
                self@,
                self@.code_blocks[i as int],
                self@.code_blocks[j as int],
                fuel as nat,
            ),
        decreases fuel, 2int,
    {
        let ghost ca = self@.code_blocks[i as int];
        let ghost cb = self@.code_blocks[j as int];
        if self.code_blocks[i].len() != self.code_blocks[j].len() {
            return Some(false);
        }
        let mut k: usize = 0;
        while k < self.code_blocks[i].len()
            invariant
                i < self@.code_blocks.len(),
                j < self@.code_blocks.len(),
                ca == self@.code_blocks[i as int],
                cb == self@.code_blocks[j as int],
                ca.len() == cb.len(),
                k <= ca.len(),
                forall|m: int|
                    0 <= m < k ==> crate::location::spec_opt_location_eq(
                        (#[trigger] ca[m]).location,
                        cb[m].location,
                    ) && spec_op_eq(self@, ca[m].op, cb[m].op, fuel as nat),
            decreases fuel, 0int, ca.len() - k,
        {
            let ia = self.code_blocks[i][k].clone();
            let ib = self.code_blocks[j][k].clone();
            let loc_eq = match (&ia.location, &ib.location) {
                (Some(la), Some(lb)) => location_eq(la, lb),
                (None, None) => true,
                _ => false,
            };
            if !loc_eq {
                return Some(false);
            }
            let op_eq = match self.op_eq(&ia.op, &ib.op, fuel) {
                Some(e) => e,
                None => {
                    return None;
                },
            };
            if !op_eq {
                return Some(false);
            }
            k = k + 1;
        }
        Some(true)
    }

    /// Compare two operations and their operands.
    fn op_eq(&self, a: &Op, b: &Op, fuel: u64) -> (r: Option<bool>)
        ensures
            r matches Some(x) ==> x == spec_op_eq(self@, *a, *b, fuel as nat),
        decreases fuel, 1int,
    {
        match (a, b) {
            (Op::DefVariable(x), Op::DefVariable(y)) => self.value_eq(x, y, fuel),
            (Op::DefConstant(x), Op::DefConstant(y)) => self.value_eq(x, y, fuel),
            (Op::ReadVariable, Op::ReadVariable) => Some(true),
            (Op::WriteVariable, Op::WriteVariable) => Some(true),
            (Op::Execute(x), Op::Execute(y)) => self.value_eq(x, y, fuel),
            (Op::PushConstantValue(x), Op::PushConstantValue(y)) => self.value_eq(x, y, fuel),
            (Op::MarkLoopExit(x), Op::MarkLoopExit(y)) => self.value_eq(x, y, fuel),
            (Op::UnmarkLoopExit, Op::UnmarkLoopExit) => Some(true),
            (Op::MarkCatch(x), Op::MarkCatch(y)) => self.value_eq(x, y, fuel),
            (Op::UnmarkCatch, Op::UnmarkCatch) => Some(true),
            (Op::MarkContext, Op::MarkContext) => Some(true),
            (Op::ReleaseContext, Op::ReleaseContext) => Some(true),
            (Op::Jump(x), Op::Jump(y)) => self.value_eq(x, y, fuel),
            (Op::JumpIfZero(x), Op::JumpIfZero(y)) => self.value_eq(x, y, fuel),
            (Op::JumpIfNotZero(x), Op::JumpIfNotZero(y)) => self.value_eq(x, y, fuel),
            (Op::JumpLoopStart, Op::JumpLoopStart) => Some(true),
            (Op::JumpLoopExit, Op::JumpLoopExit) => Some(true),
            (Op::JumpTarget(x), Op::JumpTarget(y)) => self.value_eq(x, y, fuel),
            _ => Some(false),
        }
    }
}

/// Compare two byte vectors.
fn bytes_eq(a: &Vec<u8>, b: &Vec<u8>) -> (r: bool)
    ensures
        r == (a@ == b@),
{
    if a.len() != b.len() {
        proof {
            assert(a@.len() != b@.len());
        }
        return false;
    }
    let mut i: usize = 0;
    while i < a.len()
        invariant
            a@.len() == b@.len(),
            i <= a@.len(),
            forall|k: int| 0 <= k < i ==> a@[k] == b@[k],
        decreases a@.len() - i,
    {
        if a[i] != b[i] {
            return false;
        }
        i = i + 1;
    }
    proof {
        assert(a@ =~= b@);
    }
    true
}

/// Compare two tokens, locations included.
pub fn token_eq(a: &crate::tokenizing::Token, b: &crate::tokenizing::Token) -> (r: bool)
    ensures
        r == crate::tokenizing::spec_token_eq(*a, *b),
{
    match (a, b) {
        (crate::tokenizing::Token::Number(la, x), crate::tokenizing::Token::Number(lb, y)) => {
            location_eq(la, lb) && *x == *y
        },
        (crate::tokenizing::Token::String(la, x), crate::tokenizing::Token::String(lb, y)) => {
            let owned = y.clone();
            location_eq(la, lb) && *x == owned
        },
        (crate::tokenizing::Token::Word(la, x), crate::tokenizing::Token::Word(lb, y)) => {
            let owned = y.clone();
            location_eq(la, lb) && *x == owned
        },
        _ => false,
    }
}

/// Compare two source locations.
pub fn location_eq(a: &crate::location::SourceLocation, b: &crate::location::SourceLocation) -> (r:
    bool)
    ensures
        r == crate::location::spec_location_eq(*a, *b),
{
    let owned = b.path.clone();
    a.path == owned && a.line == b.line && a.column == b.column
}

} // verus!
