use vstd::prelude::*;
use crate::byte_buffer::{spec_all_ascii, spec_ascii_chars, spec_first_zero};
use crate::text::{spec_dec_chars, spec_digit_char, spec_int_chars};
use crate::tokenizing::{SpecToken, spec_atom_len, spec_digit_val, spec_digits_val,
    spec_is_dec_digit, spec_is_number, spec_is_whitespace, spec_parse_int, spec_source_atoms,
    spec_strip_underscores, spec_to_numeric, spec_token_of};
use crate::contextual_list::ContextualList;
use crate::dictionary::{WordInfo, spec_dict_lookup, spec_frame_lookup};
use crate::store::{StoreView, spec_clone_rel, spec_clone_rel_list, spec_value_eq,
    spec_value_eq_list};
use crate::value::{Value, spec_is_numeric, spec_is_stringable};
use vstd::string::StringSliceAdditionalSpecFns;

verus! {

/// Releasing a context forgets exactly what was added since the matching
/// mark: for every run of items added to a contextual list between a mark and
/// its release, the released list holds the items the original held, under
/// the original context stack, and nothing of the additions stays reachable.
///
/// The hypotheses are the mark's effect and any run of insertions after it,
/// as `mark_context` and `insert` state them; the conclusions are exactly
/// what `release_context` states it restores.
pub proof fn lemma_release_forgets_additions<T>(
    l0: ContextualList<T>,
    l2: ContextualList<T>,
    added: Seq<T>,
)
    requires
        l0.wf(),
        l0.items@.len() <= usize::MAX,
        l2.frame_starts@ == l0.frame_starts@.push(l0.items@.len() as usize),
        l2.items@ == l0.items@ + added,
    ensures
        l2.items@.take(l2.frame_starts@.last() as int) == l0.items@,
        l2.frame_starts@.drop_last() == l0.frame_starts@,
{
    assert(l2.items@.take(l0.items@.len() as int) =~= l0.items@);
    assert(l2.frame_starts@.drop_last() =~= l0.frame_starts@);
}

/// A name bound in a context released afterward is looked up as it was before
/// the context was marked: pushing a context frame and dropping it again
/// leaves every lookup unchanged.
pub proof fn lemma_dictionary_release_restores_lookups(
    stack: Seq<Seq<(String, WordInfo)>>,
    frame: Seq<(String, WordInfo)>,
    name: Seq<char>,
)
    ensures
        spec_dict_lookup(stack.push(frame).drop_last(), name) == spec_dict_lookup(stack, name),
{
    assert(stack.push(frame).drop_last() =~= stack);
}

/// A word bound inside a marked context shadows the outer binding only while
/// the context is open: within the open context its frame answers first, and
/// a name its frame does not bind falls through to the stack below.
pub proof fn lemma_dictionary_context_shadows(
    stack: Seq<Seq<(String, WordInfo)>>,
    frame: Seq<(String, WordInfo)>,
    name: Seq<char>,
)
    ensures
        spec_frame_lookup(frame, name) matches Some(info) ==> spec_dict_lookup(
            stack.push(frame),
            name,
        ) == Some(info),
        spec_frame_lookup(frame, name) is None ==> spec_dict_lookup(stack.push(frame), name)
            == spec_dict_lookup(stack, name),
{
    assert(stack.push(frame).last() == frame);
    assert(stack.push(frame).drop_last() =~= stack);
}

/// A value with no hash table and no code block anywhere in it: scalars,
/// strings, tokens, byte buffers, and vectors and structures of such values,
/// down to the given depth.  For these, the language's equality reads the
/// whole value structurally, with no lookup order and no shallow copies in
/// the way.
pub open spec fn spec_plain_value(s: StoreView, v: Value, depth: nat) -> bool
    decreases depth, 0int,
{
    match v {
        Value::HashMap(_) => false,
        Value::Code(_) => false,
        Value::Vec(i) => depth > 0 && i < s.arrays.len() && spec_plain_list(
            s,
            s.arrays[i as int],
            (depth - 1) as nat,
        ),
        Value::DataObject(i) => depth > 0 && i < s.objects.len() && s.objects[
            i as int
        ].definition_index < s.definitions.len() && spec_plain_list(
            s,
            s.objects[i as int].fields@,
            (depth - 1) as nat,
        ),
        Value::ByteBuffer(i) => i < s.buffers.len(),
        _ => true,
    }
}

/// Every element of the list is a plain value.
pub open spec fn spec_plain_list(s: StoreView, items: Seq<Value>, depth: nat) -> bool
    decreases depth, 1int,
{
    forall|k: int| 0 <= k < items.len() ==> spec_plain_value(s, #[trigger] items[k], depth)
}

/// A deep clone is the identity under the language's equality: a plain value
/// and its deep clone compare equal, at the depth the clone was made to.
/// Hash tables are left out because their equality reads keys through lookup
/// order, and code blocks because a clone copies their instructions without
/// following the values those reference.
pub proof fn lemma_deep_clone_is_identity(s: StoreView, a: Value, b: Value, depth: nat)
    requires
        spec_plain_value(s, a, depth),
        spec_clone_rel(s, a, s, b, depth),
    ensures
        spec_value_eq(s, a, b, depth),
    decreases depth, 0int,
{
    match (a, b) {
        (Value::Vec(i), Value::Vec(j)) => {
            lemma_deep_clone_list_identity(
                s,
                s.arrays[i as int],
                s.arrays[j as int],
                (depth - 1) as nat,
            );
        },
        (Value::DataObject(i), Value::DataObject(j)) => {
            lemma_deep_clone_list_identity(
                s,
                s.objects[i as int].fields@,
                s.objects[j as int].fields@,
                (depth - 1) as nat,
            );
        },
        (Value::Token(t), _) => {
            assert(b == a);
            if !(spec_is_numeric(a) || spec_is_stringable(a)) {
                assert(crate::tokenizing::spec_token_eq(t, t));
            }
        },
        _ => {},
    }
}

/// Element by element, a deep clone of a list of plain values is equal to the
/// original.
pub proof fn lemma_deep_clone_list_identity(s: StoreView, a: Seq<Value>, b: Seq<Value>, depth: nat)
    requires
        spec_plain_list(s, a, depth),
        spec_clone_rel_list(s, a, s, b, depth),
    ensures
        spec_value_eq_list(s, a, b, depth),
    decreases depth, 1int,
{
    assert forall|k: int| 0 <= k < a.len() implies spec_value_eq(s, #[trigger] a[k], b[k], depth) by {
        lemma_deep_clone_is_identity(s, a[k], b[k], depth);
    }
}

/// Writing a string into a buffer slot and reading the slot back yields the
/// string truncated to the slot size and cut at its first zero byte: for a
/// seven bit string with no zero byte whose encoding fits the slot, exactly
/// the string itself.
///
/// The hypotheses are what `write_string` states about the written slot; the
/// conclusion is what `read_string` then answers for that slot.
pub proof fn lemma_string_slot_round_trip(slot: Seq<u8>, sbytes: Seq<u8>, text: Seq<char>)
    requires
        spec_all_ascii(sbytes),
        forall|i: int| 0 <= i < sbytes.len() ==> #[trigger] sbytes[i] != 0,
        sbytes.len() <= slot.len(),
        forall|i: int| 0 <= i < sbytes.len() ==> #[trigger] slot[i] == sbytes[i],
        forall|i: int| sbytes.len() <= i < slot.len() ==> #[trigger] slot[i] == 0,
        sbytes == Seq::new(text.len(), |i: int| (((text[i] as u32)) as u8)),
        forall|i: int| 0 <= i < text.len() ==> ((#[trigger] text[i]) as u32) < 128,
    ensures
        spec_all_ascii(slot.take(spec_first_zero(slot))),
        spec_ascii_chars(slot.take(spec_first_zero(slot))) == text,
{
    lemma_first_zero_finds_the_padding(slot, sbytes.len() as int);
    let cut = slot.take(spec_first_zero(slot));
    assert(cut =~= sbytes);
    assert forall|i: int| 0 <= i < cut.len() implies #[trigger] cut[i] < 128 by {}
    assert forall|i: int| 0 <= i < cut.len() implies spec_ascii_chars(cut)[i] == text[i] by {
        let original = text[i];
        let byte = (original as u32) as u8;
        assert(cut[i] == byte);
        assert((byte as u32) == (original as u32));
        vstd::utf8::char_u32_cast(original, original as u32);
        assert(((byte as u32) as char) == original);
    }
    assert(spec_ascii_chars(cut) =~= text);
}

/// The first zero of a slot whose first `n` bytes are non-zero and whose tail
/// is zero filled is exactly `n`.
proof fn lemma_first_zero_finds_the_padding(slot: Seq<u8>, n: int)
    requires
        0 <= n <= slot.len(),
        forall|i: int| 0 <= i < n ==> #[trigger] slot[i] != 0,
        forall|i: int| n <= i < slot.len() ==> #[trigger] slot[i] == 0,
    ensures
        spec_first_zero(slot) == n,
    decreases n,
{
    if n == 0 {
        if slot.len() > 0 {
            assert(slot[0] == 0);
        }
    } else {
        assert(slot[0] != 0);
        lemma_first_zero_finds_the_padding(slot.skip(1), n - 1);
        assert forall|i: int| 0 <= i < n - 1 implies #[trigger] slot.skip(1)[i] != 0 by {
            assert(slot.skip(1)[i] == slot[i + 1]);
        }
    }
}

/// The character of a decimal digit reads back as that digit.
proof fn lemma_digit_char_val(d: int)
    requires
        0 <= d < 10,
    ensures
        spec_is_dec_digit(spec_digit_char(d)),
        spec_digit_val(spec_digit_char(d)) == d,
{
}

/// The decimal rendering of a natural number is at least one character, all
/// of them decimal digits.
proof fn lemma_dec_chars_shape(n: nat)
    ensures
        spec_dec_chars(n).len() >= 1,
        forall|i: int|
            0 <= i < spec_dec_chars(n).len() ==> spec_is_dec_digit(#[trigger] spec_dec_chars(n)[i]),
    decreases n,
{
    if n < 10 {
        lemma_digit_char_val(n as int);
    } else {
        lemma_dec_chars_shape(n / 10);
        lemma_digit_char_val((n % 10) as int);
        assert forall|i: int| 0 <= i < spec_dec_chars(n).len() implies spec_is_dec_digit(
            #[trigger] spec_dec_chars(n)[i],
        ) by {
            if i < spec_dec_chars(n / 10).len() {
                assert(spec_dec_chars(n)[i] == spec_dec_chars(n / 10)[i]);
            }
        }
    }
}

/// The decimal rendering of a positive number does not start with a zero.
proof fn lemma_dec_chars_no_leading_zero(n: nat)
    requires
        n >= 1,
    ensures
        spec_dec_chars(n)[0] != '0',
    decreases n,
{
    if n < 10 {
    } else {
        lemma_dec_chars_no_leading_zero(n / 10);
        lemma_dec_chars_shape(n / 10);
        assert(spec_dec_chars(n)[0] == spec_dec_chars(n / 10)[0]);
    }
}

/// Parsing the decimal rendering of a natural number gives the number back.
proof fn lemma_dec_chars_value(n: nat)
    ensures
        spec_digits_val(spec_dec_chars(n), 10) == n,
    decreases n,
{
    if n < 10 {
        lemma_digit_char_val(n as int);
        assert(spec_dec_chars(n).drop_last() =~= Seq::<char>::empty());
        assert(spec_digits_val(Seq::<char>::empty(), 10) == 0);
    } else {
        lemma_dec_chars_value(n / 10);
        lemma_digit_char_val((n % 10) as int);
        let s = spec_dec_chars(n);
        assert(s.drop_last() =~= spec_dec_chars(n / 10));
        assert(s.last() == spec_digit_char((n % 10) as int));
    }
}

/// Removing grouping underscores from a text with none leaves it unchanged.
proof fn lemma_strip_underscores_id(s: Seq<char>)
    requires
        forall|i: int| 0 <= i < s.len() ==> #[trigger] s[i] != '_',
    ensures
        spec_strip_underscores(s) == s,
    decreases s.len(),
{
    reveal(Seq::filter);
    if s.len() == 0 {
        assert(spec_strip_underscores(s) =~= s);
    } else {
        assert forall|i: int| 0 <= i < s.drop_last().len() implies #[trigger] s.drop_last()[i]
            != '_' by {
            assert(s.drop_last()[i] == s[i]);
        }
        lemma_strip_underscores_id(s.drop_last());
        assert(spec_strip_underscores(s) =~= s);
    }
}

/// A decimal digit is not one of the scanner's special characters.
proof fn lemma_dec_digit_is_plain(c: char)
    requires
        spec_is_dec_digit(c),
    ensures
        c != '_',
        c != '.',
        c != '-',
        c != '+',
        c != 'x',
        c != 'b',
        !spec_is_whitespace(c),
        crate::tokenizing::spec_is_number_char(c),
{
}

/// The decimal rendering of a signed number looks like a number to the
/// scanner and parses back to exactly that number.
pub proof fn lemma_number_print_parse_round_trip(n: i64)
    ensures
        spec_is_number(spec_int_chars(n as int)),
        spec_to_numeric(spec_int_chars(n as int)) == Some(n),
{
    let s = spec_int_chars(n as int);
    if n >= 0 {
        let mag = n as nat;
        lemma_dec_chars_shape(mag);
        lemma_dec_chars_value(mag);
        assert(s == spec_dec_chars(mag));
        assert forall|i: int| 0 <= i < s.len() implies crate::tokenizing::spec_is_number_char(
            #[trigger] s[i],
        ) by {
            lemma_dec_digit_is_plain(s[i]);
        }
        if s.len() >= 2 {
            if n >= 1 {
                lemma_dec_chars_no_leading_zero(mag);
            }
            lemma_dec_digit_is_plain(s[1]);
        }
        assert(!s.contains('.')) by {
            if s.contains('.') {
                let i = choose|i: int| 0 <= i < s.len() && s[i] == '.';
                lemma_dec_digit_is_plain(s[i]);
            }
        }
        assert forall|i: int| 0 <= i < s.len() implies #[trigger] s[i] != '_' by {
            lemma_dec_digit_is_plain(s[i]);
        }
        lemma_strip_underscores_id(s);
        lemma_dec_digit_is_plain(s[0]);
        assert(spec_parse_int(s, 10) == Some(n)) by {
            assert(!(s[0] == '-' || s[0] == '+'));
            assert(spec_digits_val(s, 10) == mag);
        }
    } else {
        let mag = (-(n as int)) as nat;
        lemma_dec_chars_shape(mag);
        lemma_dec_chars_value(mag);
        assert(s == seq!['-'].add(spec_dec_chars(mag)));
        assert(s.len() == 1 + spec_dec_chars(mag).len());
        assert(s[0] == '-');
        assert forall|i: int| 1 <= i < s.len() implies spec_is_dec_digit(#[trigger] s[i]) by {
            assert(s[i] == spec_dec_chars(mag)[i - 1]);
        }
        assert forall|i: int| 0 <= i < s.len() implies crate::tokenizing::spec_is_number_char(
            #[trigger] s[i],
        ) by {
            if i >= 1 {
                lemma_dec_digit_is_plain(s[i]);
            }
        }
        if s.len() >= 2 {
            assert(s[0] != '0');
        }
        assert(!s.contains('.')) by {
            if s.contains('.') {
                let i = choose|i: int| 0 <= i < s.len() && s[i] == '.';
                if i >= 1 {
                    lemma_dec_digit_is_plain(s[i]);
                }
            }
        }
        assert forall|i: int| 0 <= i < s.len() implies #[trigger] s[i] != '_' by {
            if i >= 1 {
                lemma_dec_digit_is_plain(s[i]);
            }
        }
        lemma_strip_underscores_id(s);
        assert(s.skip(1) =~= spec_dec_chars(mag));
        assert(spec_parse_int(s, 10) == Some(n)) by {
            assert(spec_digits_val(s.skip(1), 10) == mag);
            assert(mag <= 0x8000000000000000);
        }
    }
}

/// A nonempty text with no whitespace scans as exactly one atom: itself.
pub proof fn lemma_single_atom(s: Seq<char>)
    requires
        s.len() >= 1,
        forall|i: int| 0 <= i < s.len() ==> !spec_is_whitespace(#[trigger] s[i]),
    ensures
        spec_source_atoms(s) == seq![s],
{
    lemma_atom_len_whole(s);
    assert(s.take(spec_atom_len(s)) =~= s);
    assert(s.skip(spec_atom_len(s)) =~= Seq::<char>::empty());
    assert(spec_source_atoms(Seq::<char>::empty()) =~= Seq::<Seq<char>>::empty());
    assert(spec_source_atoms(s) =~= seq![s]);
}

/// The leading atom of a whitespace free text is the whole text.
proof fn lemma_atom_len_whole(s: Seq<char>)
    requires
        forall|i: int| 0 <= i < s.len() ==> !spec_is_whitespace(#[trigger] s[i]),
    ensures
        spec_atom_len(s) == s.len(),
    decreases s.len(),
{
    if s.len() > 0 {
        assert forall|i: int| 0 <= i < s.skip(1).len() implies !spec_is_whitespace(
            #[trigger] s.skip(1)[i],
        ) by {
            assert(s.skip(1)[i] == s[i + 1]);
        }
        lemma_atom_len_whole(s.skip(1));
    }
}

/// Printing a number token and scanning the text back yields one token with
/// the same meaning: re-tokenizing the pretty printed number is the identity.
/// Together with the scanner's contract, scanning the rendering of `n` gives
/// exactly one token, a number token holding `n`.
pub proof fn lemma_number_token_round_trip(n: i64)
    ensures
        spec_source_atoms(spec_int_chars(n as int)) == seq![spec_int_chars(n as int)],
        spec_token_of(spec_int_chars(n as int)) == SpecToken::Number(n),
{
    let s = spec_int_chars(n as int);
    lemma_number_print_parse_round_trip(n);
    if n >= 0 {
        lemma_dec_chars_shape(n as nat);
        assert forall|i: int| 0 <= i < s.len() implies !spec_is_whitespace(#[trigger] s[i]) by {
            lemma_dec_digit_is_plain(s[i]);
        }
    } else {
        lemma_dec_chars_shape((-(n as int)) as nat);
        assert forall|i: int| 0 <= i < s.len() implies !spec_is_whitespace(#[trigger] s[i]) by {
            if i >= 1 {
                assert(s[i] == spec_dec_chars((-(n as int)) as nat)[i - 1]);
                lemma_dec_digit_is_plain(s[i]);
            }
        }
    }
    lemma_single_atom(s);
}

/// Printing a word token and scanning the text back yields one atom: the
/// word's own text.  A word whose text does not look numeric keeps its
/// meaning; the scanner's grammar sends a word that does look numeric and
/// parses back through the number path, so such texts are not words the
/// scanner itself ever produces.
pub proof fn lemma_word_token_round_trip(w: Seq<char>)
    requires
        w.len() >= 1,
        forall|i: int| 0 <= i < w.len() ==> !spec_is_whitespace(#[trigger] w[i]),
        !spec_is_number(w) || spec_to_numeric(w) is None,
    ensures
        spec_source_atoms(w) == seq![w],
        spec_token_of(w) == SpecToken::Word(w),
{
    lemma_single_atom(w);
}

} // verus!
