use vstd::prelude::*;
use vstd::string::{StrSliceExecFns, StringSliceAdditionalSpecFns};
use crate::text::chars_to_string;

verus! {

/// The value of one byte position in a little-endian encoding.
pub open spec fn spec_pow256(n: int) -> int
    decreases n,
{
    if n <= 0 {
        1
    } else {
        256 * spec_pow256(n - 1)
    }
}

/// The value of a little-endian run of bytes.
pub open spec fn spec_le_val(bytes: Seq<u8>) -> int
    decreases bytes.len(),
{
    if bytes.len() == 0 {
        0
    } else {
        bytes[0] + 256 * spec_le_val(bytes.skip(1))
    }
}

/// The signed number a little-endian run of bytes reads as: two's complement
/// when signed and the high bit is set, and otherwise the plain value, with
/// an eight byte unsigned value wrapping into the signed range.
pub open spec fn spec_le_int(bytes: Seq<u8>, is_signed: bool) -> i64 {
    let v = spec_le_val(bytes);
    let m = spec_pow256(bytes.len() as int);
    if is_signed && v >= m / 2 {
        (v - m) as i64
    } else if v <= i64::MAX {
        v as i64
    } else {
        (v - 0x10000000000000000) as i64
    }
}

/// The little-endian value of a run of bytes is not negative and below the
/// position value just past its end.
proof fn lemma_le_val_bounds(bytes: Seq<u8>)
    ensures
        0 <= spec_le_val(bytes) < spec_pow256(bytes.len() as int),
    decreases bytes.len(),
{
    if bytes.len() == 0 {
    } else {
        lemma_le_val_bounds(bytes.skip(1));
        let rest = spec_le_val(bytes.skip(1));
        let m = spec_pow256(bytes.len() - 1);
        assert(bytes[0] + 256 * rest < 256 * m) by (nonlinear_arith)
            requires
                0 <= rest,
                rest < m,
                0 <= bytes[0] < 256,
        ;
        assert(0 <= bytes[0] + 256 * rest) by (nonlinear_arith)
            requires
                0 <= rest,
                0 <= bytes[0],
        ;
    }
}

/// Appending one byte to a little-endian run adds its value at the next
/// position.
proof fn lemma_le_val_snoc(bytes: Seq<u8>, b: u8)
    ensures
        spec_le_val(bytes.push(b)) == spec_le_val(bytes) + b * spec_pow256(bytes.len() as int),
    decreases bytes.len(),
{
    if bytes.len() == 0 {
        assert(bytes.push(b).skip(1) =~= Seq::<u8>::empty());
        assert(spec_le_val(Seq::<u8>::empty()) == 0);
        assert(spec_le_val(bytes.push(b)) == b);
    } else {
        assert(bytes.push(b).skip(1) =~= bytes.skip(1).push(b));
        lemma_le_val_snoc(bytes.skip(1), b);
        let rest = spec_le_val(bytes.skip(1));
        let p = spec_pow256(bytes.len() - 1);
        assert(256 * (rest + b * p) == 256 * rest + b * (256 * p)) by (nonlinear_arith);
    }
}

/// The index of the first zero byte in a run, or the run's length where no
/// byte is zero.
pub open spec fn spec_first_zero(bytes: Seq<u8>) -> int
    decreases bytes.len(),
{
    if bytes.len() == 0 {
        0
    } else if bytes[0] == 0 {
        0
    } else {
        1 + spec_first_zero(bytes.skip(1))
    }
}

/// The first zero index lies within the run.
proof fn lemma_first_zero_bounds(bytes: Seq<u8>)
    ensures
        0 <= spec_first_zero(bytes) <= bytes.len(),
        forall|i: int| 0 <= i < spec_first_zero(bytes) ==> bytes[i] != 0,
        spec_first_zero(bytes) < bytes.len() ==> bytes[spec_first_zero(bytes)] == 0,
    decreases bytes.len(),
{
    if bytes.len() > 0 && bytes[0] != 0 {
        lemma_first_zero_bounds(bytes.skip(1));
        assert forall|i: int| 0 <= i < spec_first_zero(bytes) implies bytes[i] != 0 by {
            if i > 0 {
                assert(bytes.skip(1)[i - 1] == bytes[i]);
            }
        }
    }
}

/// Every byte of the run is seven bit.
pub open spec fn spec_all_ascii(bytes: Seq<u8>) -> bool {
    forall|i: int| 0 <= i < bytes.len() ==> #[trigger] bytes[i] < 128
}

/// The characters a run of seven bit bytes reads as.
pub open spec fn spec_ascii_chars(bytes: Seq<u8>) -> Seq<char> {
    Seq::new(bytes.len(), |i: int| ((bytes[i] as u32) as char))
}

/// The characters an arbitrary byte run reads as under a lossy decoding,
/// where malformed sequences become replacement characters.  The decoding
/// depends on the bytes alone.
pub uninterp spec fn spec_lossy_chars(bytes: Seq<u8>) -> Seq<char>;

/// Decode a run of bytes that is not pure seven bit.
///
/// Relies on String::from_utf8_lossy: the result depends on the bytes alone,
/// and seven bit bytes decode to their own characters.
#[verifier::external_body]
fn bytes_to_string_lossy(bytes: &Vec<u8>) -> (r: String)
    ensures
        r@ == spec_lossy_chars(bytes@),
        spec_all_ascii(bytes@) ==> r@ == spec_ascii_chars(bytes@),
{
    String::from_utf8_lossy(bytes).to_string()
}

/// A mutable buffer of bytes with a read and write cursor, for building and
/// reading binary data.  Reads and writes move linearly through the buffer
/// like a stream; numbers are encoded little-endian.
pub struct ByteBuffer {
    /// The bytes of the buffer.
    pub buffer: Vec<u8>,

    /// The cursor the next read or write starts at.
    pub current_position: usize,
}

impl Clone for ByteBuffer {
    /// Clones keep the bytes and the cursor.
    fn clone(&self) -> (r: Self)
        ensures
            r.buffer@ == self.buffer@,
            r.current_position == self.current_position,
    {
        ByteBuffer { buffer: self.buffer.clone(), current_position: self.current_position }
    }
}

impl ByteBuffer {
    /// The cursor never runs past the end of the buffer.
    pub open spec fn wf(&self) -> bool {
        self.current_position <= self.buffer@.len()
    }

    /// Create a new byte buffer of the given size, zero filled, with the
    /// cursor at the start.
    pub fn new(new_len: usize) -> (r: ByteBuffer)
        ensures
            r.wf(),
            r.buffer@.len() == new_len,
            forall|i: int| 0 <= i < new_len ==> r.buffer@[i] == 0,
            r.current_position == 0,
    {
        ByteBuffer { buffer: vec![0u8; new_len], current_position: 0 }
    }

    /// Whether the cursor is within the buffer, checked at run time.
    pub fn wf_runtime(&self) -> (r: bool)
        ensures
            r == self.wf(),
    {
        self.current_position <= self.buffer.len()
    }

    /// The length of the buffer in bytes.
    pub fn len(&self) -> (r: usize)
        ensures
            r == self.buffer@.len(),
    {
        self.buffer.len()
    }

    /// Whether the buffer holds no bytes.
    pub fn is_empty(&self) -> (r: bool)
        ensures
            r == (self.buffer@.len() == 0),
    {
        self.buffer.is_empty()
    }

    /// The cursor position the next read or write starts at.
    pub fn position(&self) -> (r: usize)
        ensures
            r == self.current_position,
    {
        self.current_position
    }

    /// Move the cursor.  A position past the end of the buffer is refused.
    pub fn set_position(&mut self, position: usize)
        requires
            position <= old(self).buffer@.len(),
        ensures
            final(self).buffer == old(self).buffer,
            final(self).current_position == position,
            final(self).wf(),
    {
        self.current_position = position;
    }

    /// Resize the buffer: grown space is zero filled, and a cursor at or past
    /// the new end is clamped to the last byte of the shrunk buffer, or to
    /// the start when nothing is left.
    pub fn resize(&mut self, new_size: usize)
        requires
            old(self).wf(),
        ensures
            final(self).wf(),
            final(self).buffer@.len() == new_size,
            forall|i: int|
                0 <= i < new_size && i < old(self).buffer@.len() ==> final(self).buffer@[i] == old(
                    self,
                ).buffer@[i],
            forall|i: int|
                old(self).buffer@.len() <= i < new_size ==> final(self).buffer@[i] == 0,
            final(self).current_position == if old(self).current_position < new_size {
                old(self).current_position as int
            } else if new_size == 0 {
                0int
            } else {
                new_size - 1
            },
    {
        self.buffer.resize(new_size, 0);
        if self.current_position >= new_size {
            self.current_position = if new_size == 0 {
                0
            } else {
                new_size - 1
            };
        }
    }

    /// Write an integer of the given byte size at the cursor, little-endian,
    /// and advance the cursor.  The sizes are one, two, four and eight bytes;
    /// a negative value is encoded in two's complement.
    pub fn write_int(&mut self, byte_size: usize, value: i64)
        requires
            old(self).wf(),
            byte_size == 1 || byte_size == 2 || byte_size == 4 || byte_size == 8,
            old(self).current_position + byte_size <= old(self).buffer@.len(),
        ensures
            final(self).wf(),
            final(self).buffer@.len() == old(self).buffer@.len(),
            final(self).current_position == old(self).current_position + byte_size,
            spec_le_val(
                final(self).buffer@.subrange(
                    old(self).current_position as int,
                    old(self).current_position + byte_size,
                ),
            ) == (value as u64) as int % spec_pow256(byte_size as int),
            forall|i: int|
                0 <= i < old(self).buffer@.len() && !(old(self).current_position <= i < old(
                    self,
                ).current_position + byte_size) ==> final(self).buffer@[i] == old(self).buffer@[i],
    {
        let mut u: u64 = value as u64;
        let mut i: usize = 0;
        let position = self.current_position;
        // Reading the length as a machine word bounds the buffer view for the
        // index arithmetic below.
        let _machine_len = self.buffer.len();
        let ghost whole = (value as u64) as int;
        while i < byte_size
            invariant
                self.wf(),
                position == old(self).current_position,
                position + byte_size <= self.buffer@.len(),
                self.buffer@.len() <= usize::MAX,
                self.buffer@.len() == old(self).buffer@.len(),
                self.current_position == old(self).current_position,
                i <= byte_size,
                whole == (value as u64) as int,
                u as int == whole / spec_pow256(i as int),
                spec_le_val(self.buffer@.subrange(position as int, position + i)) == whole % spec_pow256(
                    i as int,
                ),
                forall|k: int|
                    0 <= k < self.buffer@.len() && !(position <= k < position + i) ==> self.buffer@[k]
                        == old(self).buffer@[k],
            decreases byte_size - i,
        {
            let b: u8 = (u % 256) as u8;
            let ghost prefix = self.buffer@.subrange(position as int, position + i);
            self.buffer.set(position + i, b);
            proof {
                let newfix = self.buffer@.subrange(position as int, position + i + 1);
                assert(newfix =~= prefix.push(b));
                lemma_le_val_snoc(prefix, b);
                lemma_write_int_step(whole, i as int, u as int, b as int);
            }
            u = u / 256;
            i = i + 1;
        }
        self.current_position = position + byte_size;
    }

    /// Read an integer of the given byte size at the cursor, little-endian,
    /// and advance the cursor.  The sizes are one, two, four and eight
    /// bytes; when signed, a set high bit reads as a negative two's
    /// complement value.
    pub fn read_int(&mut self, byte_size: usize, is_signed: bool) -> (r: i64)
        requires
            old(self).wf(),
            byte_size == 1 || byte_size == 2 || byte_size == 4 || byte_size == 8,
            old(self).current_position + byte_size <= old(self).buffer@.len(),
        ensures
            final(self).buffer == old(self).buffer,
            final(self).current_position == old(self).current_position + byte_size,
            final(self).wf(),
            r == spec_le_int(
                old(self).buffer@.subrange(
                    old(self).current_position as int,
                    old(self).current_position + byte_size,
                ),
                is_signed,
            ),
    {
        let position = self.current_position;
        // Reading the length as a machine word bounds the buffer view for the
        // index arithmetic below.
        let _machine_len = self.buffer.len();
        let ghost range = self.buffer@.subrange(position as int, position + byte_size);
        let mut acc: u64 = 0;
        let mut mult: u64 = 1;
        let mut i: usize = 0;
        while i < byte_size
            invariant
                self.wf(),
                position == self.current_position,
                position + byte_size <= self.buffer@.len(),
                self.buffer@.len() <= usize::MAX,
                range == self.buffer@.subrange(position as int, position + byte_size as int),
                i <= byte_size,
                byte_size <= 8,
                i < byte_size ==> mult as int == spec_pow256(i as int),
                acc as int == spec_le_val(range.take(i as int)),
                (acc as int) < spec_pow256(i as int),
            decreases byte_size - i,
        {
            let b = self.buffer[position + i];
            proof {
                assert(range[i as int] == self.buffer@[position + i]);
                let prefix = range.take(i as int);
                assert(range.take(i as int + 1) =~= prefix.push(range[i as int]));
                lemma_le_val_snoc(prefix, range[i as int]);
                lemma_pow256_bounds(i as int);
                lemma_read_int_step(acc as int, mult as int, b as int, i as int);
            }
            acc = acc + (b as u64) * mult;
            if i + 1 < byte_size {
                proof {
                    lemma_pow256_bounds(i as int);
                }
                mult = mult * 256;
            }
            proof {
                lemma_pow256_bounds(i as int + 1);
            }
            i = i + 1;
        }
        proof {
            assert(range.take(byte_size as int) =~= range);
            lemma_le_val_bounds(range);
        }
        self.current_position = position + byte_size;
        proof {
            lemma_pow256_bounds(byte_size as int);
        }
        let v = acc;
        let ghost m = spec_pow256(byte_size as int);
        if is_signed && byte_size < 8 {
            let half: u64 = half_pow(byte_size);
            let full: u64 = full_pow(byte_size);
            if v >= half {
                return (v as i64) - (full as i64);
            }
            return v as i64;
        }
        if byte_size < 8 {
            return v as i64;
        }
        // Eight bytes: a value with the high bit set wraps into the negative
        // half of the signed range, whether it is read signed or unsigned.
        if v >= 0x8000000000000000 {
            let off = v - 0x8000000000000000;
            i64::MIN + (off as i64)
        } else {
            v as i64
        }
    }

    /// Write a string of the given slot size at the cursor, advancing the
    /// cursor over the whole slot.  A string longer than the slot is
    /// truncated at the slot size in bytes; a shorter one has the slot's tail
    /// zero filled.
    pub fn write_string(&mut self, max_size: usize, value: &str)
        requires
            old(self).wf(),
            old(self).current_position + max_size <= old(self).buffer@.len(),
        ensures
            final(self).wf(),
            final(self).buffer@.len() == old(self).buffer@.len(),
            final(self).current_position == old(self).current_position + max_size,
            forall|i: int|
                0 <= i < max_size && i < value.spec_bytes().len() ==> final(self).buffer@[old(
                    self,
                ).current_position + i] == value.spec_bytes()[i],
            forall|i: int|
                value.spec_bytes().len() <= i < max_size ==> #[trigger] final(self).buffer@[old(
                    self,
                ).current_position + i] == 0,
            forall|i: int|
                0 <= i < old(self).buffer@.len() && !(old(self).current_position <= i < old(
                    self,
                ).current_position + max_size) ==> final(self).buffer@[i] == old(self).buffer@[i],
    {
        let bytes = value.as_bytes_vec();
        let position = self.current_position;
        // Reading the length as a machine word bounds the buffer view for the
        // index arithmetic below.
        let _machine_len = self.buffer.len();
        let mut i: usize = 0;
        while i < max_size
            invariant
                self.wf(),
                position == self.current_position,
                position + max_size <= self.buffer@.len(),
                self.buffer@.len() <= usize::MAX,
                self.buffer@.len() == old(self).buffer@.len(),
                bytes@ == value.spec_bytes(),
                i <= max_size,
                forall|k: int|
                    0 <= k < i && k < bytes@.len() ==> self.buffer@[position + k] == bytes@[k],
                forall|k: int| bytes@.len() <= k < i ==> #[trigger] self.buffer@[position + k] == 0,
                forall|k: int|
                    0 <= k < self.buffer@.len() && !(position <= k < position + i)
                        ==> self.buffer@[k] == old(self).buffer@[k],
            decreases max_size - i,
        {
            let b: u8 = if i < bytes.len() {
                bytes[i]
            } else {
                0
            };
            self.buffer.set(position + i, b);
            i = i + 1;
        }
        self.current_position = position + max_size;
    }

    /// Read a string from a slot of the given size at the cursor, advancing
    /// the cursor over the whole slot.  The string ends at the first zero
    /// byte of the slot, or spans the whole slot where none is zero.
    pub fn read_string(&mut self, max_size: usize) -> (r: String)
        requires
            old(self).wf(),
            old(self).current_position + max_size <= old(self).buffer@.len(),
        ensures
            final(self).buffer == old(self).buffer,
            final(self).current_position == old(self).current_position + max_size,
            final(self).wf(),
            ({
                let slot = old(self).buffer@.subrange(
                    old(self).current_position as int,
                    old(self).current_position + max_size,
                );
                let cut = slot.take(spec_first_zero(slot));
                if spec_all_ascii(cut) {
                    r@ == spec_ascii_chars(cut)
                } else {
                    r@ == spec_lossy_chars(cut)
                }
            }),
    {
        let position = self.current_position;
        // Reading the length as a machine word bounds the buffer view for the
        // index arithmetic below.
        let _machine_len = self.buffer.len();
        let ghost slot = self.buffer@.subrange(position as int, position + max_size);
        proof {
            lemma_first_zero_bounds(slot);
        }
        let mut bytes: Vec<u8> = Vec::new();
        let mut i: usize = 0;
        let mut stopped = false;
        while i < max_size && !stopped
            invariant
                self.wf(),
                position == self.current_position,
                position + max_size <= self.buffer@.len(),
                self.buffer@.len() <= usize::MAX,
                slot == self.buffer@.subrange(position as int, position + max_size as int),
                i <= max_size,
                stopped ==> spec_first_zero(slot) == i - 1 && bytes@ == slot.take(i - 1),
                !stopped ==> spec_first_zero(slot) >= i && bytes@ == slot.take(i as int),
            decreases max_size - i,
        {
            let b = self.buffer[position + i];
            proof {
                assert(slot[i as int] == self.buffer@[position + i]);
                lemma_first_zero_step(slot, i as int);
            }
            if b == 0 {
                stopped = true;
            } else {
                bytes.push(b);
                proof {
                    assert(slot.take(i as int + 1) =~= slot.take(i as int).push(slot[i as int]));
                }
            }
            i = i + 1;
        }
        proof {
            if !stopped {
                assert(slot.take(max_size as int) =~= slot);
                lemma_first_zero_bounds(slot);
                assert(spec_first_zero(slot) == max_size);
            }
            assert(bytes@ == slot.take(spec_first_zero(slot)));
        }
        self.current_position = position + max_size;
        let mut all_ascii = true;
        let mut j: usize = 0;
        while j < bytes.len()
            invariant
                j <= bytes@.len(),
                all_ascii == (forall|k: int| 0 <= k < j ==> #[trigger] bytes@[k] < 128),
            decreases bytes@.len() - j,
        {
            if bytes[j] >= 128 {
                all_ascii = false;
                proof {
                    assert(!(forall|k: int| 0 <= k < j + 1 ==> #[trigger] bytes@[k] < 128));
                }
            }
            j = j + 1;
        }
        if all_ascii {
            let mut chars: Vec<char> = Vec::new();
            let mut k: usize = 0;
            while k < bytes.len()
                invariant
                    k <= bytes@.len(),
                    spec_all_ascii(bytes@),
                    chars@ =~= spec_ascii_chars(bytes@).take(k as int),
                decreases bytes@.len() - k,
            {
                chars.push(bytes[k] as char);
                k = k + 1;
                assert(chars@ =~= spec_ascii_chars(bytes@).take(k as int));
            }
            assert(chars@ =~= spec_ascii_chars(bytes@));
            chars_to_string(&chars)
        } else {
            bytes_to_string_lossy(&bytes)
        }
    }
}

/// The position value of each byte index up to eight, exactly.
proof fn lemma_pow256_bounds(n: int)
    requires
        0 <= n <= 8,
    ensures
        0 < spec_pow256(n),
        n == 0 ==> spec_pow256(n) == 1,
        n == 1 ==> spec_pow256(n) == 0x100,
        n == 2 ==> spec_pow256(n) == 0x10000,
        n == 3 ==> spec_pow256(n) == 0x1000000,
        n == 4 ==> spec_pow256(n) == 0x100000000,
        n == 5 ==> spec_pow256(n) == 0x10000000000,
        n == 6 ==> spec_pow256(n) == 0x1000000000000,
        n == 7 ==> spec_pow256(n) == 0x100000000000000,
        n == 8 ==> spec_pow256(n) == 0x10000000000000000,
        n <= 6 ==> spec_pow256(n) <= 0x1000000000000,
        n < 8 ==> spec_pow256(n) <= 0x100000000000000,
        spec_pow256(n) <= 0x10000000000000000,
    decreases n,
{
    if n > 0 {
        lemma_pow256_bounds(n - 1);
    }
}

/// One step of the little-endian write: splitting off the low byte matches
/// splitting the value at the next position.
proof fn lemma_write_int_step(whole: int, i: int, u: int, b: int)
    requires
        0 <= i,
        u == whole / spec_pow256(i),
        b == u % 256,
        0 <= whole,
    ensures
        whole % spec_pow256(i) + b * spec_pow256(i) == whole % (256 * spec_pow256(i)),
        u / 256 == whole / (256 * spec_pow256(i)),
        256 * spec_pow256(i) == spec_pow256(i + 1),
{
    lemma_pow256_pos(i);
    let p = spec_pow256(i);
    assert(spec_pow256(i + 1) == 256 * p);
    vstd::arithmetic::div_mod::lemma_div_denominator(whole, p, 256);
    assert(whole / p / 256 == whole / (p * 256));
    assert(p * 256 == 256 * p) by (nonlinear_arith);
    vstd::arithmetic::div_mod::lemma_breakdown(whole, p, 256);
    assert(whole % (p * 256) == p * ((whole / p) % 256) + whole % p);
    assert(p * b == b * p) by (nonlinear_arith);
}

/// Every position value is positive.
proof fn lemma_pow256_pos(n: int)
    ensures
        spec_pow256(n) >= 1,
    decreases n,
{
    if n > 0 {
        lemma_pow256_pos(n - 1);
    }
}

/// One step of the little-endian read stays within the machine word.
proof fn lemma_read_int_step(acc: int, mult: int, b: int, i: int)
    requires
        0 <= i <= 7,
        mult == spec_pow256(i),
        0 <= acc < mult,
        0 <= b < 256,
    ensures
        acc + b * mult < spec_pow256(i + 1),
        acc + b * mult <= 0xffffffffffffffff,
        b * mult >= 0,
{
    lemma_pow256_pos(i);
    assert(spec_pow256(i + 1) == 256 * mult);
    assert(acc + b * mult < 256 * mult) by (nonlinear_arith)
        requires
            0 <= acc < mult,
            0 <= b < 256,
            mult >= 1,
    ;
    lemma_pow256_bounds(i + 1);
}

/// The first zero search advances one byte at a time.
proof fn lemma_first_zero_step(bytes: Seq<u8>, i: int)
    requires
        0 <= i < bytes.len(),
        spec_first_zero(bytes) >= i,
    ensures
        bytes[i] == 0 ==> spec_first_zero(bytes) == i,
        bytes[i] != 0 ==> spec_first_zero(bytes) >= i + 1,
    decreases i,
{
    lemma_first_zero_bounds(bytes);
    if i > 0 {
        assert(bytes[0] != 0);
        assert(bytes.skip(1)[i - 1] == bytes[i]);
        lemma_first_zero_step(bytes.skip(1), i - 1);
    }
}

/// Half the position value of a byte size below eight.
fn half_pow(byte_size: usize) -> (r: u64)
    requires
        byte_size == 1 || byte_size == 2 || byte_size == 4,
    ensures
        r as int == spec_pow256(byte_size as int) / 2,
{
    proof {
        lemma_pow256_bounds(byte_size as int);
    }
    if byte_size == 1 {
        0x80
    } else if byte_size == 2 {
        0x8000
    } else {
        0x80000000
    }
}

/// The position value of a byte size below eight.
fn full_pow(byte_size: usize) -> (r: u64)
    requires
        byte_size == 1 || byte_size == 2 || byte_size == 4,
    ensures
        r as int == spec_pow256(byte_size as int),
{
    proof {
        lemma_pow256_bounds(byte_size as int);
    }
    if byte_size == 1 {
        0x100
    } else if byte_size == 2 {
        0x10000
    } else {
        0x100000000
    }
}

} // verus!
