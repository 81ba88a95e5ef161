use vstd::prelude::*;
use crate::location::SourceLocation;
use crate::source_buffer::SourceBuffer;
use crate::error::{ScriptError, ScriptResult};
use crate::text::{chars_to_string, str_to_chars};

verus! {

/// A token is the smallest unit of the language: a number, a string literal,
/// or a word.  Every token carries the location in the source code where it
/// was found.
pub enum Token {
    /// An integer literal.
    Number(SourceLocation, i64),

    /// A single line or multi-line string literal.
    String(SourceLocation, String),

    /// A word to be looked up and executed.
    Word(SourceLocation, String),
}

/// A list of tokens found in the source code.
pub type TokenList = Vec<Token>;

impl Clone for Token {
    /// Clones keep the token's value.
    fn clone(&self) -> (r: Self)
        ensures
            r == *self,
    {
        match self {
            Token::Number(location, value) => Token::Number(location.clone(), *value),
            Token::String(location, value) => Token::String(location.clone(), value.clone()),
            Token::Word(location, value) => Token::Word(location.clone(), value.clone()),
        }
    }
}

impl Token {
    /// The token's location in the original source text.
    pub fn location(&self) -> (r: &SourceLocation)
        ensures
            r == match self {
                Token::Number(location, _) => location,
                Token::String(location, _) => location,
                Token::Word(location, _) => location,
            },
    {
        match self {
            Token::Number(location, _) => location,
            Token::String(location, _) => location,
            Token::Word(location, _) => location,
        }
    }

    /// Check if the token is a number.
    pub fn is_number(&self) -> (r: bool)
        ensures
            r == (self is Number),
    {
        matches!(self, Token::Number(_, _))
    }

    /// The number held by the token, or an error if it is not a number token.
    pub fn number(&self) -> (r: ScriptResult<i64>)
        ensures
            match r {
                Ok(n) => self matches Token::Number(_, v) && n == v,
                Err(_) => !(self is Number),
            },
    {
        match self {
            Token::Number(_, number) => Ok(*number),
            _ => ScriptError::new_as_result(
                Some(self.location().clone()),
                String::from_str("Token is not a number."),
                None,
            ),
        }
    }

    /// Check if the token is either a word or a string literal.
    pub fn is_textual(&self) -> (r: bool)
        ensures
            r == (self is String || self is Word),
    {
        matches!(self, Token::String(_, _) | Token::Word(_, _))
    }

    /// The text of the token, be it a word or a string literal.  Errors out on
    /// a number token.
    pub fn text(&self) -> (r: ScriptResult<&String>)
        ensures
            match r {
                Ok(t) => (self matches Token::String(_, s) && t == s) || (self matches Token::Word(
                    _,
                    w,
                ) && t == w),
                Err(_) => self is Number,
            },
    {
        match self {
            Token::String(_, text) => Ok(text),
            Token::Word(_, text) => Ok(text),
            _ => ScriptError::new_as_result(
                Some(self.location().clone()),
                String::from_str("Token is not textual."),
                None,
            ),
        }
    }

    /// Check if the token is a string literal.
    pub fn is_string(&self) -> (r: bool)
        ensures
            r == (self is String),
    {
        matches!(self, Token::String(_, _))
    }

    /// The text of a string literal token, or an error for a number or word.
    pub fn string(&self) -> (r: ScriptResult<&String>)
        ensures
            match r {
                Ok(t) => self matches Token::String(_, s) && t == s,
                Err(_) => !(self is String),
            },
    {
        match self {
            Token::String(_, text) => Ok(text),
            _ => ScriptError::new_as_result(
                Some(self.location().clone()),
                String::from_str("Token is not a string."),
                None,
            ),
        }
    }

    /// Check if the token is a word.
    pub fn is_word(&self) -> (r: bool)
        ensures
            r == (self is Word),
    {
        matches!(self, Token::Word(_, _))
    }

    /// The text of a word token, or an error for a string literal or number.
    pub fn word(&self) -> (r: ScriptResult<&String>)
        ensures
            match r {
                Ok(t) => self matches Token::Word(_, w) && t == w,
                Err(_) => !(self is Word),
            },
    {
        match self {
            Token::Word(_, word) => Ok(word),
            _ => ScriptError::new_as_result(
                Some(self.location().clone()),
                String::from_str("Token is not a word."),
                None,
            ),
        }
    }
}

/// Two tokens are the same token: the same kind, content and location.
pub open spec fn spec_token_eq(a: Token, b: Token) -> bool {
    match (a, b) {
        (Token::Number(la, x), Token::Number(lb, y)) => crate::location::spec_location_eq(la, lb)
            && x == y,
        (Token::String(la, x), Token::String(lb, y)) => crate::location::spec_location_eq(la, lb)
            && x@ == y@,
        (Token::Word(la, x), Token::Word(lb, y)) => crate::location::spec_location_eq(la, lb) && x@
            == y@,
        _ => false,
    }
}

/// The characters that separate tokens.
pub open spec fn spec_is_whitespace(c: char) -> bool {
    c == ' ' || c == '\t' || c == '\r' || c == '\n'
}

/// Check if the given character is considered whitespace.
pub fn is_whitespace(next: &char) -> (r: bool)
    ensures
        r == spec_is_whitespace(*next),
{
    *next == ' ' || *next == '\t' || *next == '\r' || *next == '\n'
}

/// The length of the leading run of non-whitespace characters.
pub open spec fn spec_atom_len(s: Seq<char>) -> int
    decreases s.len(),
{
    if s.len() == 0 || spec_is_whitespace(s[0]) {
        0
    } else {
        1 + spec_atom_len(s.skip(1))
    }
}

/// The length of the leading run of whitespace characters.
pub open spec fn spec_ws_len(s: Seq<char>) -> int
    decreases s.len(),
{
    if s.len() == 0 || !spec_is_whitespace(s[0]) {
        0
    } else {
        1 + spec_ws_len(s.skip(1))
    }
}

/// The leading run lengths are within the sequence.
proof fn lemma_run_len_bounds(s: Seq<char>)
    ensures
        0 <= spec_atom_len(s) <= s.len(),
        0 <= spec_ws_len(s) <= s.len(),
    decreases s.len(),
{
    if s.len() > 0 {
        lemma_run_len_bounds(s.skip(1));
    }
}

/// Consuming one character of a run shortens that run by one.
proof fn lemma_run_len_step(s: Seq<char>, pos: int)
    requires
        0 <= pos < s.len(),
    ensures
        !spec_is_whitespace(s[pos]) ==> spec_atom_len(s.skip(pos)) == 1 + spec_atom_len(
            s.skip(pos + 1),
        ),
        spec_is_whitespace(s[pos]) ==> spec_ws_len(s.skip(pos)) == 1 + spec_ws_len(s.skip(pos + 1)),
{
    assert(s.skip(pos)[0] == s[pos]);
    assert(s.skip(pos).skip(1) =~= s.skip(pos + 1));
}

/// Skip over whitespace, stopping at the end of the buffer or at the next
/// non-whitespace character.
pub fn skip_whitespace(buffer: &mut SourceBuffer)
    requires
        old(buffer).wf(),
    ensures
        final(buffer).wf(),
        final(buffer).chars == old(buffer).chars,
        old(buffer).pos <= final(buffer).pos,
        final(buffer).pos == old(buffer).pos + spec_ws_len(
            old(buffer).chars@.skip(old(buffer).pos as int),
        ),
        final(buffer).spec_peek() matches Some(c) ==> !spec_is_whitespace(c),
{
    proof {
        lemma_run_len_bounds(buffer.chars@.skip(buffer.pos as int));
    }
    loop
        invariant
            buffer.wf(),
            buffer.chars == old(buffer).chars,
            old(buffer).pos <= buffer.pos,
            old(buffer).pos + spec_ws_len(old(buffer).chars@.skip(old(buffer).pos as int))
                == buffer.pos + spec_ws_len(buffer.chars@.skip(buffer.pos as int)),
        ensures
            buffer.wf(),
            buffer.chars == old(buffer).chars,
            old(buffer).pos + spec_ws_len(old(buffer).chars@.skip(old(buffer).pos as int))
                == buffer.pos + spec_ws_len(buffer.chars@.skip(buffer.pos as int)),
            buffer.spec_peek() matches Some(c) ==> !spec_is_whitespace(c),
            spec_ws_len(buffer.chars@.skip(buffer.pos as int)) == 0,
        decreases buffer.chars@.len() - buffer.pos,
    {
        match buffer.peek_next() {
            Some(next) => {
                if !is_whitespace(&next) {
                    break;
                }
                proof {
                    lemma_run_len_step(buffer.chars@, buffer.pos as int);
                    lemma_run_len_bounds(buffer.chars@.skip(buffer.pos as int + 1));
                }
                let _ = buffer.next_char();
            },
            None => {
                break;
            },
        }
    }
    proof {
        lemma_run_len_bounds(buffer.chars@.skip(buffer.pos as int));
    }
}

/// Pull text out of the buffer until the next whitespace character: the next
/// atom of the source, together with the location where it starts.
pub fn process_until_whitespace(buffer: &mut SourceBuffer) -> (r: (SourceLocation, String))
    requires
        old(buffer).wf(),
    ensures
        final(buffer).wf(),
        final(buffer).chars == old(buffer).chars,
        r.0 == old(buffer).location,
        final(buffer).pos == old(buffer).pos + spec_atom_len(
            old(buffer).chars@.skip(old(buffer).pos as int),
        ),
        r.1@ == old(buffer).chars@.subrange(old(buffer).pos as int, final(buffer).pos as int),
{
    let location = buffer.location().clone();
    let mut text: Vec<char> = Vec::new();
    proof {
        lemma_run_len_bounds(buffer.chars@.skip(buffer.pos as int));
    }
    loop
        invariant
            buffer.wf(),
            buffer.chars == old(buffer).chars,
            old(buffer).pos <= buffer.pos,
            text@ == buffer.chars@.subrange(old(buffer).pos as int, buffer.pos as int),
            old(buffer).pos + spec_atom_len(old(buffer).chars@.skip(old(buffer).pos as int))
                == buffer.pos + spec_atom_len(buffer.chars@.skip(buffer.pos as int)),
        ensures
            buffer.wf(),
            buffer.chars == old(buffer).chars,
            old(buffer).pos <= buffer.pos,
            text@ == buffer.chars@.subrange(old(buffer).pos as int, buffer.pos as int),
            old(buffer).pos + spec_atom_len(old(buffer).chars@.skip(old(buffer).pos as int))
                == buffer.pos + spec_atom_len(buffer.chars@.skip(buffer.pos as int)),
            spec_atom_len(buffer.chars@.skip(buffer.pos as int)) == 0,
        decreases buffer.chars@.len() - buffer.pos,
    {
        match buffer.peek_next() {
            Some(next) => {
                if is_whitespace(&next) {
                    break;
                }
                proof {
                    lemma_run_len_step(buffer.chars@, buffer.pos as int);
                    lemma_run_len_bounds(buffer.chars@.skip(buffer.pos as int + 1));
                }
                let ghost pos0 = buffer.pos as int;
                let c = buffer.next_char();
                match c {
                    Some(ch) => {
                        text.push(ch);
                    },
                    None => {
                        break;
                    },
                }
                assert(text@ =~= buffer.chars@.subrange(
                    old(buffer).pos as int,
                    buffer.pos as int,
                ));
            },
            None => {
                break;
            },
        }
    }
    (location, chars_to_string(&text))
}

/// A decimal digit character.
pub open spec fn spec_is_dec_digit(c: char) -> bool {
    '0' <= c && c <= '9'
}

/// A hexadecimal digit character, either case.
pub open spec fn spec_is_hex_digit(c: char) -> bool {
    spec_is_dec_digit(c) || ('a' <= c && c <= 'f') || ('A' <= c && c <= 'F')
}

/// A digit character valid for the given base (2, 10 or 16).
pub open spec fn spec_is_digit_for(c: char, base: int) -> bool {
    if base == 16 {
        spec_is_hex_digit(c)
    } else if base == 2 {
        c == '0' || c == '1'
    } else {
        spec_is_dec_digit(c)
    }
}

/// The numeric value of a digit character.
pub open spec fn spec_digit_val(c: char) -> int {
    if spec_is_dec_digit(c) {
        c as int - '0' as int
    } else if 'a' <= c && c <= 'f' {
        c as int - 'a' as int + 10
    } else if 'A' <= c && c <= 'F' {
        c as int - 'A' as int + 10
    } else {
        0
    }
}

/// The value of a run of digit characters in the given base, most significant
/// digit first.
pub open spec fn spec_digits_val(s: Seq<char>, base: int) -> int
    decreases s.len(),
{
    if s.len() == 0 {
        0
    } else {
        spec_digits_val(s.drop_last(), base) * base + spec_digit_val(s.last())
    }
}

/// Every character of the run is a digit valid for the base.
pub open spec fn spec_valid_digits(s: Seq<char>, base: int) -> bool {
    forall|i: int| 0 <= i < s.len() ==> spec_is_digit_for(#[trigger] s[i], base)
}

/// The value of a digit run is never negative.
proof fn lemma_digits_val_nonneg(s: Seq<char>, base: int)
    requires
        base >= 2,
    ensures
        spec_digits_val(s, base) >= 0,
    decreases s.len(),
{
    if s.len() > 0 {
        lemma_digits_val_nonneg(s.drop_last(), base);
        assert(spec_digits_val(s.drop_last(), base) * base >= 0) by (nonlinear_arith)
            requires
                spec_digits_val(s.drop_last(), base) >= 0,
                base >= 2,
        ;
    }
}

/// Extending a digit run by one digit never shrinks its value.
proof fn lemma_digits_val_extend(s: Seq<char>, i: int, base: int)
    requires
        base >= 2,
        0 <= i < s.len(),
    ensures
        spec_digits_val(s.take(i), base) <= spec_digits_val(s.take(i + 1), base),
        spec_digits_val(s.take(i + 1), base) == spec_digits_val(s.take(i), base) * base
            + spec_digit_val(s[i]),
{
    assert(s.take(i + 1).drop_last() =~= s.take(i));
    assert(s.take(i + 1).last() == s[i]);
    lemma_digits_val_nonneg(s.take(i), base);
    assert(spec_digits_val(s.take(i), base) * base + spec_digit_val(s[i]) >= spec_digits_val(
        s.take(i),
        base,
    )) by (nonlinear_arith)
        requires
            spec_digits_val(s.take(i), base) >= 0,
            base >= 2,
            spec_digit_val(s[i]) >= 0,
    ;
}

/// The value of a whole digit run is at least the value of any prefix of it.
proof fn lemma_digits_val_prefix(s: Seq<char>, i: int, base: int)
    requires
        base >= 2,
        0 <= i <= s.len(),
    ensures
        spec_digits_val(s.take(i), base) <= spec_digits_val(s, base),
    decreases s.len() - i,
{
    if i == s.len() {
        assert(s.take(i) =~= s);
    } else {
        lemma_digits_val_extend(s, i, base);
        lemma_digits_val_prefix(s, i + 1, base);
    }
}

/// The result of parsing an optionally signed digit run in the given base: the
/// signed value where the run is well formed and its magnitude fits a 64-bit
/// signed integer, and nothing otherwise.
pub open spec fn spec_parse_int(s: Seq<char>, base: int) -> Option<i64> {
    let neg = s.len() > 0 && s[0] == '-';
    let body = if s.len() > 0 && (s[0] == '-' || s[0] == '+') {
        s.skip(1)
    } else {
        s
    };
    if body.len() == 0 || !spec_valid_digits(body, base) {
        None
    } else {
        let v = spec_digits_val(body, base);
        if neg {
            if v <= 0x8000000000000000 {
                Some((-v) as i64)
            } else {
                None
            }
        } else {
            if v <= 0x7fffffffffffffff {
                Some(v as i64)
            } else {
                None
            }
        }
    }
}

/// The characters of the text with grouping underscores removed.
pub open spec fn spec_strip_underscores(s: Seq<char>) -> Seq<char> {
    s.filter(|c: char| c != '_')
}

/// The characters an atom may hold and still look like a numeric literal.
pub open spec fn spec_is_number_char(c: char) -> bool {
    spec_is_hex_digit(c) || c == '.' || c == '-' || c == 'e' || c == 'E' || c == '_'
}

/// Whether an atom looks like a numeric literal: nonempty, and either carrying
/// a hexadecimal or binary prefix or made only of characters that may appear
/// in a number.  Looking numeric does not guarantee that the atom parses.
pub open spec fn spec_is_number(s: Seq<char>) -> bool {
    s.len() > 0 && ((s.len() >= 2 && s[0] == '0' && s[1] == 'x') || (s.len() >= 2 && s[0] == '0'
        && s[1] == 'b') || (forall|i: int| 0 <= i < s.len() ==> spec_is_number_char(#[trigger] s[i])))
}

/// The numeric value of an atom: hexadecimal after a `0x` prefix, binary after
/// a `0b` prefix, and decimal otherwise, with grouping underscores ignored.
/// An atom with a decimal point does not parse (this runtime holds integers
/// only), nor does one whose digits are malformed or whose value does not fit
/// a 64-bit signed integer.
pub open spec fn spec_to_numeric(s: Seq<char>) -> Option<i64> {
    if s.len() >= 2 && s[0] == '0' && s[1] == 'x' {
        spec_parse_int(spec_strip_underscores(s.skip(2)), 16)
    } else if s.len() >= 2 && s[0] == '0' && s[1] == 'b' {
        spec_parse_int(spec_strip_underscores(s.skip(2)), 2)
    } else if s.contains('.') {
        None
    } else {
        spec_parse_int(spec_strip_underscores(s), 10)
    }
}

/// Check whether a digit character is valid for the given base.
fn is_digit_for(c: char, base: u64) -> (r: bool)
    requires
        base == 2 || base == 10 || base == 16,
    ensures
        r == spec_is_digit_for(c, base as int),
{
    if base == 16 {
        ('0' <= c && c <= '9') || ('a' <= c && c <= 'f') || ('A' <= c && c <= 'F')
    } else if base == 2 {
        c == '0' || c == '1'
    } else {
        '0' <= c && c <= '9'
    }
}

/// The numeric value of a digit character.
fn digit_val(c: char) -> (r: u64)
    requires
        spec_is_hex_digit(c),
    ensures
        r == spec_digit_val(c),
        r < 16,
{
    if '0' <= c && c <= '9' {
        (c as u32 - '0' as u32) as u64
    } else if 'a' <= c && c <= 'f' {
        (c as u32 - 'a' as u32 + 10) as u64
    } else {
        (c as u32 - 'A' as u32 + 10) as u64
    }
}

/// Parse an optionally signed run of digits in the given base, rejecting
/// malformed runs and values whose magnitude does not fit.
fn parse_int_chars(s: &Vec<char>, base: u64) -> (r: Option<i64>)
    requires
        base == 2 || base == 10 || base == 16,
    ensures
        r == spec_parse_int(s@, base as int),
{
    let neg: bool = s.len() > 0 && s[0] == '-';
    let start: usize = if s.len() > 0 && (s[0] == '-' || s[0] == '+') {
        1
    } else {
        0
    };
    let ghost body = s@.skip(start as int);
    proof {
        assert(s@.skip(0int) =~= s@);
    }
    if s.len() == start {
        return None;
    }
    let limit: u64 = if neg {
        0x8000000000000000
    } else {
        0x7fffffffffffffff
    };
    let mut acc: u64 = 0;
    let mut i: usize = start;
    while i < s.len()
        invariant
            base == 2 || base == 10 || base == 16,
            start <= i <= s@.len(),
            s@.skip(0int) == s@,
            neg == (s@.len() > 0 && s@[0] == '-'),
            start == if s@.len() > 0 && (s@[0] == '-' || s@[0] == '+') {
                1int
            } else {
                0int
            },
            start < s@.len(),
            body == s@.skip(start as int),
            limit == if neg { 0x8000000000000000u64 } else { 0x7fffffffffffffffu64 },
            acc <= limit,
            acc == spec_digits_val(body.take(i - start), base as int),
            spec_valid_digits(body.take(i - start), base as int),
        decreases s@.len() - i,
    {
        let c = s[i];
        assert(body[i - start] == s@[i as int]);
        if !is_digit_for(c, base) {
            assert(!spec_valid_digits(body, base as int));
            return None;
        }
        let d = digit_val(c);
        proof {
            lemma_digits_val_extend(body, i - start, base as int);
        }
        if acc > (limit - d) / base {
            proof {
                assert((acc as int) * (base as int) + (d as int) > (limit as int)) by (nonlinear_arith)
                    requires
                        (acc as int) > ((limit as int) - (d as int)) / (base as int),
                        (base as int) >= 2,
                        (d as int) < 16,
                        (d as int) <= (limit as int),
                        (acc as int) >= 0,
                        (limit as int) >= 16,
                ;
                assert(spec_digit_val(body[i - start]) == d);
                assert(spec_digits_val(body.take(i - start + 1), base as int) > limit as int);
                lemma_digits_val_prefix(body, i - start + 1, base as int);
                assert(spec_digits_val(body, base as int) > limit as int);
            }
            return None;
        }
        assert(acc as int * base as int + (d as int) <= (limit as int)) by (nonlinear_arith)
            requires
                (acc as int) <= ((limit as int) - (d as int)) / (base as int),
                (base as int) >= 2,
                (d as int) <= (limit as int),
                (limit as int) >= 16,
                (acc as int) >= 0,
        ;
        acc = acc * base + d;
        i = i + 1;
        assert(body.take(i - start) =~= body.take(i - start - 1).push(s@[i - 1]));
    }
    assert(body.take(i - start) =~= body);
    assert(acc == spec_digits_val(body, base as int));
    assert(spec_valid_digits(body, base as int));
    let ghost v = spec_digits_val(body, base as int);
    if neg {
        assert(v <= 0x8000000000000000);
        if acc == 0x8000000000000000 {
            assert((-v) as i64 == i64::MIN);
            Some(i64::MIN)
        } else {
            assert(acc < 0x8000000000000000);
            assert((-v) as i64 == -(acc as i64));
            Some(-(acc as i64))
        }
    } else {
        assert(v <= 0x7fffffffffffffff);
        assert(v as i64 == acc as i64);
        Some(acc as i64)
    }
}

/// Does it look like we are dealing with a numeric literal?
pub fn is_number(text: &str) -> (r: bool)
    ensures
        r == spec_is_number(text@),
{
    let chars = str_to_chars(text);
    if chars.len() == 0 {
        return false;
    }
    if chars.len() >= 2 && chars[0] == '0' && (chars[1] == 'x' || chars[1] == 'b') {
        return true;
    }
    let mut i: usize = 0;
    while i < chars.len()
        invariant
            i <= chars@.len(),
            chars@ == text@,
            chars@.len() > 0,
            !(chars@.len() >= 2 && chars@[0] == '0' && (chars@[1] == 'x' || chars@[1] == 'b')),
            forall|j: int| 0 <= j < i ==> spec_is_number_char(#[trigger] chars@[j]),
        decreases chars@.len() - i,
    {
        let c = chars[i];
        let ok = ('0' <= c && c <= '9') || ('a' <= c && c <= 'f') || ('A' <= c && c <= 'F') || c
            == '.' || c == '-' || c == 'e' || c == 'E' || c == '_';
        if !ok {
            return false;
        }
        i = i + 1;
    }
    true
}

/// Remove the grouping underscores from a run of characters.
fn strip_underscores(s: &Vec<char>, from: usize) -> (r: Vec<char>)
    requires
        from <= s@.len(),
    ensures
        r@ == spec_strip_underscores(s@.skip(from as int)),
{
    let mut out: Vec<char> = Vec::new();
    let mut i: usize = from;
    proof {
        reveal(Seq::filter);
    }
    while i < s.len()
        invariant
            from <= i <= s@.len(),
            out@ == s@.subrange(from as int, i as int).filter(|c: char| c != '_'),
        decreases s@.len() - i,
    {
        let c = s[i];
        proof {
            reveal(Seq::filter);
            assert(s@.subrange(from as int, i + 1).drop_last() =~= s@.subrange(
                from as int,
                i as int,
            ));
            assert(s@.subrange(from as int, i + 1).last() == s@[i as int]);
        }
        if c != '_' {
            out.push(c);
        }
        i = i + 1;
    }
    proof {
        assert(s@.subrange(from as int, i as int) =~= s@.skip(from as int));
    }
    out
}

/// Attempt to read an atom as a numeric literal: hexadecimal after `0x`,
/// binary after `0b`, decimal otherwise, with grouping underscores ignored.
pub fn to_numeric(text: &str) -> (r: Option<i64>)
    ensures
        r == spec_to_numeric(text@),
{
    let chars = str_to_chars(text);
    if chars.len() >= 2 && chars[0] == '0' && chars[1] == 'x' {
        let body = strip_underscores(&chars, 2);
        parse_int_chars(&body, 16)
    } else if chars.len() >= 2 && chars[0] == '0' && chars[1] == 'b' {
        let body = strip_underscores(&chars, 2);
        parse_int_chars(&body, 2)
    } else {
        let mut has_dot = false;
        let mut i: usize = 0;
        while i < chars.len()
            invariant
                i <= chars@.len(),
                chars@ == text@,
                has_dot == exists|j: int| 0 <= j < i && chars@[j] == '.',
            decreases chars@.len() - i,
        {
            if chars[i] == '.' {
                has_dot = true;
            }
            i = i + 1;
        }
        if has_dot {
            assert(text@.contains('.'));
            None
        } else {
            assert(!text@.contains('.'));
            let body = strip_underscores(&chars, 0);
            proof {
                assert(chars@.skip(0) =~= chars@);
            }
            parse_int_chars(&body, 10)
        }
    }
}

/// Process an escape sequence in a string literal: a newline, carriage
/// return or tab escape, a decimal character code introduced by `\\0`, or any
/// other character passed through unchanged.
pub fn process_literal(location: &SourceLocation, buffer: &mut SourceBuffer) -> (r: ScriptResult<
    char,
>)
    requires
        old(buffer).wf(),
        old(buffer).spec_peek() == Some('\\'),
    ensures
        final(buffer).wf(),
        final(buffer).chars == old(buffer).chars,
        old(buffer).pos < final(buffer).pos,
{
    let _ = buffer.next_char();
    match buffer.peek_next() {
        Some(_) => process_escape_tail(location, buffer),
        None => ScriptError::new_as_result(
            Some(location.clone()),
            String::from_str("Unexpected end of file in string literal."),
            None,
        ),
    }
}

/// Process the remainder of an escape sequence whose backslash has already
/// been consumed: a newline, carriage return or tab escape, a decimal
/// character code introduced by a zero, or any other character passed through
/// unchanged.
fn process_escape_tail(location: &SourceLocation, buffer: &mut SourceBuffer) -> (r: ScriptResult<
    char,
>)
    requires
        old(buffer).wf(),
        old(buffer).spec_peek() is Some,
    ensures
        final(buffer).wf(),
        final(buffer).chars == old(buffer).chars,
        old(buffer).pos < final(buffer).pos,
{
    match buffer.next_char() {
        Some('n') => Ok('\n'),
        Some('r') => Ok('\r'),
        Some('t') => Ok('\t'),
        Some('0') => {
            let mut acc: u32 = 0;
            let mut any = false;
            let mut over = false;
            loop
                invariant
                    buffer.wf(),
                    buffer.chars == old(buffer).chars,
                    old(buffer).pos < buffer.pos,
                    acc <= 255,
                ensures
                    buffer.wf(),
                    buffer.chars == old(buffer).chars,
                    old(buffer).pos < buffer.pos,
                    acc <= 255,
                decreases buffer.chars@.len() - buffer.pos,
            {
                match buffer.peek_next() {
                    Some(c) => {
                        if '0' <= c && c <= '9' {
                            let _ = buffer.next_char();
                            any = true;
                            let d = c as u32 - '0' as u32;
                            if acc * 10 + d <= 255 {
                                acc = acc * 10 + d;
                            } else {
                                over = true;
                            }
                        } else {
                            break;
                        }
                    },
                    None => {
                        break;
                    },
                }
            }
            if !any || over {
                ScriptError::new_as_result(
                    Some(location.clone()),
                    String::from_str("Failed to parse numeric literal for character escape."),
                    None,
                )
            } else {
                Ok((acc as u8) as char)
            }
        },
        Some(next) => Ok(next),
        None => ScriptError::new_as_result(
            Some(location.clone()),
            String::from_str("Unexpected end of file in string literal."),
            None,
        ),
    }
}

/// Skip whitespace at the start of a line of a multi-line string literal, but
/// only up to the literal's indent baseline column.  Hitting the end of the
/// source inside the literal is an error.
fn skip_whitespace_until_column(
    location: &SourceLocation,
    buffer: &mut SourceBuffer,
    target_column: usize,
) -> (r: ScriptResult<()>)
    requires
        old(buffer).wf(),
    ensures
        final(buffer).wf(),
        final(buffer).chars == old(buffer).chars,
        old(buffer).pos <= final(buffer).pos,
        old(buffer).location.line <= final(buffer).location.line,
{
    loop
        invariant
            buffer.wf(),
            buffer.chars == old(buffer).chars,
            old(buffer).pos <= buffer.pos,
            old(buffer).location.line <= buffer.location.line,
        ensures
            buffer.wf(),
            buffer.chars == old(buffer).chars,
            old(buffer).pos <= buffer.pos,
            old(buffer).location.line <= buffer.location.line,
        decreases buffer.chars@.len() - buffer.pos,
    {
        match buffer.peek_next() {
            Some(next) => {
                if is_whitespace(&next) && buffer.location().column() < target_column {
                    let _ = buffer.next_char();
                } else {
                    break;
                }
            },
            None => {
                break;
            },
        }
    }
    if buffer.peek_next().is_none() {
        return ScriptError::new_as_result(
            Some(location.clone()),
            String::from_str("Unexpected end of file in string literal."),
            None,
        );
    }
    Ok(())
}

/// Process a multi-line string literal.  The column of the first character
/// after the opening marker sets the indent baseline: at every new line,
/// whitespace is consumed only up to that column, and skipped blank lines are
/// kept as literal newlines.  The literal ends at the closing star and quote
/// pair; the end of the source inside the literal is an error.
pub fn process_multi_line_string(location: &SourceLocation, buffer: &mut SourceBuffer) -> (r:
    ScriptResult<String>)
    requires
        old(buffer).wf(),
        old(buffer).spec_peek() == Some('*'),
    ensures
        final(buffer).wf(),
        final(buffer).chars == old(buffer).chars,
        old(buffer).pos < final(buffer).pos,
{
    let _ = buffer.next_char();
    skip_whitespace(buffer);
    let target_column = buffer.location().column();
    let mut text: Vec<char> = Vec::new();
    loop
        invariant
            buffer.wf(),
            buffer.chars == old(buffer).chars,
            old(buffer).pos < buffer.pos,
        decreases buffer.chars@.len() - buffer.pos,
    {
        match buffer.next_char() {
            Some(next) => {
                if next == '*' {
                    match buffer.peek_next() {
                        Some(quote) => {
                            if quote == '"' {
                                let _ = buffer.next_char();
                                return Ok(chars_to_string(&text));
                            } else {
                                text.push('*');
                            }
                        },
                        None => {
                            return ScriptError::new_as_result(
                                Some(location.clone()),
                                String::from_str("Unexpected end of file in string literal."),
                                None,
                            );
                        },
                    }
                } else if next == '\\' {
                    match buffer.peek_next() {
                        Some(_) => {
                            match process_escape_tail(location, buffer) {
                                Ok(c) => {
                                    text.push(c);
                                },
                                Err(e) => {
                                    return Err(e);
                                },
                            }
                        },
                        None => {
                            return ScriptError::new_as_result(
                                Some(location.clone()),
                                String::from_str("Unexpected end of file in string literal."),
                                None,
                            );
                        },
                    }
                } else if next == '\n' {
                    text.push('\n');
                    let start_line = buffer.location().line();
                    match skip_whitespace_until_column(location, buffer, target_column) {
                        Ok(_) => {},
                        Err(e) => {
                            return Err(e);
                        },
                    }
                    let current_line = buffer.location().line();
                    if current_line > start_line {
                        let mut count = current_line - start_line;
                        while count > 0
                            decreases count,
                        {
                            text.push('\n');
                            count = count - 1;
                        }
                    }
                } else {
                    text.push(next);
                }
            },
            None => {
                return ScriptError::new_as_result(
                    Some(location.clone()),
                    String::from_str("Unexpected end of file in string literal."),
                    None,
                );
            },
        }
    }
}

/// Process a string literal: a single line literal closed by the next quote,
/// or, where the quote is followed by a star, a multi-line literal.  Returns
/// the literal's text and the location where it starts.
pub fn process_string(buffer: &mut SourceBuffer) -> (r: ScriptResult<(SourceLocation, String)>)
    requires
        old(buffer).wf(),
        old(buffer).spec_peek() == Some('"'),
    ensures
        final(buffer).wf(),
        final(buffer).chars == old(buffer).chars,
        old(buffer).pos < final(buffer).pos,
{
    let _ = buffer.next_char();
    let location = buffer.location().clone();
    let starts_multi_line = match buffer.peek_next() {
        Some('*') => true,
        _ => false,
    };
    if starts_multi_line {
        match process_multi_line_string(&location, buffer) {
            Ok(text) => Ok((location, text)),
            Err(e) => Err(e),
        }
    } else {
        let mut text: Vec<char> = Vec::new();
        loop
            invariant
                buffer.wf(),
                buffer.chars == old(buffer).chars,
                old(buffer).pos < buffer.pos,
            decreases buffer.chars@.len() - buffer.pos,
        {
            match buffer.peek_next() {
                Some(next) => {
                    if next == '"' {
                        let _ = buffer.next_char();
                        return Ok((location, chars_to_string(&text)));
                    } else if next == '\n' {
                        return ScriptError::new_as_result(
                            Some(location.clone()),
                            String::from_str("Unexpected new line in string literal."),
                            None,
                        );
                    } else if next == '\\' {
                        match process_literal(&location, buffer) {
                            Ok(c) => {
                                text.push(c);
                            },
                            Err(e) => {
                                return Err(e);
                            },
                        }
                    } else {
                        let _ = buffer.next_char();
                        text.push(next);
                    }
                },
                None => {
                    return ScriptError::new_as_result(
                        Some(location.clone()),
                        String::from_str("Unexpected end of file in string literal."),
                        None,
                    );
                },
            }
        }
    }
}

/// A token stripped of its location: what a token means to the compiler.
pub ghost enum SpecToken {
    /// An integer literal and its value.
    Number(i64),

    /// A word or an atom that failed to parse as a number.
    Word(Seq<char>),
}

/// The token an atom of source text stands for: a number where the atom looks
/// numeric and parses, and a word otherwise.
pub open spec fn spec_token_of(t: Seq<char>) -> SpecToken {
    if spec_is_number(t) {
        match spec_to_numeric(t) {
            Some(n) => SpecToken::Number(n),
            None => SpecToken::Word(t),
        }
    } else {
        SpecToken::Word(t)
    }
}

/// Whether an executable token carries the given meaning.
pub open spec fn spec_token_matches(tok: Token, st: SpecToken) -> bool {
    match st {
        SpecToken::Number(n) => tok matches Token::Number(_, v) && v == n,
        SpecToken::Word(w) => tok matches Token::Word(_, t) && t@ == w,
    }
}

/// The atoms of a stretch of source text that holds no string literal:
/// maximal runs of non-whitespace characters, in order.
pub open spec fn spec_source_atoms(s: Seq<char>) -> Seq<Seq<char>>
    decreases s.len(),
    via spec_source_atoms_decreases
{
    if s.len() == 0 {
        Seq::empty()
    } else if spec_is_whitespace(s[0]) {
        spec_source_atoms(s.skip(spec_ws_len(s)))
    } else {
        seq![s.take(spec_atom_len(s))] + spec_source_atoms(s.skip(spec_atom_len(s)))
    }
}

#[via_fn]
proof fn spec_source_atoms_decreases(s: Seq<char>) {
    lemma_run_len_bounds(s);
    if s.len() > 0 {
        lemma_run_len_bounds(s.skip(1));
    }
}

/// No character of the stretch opens a string literal.
pub open spec fn spec_no_quote(s: Seq<char>) -> bool {
    forall|i: int| 0 <= i < s.len() ==> #[trigger] s[i] != '"'
}

/// Skipping leading whitespace keeps the atoms.
proof fn lemma_atoms_skip_ws(s: Seq<char>, p: int)
    requires
        0 <= p < s.len(),
        spec_is_whitespace(s[p]),
    ensures
        spec_source_atoms(s.skip(p)) == spec_source_atoms(
            s.skip(p + spec_ws_len(s.skip(p))),
        ),
{
    let rest = s.skip(p);
    lemma_run_len_bounds(rest);
    assert(rest[0] == s[p]);
    assert(rest.skip(spec_ws_len(rest)) =~= s.skip(p + spec_ws_len(rest)));
}

/// At a non-whitespace character the next atom is the leading run, and the
/// remaining atoms follow it.
proof fn lemma_atoms_step(s: Seq<char>, p: int)
    requires
        0 <= p < s.len(),
        !spec_is_whitespace(s[p]),
    ensures
        spec_source_atoms(s.skip(p)) == seq![
            s.subrange(p, p + spec_atom_len(s.skip(p))),
        ] + spec_source_atoms(s.skip(p + spec_atom_len(s.skip(p)))),
{
    let rest = s.skip(p);
    lemma_run_len_bounds(rest);
    assert(rest[0] == s[p]);
    let n = spec_atom_len(rest);
    assert(rest.take(n) =~= s.subrange(p, p + n));
    assert(rest.skip(n) =~= s.skip(p + n));
}

/// Tokenize source code into its token list, in source order.  Atoms are
/// separated by whitespace; a quote opens a string literal; an atom that looks
/// numeric and parses becomes a number token, every other atom a word token.
/// For source text holding no string literal, the tokens are exactly the
/// meanings of the source's whitespace-separated atoms.
pub fn tokenize_from_source(path: &str, source: &str) -> (r: ScriptResult<TokenList>)
    ensures
        spec_no_quote(source@) ==> (r matches Ok(tokens) && tokens@.len() == spec_source_atoms(
            source@,
        ).len() && (forall|j: int|
            0 <= j < tokens@.len() ==> spec_token_matches(
                #[trigger] tokens@[j],
                spec_token_of(spec_source_atoms(source@)[j]),
            ))),
{
    let mut buffer = SourceBuffer::new(path, source);
    let mut token_list: TokenList = Vec::new();
    let ghost whole = source@;
    proof {
        assert(whole.skip(0int) =~= whole);
    }
    loop
        invariant
            buffer.wf(),
            buffer.chars@ == whole,
            whole == source@,
            spec_no_quote(whole) ==> spec_source_atoms(whole).len() == token_list@.len()
                + spec_source_atoms(whole.skip(buffer.pos as int)).len() && (forall|j: int|
                0 <= j < token_list@.len() ==> spec_token_matches(
                    #[trigger] token_list@[j],
                    spec_token_of(spec_source_atoms(whole)[j]),
                )) && (forall|j: int|
                token_list@.len() <= j < spec_source_atoms(whole).len()
                    ==> #[trigger] spec_source_atoms(whole)[j] == spec_source_atoms(
                    whole.skip(buffer.pos as int),
                )[j - token_list@.len()]),
        ensures
            buffer.wf(),
            spec_no_quote(whole) ==> buffer.pos == whole.len() && spec_source_atoms(whole).len()
                == token_list@.len() && (forall|j: int|
                0 <= j < token_list@.len() ==> spec_token_matches(
                    #[trigger] token_list@[j],
                    spec_token_of(spec_source_atoms(whole)[j]),
                )),
        decreases buffer.chars@.len() - buffer.pos,
    {
        let next = match buffer.peek_next() {
            Some(c) => c,
            None => {
                proof {
                    if spec_no_quote(whole) {
                        assert(whole.skip(buffer.pos as int) =~= Seq::<char>::empty());
                    }
                }
                break;
            },
        };
        if is_whitespace(&next) {
            let ghost p = buffer.pos as int;
            skip_whitespace(&mut buffer);
            proof {
                lemma_run_len_step(whole, p);
                lemma_run_len_bounds(whole.skip(p + 1));
                if spec_no_quote(whole) {
                    lemma_atoms_skip_ws(whole, p);
                }
            }
            continue;
        }
        if next == '"' {
            match process_string(&mut buffer) {
                Ok((location, text)) => {
                    token_list.push(Token::String(location, text));
                },
                Err(e) => {
                    return Err(e);
                },
            }
            continue;
        }
        let ghost p = buffer.pos as int;
        let (location, text) = process_until_whitespace(&mut buffer);
        proof {
            lemma_run_len_bounds(whole.skip(p));
            lemma_run_len_step(whole, p);
            lemma_run_len_bounds(whole.skip(p + 1));
            if spec_no_quote(whole) {
                lemma_atoms_step(whole, p);
            }
        }
        let next_token = if is_number(text.as_str()) {
            match to_numeric(text.as_str()) {
                Some(number) => Token::Number(location, number),
                None => Token::Word(location, text),
            }
        } else {
            Token::Word(location, text)
        };
        token_list.push(next_token);
    }
    Ok(token_list)
}

} // verus!
