//! Bytes and text: searching and comparing byte strings, cutting a header
//! line into fields, decimal numbers, and how ASCII bytes sit inside UTF-8
//! encoded text.

use vstd::prelude::*;
use vstd::slice::slice_subrange;
use vstd::utf8::*;

verus! {

#[verifier::external_type_specification]
#[verifier::external_body]
pub struct ExUtf8Error(core::str::Utf8Error);

/// `core::str::from_utf8` accepts exactly the byte strings that are valid
/// UTF-8, and the text it returns is encoded by the very bytes it was given.
pub assume_specification<'a>[ core::str::from_utf8 ](v: &'a [u8]) -> (r: Result<
    &'a str,
    core::str::Utf8Error,
>)
    ensures
        r is Ok <==> valid_utf8(v@),
        r matches Ok(s) ==> encode_utf8(s@) == v@,
;

/// The text of a string that may be missing.
pub open spec fn opt_text(s: Option<String>) -> Option<Seq<char>> {
    match s {
        Some(s) => Some(s@),
        None => None,
    }
}

/// The space and the tab, which separate the fields of a header line.
pub open spec fn is_separator(b: u8) -> bool {
    b == 0x20 || b == 0x09
}

/// The fields of a header line: its maximal runs of bytes that are neither
/// a space nor a tab, in order.
pub open spec fn fields(line: Seq<u8>) -> Seq<Seq<u8>>
    decreases line.len(),
{
    if line.len() == 0 {
        Seq::empty()
    } else {
        let init = line.drop_last();
        let before = fields(init);
        if is_separator(line.last()) {
            before
        } else if init.len() > 0 && !is_separator(init.last()) {
            before.drop_last().push(before.last().push(line.last()))
        } else {
            before.push(seq![line.last()])
        }
    }
}

/// The pieces that a list of index ranges cuts out of a line.
pub open spec fn cut(line: Seq<u8>, ranges: Seq<(usize, usize)>) -> Seq<Seq<u8>> {
    Seq::new(ranges.len(), |k: int| line.subrange(ranges[k].0 as int, ranges[k].1 as int))
}

/// Whether every range lies inside a line of the given length.
pub open spec fn ranges_within(ranges: Seq<(usize, usize)>, len: nat) -> bool {
    forall|k: int|
        #![trigger ranges[k]]
        0 <= k < ranges.len() ==> ranges[k].0 <= ranges[k].1 <= len
}

/// A digit `0` to `9` in ASCII.
pub open spec fn is_digit(b: u8) -> bool {
    0x30 <= b <= 0x39
}

/// Whether every byte is an ASCII digit.
pub open spec fn all_digits(d: Seq<u8>) -> bool {
    forall|i: int| 0 <= i < d.len() ==> is_digit(#[trigger] d[i])
}

/// The number that a string of ASCII digits writes in base ten.
pub open spec fn digits_value(d: Seq<u8>) -> nat
    decreases d.len(),
{
    if d.len() == 0 {
        0
    } else {
        digits_value(d.drop_last()) * 10 + (d.last() - 0x30) as nat
    }
}

/// Why a field is not a number that fits.
#[derive(Debug, Clone, Copy, PartialEq, Eq, Structural)]
pub enum IntParseFault {
    /// The field is empty.
    Empty,
    /// The field holds a byte that is no digit, or only a sign.
    InvalidDigit,
    /// The number is larger than the integer type can hold.
    Overflow,
}

/// The digits of a field, behind the `+` it may start with.
pub open spec fn unsigned_part(text: Seq<u8>) -> Seq<u8> {
    if text.len() > 0 && text[0] == 0x2b {
        text.drop_first()
    } else {
        text
    }
}

/// Reads a field as a decimal number of at most `max`: an optional `+`, then
/// one digit or more. A bad digit is reported before an overflow.
pub open spec fn parse_decimal(text: Seq<u8>, max: nat) -> Result<nat, IntParseFault> {
    let d = unsigned_part(text);
    if text.len() == 0 {
        Err(IntParseFault::Empty)
    } else if d.len() == 0 || !all_digits(d) {
        Err(IntParseFault::InvalidDigit)
    } else if digits_value(d) > max {
        Err(IntParseFault::Overflow)
    } else {
        Ok(digits_value(d))
    }
}

/// A number in base ten, without sign or leading zeros.
pub open spec fn decimal(n: nat) -> Seq<u8>
    decreases n,
{
    if n < 10 {
        seq![(0x30 + n) as u8]
    } else {
        decimal(n / 10).push((0x30 + n % 10) as u8)
    }
}

/// Whether two byte strings are equal.
pub fn bytes_eq(a: &[u8], b: &[u8]) -> (r: bool)
    ensures
        r == (a@ == b@),
{
    if a.len() != b.len() {
        return false;
    }
    let mut i: usize = 0;
    while i < a.len()
        invariant
            a.len() == b.len(),
            i <= a.len(),
            forall|j: int| 0 <= j < i ==> a@[j] == b@[j],
        decreases a.len() - i,
    {
        if a[i] != b[i] {
            return false;
        }
        i += 1;
    }
    assert(a@ =~= b@);
    true
}

/// A second copy of a string that may be missing.
pub fn copy_text(s: &Option<String>) -> (r: Option<String>)
    ensures
        opt_text(r) == opt_text(*s),
{
    match s {
        Some(s) => Some(s.clone()),
        None => None,
    }
}

/// Whether two texts are equal.
pub fn text_eq(a: &str, b: &str) -> (r: bool)
    ensures
        r == (a@ == b@),
{
    proof {
        encode_utf8_decode_utf8(a@);
        encode_utf8_decode_utf8(b@);
    }
    bytes_eq(a.as_bytes(), b.as_bytes())
}

/// Appends a byte string to a vector.
pub fn append(out: &mut Vec<u8>, s: &[u8])
    ensures
        final(out)@ == old(out)@ + s@,
{
    out.reserve(s.len());
    let mut i: usize = 0;
    while i < s.len()
        invariant
            i <= s.len(),
            out@ == old(out)@ + s@.take(i as int),
        decreases s.len() - i,
    {
        out.push(s[i]);
        i += 1;
        assert(out@ =~= old(out)@ + s@.take(i as int));
    }
    assert(s@.take(s.len() as int) =~= s@);
}

/// Appends one byte.
pub fn push_byte(out: &mut Vec<u8>, b: u8)
    ensures
        final(out)@ == old(out)@ + seq![b],
{
    out.push(b);
    assert(out@ =~= old(out)@ + seq![b]);
}

/// The position of the first byte at or after `from` that equals `b`.
pub fn find_byte(bytes: &[u8], from: usize, b: u8) -> (r: Option<usize>)
    requires
        from <= bytes.len(),
    ensures
        match r {
            Some(i) => from <= i < bytes.len() && bytes@[i as int] == b && forall|j: int|
                from <= j < i ==> bytes@[j] != b,
            None => forall|j: int| from <= j < bytes.len() ==> bytes@[j] != b,
        },
{
    let mut i: usize = from;
    while i < bytes.len()
        invariant
            from <= i <= bytes.len(),
            forall|j: int| from <= j < i ==> bytes@[j] != b,
        decreases bytes.len() - i,
    {
        if bytes[i] == b {
            return Some(i);
        }
        i += 1;
    }
    None
}

/// Cuts a header line into its fields, each given by where it starts and
/// where it ends in the line.
pub fn split_fields(line: &[u8]) -> (r: Vec<(usize, usize)>)
    ensures
        ranges_within(r@, line@.len()),
        cut(line@, r@) == fields(line@),
{
    let mut out: Vec<(usize, usize)> = Vec::with_capacity(4);
    let mut in_field = false;
    let mut start: usize = 0;
    let mut i: usize = 0;
    assert(line@.take(0) =~= Seq::<u8>::empty());
    assert(cut(line@, out@) =~= fields(line@.take(0)));
    while i < line.len()
        invariant
            i <= line.len(),
            ranges_within(out@, i as nat),
            in_field ==> start < i && !is_separator(line@[i - 1]),
            in_field ==> fields(line@.take(i as int)).len() > 0,
            in_field ==> cut(line@, out@) == fields(line@.take(i as int)).drop_last(),
            in_field ==> fields(line@.take(i as int)).last() == line@.subrange(
                start as int,
                i as int,
            ),
            !in_field ==> (i > 0 ==> is_separator(line@[i - 1])) && cut(line@, out@) == fields(
                line@.take(i as int),
            ),
        decreases line.len() - i,
    {
        let b = line[i];
        let ghost before = fields(line@.take(i as int));
        let ghost now = line@.take(i + 1);
        assert(now.drop_last() =~= line@.take(i as int));
        assert(now.last() == b);
        if b == 0x20 || b == 0x09 {
            if in_field {
                let ghost pieces = cut(line@, out@);
                out.push((start, i));
                assert(cut(line@, out@) =~= pieces.push(line@.subrange(start as int, i as int)));
                assert(before =~= before.drop_last().push(before.last()));
                in_field = false;
            }
        } else {
            if in_field {
                assert(line@.subrange(start as int, i as int).push(b) =~= line@.subrange(
                    start as int,
                    i + 1,
                ));
                assert(fields(now).drop_last() =~= before.drop_last());
            } else {
                start = i;
                in_field = true;
                assert(seq![b] =~= line@.subrange(i as int, i + 1));
                assert(fields(now).drop_last() =~= before);
            }
        }
        i += 1;
    }
    assert(line@.take(i as int) =~= line@);
    if in_field {
        let ghost pieces = cut(line@, out@);
        let ghost all = fields(line@);
        out.push((start, i));
        assert(cut(line@, out@) =~= pieces.push(line@.subrange(start as int, i as int)));
        assert(all =~= all.drop_last().push(all.last()));
    }
    out
}

/// Reads a field as a decimal number of at most `max`.
pub fn parse_decimal_field(text: &[u8], max: u64) -> (r: Result<u64, IntParseFault>)
    ensures
        match r {
            Ok(n) => parse_decimal(text@, max as nat) == Ok::<nat, IntParseFault>(n as nat),
            Err(e) => parse_decimal(text@, max as nat) == Err::<nat, IntParseFault>(e),
        },
{
    if text.len() == 0 {
        return Err(IntParseFault::Empty);
    }
    let first: usize = if text[0] == 0x2b { 1 } else { 0 };
    let digits = slice_subrange(text, first, text.len());
    assert(digits@ =~= unsigned_part(text@));
    if digits.len() == 0 {
        return Err(IntParseFault::InvalidDigit);
    }
    let mut i: usize = 0;
    while i < digits.len()
        invariant
            i <= digits.len(),
            text@.len() > 0,
            digits@.len() > 0,
            digits@ == unsigned_part(text@),
            forall|j: int| 0 <= j < i ==> is_digit(#[trigger] digits@[j]),
        decreases digits.len() - i,
    {
        if digits[i] < 0x30 || digits[i] > 0x39 {
            assert(!is_digit(digits@[i as int]));
            return Err(IntParseFault::InvalidDigit);
        }
        i += 1;
    }
    let mut acc: u64 = 0;
    let mut k: usize = 0;
    assert(digits@.take(0) =~= Seq::<u8>::empty());
    while k < digits.len()
        invariant
            k <= digits.len(),
            text@.len() > 0,
            digits@.len() > 0,
            digits@ == unsigned_part(text@),
            all_digits(digits@),
            acc <= max,
            acc as nat == digits_value(digits@.take(k as int)),
        decreases digits.len() - k,
    {
        let d = (digits[k] - 0x30) as u128;
        let next: u128 = (acc as u128) * 10 + d;
        proof {
            assert(digits@.take(k + 1).drop_last() =~= digits@.take(k as int));
            assert(next as nat == digits_value(digits@.take(k + 1)));
            lemma_digits_value_prefix(digits@, k + 1);
        }
        if next > max as u128 {
            return Err(IntParseFault::Overflow);
        }
        acc = next as u64;
        k += 1;
    }
    assert(digits@.take(k as int) =~= digits@);
    Ok(acc)
}

/// Appends a number in base ten.
pub fn push_decimal(out: &mut Vec<u8>, n: u64)
    ensures
        final(out)@ == old(out)@ + decimal(n as nat),
{
    let mut low: Vec<u8> = Vec::new();
    let mut m: u64 = n;
    while m >= 10
        invariant
            decimal(n as nat) == decimal(m as nat) + Seq::new(
                low@.len(),
                |i: int| low@[low@.len() - 1 - i],
            ),
        decreases m,
    {
        let ghost high = decimal((m / 10) as nat);
        let ghost tail = Seq::new(low@.len(), |i: int| low@[low@.len() - 1 - i]);
        let d: u8 = 0x30 + (m % 10) as u8;
        low.push(d);
        assert(Seq::new(low@.len(), |i: int| low@[low@.len() - 1 - i]) =~= seq![d] + tail);
        assert(high.push(d) + tail =~= high + (seq![d] + tail));
        m = m / 10;
    }
    out.push(0x30 + m as u8);
    let mut k: usize = low.len();
    let ghost tail = Seq::new(low@.len(), |i: int| low@[low@.len() - 1 - i]);
    while k > 0
        invariant
            k <= low.len(),
            tail == Seq::new(low@.len(), |i: int| low@[low@.len() - 1 - i]),
            out@ == old(out)@ + decimal(m as nat) + tail.take(low.len() - k),
        decreases k,
    {
        k -= 1;
        out.push(low[k]);
        assert(tail.take(low.len() - k) =~= tail.take(low.len() - k - 1).push(low@[k as int]));
    }
    assert(tail.take(low.len() as int) =~= tail);
    assert(old(out)@ + decimal(m as nat) + tail =~= old(out)@ + (decimal(m as nat) + tail));
}

/// A longer string of digits writes at least the number that any of its
/// prefixes writes.
pub proof fn lemma_digits_value_prefix(d: Seq<u8>, k: int)
    requires
        0 <= k <= d.len(),
    ensures
        digits_value(d.take(k)) <= digits_value(d),
    decreases d.len() - k,
{
    if k == d.len() {
        assert(d.take(k) =~= d);
    } else {
        lemma_digits_value_prefix(d, k + 1);
        assert(d.take(k + 1).drop_last() =~= d.take(k));
    }
}

/// What `decimal` writes reads back as the same number.
pub proof fn lemma_decimal_round_trip(n: nat)
    ensures
        decimal(n).len() > 0,
        all_digits(decimal(n)),
        digits_value(decimal(n)) == n,
    decreases n,
{
    if n < 10 {
        assert(decimal(n).drop_last() =~= Seq::<u8>::empty());
        assert(digits_value(Seq::<u8>::empty()) == 0);
        assert(decimal(n).last() == (0x30 + n) as u8);
    } else {
        lemma_decimal_round_trip(n / 10);
        assert(decimal(n).drop_last() =~= decimal(n / 10));
        assert(decimal(n).last() == (0x30 + n % 10) as u8);
        assert forall|i: int| 0 <= i < decimal(n).len() implies is_digit(
            #[trigger] decimal(n)[i],
        ) by {
            if i < decimal(n / 10).len() {
                assert(decimal(n)[i] == decimal(n / 10)[i]);
            }
        }
    }
}

/// A field that is followed by a separator ends there: what comes before the
/// separator has the same fields as both together.
pub proof fn lemma_fields_push_separator(line: Seq<u8>, sep: u8)
    requires
        is_separator(sep),
    ensures
        fields(line.push(sep)) == fields(line),
{
    assert(line.push(sep).drop_last() =~= line);
}

/// A run of bytes without separators, written where a field may start, is
/// one more field.
pub proof fn lemma_fields_append_token(line: Seq<u8>, token: Seq<u8>)
    requires
        line.len() == 0 || is_separator(line.last()),
        token.len() > 0,
        forall|i: int| 0 <= i < token.len() ==> !is_separator(#[trigger] token[i]),
    ensures
        fields(line + token) == fields(line).push(token),
    decreases token.len(),
{
    let whole = line + token;
    assert(whole.drop_last() =~= line + token.drop_last());
    assert(whole.last() == token.last());
    if token.len() == 1 {
        assert(line + token.drop_last() =~= line);
        assert(seq![token.last()] =~= token);
    } else {
        lemma_fields_append_token(line, token.drop_last());
        let before = fields(line + token.drop_last());
        assert((line + token.drop_last()).last() == token.drop_last().last());
        assert(before.drop_last() =~= fields(line));
        assert(before.last().push(token.last()) =~= token);
    }
}

/// Whether `b` occurs in `bytes`.
pub fn contains_byte(bytes: &[u8], b: u8) -> (r: bool)
    ensures
        r == bytes@.contains(b),
{
    let mut i: usize = 0;
    while i < bytes.len()
        invariant
            i <= bytes.len(),
            forall|j: int| 0 <= j < i ==> bytes@[j] != b,
        decreases bytes.len() - i,
    {
        if bytes[i] == b {
            return true;
        }
        i += 1;
    }
    false
}

proof fn lemma_scalar_bytes(c: u32, b: u8)
    by (bit_vector)
    requires
        b < 0x80,
        c <= 0x10FFFF,
    ensures
        c <= 0x7F ==> ((c & 0x7F) as u8 == b <==> c == b as u32),
        (0xC0 | ((c >> 6) & 0x1F) as u8) != b,
        (0xE0 | ((c >> 12) & 0x0F) as u8) != b,
        (0xF0 | ((c >> 18) & 0x7) as u8) != b,
        (0x80 | (c & 0x3F) as u8) != b,
        (0x80 | ((c >> 6) & 0x3F) as u8) != b,
        (0x80 | ((c >> 12) & 0x3F) as u8) != b,
{
}

/// An ASCII byte occurs in the UTF-8 encoding of a character exactly when
/// the character is that ASCII character.
pub proof fn lemma_ascii_byte_in_scalar(c: char, b: u8)
    requires
        b < 0x80,
    ensures
        encode_scalar(c as u32).contains(b) <==> c as u32 == b as u32,
{
    let s = c as u32;
    char_is_scalar(c);
    lemma_scalar_bytes(s, b);
    let e = encode_scalar(s);
    if has_width_1_encoding(s) {
        assert(e =~= seq![leading_byte_width_1(s)]);
        if s == b as u32 {
            assert(e[0] == b);
        }
    } else {
        if e.contains(b) {
            let i = choose|i: int| 0 <= i < e.len() && e[i] == b;
            assert(e[i] == b);
            assert(false);
        }
    }
}

/// An ASCII byte occurs in the UTF-8 encoding of a text exactly when the
/// text holds that ASCII character.
pub proof fn lemma_ascii_byte_occurs(chars: Seq<char>, b: u8)
    requires
        b < 0x80,
    ensures
        encode_utf8(chars).contains(b) <==> chars.contains(b as char),
    decreases chars.len(),
{
    if chars.len() == 0 {
    } else {
        let head = encode_scalar(chars[0] as u32);
        let tail = encode_utf8(chars.drop_first());
        lemma_ascii_byte_in_scalar(chars[0], b);
        lemma_ascii_byte_occurs(chars.drop_first(), b);
        assert(encode_utf8(chars) == head + tail);
        if (head + tail).contains(b) {
            let i = choose|i: int| 0 <= i < (head + tail).len() && (head + tail)[i] == b;
            if i < head.len() {
                assert(head[i] == b);
                char_u32_cast(chars[0], b as u32);
            } else {
                assert(tail[i - head.len()] == b);
                let rest = chars.drop_first();
                let j = choose|j: int| 0 <= j < rest.len() && rest[j] == b as char;
                assert(chars[j + 1] == b as char);
            }
        }
        if chars.contains(b as char) {
            let j = choose|j: int| 0 <= j < chars.len() && chars[j] == b as char;
            if j == 0 {
                assert((b as char) as u32 == b as u32);
                let i = choose|i: int| 0 <= i < head.len() && head[i] == b;
                assert((head + tail)[i] == b);
            } else {
                assert(chars.drop_first()[j - 1] == b as char);
                let i = choose|i: int| 0 <= i < tail.len() && tail[i] == b;
                assert((head + tail)[i + head.len()] == b);
            }
        }
    }
}

} // verus!
