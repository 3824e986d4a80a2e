//! Decoding of the hex-encoded quantities of the JSON-RPC wire format.

use vstd::prelude::*;

verus! {

/// A text that is not a hex quantity. Carries the text that was left to
/// parse once the prefix `0x`, where the text had one, had been removed.
#[derive(Debug)]
pub struct DecodeError {
    pub input: String,
}

/// Two to the power 63: the first quantity that no longer fits the signed
/// storage width.
pub open spec fn signed_limit() -> int {
    0x8000_0000_0000_0000
}

/// Two to the power 64: the first quantity that no longer fits the unsigned
/// parsing width.
pub open spec fn unsigned_limit() -> int {
    0x1_0000_0000_0000_0000
}

/// The value of one hex digit, in either case; `None` for any other
/// character.
pub open spec fn digit_value(c: char) -> Option<int> {
    if '0' <= c && c <= '9' {
        Some(c as int - '0' as int)
    } else if 'a' <= c && c <= 'f' {
        Some(c as int - 'a' as int + 10)
    } else if 'A' <= c && c <= 'F' {
        Some(c as int - 'A' as int + 10)
    } else {
        None
    }
}

/// Every character of `s` is a hex digit.
pub open spec fn all_digits(s: Seq<char>) -> bool {
    forall|i: int| 0 <= i < s.len() ==> (#[trigger] digit_value(s[i])) is Some
}

/// The number that the digits of `s` write in base 16, most significant
/// digit first. Characters that are no digits count as zero.
pub open spec fn digits_value(s: Seq<char>) -> int
    decreases s.len(),
{
    if s.len() == 0 {
        0
    } else {
        16 * digits_value(s.drop_last()) + match digit_value(s.last()) {
            Some(d) => d,
            None => 0,
        }
    }
}

/// `s` without the prefix `0x`, where it has one. The prefix is removed
/// once: a second `0x` behind it stays.
pub open spec fn strip_prefix(s: Seq<char>) -> Seq<char> {
    if s.len() >= 2 && s[0] == '0' && s[1] == 'x' {
        s.skip(2)
    } else {
        s
    }
}

/// `s` without one leading plus sign.
pub open spec fn strip_sign(s: Seq<char>) -> Seq<char> {
    if s.len() >= 1 && s[0] == '+' {
        s.skip(1)
    } else {
        s
    }
}

/// The unsigned 64-bit number that `s` writes in base 16: an optional plus
/// sign, then one or more hex digits whose value fits 64 bits.
pub open spec fn unsigned_value(s: Seq<char>) -> Option<int> {
    let digits = strip_sign(s);
    if digits.len() > 0 && all_digits(digits) && digits_value(digits) < unsigned_limit() {
        Some(digits_value(digits))
    } else {
        None
    }
}

/// An unsigned 64-bit number read as a signed one of the same bits.
pub open spec fn as_signed(v: int) -> int {
    if v < signed_limit() {
        v
    } else {
        v - unsigned_limit()
    }
}

/// What a text decodes to: the prefix is removed, the rest is read as an
/// unsigned 64-bit hex number and kept in signed 64-bit form.
pub open spec fn decode_hex(s: Seq<char>) -> Option<int> {
    match unsigned_value(strip_prefix(s)) {
        Some(v) => Some(as_signed(v)),
        None => None,
    }
}

/// The lower-case hex digit that writes `d`, for `d` from 0 to 15.
pub open spec fn digit_char(d: int) -> char {
    if d < 10 {
        ('0' as int + d) as char
    } else {
        ('a' as int + d - 10) as char
    }
}

/// The shortest lower-case hex text, without prefix, that writes `n`.
pub open spec fn to_hex(n: int) -> Seq<char>
    decreases n,
{
    if n < 16 {
        seq![digit_char(n)]
    } else {
        to_hex(n / 16).push(digit_char(n % 16))
    }
}

/// `s` behind the prefix `0x`.
pub open spec fn with_prefix(s: Seq<char>) -> Seq<char> {
    seq!['0', 'x'] + s
}

/// The characters of `s`, in order.
pub fn chars_of(s: &str) -> (v: Vec<char>)
    ensures
        v@ == s@,
{
    let mut v: Vec<char> = Vec::new();
    for c in it: s.chars()
        invariant
            v@ == it.seq().take(it.index() as int),
    {
        v.push(c);
    }
    v
}

/// The number of characters of `chars` that the prefix `0x` takes up: two
/// where `chars` begins with it, none where it does not.
fn prefix_len(chars: &Vec<char>) -> (k: usize)
    ensures
        k <= chars.len(),
        chars@.skip(k as int) == strip_prefix(chars@),
{
    if chars.len() >= 2 && chars[0] == '0' && chars[1] == 'x' {
        2
    } else {
        assert(chars@.skip(0) == chars@);
        0
    }
}

/// `s` without the prefix `0x`, where it has one; the prefix is removed
/// once.
pub fn trim_prefix(s: &str) -> (rest: &str)
    ensures
        rest@ == strip_prefix(s@),
{
    let chars = chars_of(s);
    let k = prefix_len(&chars);
    s.substring_char(k, chars.len())
}

/// The value of one hex digit, in either case.
pub fn hex_digit(c: char) -> (d: Option<u8>)
    ensures
        match d {
            Some(v) => digit_value(c) == Some(v as int) && v < 16,
            None => digit_value(c) is None,
        },
{
    if '0' <= c && c <= '9' {
        Some((c as u32 - '0' as u32) as u8)
    } else if 'a' <= c && c <= 'f' {
        Some((c as u32 - 'a' as u32 + 10) as u8)
    } else if 'A' <= c && c <= 'F' {
        Some((c as u32 - 'A' as u32 + 10) as u8)
    } else {
        None
    }
}

/// Digits never write a negative number.
pub proof fn lemma_digits_value_nonneg(s: Seq<char>)
    ensures
        0 <= digits_value(s),
    decreases s.len(),
{
    if s.len() > 0 {
        lemma_digits_value_nonneg(s.drop_last());
    }
}

/// Further digits never make the number smaller.
pub proof fn lemma_digits_value_grows(s: Seq<char>, n: int)
    requires
        0 <= n <= s.len(),
    ensures
        digits_value(s.take(n)) <= digits_value(s),
    decreases s.len(),
{
    if n == s.len() {
        assert(s.take(n) == s);
    } else {
        assert(s.drop_last().take(n) == s.take(n));
        lemma_digits_value_grows(s.drop_last(), n);
        lemma_digits_value_nonneg(s.drop_last());
    }
}

/// Reads `chars[from..]` as an unsigned 64-bit hex number.
fn parse_unsigned(chars: &Vec<char>, from: usize) -> (r: Option<u64>)
    requires
        from <= chars.len(),
    ensures
        match r {
            Some(v) => unsigned_value(chars@.skip(from as int)) == Some(v as int),
            None => unsigned_value(chars@.skip(from as int)) is None,
        },
{
    let start: usize = if from < chars.len() && chars[from] == '+' {
        from + 1
    } else {
        from
    };
    let ghost digits = chars@.skip(start as int);
    assert(digits == strip_sign(chars@.skip(from as int)));
    let mut acc: u64 = 0;
    let mut i: usize = start;
    assert(digits.take(0) == Seq::<char>::empty());
    while i < chars.len()
        invariant
            start <= i <= chars.len(),
            from <= chars.len(),
            digits == chars@.skip(start as int),
            digits == strip_sign(chars@.skip(from as int)),
            all_digits(digits.take(i - start)),
            acc == digits_value(digits.take(i - start)),
        decreases chars.len() - i,
    {
        let ghost read = digits.take(i - start + 1);
        assert(read.drop_last() == digits.take(i - start));
        assert(read.last() == chars@[i as int]);
        match hex_digit(chars[i]) {
            None => {
                assert(digit_value(digits[i - start]) is None);
                return None;
            },
            Some(d) => {
                if acc > (u64::MAX - d as u64) / 16 {
                    proof {
                        lemma_digits_value_grows(digits, i - start + 1);
                    }
                    return None;
                }
                acc = acc * 16 + d as u64;
                assert forall|j: int| 0 <= j < read.len() implies (#[trigger] digit_value(
                    read[j],
                )) is Some by {
                    if j < i - start {
                        assert(read[j] == digits.take(i - start)[j]);
                    }
                }
            },
        }
        i = i + 1;
    }
    assert(digits.take(i - start) == digits);
    if i == start {
        None
    } else {
        Some(acc)
    }
}

/// Reads an unsigned 64-bit number as the signed one of the same bits.
fn to_signed(v: u64) -> (r: i64)
    ensures
        r == as_signed(v as int),
{
    if v <= 0x7fff_ffff_ffff_ffff {
        v as i64
    } else {
        (v - 0x8000_0000_0000_0000) as i64 + i64::MIN
    }
}

/// Decodes a hex quantity. The prefix `0x`, where the text has one, is
/// removed once; what is left must be an optional plus sign and at least
/// one hex digit, with a value below two to the power 64. The value is
/// returned in signed 64-bit form, so a quantity of two to the power 63 or
/// more comes back negative. Any other text is refused, a text with a
/// second prefix among them, and the error carries what was left after the
/// prefix.
pub fn parse_hex(hex_string: &str) -> (r: Result<i64, DecodeError>)
    ensures
        match r {
            Ok(v) => decode_hex(hex_string@) == Some(v as int),
            Err(e) => decode_hex(hex_string@) is None && e.input@ == strip_prefix(hex_string@),
        },
{
    let chars = chars_of(hex_string);
    let k = prefix_len(&chars);
    match parse_unsigned(&chars, k) {
        Some(v) => Ok(to_signed(v)),
        None => {
            let rest = hex_string.substring_char(k, chars.len());
            assert(rest@ == chars@.skip(k as int));
            Err(DecodeError { input: rest.to_owned() })
        },
    }
}

/// The hex text of a number is made of digits and writes that number.
pub proof fn lemma_to_hex_digits(n: int)
    requires
        0 <= n,
    ensures
        to_hex(n).len() > 0,
        all_digits(to_hex(n)),
        digits_value(to_hex(n)) == n,
    decreases n,
{
    if n < 16 {
        let s = to_hex(n);
        assert(s.drop_last() == Seq::<char>::empty());
        assert(digit_value(s[0]) == Some(n));
        assert(digits_value(s.drop_last()) == 0);
    } else {
        lemma_to_hex_digits(n / 16);
        let head = to_hex(n / 16);
        let s = to_hex(n);
        assert(s.drop_last() == head);
        assert(digit_value(s.last()) == Some(n % 16));
        assert forall|i: int| 0 <= i < s.len() implies (#[trigger] digit_value(s[i])) is Some by {
            if i < head.len() {
                assert(s[i] == head[i]);
            }
        }
    }
}

/// A text made of digits has no prefix to remove and no sign.
pub proof fn lemma_digits_are_bare(s: Seq<char>)
    requires
        all_digits(s),
    ensures
        strip_prefix(s) == s,
        strip_sign(s) == s,
{
    if s.len() >= 2 {
        assert(digit_value(s[1]) is Some);
    }
    if s.len() >= 1 {
        assert(digit_value(s[0]) is Some);
    }
}

/// Round trip: every number from zero up to, but not including, two to the
/// power 63 is decoded from its own hex text, and the prefix `0x` in front
/// of that text changes nothing.
pub proof fn lemma_hex_round_trip(n: int)
    requires
        0 <= n < signed_limit(),
    ensures
        decode_hex(to_hex(n)) == Some(n),
        decode_hex(with_prefix(to_hex(n))) == decode_hex(to_hex(n)),
{
    lemma_to_hex_digits(n);
    lemma_digits_are_bare(to_hex(n));
    assert(with_prefix(to_hex(n)).skip(2) == to_hex(n));
}

/// What decodes lies in the signed 64-bit range, and is negative exactly
/// where the quantity that was written is two to the power 63 or more.
pub proof fn lemma_decoded_range(s: Seq<char>)
    requires
        decode_hex(s) is Some,
    ensures
        -signed_limit() <= decode_hex(s)->0 < signed_limit(),
        decode_hex(s)->0 >= 0 <==> unsigned_value(strip_prefix(s))->0 < signed_limit(),
        decode_hex(s)->0 >= 0 ==> decode_hex(s)->0 == unsigned_value(strip_prefix(s))->0,
{
    lemma_digits_value_nonneg(strip_sign(strip_prefix(s)));
}

/// The prefix is removed once only: a text with a second prefix behind the
/// first is refused, whatever follows.
pub proof fn lemma_second_prefix_refused(s: Seq<char>)
    ensures
        decode_hex(with_prefix(with_prefix(s))) is None,
{
    let once = with_prefix(s);
    assert(with_prefix(once).skip(2) == once);
    assert(strip_sign(once) == once);
    assert(digit_value(once[1]) is None);
}

} // verus!
