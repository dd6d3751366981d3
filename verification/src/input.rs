//! Reading a requested time of day from a line of text.

use vstd::prelude::*;
use crate::error::{QueryError, TimeField};

verus! {

/// Whether `c` has the Unicode property `White_Space`.
pub open spec fn is_white_space(c: char) -> bool {
    let u = c as u32;
    ||| 0x09 <= u <= 0x0D
    ||| u == 0x20
    ||| u == 0x85
    ||| u == 0xA0
    ||| u == 0x1680
    ||| 0x2000 <= u <= 0x200A
    ||| u == 0x2028
    ||| u == 0x2029
    ||| u == 0x202F
    ||| u == 0x205F
    ||| u == 0x3000
}

/// `s` without the white space at its front.
pub open spec fn trimmed_start(s: Seq<char>) -> Seq<char>
    decreases s.len(),
{
    if s.len() > 0 && is_white_space(s[0]) {
        trimmed_start(s.drop_first())
    } else {
        s
    }
}

/// `s` without the white space at its end.
pub open spec fn trimmed_end(s: Seq<char>) -> Seq<char>
    decreases s.len(),
{
    if s.len() > 0 && is_white_space(s.last()) {
        trimmed_end(s.drop_last())
    } else {
        s
    }
}

/// `s` without the white space at either end.
pub open spec fn trimmed(s: Seq<char>) -> Seq<char> {
    trimmed_end(trimmed_start(s))
}

/// How many characters of `s` stand before its first colon.
pub open spec fn field_length(s: Seq<char>) -> nat
    decreases s.len(),
{
    if s.len() == 0 || s[0] == ':' {
        0
    } else {
        1 + field_length(s.drop_first())
    }
}

/// The part of `s` before its first colon.
pub open spec fn first_field(s: Seq<char>) -> Seq<char> {
    s.take(field_length(s) as int)
}

/// The part of `s` after its first colon, where it has one.
pub open spec fn after_first_field(s: Seq<char>) -> Option<Seq<char>> {
    if field_length(s) < s.len() {
        Some(s.skip(field_length(s) as int + 1))
    } else {
        None
    }
}

/// Whether `c` is one of the digits `0` to `9`.
pub open spec fn is_digit(c: char) -> bool {
    0x30 <= c as u32 <= 0x39
}

/// Whether `s` holds digits only.
pub open spec fn is_digits(s: Seq<char>) -> bool {
    forall|i: int| 0 <= i < s.len() ==> is_digit(#[trigger] s[i])
}

/// The number that the digits of `s` write in base ten.
pub open spec fn digits_value(s: Seq<char>) -> int
    decreases s.len(),
{
    if s.len() == 0 {
        0
    } else {
        digits_value(s.drop_last()) * 10 + (s.last() as u32 - 0x30)
    }
}

/// The number that `s` writes, where `s` is one or more digits, after at
/// most one plus sign, and the number is at most 255.
pub open spec fn small_number(s: Seq<char>) -> Option<u8> {
    let digits = if s.len() > 0 && s[0] == '+' {
        s.drop_first()
    } else {
        s
    };
    if digits.len() > 0 && is_digits(digits) && digits_value(digits) <= 255 {
        Some(digits_value(digits) as u8)
    } else {
        None
    }
}

/// What a line of text asks for.
///
/// The line without the white space around it is cut at its colons. The first
/// part is the hour and the second the minute; both must be there. The third
/// is the second, 0 where the line has no second colon. Parts after the third
/// are not looked at. The parts are judged in this order, and the first
/// fault is the error.
pub open spec fn parsed_time(line: Seq<char>) -> Result<(u8, u8, u8), QueryError> {
    let text = trimmed(line);
    let hour = first_field(text);
    if hour.len() == 0 {
        Err(QueryError::Missing(TimeField::Hour))
    } else if small_number(hour) is None {
        Err(QueryError::NotANumber(TimeField::Hour))
    } else {
        match after_first_field(text) {
            None => Err(QueryError::Missing(TimeField::Minute)),
            Some(rest) => {
                let minute = first_field(rest);
                if minute.len() == 0 {
                    Err(QueryError::Missing(TimeField::Minute))
                } else if small_number(minute) is None {
                    Err(QueryError::NotANumber(TimeField::Minute))
                } else {
                    match after_first_field(rest) {
                        None => Ok((small_number(hour)->0, small_number(minute)->0, 0u8)),
                        Some(last) => {
                            let second = first_field(last);
                            if small_number(second) is None {
                                Err(QueryError::NotANumber(TimeField::Second))
                            } else {
                                Ok(
                                    (
                                        small_number(hour)->0,
                                        small_number(minute)->0,
                                        small_number(second)->0,
                                    ),
                                )
                            }
                        },
                    }
                }
            },
        }
    }
}

/// A text whose first `k` characters are white space, and the next is not,
/// is trimmed at its front to what follows them.
pub proof fn lemma_trimmed_start(s: Seq<char>, k: int)
    requires
        0 <= k <= s.len(),
        forall|i: int| 0 <= i < k ==> is_white_space(#[trigger] s[i]),
        k < s.len() ==> !is_white_space(s[k]),
    ensures
        trimmed_start(s) == s.skip(k),
    decreases k,
{
    if k == 0 {
        assert(s.skip(0) =~= s);
    } else {
        let rest = s.drop_first();
        assert forall|i: int| 0 <= i < k - 1 implies is_white_space(#[trigger] rest[i]) by {
            assert(rest[i] == s[i + 1]);
        }
        lemma_trimmed_start(rest, k - 1);
        assert(rest.skip(k - 1) =~= s.skip(k));
    }
}

/// A text whose characters from `k` on are white space, and the one before
/// is not, is trimmed at its end to what stands before them.
pub proof fn lemma_trimmed_end(s: Seq<char>, k: int)
    requires
        0 <= k <= s.len(),
        forall|i: int| k <= i < s.len() ==> is_white_space(#[trigger] s[i]),
        k > 0 ==> !is_white_space(s[k - 1]),
    ensures
        trimmed_end(s) == s.take(k),
    decreases s.len() - k,
{
    if k == s.len() {
        assert(s.take(k) =~= s);
    } else {
        let rest = s.drop_last();
        assert(s.last() == s[s.len() - 1]);
        lemma_trimmed_end(rest, k);
        assert(rest.take(k) =~= s.take(k));
    }
}

/// The first colon of a text is where its first part ends.
pub proof fn lemma_field_length(s: Seq<char>, k: int)
    requires
        0 <= k <= s.len(),
        forall|i: int| 0 <= i < k ==> #[trigger] s[i] != ':',
        k < s.len() ==> s[k] == ':',
    ensures
        field_length(s) == k,
    decreases k,
{
    if k > 0 {
        let rest = s.drop_first();
        assert forall|i: int| 0 <= i < k - 1 implies #[trigger] rest[i] != ':' by {
            assert(rest[i] == s[i + 1]);
        }
        lemma_field_length(rest, k - 1);
    }
}

proof fn lemma_digits_value_grows(s: Seq<char>, k: int)
    requires
        0 <= k <= s.len(),
        is_digits(s),
    ensures
        0 <= digits_value(s.take(k)) <= digits_value(s),
    decreases s.len() - k,
{
    if k == s.len() {
        assert(s.take(k) =~= s);
        lemma_digits_value_nonnegative(s);
    } else {
        let rest = s.drop_last();
        lemma_digits_value_grows(rest, k);
        assert(rest.take(k) =~= s.take(k));
        assert(is_digit(s.last()));
    }
}

proof fn lemma_digits_value_nonnegative(s: Seq<char>)
    requires
        is_digits(s),
    ensures
        0 <= digits_value(s),
    decreases s.len(),
{
    if s.len() > 0 {
        lemma_digits_value_nonnegative(s.drop_last());
        assert(is_digit(s.last()));
    }
}

fn is_space(c: char) -> (b: bool)
    ensures
        b == is_white_space(c),
{
    let u: u32 = c as u32;
    (0x09 <= u && u <= 0x0D) || u == 0x20 || u == 0x85 || u == 0xA0 || u == 0x1680 || (0x2000 <= u
        && u <= 0x200A) || u == 0x2028 || u == 0x2029 || u == 0x202F || u == 0x205F || u == 0x3000
}

fn characters(text: &str) -> (v: Vec<char>)
    ensures
        v@ == text@,
{
    let mut v: Vec<char> = Vec::new();
    for c in it: text.chars()
        invariant
            it.seq() == text@,
            v@ == it.seq().take(it.index() as int),
    {
        v.push(c);
    }
    v
}

/// The bounds of `chars` without the white space at either end.
fn trim_bounds(chars: &Vec<char>) -> (bounds: (usize, usize))
    ensures
        bounds.0 <= bounds.1 <= chars.len(),
        chars@.subrange(bounds.0 as int, bounds.1 as int) == trimmed(chars@),
{
    let mut start: usize = 0;
    while start < chars.len() && is_space(chars[start])
        invariant
            start <= chars.len(),
            forall|i: int| 0 <= i < start ==> is_white_space(#[trigger] chars@[i]),
        decreases chars.len() - start,
    {
        start += 1;
    }
    let mut end: usize = chars.len();
    while end > start && is_space(chars[end - 1])
        invariant
            start <= end <= chars.len(),
            forall|i: int| end <= i < chars.len() ==> is_white_space(#[trigger] chars@[i]),
        decreases end - start,
    {
        end -= 1;
    }
    proof {
        let s = chars@;
        lemma_trimmed_start(s, start as int);
        let rest = s.skip(start as int);
        assert forall|i: int| end - start <= i < rest.len() implies is_white_space(
            #[trigger] rest[i],
        ) by {
            assert(rest[i] == s[i + start]);
        }
        if end > start {
            assert(rest[end - start - 1] == s[end - 1]);
        }
        lemma_trimmed_end(rest, end - start);
        assert(rest.take(end - start) =~= s.subrange(start as int, end as int));
    }
    (start, end)
}

/// Where the part that starts at `from` stops: at the next colon before
/// `end`, or at `end`.
fn field_end(chars: &Vec<char>, from: usize, end: usize) -> (to: usize)
    requires
        from <= end <= chars.len(),
    ensures
        from <= to <= end,
        to - from == field_length(chars@.subrange(from as int, end as int)),
{
    let mut to: usize = from;
    while to < end && chars[to] != ':'
        invariant
            from <= to <= end <= chars.len(),
            forall|i: int| from <= i < to ==> #[trigger] chars@[i] != ':',
        decreases end - to,
    {
        to += 1;
    }
    proof {
        let s = chars@.subrange(from as int, end as int);
        assert forall|i: int| 0 <= i < to - from implies #[trigger] s[i] != ':' by {
            assert(s[i] == chars@[i + from]);
        }
        lemma_field_length(s, to - from);
    }
    to
}

/// Reads the characters from `from` up to `to` as a number of at most 255.
fn read_small_number(chars: &Vec<char>, from: usize, to: usize) -> (number: Option<u8>)
    requires
        from <= to <= chars.len(),
    ensures
        number == small_number(chars@.subrange(from as int, to as int)),
{
    let ghost text = chars@.subrange(from as int, to as int);
    let mut i: usize = from;
    if i < to && chars[i] == '+' {
        i += 1;
    }
    let first: usize = i;
    let ghost digits = chars@.subrange(first as int, to as int);
    proof {
        if first > from {
            assert(text[0] == '+');
            assert(digits =~= text.drop_first());
        } else {
            if text.len() > 0 {
                assert(text[0] == chars@[from as int]);
            }
            assert(digits =~= text);
        }
    }
    if i == to {
        return None;
    }
    let mut value: u32 = 0;
    while i < to
        invariant
            first <= i <= to <= chars.len(),
            digits == chars@.subrange(first as int, to as int),
            digits == if text.len() > 0 && text[0] == '+' {
                text.drop_first()
            } else {
                text
            },
            text == chars@.subrange(from as int, to as int),
            is_digits(digits.take(i - first)),
            value == digits_value(digits.take(i - first)),
            value <= 255,
        decreases to - i,
    {
        let code: u32 = chars[i] as u32;
        proof {
            assert(digits[i - first] == chars@[i as int]);
            assert(digits.take(i - first + 1).drop_last() =~= digits.take(i - first));
            assert(digits.take(i - first + 1).last() == digits[i - first]);
        }
        if code < 0x30 || code > 0x39 {
            assert(!is_digit(digits[i - first]));
            return None;
        }
        value = value * 10 + (code - 0x30);
        proof {
            let next = digits.take(i - first + 1);
            assert forall|j: int| 0 <= j < next.len() implies is_digit(#[trigger] next[j]) by {
                if j < i - first {
                    assert(next[j] == digits.take(i - first)[j]);
                }
            }
        }
        if value > 255 {
            proof {
                if is_digits(digits) {
                    lemma_digits_value_grows(digits, i - first + 1);
                }
            }
            return None;
        }
        i += 1;
    }
    proof {
        assert(digits.take(to - first) =~= digits);
    }
    Some(value as u8)
}

/// Reads a time of day, written as `HH:MM` or `HH:MM:SS`, from a line of text.
///
/// Each part is read as a number of at most 255; whether it is a valid hour,
/// minute or second is judged where the time is placed on a day.
pub fn parse_time(buffer: &str) -> (parsed: Result<(u8, u8, u8), QueryError>)
    ensures
        parsed == parsed_time(buffer@),
{
    let chars = characters(buffer);
    let (start, end) = trim_bounds(&chars);
    let ghost text = chars@.subrange(start as int, end as int);

    let hour_end = field_end(&chars, start, end);
    proof {
        assert(first_field(text) =~= chars@.subrange(start as int, hour_end as int));
    }
    if hour_end == start {
        return Err(QueryError::Missing(TimeField::Hour));
    }
    let hour = match read_small_number(&chars, start, hour_end) {
        Some(hour) => hour,
        None => {
            return Err(QueryError::NotANumber(TimeField::Hour));
        },
    };
    if hour_end == end {
        return Err(QueryError::Missing(TimeField::Minute));
    }
    let minute_start = hour_end + 1;
    let ghost rest = chars@.subrange(minute_start as int, end as int);
    let minute_end = field_end(&chars, minute_start, end);
    proof {
        assert(after_first_field(text) == Some(rest)) by {
            assert(text.skip(hour_end - start + 1) =~= rest);
        }
        assert(first_field(rest) =~= chars@.subrange(minute_start as int, minute_end as int));
    }
    if minute_end == minute_start {
        return Err(QueryError::Missing(TimeField::Minute));
    }
    let minute = match read_small_number(&chars, minute_start, minute_end) {
        Some(minute) => minute,
        None => {
            return Err(QueryError::NotANumber(TimeField::Minute));
        },
    };
    if minute_end == end {
        return Ok((hour, minute, 0));
    }
    let second_start = minute_end + 1;
    let ghost last = chars@.subrange(second_start as int, end as int);
    let second_end = field_end(&chars, second_start, end);
    proof {
        assert(after_first_field(rest) == Some(last)) by {
            assert(rest.skip(minute_end - minute_start + 1) =~= last);
        }
        assert(first_field(last) =~= chars@.subrange(second_start as int, second_end as int));
    }
    match read_small_number(&chars, second_start, second_end) {
        Some(second) => Ok((hour, minute, second)),
        None => Err(QueryError::NotANumber(TimeField::Second)),
    }
}

} // verus!
