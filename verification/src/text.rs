//! Reading and writing text: characters, positions and decimal numbers.

use vstd::prelude::*;
use vstd::string::StringExecFns;

verus! {

/// Position of the first `c` in `s` at or after `from`; the length of `s`
/// where there is none.
pub open spec fn position(s: Seq<char>, c: char, from: int) -> int
    decreases s.len() - from,
{
    if from >= s.len() {
        s.len() as int
    } else if s[from] == c {
        from
    } else {
        position(s, c, from + 1)
    }
}

/// Whether `c` is one of the digits `0` to `9`.
pub open spec fn is_digit(c: char) -> bool {
    '0' <= c && c <= '9'
}

/// The number that the digit `c` stands for.
pub open spec fn digit_value(c: char) -> int {
    c as int - '0' as int
}

/// Whether `s` holds digits only.
pub open spec fn all_digits(s: Seq<char>) -> bool {
    forall|i: int| 0 <= i < s.len() ==> is_digit(#[trigger] s[i])
}

/// The number that a run of digits stands for in base ten; zero for the
/// empty run.
pub open spec fn digits_value(s: Seq<char>) -> int
    decreases s.len(),
{
    if s.len() == 0 {
        0
    } else {
        10 * digits_value(s.drop_last()) + digit_value(s.last())
    }
}

/// The `i32` that `s` is the decimal text of: an optional `+` or `-`, then
/// one digit or more, and a value that fits. `None` for any other text.
pub open spec fn parse_i32(s: Seq<char>) -> Option<i32> {
    let signed = s.len() > 0 && (s[0] == '-' || s[0] == '+');
    let digits = if signed {
        s.drop_first()
    } else {
        s
    };
    let value = if signed && s[0] == '-' {
        -digits_value(digits)
    } else {
        digits_value(digits)
    };
    if digits.len() > 0 && all_digits(digits) && i32::MIN <= value <= i32::MAX {
        Some(value as i32)
    } else {
        None
    }
}

/// `position` stays within the text, points at a `c` unless it is the
/// length, and passes no `c` on its way.
pub proof fn lemma_position(s: Seq<char>, c: char, from: int)
    requires
        0 <= from <= s.len(),
    ensures
        from <= position(s, c, from) <= s.len(),
        position(s, c, from) < s.len() ==> s[position(s, c, from)] == c,
        forall|i: int| from <= i < position(s, c, from) ==> s[i] != c,
    decreases s.len() - from,
{
    if from < s.len() && s[from] != c {
        lemma_position(s, c, from + 1);
    }
}

/// `position` passes over a stretch that holds no `c`.
pub proof fn lemma_position_skips(s: Seq<char>, c: char, from: int, to: int)
    requires
        0 <= from <= to <= s.len(),
        forall|i: int| from <= i < to ==> s[i] != c,
    ensures
        position(s, c, from) == position(s, c, to),
    decreases to - from,
{
    if from < to {
        lemma_position_skips(s, c, from + 1, to);
    }
}

/// The characters of `s`, one by one.
pub fn chars_of(s: &str) -> (chars: Vec<char>)
    ensures
        chars@ == s@,
{
    let mut chars: Vec<char> = Vec::new();
    let stream = s.chars();
    for c in it: stream
        invariant
            chars@ == it.seq().take(it.index() as int),
            it.seq() == s@,
    {
        chars.push(c);
    }
    chars
}

/// Finds the first `c` in `s` at or after `from`.
pub fn find_char(s: &Vec<char>, c: char, from: usize) -> (at: usize)
    requires
        from <= s@.len(),
    ensures
        at == position(s@, c, from as int),
{
    let mut i: usize = from;
    while i < s.len()
        invariant
            from <= i <= s@.len(),
            position(s@, c, from as int) == position(s@, c, i as int),
        decreases s@.len() - i,
    {
        if s[i] == c {
            return i;
        }
        i += 1;
    }
    i
}

/// Reads the characters of `s` from `from` up to `to` as the decimal text of
/// an `i32`.
pub fn read_i32(s: &Vec<char>, from: usize, to: usize) -> (number: Option<i32>)
    requires
        from <= to <= s@.len(),
    ensures
        number == parse_i32(s@.subrange(from as int, to as int)),
{
    let ghost text = s@.subrange(from as int, to as int);
    if from == to {
        return None;
    }
    let negative = s[from] == '-';
    let signed = negative || s[from] == '+';
    let start: usize = if signed {
        from + 1
    } else {
        from
    };
    let ghost digits = s@.subrange(start as int, to as int);
    proof {
        if signed {
            assert(text.drop_first() =~= digits);
        }
    }
    if start == to {
        return None;
    }
    // One more than the largest magnitude an `i32` can have stands for
    // every number that is too large.
    let limit: i64 = 2147483648;
    let mut magnitude: i64 = 0;
    let mut i: usize = start;
    while i < to
        invariant
            from <= start <= i <= to <= s@.len(),
            digits == s@.subrange(start as int, to as int),
            !all_digits(digits) ==> parse_i32(s@.subrange(from as int, to as int)) is None,
            all_digits(digits.take(i - start)),
            0 <= magnitude <= limit + 1,
            limit == 2147483648,
            magnitude <= limit ==> magnitude == digits_value(digits.take(i - start)),
            magnitude > limit ==> digits_value(digits.take(i - start)) > limit,
        decreases to - i,
    {
        let c = s[i];
        let ghost seen = digits.take(i - start);
        let ghost next = digits.take(i - start + 1);
        proof {
            assert(next.drop_last() =~= seen);
            assert(next.last() == c);
        }
        if !(c >= '0' && c <= '9') {
            return None;
        }
        let d: i64 = (c as u32 - '0' as u32) as i64;
        if magnitude <= limit {
            magnitude = magnitude * 10 + d;
            if magnitude > limit {
                magnitude = limit + 1;
            }
        }
        proof {
            assert forall|k: int| 0 <= k < next.len() implies is_digit(#[trigger] next[k]) by {}
        }
        i += 1;
    }
    proof {
        assert(digits.take(to - start) =~= digits);
    }
    if negative {
        if magnitude <= limit {
            Some((-magnitude) as i32)
        } else {
            None
        }
    } else {
        if magnitude < limit {
            Some(magnitude as i32)
        } else {
            None
        }
    }
}

/// The digit that stands for `d`, a number from 0 to 9.
pub open spec fn digit_char(d: int) -> char {
    seq!['0', '1', '2', '3', '4', '5', '6', '7', '8', '9'][d]
}

/// The digits of `n` in base ten, without leading zeros; `0` for zero.
pub open spec fn digits_of(n: nat) -> Seq<char>
    decreases n,
{
    if n < 10 {
        seq![digit_char(n as int)]
    } else {
        digits_of(n / 10).push(digit_char(n as int % 10))
    }
}

/// The decimal text of `n`: its digits, after a `-` where it is negative.
pub open spec fn decimal(n: int) -> Seq<char> {
    if n < 0 {
        seq!['-'] + digits_of((-n) as nat)
    } else {
        digits_of(n as nat)
    }
}

/// The text of one digit.
fn digit_text(d: u8) -> (text: &'static str)
    requires
        d < 10,
    ensures
        text@ == seq![digit_char(d as int)],
{
    proof {
        reveal_strlit("0");
        reveal_strlit("1");
        reveal_strlit("2");
        reveal_strlit("3");
        reveal_strlit("4");
        reveal_strlit("5");
        reveal_strlit("6");
        reveal_strlit("7");
        reveal_strlit("8");
        reveal_strlit("9");
    }
    let text: &'static str = match d {
        0 => "0",
        1 => "1",
        2 => "2",
        3 => "3",
        4 => "4",
        5 => "5",
        6 => "6",
        7 => "7",
        8 => "8",
        _ => "9",
    };
    text
}

/// Writes the digits of `n` at the end of `out`.
fn write_digits(out: &mut String, n: u64)
    ensures
        final(out)@ == old(out)@ + digits_of(n as nat),
    decreases n,
{
    if n >= 10 {
        write_digits(out, n / 10);
    }
    out.append(digit_text((n % 10) as u8));
    proof {
        if n >= 10 {
            assert(out@ =~= old(out)@ + digits_of((n / 10) as nat).push(
                digit_char(n as int % 10),
            ));
        }
    }
}

/// Writes the decimal text of `n` at the end of `out`.
pub fn write_decimal(out: &mut String, n: i64)
    ensures
        final(out)@ == old(out)@ + decimal(n as int),
{
    if n < 0 {
        proof {
            reveal_strlit("-");
        }
        out.append("-");
        // The magnitude of the least `i64` does not fit in an `i64`.
        write_digits(out, (-(n + 1)) as u64 + 1);
        proof {
            assert(out@ =~= old(out)@ + (seq!['-'] + digits_of((-n) as nat)));
        }
    } else {
        write_digits(out, n as u64);
    }
}

/// The digits of a number are digits, and stand for the number.
pub proof fn lemma_digits_of_reads_back(n: nat)
    ensures
        digits_of(n).len() > 0,
        all_digits(digits_of(n)),
        digits_value(digits_of(n)) == n,
    decreases n,
{
    if n < 10 {
        let s = digits_of(n);
        assert(digits_value(s.drop_last()) == 0);
    } else {
        lemma_digits_of_reads_back(n / 10);
        let s = digits_of(n);
        assert(s.drop_last() =~= digits_of(n / 10));
        assert forall|i: int| 0 <= i < s.len() implies is_digit(#[trigger] s[i]) by {}
    }
}

/// A decimal text holds digits and, in the first place only, a `-`.
pub proof fn lemma_decimal_chars(n: int, i: int)
    requires
        0 <= i < decimal(n).len(),
    ensures
        is_digit(decimal(n)[i]) || (i == 0 && n < 0 && decimal(n)[i] == '-'),
{
    if n < 0 {
        lemma_digits_of_reads_back((-n) as nat);
    } else {
        lemma_digits_of_reads_back(n as nat);
    }
}

/// The decimal text of an `i32` is read back as that number.
pub proof fn lemma_decimal_reads_back(n: i32)
    ensures
        parse_i32(decimal(n as int)) == Some(n),
{
    if n < 0 {
        let m = (-n) as nat;
        lemma_digits_of_reads_back(m);
        assert(decimal(n as int).drop_first() =~= digits_of(m));
    } else {
        lemma_digits_of_reads_back(n as nat);
    }
}

} // verus!
