//! Finding the touchpad in a listing of input devices.
//!
//! The listing is the text that `libinput list-devices` prints: one block of
//! lines for each device, the blocks parted by an empty line. The first line
//! of a block names the device, the second holds the path of its device
//! node after a colon:
//!
//! ```text
//! Device:           SynPS/2 Synaptics TouchPad
//! Kernel:           /dev/input/event5
//! Group:            7
//! ```

use vstd::prelude::*;
use crate::text::{chars_of, lemma_position, position};

verus! {

/// Why no touchpad was found in a listing.
#[derive(Clone, Copy, Debug, PartialEq, Eq, Structural)]
pub enum DetectError {
    /// The block of the touchpad ends with its first line.
    MissingPathLine,
    /// The second line of the touchpad's block holds no colon.
    InvalidPathLine,
    /// No block names a touchpad.
    NoTouchpad,
}

impl DetectError {
    /// The complaint in words.
    pub fn message(&self) -> (text: &'static str)
        ensures
            text@ == match self {
                DetectError::MissingPathLine => "Cannot get device path"@,
                DetectError::InvalidPathLine => "Invalid device path line"@,
                DetectError::NoTouchpad =>
                    "No touchpad device detected: specify it through --device flag"@,
            },
    {
        match self {
            DetectError::MissingPathLine => "Cannot get device path",
            DetectError::InvalidPathLine => "Invalid device path line",
            DetectError::NoTouchpad => "No touchpad device detected: specify it through --device flag",
        }
    }
}

/// Whether `c` is white space: one of the twenty-five characters that
/// Unicode marks as `White_Space`.
pub open spec fn is_whitespace(c: char) -> bool {
    let u = c as u32;
    ||| 0x09 <= u <= 0x0D
    ||| u == 0x20
    ||| u == 0x85
    ||| u == 0xA0
    ||| u == 0x1680
    ||| 0x2000 <= u <= 0x200A
    ||| u == 0x2028
    ||| u == 0x2029
    ||| u == 0x202F
    ||| u == 0x205F
    ||| u == 0x3000
}

/// `c` with the letters `A` to `Z` turned into `a` to `z`.
pub open spec fn lower(c: char) -> char {
    if 'A' <= c && c <= 'Z' {
        ((c as u32 + 32) as u8) as char
    } else {
        c
    }
}

/// `s` with the letters `A` to `Z` turned into `a` to `z`.
pub open spec fn lowered(s: Seq<char>) -> Seq<char> {
    Seq::new(s.len(), |i: int| lower(s[i]))
}

/// Whether `needle` stands in `hay` at position `i`.
pub open spec fn occurs_at(hay: Seq<char>, needle: Seq<char>, i: int) -> bool {
    0 <= i && i + needle.len() <= hay.len() && hay.subrange(i, i + needle.len()) == needle
}

/// Whether `needle` stands somewhere in `hay`.
pub open spec fn contains(hay: Seq<char>, needle: Seq<char>) -> bool {
    exists|i: int| occurs_at(hay, needle, i)
}

/// Number of white space characters at the start of `s`.
pub open spec fn leading_space(s: Seq<char>) -> int
    decreases s.len(),
{
    if s.len() > 0 && is_whitespace(s[0]) {
        1 + leading_space(s.drop_first())
    } else {
        0
    }
}

/// Number of white space characters at the end of `s`.
pub open spec fn trailing_space(s: Seq<char>) -> int
    decreases s.len(),
{
    if s.len() > 0 && is_whitespace(s.last()) {
        1 + trailing_space(s.drop_last())
    } else {
        0
    }
}

/// `s` without the white space at its start and at its end.
pub open spec fn trimmed(s: Seq<char>) -> Seq<char> {
    let start = leading_space(s);
    if start == s.len() {
        Seq::empty()
    } else {
        s.subrange(start, s.len() - trailing_space(s))
    }
}

/// What is left of a text that is not empty after trimming starts and ends
/// with a character that is no white space, and it is a part of the text.
pub proof fn lemma_trimmed_is_bare(s: Seq<char>)
    ensures
        trimmed(s).len() > 0 ==> !is_whitespace(trimmed(s).first()) && !is_whitespace(
            trimmed(s).last(),
        ),
        exists|from: int, to: int| 0 <= from <= to <= s.len() && trimmed(s) == s.subrange(from, to),
        trimmed(s).len() == 0 <==> forall|i: int| 0 <= i < s.len() ==> is_whitespace(s[i]),
{
    lemma_leading_space(s);
    lemma_trailing_space(s);
    if leading_space(s) == s.len() {
        assert(trimmed(s) == s.subrange(0, 0));
    }
}

/// The white space at the start of a text is white space, ends within the
/// text, and is followed by a character that is none.
pub proof fn lemma_leading_space(s: Seq<char>)
    ensures
        0 <= leading_space(s) <= s.len(),
        forall|i: int| 0 <= i < leading_space(s) ==> is_whitespace(s[i]),
        leading_space(s) < s.len() ==> !is_whitespace(s[leading_space(s)]),
    decreases s.len(),
{
    if s.len() > 0 && is_whitespace(s[0]) {
        let rest = s.drop_first();
        lemma_leading_space(rest);
        assert forall|i: int| 0 <= i < leading_space(s) implies is_whitespace(s[i]) by {
            if i > 0 {
                assert(s[i] == rest[i - 1]);
            }
        }
    }
}

/// The white space at the end of a text is white space, starts within the
/// text, and follows a character that is none.
pub proof fn lemma_trailing_space(s: Seq<char>)
    ensures
        0 <= trailing_space(s) <= s.len(),
        forall|i: int| s.len() - trailing_space(s) <= i < s.len() ==> is_whitespace(s[i]),
        trailing_space(s) < s.len() ==> !is_whitespace(s[s.len() - trailing_space(s) - 1]),
    decreases s.len(),
{
    if s.len() > 0 && is_whitespace(s.last()) {
        let rest = s.drop_last();
        lemma_trailing_space(rest);
        assert forall|i: int| s.len() - trailing_space(s) <= i < s.len() implies is_whitespace(
            s[i],
        ) by {
            if i < s.len() - 1 {
                assert(s[i] == rest[i]);
            }
        }
        if trailing_space(s) < s.len() {
            assert(s[s.len() - trailing_space(s) - 1] == rest[rest.len() - trailing_space(rest)
                - 1]);
        }
    }
}

/// What stands in `s` before the first `c`; all of `s` where it holds none.
pub open spec fn before_first(s: Seq<char>, c: char) -> Seq<char> {
    s.subrange(0, position(s, c, 0))
}

/// What stands in `s` after the first `c`; `None` where it holds none.
pub open spec fn after_first(s: Seq<char>, c: char) -> Option<Seq<char>> {
    let at = position(s, c, 0);
    if at == s.len() {
        None
    } else {
        Some(s.subrange(at + 1, s.len() as int))
    }
}

/// Whether an empty line starts at position `i` of `text`, that is, whether
/// two line feeds stand there.
pub open spec fn blank_line_at(text: Seq<char>, i: int) -> bool {
    0 <= i && i + 1 < text.len() && text[i] == '\n' && text[i + 1] == '\n'
}

/// Where the block ends that starts at `from`: at the next empty line, or
/// with the text.
pub open spec fn block_end(text: Seq<char>, from: int) -> int
    decreases text.len() - from,
{
    if from >= text.len() {
        text.len() as int
    } else if blank_line_at(text, from) {
        from
    } else {
        block_end(text, from + 1)
    }
}

/// Whether the first line of `block` names a touchpad, in letters of
/// either case.
pub open spec fn names_touchpad(block: Seq<char>) -> bool {
    let name = lowered(before_first(block, '\n'));
    contains(name, "touchpad"@) || contains(name, "touch pad"@)
}

/// The device path in `block`: what stands in its second line between the
/// first colon and the next, without the white space around it.
pub open spec fn path_in(block: Seq<char>) -> Result<Seq<char>, DetectError> {
    match after_first(block, '\n') {
        None => Err(DetectError::MissingPathLine),
        Some(rest) => match after_first(before_first(rest, '\n'), ':') {
            None => Err(DetectError::InvalidPathLine),
            Some(value) => Ok(trimmed(before_first(value, ':'))),
        },
    }
}

/// The device path of the first block at or after `from` that names a
/// touchpad.
pub open spec fn touchpad_from(text: Seq<char>, from: int) -> Result<Seq<char>, DetectError>
    decreases text.len() - from,
    via touchpad_from_decreases
{
    if from < 0 || from > text.len() {
        Err(DetectError::NoTouchpad)
    } else {
        let end = block_end(text, from);
        if names_touchpad(text.subrange(from, end)) {
            path_in(text.subrange(from, end))
        } else if end >= text.len() {
            Err(DetectError::NoTouchpad)
        } else {
            touchpad_from(text, end + 2)
        }
    }
}

#[via_fn]
proof fn touchpad_from_decreases(text: Seq<char>, from: int) {
    if 0 <= from <= text.len() {
        lemma_block_end(text, from);
    }
}

/// A block ends at or after its start, within the text, and at an empty
/// line unless it ends with the text.
pub proof fn lemma_block_end(text: Seq<char>, from: int)
    requires
        0 <= from <= text.len(),
    ensures
        from <= block_end(text, from) <= text.len(),
        block_end(text, from) < text.len() ==> blank_line_at(text, block_end(text, from)),
        forall|i: int| from <= i < block_end(text, from) ==> !blank_line_at(text, i),
    decreases text.len() - from,
{
    if from < text.len() && !blank_line_at(text, from) {
        lemma_block_end(text, from + 1);
    }
}

/// The device path of the first touchpad in a listing.
pub open spec fn touchpad_in(listing: Seq<char>) -> Result<Seq<char>, DetectError> {
    touchpad_from(listing, 0)
}

/// Whether `c` is white space.
pub fn is_space(c: char) -> (space: bool)
    ensures
        space == is_whitespace(c),
{
    let u: u32 = c as u32;
    (0x09 <= u && u <= 0x0D) || u == 0x20 || u == 0x85 || u == 0xA0 || u == 0x1680 || (0x2000 <= u
        && u <= 0x200A) || u == 0x2028 || u == 0x2029 || u == 0x202F || u == 0x205F || u == 0x3000
}

/// `c` in lower case, where it is one of the letters `A` to `Z`.
pub fn to_lower(c: char) -> (low: char)
    ensures
        low == lower(c),
{
    if 'A' <= c && c <= 'Z' {
        ((c as u32 + 32) as u8) as char
    } else {
        c
    }
}

/// Finds the first `c` in the part of `s` from `from` up to `to`.
fn find_within(s: &Vec<char>, c: char, from: usize, to: usize) -> (at: usize)
    requires
        from <= to <= s@.len(),
    ensures
        from <= at <= to,
        at - from == position(s@.subrange(from as int, to as int), c, 0),
{
    let ghost part = s@.subrange(from as int, to as int);
    let mut i: usize = from;
    while i < to
        invariant
            from <= i <= to <= s@.len(),
            part == s@.subrange(from as int, to as int),
            position(part, c, 0) == position(part, c, i - from),
        decreases to - i,
    {
        if s[i] == c {
            return i;
        }
        i += 1;
    }
    i
}

/// Finds the end of the block that starts at `from`.
fn find_block_end(s: &Vec<char>, from: usize) -> (end: usize)
    requires
        from <= s@.len(),
    ensures
        from <= end <= s@.len(),
        end == block_end(s@, from as int),
        end < s@.len() ==> end + 2 <= s@.len(),
{
    let mut i: usize = from;
    while i < s.len()
        invariant
            from <= i <= s@.len(),
            block_end(s@, from as int) == block_end(s@, i as int),
        decreases s@.len() - i,
    {
        if s[i] == '\n' && i + 1 < s.len() && s[i + 1] == '\n' {
            return i;
        }
        i += 1;
    }
    i
}

/// Whether `needle` stands at position `at` of the part of `s` from `from`
/// up to `to`, once that part is put in lower case.
fn matches_lowered(
    s: &Vec<char>,
    from: usize,
    to: usize,
    at: usize,
    needle: &Vec<char>,
) -> (found: bool)
    requires
        from <= at <= to <= s@.len(),
    ensures
        found == occurs_at(lowered(s@.subrange(from as int, to as int)), needle@, at - from),
{
    let ghost hay = lowered(s@.subrange(from as int, to as int));
    if needle.len() > to - at {
        return false;
    }
    let mut j: usize = 0;
    while j < needle.len()
        invariant
            from <= at <= to <= s@.len(),
            at + needle@.len() <= to,
            j <= needle@.len(),
            hay == lowered(s@.subrange(from as int, to as int)),
            forall|k: int| 0 <= k < j ==> hay[at - from + k] == needle@[k],
        decreases needle@.len() - j,
    {
        if to_lower(s[at + j]) != needle[j] {
            proof {
                // the two texts differ in place `j`
                let piece = hay.subrange(at - from, at - from + needle@.len());
                assert(piece[j as int] != needle@[j as int]);
            }
            return false;
        }
        j += 1;
    }
    proof {
        assert(hay.subrange(at - from, at - from + needle@.len()) =~= needle@);
    }
    true
}

/// Whether `needle` stands somewhere in the part of `s` from `from` up to
/// `to`, once that part is put in lower case.
fn contains_lowered(s: &Vec<char>, from: usize, to: usize, needle: &Vec<char>) -> (found: bool)
    requires
        from <= to <= s@.len(),
    ensures
        found == contains(lowered(s@.subrange(from as int, to as int)), needle@),
{
    let ghost hay = lowered(s@.subrange(from as int, to as int));
    let mut at: usize = from;
    while at < to
        invariant
            from <= at <= to <= s@.len(),
            hay == lowered(s@.subrange(from as int, to as int)),
            forall|i: int| 0 <= i < at - from ==> !occurs_at(hay, needle@, i),
        decreases to - at,
    {
        if matches_lowered(s, from, to, at, needle) {
            return true;
        }
        at += 1;
    }
    // only the empty text can stand at the very end
    let found = matches_lowered(s, from, to, to, needle);
    proof {
        if !found {
            assert forall|i: int| !occurs_at(hay, needle@, i) by {}
        }
    }
    found
}

/// The part of `s` from `from` up to `to` without the white space at its
/// start and at its end, as a pair of positions.
fn trim_within(s: &Vec<char>, from: usize, to: usize) -> (bounds: (usize, usize))
    requires
        from <= to <= s@.len(),
    ensures
        from <= bounds.0 <= bounds.1 <= to,
        s@.subrange(bounds.0 as int, bounds.1 as int) == trimmed(
            s@.subrange(from as int, to as int),
        ),
{
    let ghost part = s@.subrange(from as int, to as int);
    let mut start: usize = from;
    proof {
        assert(part.subrange(0, part.len() as int) =~= part);
    }
    while start < to && is_space(s[start])
        invariant
            from <= start <= to <= s@.len(),
            part == s@.subrange(from as int, to as int),
            leading_space(part) == start - from + leading_space(
                part.subrange(start - from, part.len() as int),
            ),
        decreases to - start,
    {
        proof {
            let tail = part.subrange(start - from, part.len() as int);
            assert(tail.drop_first() =~= part.subrange(start - from + 1, part.len() as int));
        }
        start += 1;
    }
    proof {
        // the walk has passed all the white space at the start
        let tail = part.subrange(start - from, part.len() as int);
        assert(leading_space(tail) == 0);
    }
    if start == to {
        return (start, start);
    }
    let mut end: usize = to;
    while end > start && is_space(s[end - 1])
        invariant
            from <= start < end <= to <= s@.len(),
            !is_whitespace(s@[start as int]),
            part == s@.subrange(from as int, to as int),
            trailing_space(part) == to - end + trailing_space(part.subrange(0, end - from)),
        decreases end,
    {
        proof {
            let head = part.subrange(0, end - from);
            assert(head.drop_last() =~= part.subrange(0, end - from - 1));
        }
        end -= 1;
    }
    proof {
        // the walk back has passed all the white space at the end
        let head = part.subrange(0, end - from);
        assert(trailing_space(head) == 0);
    }
    (start, end)
}

/// Finds the touchpad in the text that `libinput list-devices` printed and
/// gives the path of its device node. The first block whose first line
/// holds `touchpad` or `touch pad`, in letters of either case, decides.
pub fn detect_touchpad_device(listing: &str) -> (path: Result<String, DetectError>)
    ensures
        match path {
            Ok(p) => touchpad_in(listing@) matches Ok(found) && found == p@,
            Err(e) => touchpad_in(listing@) matches Err(why) && why == e,
        },
{
    let chars = chars_of(listing);
    let joined = chars_of("touchpad");
    let parted = chars_of("touch pad");
    let len: usize = chars.len();
    let mut from: usize = 0;
    loop
        invariant
            from <= len == chars@.len(),
            chars@ == listing@,
            joined@ == "touchpad"@,
            parted@ == "touch pad"@,
            touchpad_in(listing@) == touchpad_from(listing@, from as int),
        decreases len - from,
    {
        let end: usize = find_block_end(&chars, from);
        let ghost block = chars@.subrange(from as int, end as int);
        let name_end: usize = find_within(&chars, '\n', from, end);
        proof {
            lemma_position(block, '\n', 0);
            assert(before_first(block, '\n') =~= chars@.subrange(from as int, name_end as int));
        }
        if contains_lowered(&chars, from, name_end, &joined) || contains_lowered(
            &chars,
            from,
            name_end,
            &parted,
        ) {
            if name_end == end {
                return Err(DetectError::MissingPathLine);
            }
            let ghost rest = chars@.subrange(name_end + 1, end as int);
            let line_end: usize = find_within(&chars, '\n', name_end + 1, end);
            let ghost line = chars@.subrange(name_end + 1, line_end as int);
            let colon: usize = find_within(&chars, ':', name_end + 1, line_end);
            proof {
                assert(after_first(block, '\n') == Some(rest));
                lemma_position(rest, '\n', 0);
                assert(before_first(rest, '\n') =~= line);
                lemma_position(line, ':', 0);
            }
            if colon == line_end {
                return Err(DetectError::InvalidPathLine);
            }
            let ghost value = chars@.subrange(colon + 1, line_end as int);
            let stop: usize = find_within(&chars, ':', colon + 1, line_end);
            let bounds = trim_within(&chars, colon + 1, stop);
            proof {
                assert(after_first(line, ':') == Some(value));
                lemma_position(value, ':', 0);
                assert(before_first(value, ':') =~= chars@.subrange(colon + 1, stop as int));
            }
            let path = listing.substring_char(bounds.0, bounds.1).to_owned();
            return Ok(path);
        }
        if end >= len {
            return Err(DetectError::NoTouchpad);
        }
        from = end + 2;
    }
}

/// How a device node is to be opened: for reading, for writing.
#[derive(Clone, Copy, Debug, PartialEq, Eq, Structural)]
pub struct Access {
    pub read: bool,
    pub write: bool,
}

/// The access that open flags ask for. `read_only`, `write_only` and
/// `read_write` are the platform's flag values for the three access modes.
/// Reading is asked for where the flags share a bit with `read_only` or
/// with `read_write`, writing where they share one with `write_only` or
/// with `read_write`.
pub fn access_for(flags: i32, read_only: i32, write_only: i32, read_write: i32) -> (access: Access)
    ensures
        access.read == ((flags & read_only) != 0 || (flags & read_write) != 0),
        access.write == ((flags & write_only) != 0 || (flags & read_write) != 0),
{
    Access {
        read: (flags & read_only) != 0 || (flags & read_write) != 0,
        write: (flags & write_only) != 0 || (flags & read_write) != 0,
    }
}

} // verus!
