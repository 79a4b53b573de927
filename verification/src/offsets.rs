//! Per-application corrections of the reload point.
//!
//! Some applications keep a sidebar beside what the user looks at, so the
//! middle of their window is not the middle of their content. The table maps
//! an application identity to the pixels by which the reload point is shifted.

use vstd::prelude::*;
use vstd::hash_map::StringHashMap;
use crate::text::{
    chars_of, decimal, find_char, lemma_decimal_chars, lemma_decimal_reads_back, lemma_position,
    lemma_position_skips, parse_i32, position, read_i32,
};

verus! {

/// A shift in pixels, `(dx, dy)`.
pub type Offset = (i32, i32);

/// Application identity to offset. Filled once, then only read.
pub struct OffsetTable {
    entries: StringHashMap<Offset>,
}

impl View for OffsetTable {
    type V = Map<Seq<char>, Offset>;

    closed spec fn view(&self) -> Map<Seq<char>, Offset> {
        self.entries@
    }
}

impl OffsetTable {
    /// The table without entries.
    pub fn new() -> (table: OffsetTable)
        ensures
            table@ == Map::<Seq<char>, Offset>::empty(),
    {
        OffsetTable { entries: StringHashMap::new() }
    }

    /// Sets the offset of `identity`, in place of an earlier one if there is
    /// one.
    pub fn insert(&mut self, identity: String, offset: Offset)
        ensures
            final(self)@ == old(self)@.insert(identity@, offset),
    {
        self.entries.insert(identity, offset);
    }

    /// The offset of `identity`, if the table has one.
    pub fn get(&self, identity: &str) -> (offset: Option<Offset>)
        ensures
            offset == lookup(self@, identity@),
    {
        match self.entries.get(identity) {
            Some(found) => Some(*found),
            None => None,
        }
    }
}

/// The offset that `table` holds for `identity`.
pub open spec fn lookup(table: Map<Seq<char>, Offset>, identity: Seq<char>) -> Option<Offset> {
    if table.contains_key(identity) {
        Some(table[identity])
    } else {
        None
    }
}

/// Why an offset argument was turned down.
#[derive(Clone, Copy, Debug, PartialEq, Eq, Structural)]
pub enum OffsetError {
    /// What stands for `dx` is not the decimal text of an `i32`.
    InvalidX,
    /// What stands for `dy` is not the decimal text of an `i32`.
    InvalidY,
}

impl OffsetError {
    /// The complaint in words.
    pub fn message(&self) -> (text: &'static str)
        ensures
            text@ == match self {
                OffsetError::InvalidX => "Invalid x offset format"@,
                OffsetError::InvalidY => "Invalid y offset format"@,
            },
    {
        match self {
            OffsetError::InvalidX => "Invalid x offset format",
            OffsetError::InvalidY => "Invalid y offset format",
        }
    }
}

/// The parts of an offset argument `identity:dx:dy`: what stands before the
/// first colon, what stands between the first and the second, and what
/// stands between the second and the third. A part whose colon is missing
/// ends with the text; a part is `None` where the colon before it is
/// missing.
pub open spec fn offset_fields(s: Seq<char>) -> (Seq<char>, Option<Seq<char>>, Option<Seq<char>>) {
    let first = position(s, ':', 0);
    if first == s.len() {
        (s, None, None)
    } else {
        let second = position(s, ':', first + 1);
        if second == s.len() {
            (s.subrange(0, first), Some(s.subrange(first + 1, second)), None)
        } else {
            let third = position(s, ':', second + 1);
            (
                s.subrange(0, first),
                Some(s.subrange(first + 1, second)),
                Some(s.subrange(second + 1, third)),
            )
        }
    }
}

/// The number in a part of an offset argument: zero where the part is
/// missing, `None` where it is there and is not the decimal text of an `i32`.
pub open spec fn offset_part(part: Option<Seq<char>>) -> Option<i32> {
    match part {
        Some(text) => parse_i32(text),
        None => Some(0i32),
    }
}

/// What an offset argument says: an identity and its offset, or which of
/// the two numbers is unreadable, `dx` before `dy`.
pub open spec fn offset_entry(s: Seq<char>) -> Result<(Seq<char>, Offset), OffsetError> {
    let (identity, x, y) = offset_fields(s);
    match (offset_part(x), offset_part(y)) {
        (None, _) => Err(OffsetError::InvalidX),
        (Some(_), None) => Err(OffsetError::InvalidY),
        (Some(dx), Some(dy)) => Ok((identity, (dx, dy))),
    }
}

/// The table that a list of offset arguments fills, later arguments taking
/// the place of earlier ones for the same identity; or the complaint about
/// the first argument that is turned down.
pub open spec fn table_of(args: Seq<String>) -> Result<Map<Seq<char>, Offset>, OffsetError>
    decreases args.len(),
{
    if args.len() == 0 {
        Ok(Map::empty())
    } else {
        match table_of(args.drop_last()) {
            Err(e) => Err(e),
            Ok(table) => match offset_entry(args.last()@) {
                Err(e) => Err(e),
                Ok((identity, offset)) => Ok(table.insert(identity, offset)),
            },
        }
    }
}

/// Reads an offset argument of the form `identity:dx:dy`, in which `:dy` or
/// `:dx:dy` may be left out and then count as zero.
pub fn try_parse_offset_value(arg: &String) -> (entry: Result<(String, Offset), OffsetError>)
    ensures
        match entry {
            Ok((identity, offset)) => {
                offset_entry(arg@) matches Ok(read) && read == (identity@, offset)
            },
            Err(e) => offset_entry(arg@) matches Err(why) && why == e,
        },
{
    let text: &str = arg.as_str();
    let chars = chars_of(text);
    let len: usize = chars.len();
    let first: usize = find_char(&chars, ':', 0);
    proof {
        lemma_position(chars@, ':', 0);
    }
    let mut dx: i32 = 0;
    let mut dy: i32 = 0;
    if first < len {
        let second: usize = find_char(&chars, ':', first + 1);
        proof {
            lemma_position(chars@, ':', first + 1);
        }
        match read_i32(&chars, first + 1, second) {
            Some(x) => {
                dx = x;
            },
            None => {
                return Err(OffsetError::InvalidX);
            },
        }
        if second < len {
            let third: usize = find_char(&chars, ':', second + 1);
            proof {
                lemma_position(chars@, ':', second + 1);
            }
            match read_i32(&chars, second + 1, third) {
                Some(y) => {
                    dy = y;
                },
                None => {
                    return Err(OffsetError::InvalidY);
                },
            }
        }
    }
    let identity = text.substring_char(0, first).to_owned();
    Ok((identity, (dx, dy)))
}

/// Reads an offset argument that is known to be well formed.
pub fn parse_offset_value(arg: &String) -> (entry: (String, Offset))
    requires
        offset_entry(arg@) is Ok,
    ensures
        offset_entry(arg@) matches Ok(read) && read == (entry.0@, entry.1),
{
    match try_parse_offset_value(arg) {
        Ok(entry) => entry,
        Err(_) => (String::new(), (0, 0)),
    }
}

impl OffsetTable {
    /// Fills a table from offset arguments, in their order.
    pub fn from_args(args: &Vec<String>) -> (table: Result<OffsetTable, OffsetError>)
        ensures
            match table {
                Ok(t) => table_of(args@) matches Ok(filled) && filled == t@,
                Err(e) => table_of(args@) matches Err(why) && why == e,
            },
    {
        let mut table = OffsetTable::new();
        let mut i: usize = 0;
        while i < args.len()
            invariant
                i <= args@.len(),
                table_of(args@.take(i as int)) matches Ok(filled) && filled == table@,
            decreases args@.len() - i,
        {
            proof {
                assert(args@.take(i + 1).drop_last() =~= args@.take(i as int));
            }
            match try_parse_offset_value(&args[i]) {
                Ok((identity, offset)) => {
                    table.insert(identity, offset);
                },
                Err(e) => {
                    proof {
                        lemma_table_of_keeps_failing(args@, i + 1);
                    }
                    return Err(e);
                },
            }
            i += 1;
        }
        proof {
            assert(args@.take(i as int) =~= args@);
        }
        Ok(table)
    }
}

/// Once a list of offset arguments has been turned down, further arguments
/// do not change the complaint.
pub proof fn lemma_table_of_keeps_failing(args: Seq<String>, n: int)
    requires
        0 <= n <= args.len(),
        table_of(args.take(n)) is Err,
    ensures
        table_of(args) == table_of(args.take(n)),
    decreases args.len() - n,
{
    if n == args.len() {
        assert(args.take(n) =~= args);
    } else {
        assert(args.take(n + 1).drop_last() =~= args.take(n));
        lemma_table_of_keeps_failing(args, n + 1);
    }
}

/// Whether the offset argument `arg` is well formed and names `identity`.
pub open spec fn names_identity(arg: Seq<char>, identity: Seq<char>) -> bool {
    offset_entry(arg) matches Ok((named, _)) && named == identity
}

/// Whether argument `i` is the last of `args` that names `identity`.
pub open spec fn names_last(args: Seq<String>, identity: Seq<char>, i: int) -> bool {
    &&& 0 <= i < args.len()
    &&& names_identity(args[i]@, identity)
    &&& forall|j: int| i < j < args.len() ==> !names_identity(#[trigger] args[j]@, identity)
}

/// A list of offset arguments fills a table just where each of them is well
/// formed. The table then holds an identity just where an argument names
/// it, and holds for it the offset of the last argument that does.
pub proof fn lemma_table_holds_last_entry(args: Seq<String>, identity: Seq<char>)
    ensures
        table_of(args) is Ok <==> forall|i: int|
            0 <= i < args.len() ==> offset_entry(#[trigger] args[i]@) is Ok,
        table_of(args) matches Ok(table) ==> (table.contains_key(identity) <==> exists|i: int|
            0 <= i < args.len() && names_identity(#[trigger] args[i]@, identity)),
        table_of(args) matches Ok(table) ==> forall|i: int|
            names_last(args, identity, i) ==> (offset_entry(#[trigger] args[i]@) matches Ok(read)
                && read.1 == table[identity]),
    decreases args.len(),
{
    if args.len() > 0 {
        let head = args.drop_last();
        let n = args.len() - 1;
        lemma_table_holds_last_entry(head, identity);
        assert forall|i: int| 0 <= i < n implies head[i] == args[i] by {}
        if table_of(args) is Ok {
            assert forall|i: int| 0 <= i < args.len() implies offset_entry(
                #[trigger] args[i]@,
            ) is Ok by {}
        }
        if forall|i: int| 0 <= i < args.len() ==> offset_entry(#[trigger] args[i]@) is Ok {
            assert forall|i: int| 0 <= i < n implies offset_entry(#[trigger] head[i]@) is Ok by {}
        }
        if let Ok(table) = table_of(args) {
            if !names_identity(args[n]@, identity) {
                // an argument that names the identity is one of `head`, and back
                if table.contains_key(identity) {
                    let i = choose|i: int|
                        0 <= i < n && names_identity(#[trigger] head[i]@, identity);
                    assert(names_identity(args[i]@, identity));
                }
                if exists|i: int|
                    0 <= i < args.len() && names_identity(#[trigger] args[i]@, identity) {
                    let i = choose|i: int|
                        0 <= i < args.len() && names_identity(#[trigger] args[i]@, identity);
                    assert(names_identity(head[i]@, identity));
                }
            }
            assert forall|i: int| names_last(args, identity, i) implies (offset_entry(
                #[trigger] args[i]@,
            ) matches Ok(read) && read.1 == table[identity]) by {
                if i < n {
                    // the last of `args` to name the identity is the last of `head` to do so
                    assert(names_last(head, identity, i));
                }
            }
        }
    }
}

/// Where a list of offset arguments is turned down, the complaint is about
/// the first argument that is not well formed.
pub proof fn lemma_table_reports_first_failure(args: Seq<String>, first: int)
    requires
        0 <= first < args.len(),
        offset_entry(args[first]@) is Err,
        forall|i: int| 0 <= i < first ==> offset_entry(#[trigger] args[i]@) is Ok,
    ensures
        table_of(args) matches Err(e) && (offset_entry(args[first]@) matches Err(why) && why == e),
{
    let upto = args.take(first + 1);
    let before = args.take(first);
    assert(upto.drop_last() =~= before);
    assert forall|i: int| 0 <= i < before.len() implies offset_entry(
        #[trigger] before[i]@,
    ) is Ok by {}
    lemma_table_holds_last_entry(before, Seq::empty());
    lemma_table_of_keeps_failing(args, first + 1);
}

/// The offset argument that says `identity:dx:dy` in full.
pub open spec fn offset_argument(identity: Seq<char>, offset: Offset) -> Seq<char> {
    identity + seq![':'] + decimal(offset.0 as int) + seq![':'] + decimal(offset.1 as int)
}

/// An offset argument written in full for an identity without a colon is
/// read as that identity and that offset.
pub proof fn lemma_offset_argument_reads_back(identity: Seq<char>, offset: Offset)
    requires
        forall|i: int| 0 <= i < identity.len() ==> identity[i] != ':',
    ensures
        offset_entry(offset_argument(identity, offset)) matches Ok(read) && read == (
            identity,
            offset,
        ),
{
    let x = decimal(offset.0 as int);
    let y = decimal(offset.1 as int);
    let s = offset_argument(identity, offset);
    let first = identity.len() as int;
    let second = first + 1 + x.len();
    assert forall|i: int| 0 <= i < first implies s[i] != ':' by {}
    assert forall|i: int| first + 1 <= i < second implies s[i] != ':' by {
        lemma_decimal_chars(offset.0 as int, i - first - 1);
    }
    assert forall|i: int| second + 1 <= i < s.len() implies s[i] != ':' by {
        lemma_decimal_chars(offset.1 as int, i - second - 1);
    }
    lemma_position_skips(s, ':', 0, first);
    lemma_position_skips(s, ':', first + 1, second);
    lemma_position_skips(s, ':', second + 1, s.len() as int);
    assert(s.subrange(first + 1, second) =~= x);
    assert(s.subrange(second + 1, s.len() as int) =~= y);
    lemma_decimal_reads_back(offset.0);
    lemma_decimal_reads_back(offset.1);
}

} // verus!
