//! Which unwind information the stack walker can be given.

use vstd::prelude::*;

verus! {

/// Whether a byte separates words.
pub open spec fn is_blank(byte: u8) -> bool {
    byte == 0x20 || 0x09 <= byte <= 0x0d
}

/// Whether the byte at `index` is an operator that divides: it is a `/` or a `%`, and stands alone or
/// right behind a `=`.
pub open spec fn divides(data: Seq<u8>, index: int) -> bool {
    &&& data[index] == 0x2f || data[index] == 0x25
    &&& 0 < index ==> is_blank(data[index - 1]) || data[index - 1] == 0x3d
    &&& index + 1 < data.len() ==> is_blank(data[index + 1]) || data[index + 1] == 0
}

/// Whether a negative number may start at `index`, alone or right behind a `=`.
pub open spec fn is_negative(data: Seq<u8>, index: int) -> bool {
    &&& data[index] == 0x2d
    &&& 0 < index ==> is_blank(data[index - 1]) || data[index - 1] == 0x3d
    &&& index + 1 < data.len()
    &&& !is_blank(data[index + 1])
}

/// Whether an operator that assigns may start at `index`.
pub open spec fn assigns(data: Seq<u8>, index: int) -> bool {
    data[index] == 0x3d && (0 < index ==> is_blank(data[index - 1]))
}

/// Whether a byte ends a line.
pub open spec fn ends_line(byte: u8) -> bool {
    byte == 0x0a || byte == 0x0d
}

/// Whether a negative number stands on the line before `index`.
pub open spec fn negative_before(data: Seq<u8>, index: int) -> bool
    decreases index,
{
    0 < index && !ends_line(data[index - 1]) && (is_negative(data, index - 1) || negative_before(
        data,
        index - 1,
    ))
}

/// Whether an operator that assigns stands on the line before `index`.
pub open spec fn assigned_before(data: Seq<u8>, index: int) -> bool
    decreases index,
{
    0 < index && !ends_line(data[index - 1]) && (assigns(data, index - 1) || assigned_before(
        data,
        index - 1,
    ))
}

/// Whether the line before `index` may assign to a negative number.
pub open spec fn assigns_to_number(data: Seq<u8>, index: int) -> bool {
    negative_before(data, index) && assigned_before(data, index)
}

/// Whether the last three bytes are those of a word.
pub open spec fn ends_with(data: Seq<u8>, a: u8, b: u8, c: u8) -> bool {
    let n = data.len() as int;
    3 <= n && data[n - 3] == a && data[n - 2] == b && data[n - 1] == c
}

/// Whether a byte separates the words of a record.
pub open spec fn separates(byte: u8) -> bool {
    byte == 0x20 || byte == 0x0d || byte == 0x0a
}

/// The first place from `at` on of a byte that separates words, or of one that does not, or the end.
pub open spec fn next_place(data: Seq<u8>, at: int, separating: bool) -> int
    decreases data.len() - at,
{
    if 0 <= at < data.len() && separates(data[at]) != separating {
        next_place(data, at + 1, separating)
    } else {
        at
    }
}

/// Where the word behind the one at `at` starts.
pub open spec fn next_word(data: Seq<u8>, at: int) -> int {
    next_place(data, next_place(data, at, true), false)
}

/// Whether a byte is a hexadecimal digit.
pub open spec fn is_hex_digit(byte: u8) -> bool {
    0x30 <= byte <= 0x39 || 0x41 <= byte <= 0x46 || 0x61 <= byte <= 0x66
}

/// Whether a word at `at` is a number of at most three hexadecimal digits.
pub open spec fn is_short_number(data: Seq<u8>, at: int) -> bool {
    &&& at < next_place(data, at, true) <= at + 3
    &&& forall|i: int|
        at <= i < next_place(data, at, true) ==> is_hex_digit(#[trigger] data[i])
}

/// Whether a record for Windows starts at `at` whose range may be wide: its kind, its type and its
/// address stand before its size.
pub open spec fn has_wide_range(data: Seq<u8>, at: int) -> bool {
    &&& stands_for_windows(data, at)
    &&& !is_short_number(data, next_word(data, next_word(data, next_word(data, at))))
}

/// Whether the kind of a record for Windows stands at `at`.
pub open spec fn stands_for_windows(data: Seq<u8>, at: int) -> bool {
    at + 3 <= data.len() && data[at] == 0x57 && data[at + 1] == 0x49 && data[at + 2] == 0x4e
}

/// How many of the records for Windows that start in the first bytes have wide ranges.
pub open spec fn wide_ranges(data: Seq<u8>, count: int) -> int
    decreases count,
{
    if count <= 0 {
        0
    } else if has_wide_range(data, count - 1) {
        wide_ranges(data, count - 1) + 1
    } else {
        wide_ranges(data, count - 1)
    }
}

/// How many records for Windows may have wide ranges.
pub const MAX_WIDE_RANGES: u64 = 2048;

/// Whether the stack walker can be given unwind information: no rule of it divides or may assign to a
/// negative number, it does not end with `CFI` or `WIN`, behind which a record goes on, and only so
/// many ranges can lie in each other. Each of these is wider than those in it, and all but few have
/// less than 4096 bytes.
pub open spec fn is_sound_cfi(data: Seq<u8>) -> bool {
    &&& forall|i: int| 0 <= i < data.len() ==> !#[trigger] divides(data, i)
    &&& forall|i: int| 0 <= i <= data.len() ==> !#[trigger] assigns_to_number(data, i)
    &&& !ends_with(data, 0x43, 0x46, 0x49)
    &&& !ends_with(data, 0x57, 0x49, 0x4e)
    &&& wide_ranges(data, data.len() as int) <= MAX_WIDE_RANGES
}

fn check_blank(byte: u8) -> (r: bool)
    ensures
        r == is_blank(byte),
{
    byte == 0x20 || (0x09 <= byte && byte <= 0x0d)
}

fn check_end(data: &[u8], a: u8, b: u8, c: u8) -> (r: bool)
    ensures
        r == ends_with(data@, a, b, c),
{
    let n: usize = data.len();
    3 <= n && data[n - 3] == a && data[n - 2] == b && data[n - 1] == c
}

fn find_place(data: &[u8], start: usize, separating: bool) -> (r: usize)
    ensures
        r == next_place(data@, start as int, separating),
        start <= r,
        r <= start || r <= data@.len(),
{
    let mut at: usize = start;
    while at < data.len() && (data[at] == 0x20 || data[at] == 0x0d || data[at] == 0x0a)
        != separating
        invariant
            start <= at,
            at <= start || at <= data@.len(),
            next_place(data@, start as int, separating) == next_place(
                data@,
                at as int,
                separating,
            ),
        decreases data@.len() - at,
    {
        at += 1;
    }
    at
}

fn find_next_word(data: &[u8], at: usize) -> (r: usize)
    ensures
        r == next_word(data@, at as int),
{
    let end: usize = find_place(data, at, true);
    find_place(data, end, false)
}

fn check_short_number(data: &[u8], at: usize) -> (r: bool)
    ensures
        r == is_short_number(data@, at as int),
{
    let end: usize = find_place(data, at, true);
    if end == at || end - at > 3 {
        return false;
    }
    let mut i: usize = at;
    while i < end
        invariant
            at <= i <= end <= data@.len(),
            end == next_place(data@, at as int, true),
            forall|j: int| at <= j < i ==> is_hex_digit(#[trigger] data@[j]),
        decreases end - i,
    {
        let byte: u8 = data[i];
        if !((0x30 <= byte && byte <= 0x39) || (0x41 <= byte && byte <= 0x46) || (0x61 <= byte
            && byte <= 0x66)) {
            assert(!is_hex_digit(data@[i as int]));
            return false;
        }
        i += 1;
    }
    true
}

fn check_wide_range(data: &[u8], at: usize) -> (r: bool)
    requires
        at < data@.len(),
    ensures
        r == has_wide_range(data@, at as int),
{
    if data.len() - at < 3 || data[at] != 0x57 || data[at + 1] != 0x49 || data[at + 2] != 0x4e {
        return false;
    }
    let kind: usize = find_next_word(data, at);
    let address: usize = find_next_word(data, kind);
    let size: usize = find_next_word(data, address);
    !check_short_number(data, size)
}

/// More bytes have as many records with wide ranges as fewer, or more.
proof fn lemma_wide_ranges_grow(data: Seq<u8>, count: int, end: int)
    requires
        0 <= count <= end,
    ensures
        wide_ranges(data, count) <= wide_ranges(data, end),
    decreases end - count,
{
    if count < end {
        lemma_wide_ranges_grow(data, count, end - 1);
    }
}

fn check_ranges(data: &[u8]) -> (r: bool)
    ensures
        r == (wide_ranges(data@, data@.len() as int) <= MAX_WIDE_RANGES),
{
    let mut wide: u64 = 0;
    let mut i: usize = 0;
    while i < data.len()
        invariant
            0 <= i <= data@.len(),
            wide == wide_ranges(data@, i as int),
            wide <= MAX_WIDE_RANGES,
        decreases data@.len() - i,
    {
        if check_wide_range(data, i) {
            proof {
                lemma_wide_ranges_grow(data@, i + 1, data@.len() as int);
            }
            if wide == MAX_WIDE_RANGES {
                return false;
            }
            wide += 1;
        }
        i += 1;
    }
    true
}

fn check_divisions(data: &[u8]) -> (r: bool)
    ensures
        r == forall|i: int| 0 <= i < data@.len() ==> !#[trigger] divides(data@, i),
{
    let mut i: usize = 0;
    while i < data.len()
        invariant
            0 <= i <= data@.len(),
            forall|j: int| 0 <= j < i ==> !#[trigger] divides(data@, j),
        decreases data@.len() - i,
    {
        let ok: bool = (data[i] != 0x2f && data[i] != 0x25) || (0 < i && !check_blank(data[i - 1])
            && data[i - 1] != 0x3d) || (i + 1 < data.len() && !check_blank(data[i + 1])
            && data[i + 1] != 0);
        assert(ok == !divides(data@, i as int));
        if !ok {
            return false;
        }
        i += 1;
    }
    true
}

fn check_negative(data: &[u8], i: usize) -> (r: bool)
    requires
        i < data@.len(),
    ensures
        r == is_negative(data@, i as int),
{
    data[i] == 0x2d && (i == 0 || check_blank(data[i - 1]) || data[i - 1] == 0x3d) && data.len() - i
        > 1 && !check_blank(data[i + 1])
}

fn check_assignments(data: &[u8]) -> (r: bool)
    ensures
        r == forall|i: int| 0 <= i <= data@.len() ==> !#[trigger] assigns_to_number(data@, i),
{
    let mut negative: bool = false;
    let mut assigned: bool = false;
    let mut i: usize = 0;
    while i < data.len()
        invariant
            0 <= i <= data@.len(),
            negative == negative_before(data@, i as int),
            assigned == assigned_before(data@, i as int),
            forall|j: int| 0 <= j <= i ==> !#[trigger] assigns_to_number(data@, j),
        decreases data@.len() - i,
    {
        let byte: u8 = data[i];
        if byte == 0x0a || byte == 0x0d {
            negative = false;
            assigned = false;
        } else {
            negative = negative || check_negative(data, i);
            assigned = assigned || (byte == 0x3d && (i == 0 || check_blank(data[i - 1])));
        }
        i += 1;
        assert(negative == negative_before(data@, i as int));
        assert(assigned == assigned_before(data@, i as int));
        if negative && assigned {
            assert(assigns_to_number(data@, i as int));
            return false;
        }
    }
    true
}

/// Whether the stack walker can be given unwind information.
pub fn check_cfi(data: &[u8]) -> (r: bool)
    ensures
        r == is_sound_cfi(data@),
{
    check_divisions(data) && check_assignments(data) && !check_end(data, 0x43, 0x46, 0x49)
        && !check_end(data, 0x57, 0x49, 0x4e) && check_ranges(data)
}

/// There are no more wide ranges than letters that start a record for Windows.
proof fn lemma_wide_ranges(data: Seq<u8>, count: int)
    requires
        0 <= count <= data.len(),
    ensures
        0 <= wide_ranges(data, count) <= data.take(count).filter(|byte: u8| byte == 0x57).len(),
    decreases count,
{
    reveal(Seq::filter);
    if count > 0 {
        lemma_wide_ranges(data, count - 1);
        assert(data.take(count).drop_last() =~= data.take(count - 1));
        assert(data.take(count).last() == data[count - 1]);
    }
}

/// No operator stands before `index` that assigns.
proof fn lemma_nothing_assigned(data: Seq<u8>, index: int)
    requires
        0 <= index <= data.len(),
        forall|i: int| 0 <= i < data.len() ==> #[trigger] data[i] != 0x3d,
    ensures
        !assigned_before(data, index),
    decreases index,
{
    if index > 0 {
        lemma_nothing_assigned(data, index - 1);
    }
}

/// The stack walker is given all unwind information that ends a line, neither divides nor assigns
/// anywhere, and has at most 2048 records for Windows: so all that describes frames by the rules of
/// debug information.
pub proof fn law_unwind_rules_are_used(data: Seq<u8>)
    requires
        data.len() > 0 ==> data[data.len() - 1] == 0x0a,
        forall|i: int|
            #![trigger data[i]]
            0 <= i < data.len() ==> data[i] != 0x2f && data[i] != 0x25 && data[i] != 0x3d,
        data.filter(|byte: u8| byte == 0x57).len() <= 2048,
    ensures
        is_sound_cfi(data),
{
    let n = data.len() as int;
    lemma_wide_ranges(data, n);
    assert(data.take(n) =~= data);
    assert forall|i: int| 0 <= i < n implies !#[trigger] divides(data, i) by {
        assert(data[i] != 0x2f && data[i] != 0x25);
    }
    assert forall|i: int| 0 <= i <= n implies !#[trigger] assigns_to_number(data, i) by {
        lemma_nothing_assigned(data, i);
    }
}

} // verus!
