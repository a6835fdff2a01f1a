//! The parts that the names of Swift functions are made of.

use vstd::prelude::*;

use crate::demangle::{char_is_digit, chars_of, holds, is_digit, stands_at, stands_in, starts_with};

verus! {

/// The character at `at`, or the one with the number zero behind the end.
pub open spec fn char_at(text: Seq<char>, at: int) -> char {
    if 0 <= at < text.len() {
        text[at]
    } else {
        '\0'
    }
}

/// Whether a character is a small letter.
pub open spec fn is_small(c: char) -> bool {
    97 <= c as int <= 122
}

/// Whether a character is a capital letter.
pub open spec fn is_capital(c: char) -> bool {
    65 <= c as int <= 90
}

/// Where the digits that start at `at` end.
pub open spec fn digits_end(text: Seq<char>, at: int) -> int
    decreases text.len() - at,
{
    if 0 <= at < text.len() && is_digit(text[at]) {
        digits_end(text, at + 1)
    } else {
        at
    }
}

/// The number that digits make.
pub open spec fn number_of(text: Seq<char>, start: int, end: int) -> int
    decreases end - start,
{
    if end <= start {
        0
    } else {
        10 * number_of(text, start, end - 1) + (text[end - 1] as int - 48)
    }
}

/// The number at `at`, behind where it ends. None where there is none, or it has more than nine
/// digits.
pub open spec fn number_at(text: Seq<char>, at: int) -> Option<(int, int)> {
    let end = digits_end(text, at);
    if at < end <= at + 9 {
        Some((end, number_of(text, at, end)))
    } else {
        None
    }
}

/// Where an index that starts at `at` ends: a number, which may be missing, and a low line.
pub open spec fn index_end(text: Seq<char>, at: int) -> int {
    let end = digits_end(text, at);
    if char_at(text, end) == '_' {
        end + 1
    } else {
        end
    }
}

/// Where the reference to a generic parameter that starts at `at` ends.
pub open spec fn parameter_end(text: Seq<char>, at: int) -> int {
    if char_at(text, at) == 'd' {
        index_end(text, index_end(text, at + 1))
    } else if char_at(text, at) == 'z' {
        at + 1
    } else {
        index_end(text, at)
    }
}

/// Where as many characters as the number at `at` says end, which stand behind the number. None where
/// that is zero.
pub open spec fn counted_end(text: Seq<char>, at: int) -> Option<int> {
    match number_at(text, at) {
        Some((end, number)) => if number > 0 {
            Some(end + number)
        } else {
            None
        },
        None => None,
    }
}

/// Where an identifier that repeats words of others ends, once it is read up to `at`.
pub open spec fn words_end(text: Seq<char>, at: int) -> Option<int>
    decreases text.len() - at,
{
    let c = char_at(text, at);
    if at < 0 || at >= text.len() {
        None
    } else if is_small(c) {
        words_end(text, at + 1)
    } else if is_capital(c) {
        if char_at(text, at + 1) == '0' {
            Some(at + 2)
        } else {
            counted_end(text, at + 1)
        }
    } else if c == '0' {
        Some(at + 1)
    } else {
        match counted_end(text, at) {
            Some(next) => if at < next <= text.len() {
                words_end(text, next)
            } else {
                None
            },
            None => None,
        }
    }
}

/// Where the identifier that starts at `at` ends.
pub open spec fn identifier_end(text: Seq<char>, at: int) -> Option<int> {
    if text[at] != '0' {
        counted_end(text, at)
    } else if char_at(text, at + 1) != '0' {
        words_end(text, at + 1)
    } else if char_at(text, at + 2) == '0' {
        None
    } else {
        match number_at(text, at + 2) {
            Some((end, number)) => if number == 0 {
                None
            } else if char_at(text, end) == '_' {
                Some(end + 1 + number)
            } else {
                Some(end + number)
            },
            None => None,
        }
    }
}

/// How often a part stands there, given the number before it.
pub open spec fn at_least_one(number: int) -> int {
    if number > 1 {
        number
    } else {
        1
    }
}

/// Where the parts that are repeated from `at` on end, and how many they are with `repeated` that
/// stand before them.
pub open spec fn repeats_end(text: Seq<char>, at: int, repeated: int) -> Option<(int, int)>
    decreases text.len() - at,
{
    let c = char_at(text, at);
    if at < 0 || at >= text.len() {
        None
    } else if is_small(c) {
        repeats_end(text, at + 1, repeated + 1)
    } else if is_capital(c) || c == '_' {
        Some((at + 1, repeated + 1))
    } else {
        match number_at(text, at) {
            Some((end, number)) => if is_small(char_at(text, end)) {
                if at < end {
                    repeats_end(text, end + 1, repeated + at_least_one(number))
                } else {
                    None
                }
            } else if is_capital(char_at(text, end)) {
                Some((end + 1, repeated + at_least_one(number)))
            } else if char_at(text, end) == '_' {
                Some((end + 1, repeated + 1))
            } else {
                None
            },
            None => None,
        }
    }
}

/// The first place of a character from `at` on, or the end.
pub open spec fn first_place(text: Seq<char>, at: int, c: char) -> int
    decreases text.len() - at,
{
    if 0 <= at < text.len() && text[at] != c {
        first_place(text, at + 1, c)
    } else {
        at
    }
}

/// Where the numbers of generic parameters that start at `at` end.
pub open spec fn counts_end(text: Seq<char>, at: int) -> Option<int>
    decreases text.len() - at,
{
    let c = char_at(text, at);
    if at < 0 || at >= text.len() {
        None
    } else if c == 'l' {
        Some(at + 1)
    } else if c == 'z' || c == '_' || is_digit(c) {
        counts_end(text, at + 1)
    } else {
        None
    }
}

/// Where what is required of a generic parameter ends, once the letter for it was read up to `at`.
pub open spec fn requirement_end(text: Seq<char>, at: int) -> Option<int> {
    let c = char_at(text, at);
    let next = if "BSLQ"@.contains(c) {
        at + 1
    } else if "cCbtTsmMlpP"@.contains(c) {
        parameter_end(text, at + 1)
    } else {
        parameter_end(text, at)
    };
    let d = char_at(text, next);
    if !"mMlL"@.contains(c) {
        Some(next)
    } else if "URNCDT"@.contains(d) {
        Some(next + 1)
    } else if "EM"@.contains(d) {
        Some(index_end(text, index_end(text, next + 1)))
    } else if "em"@.contains(d) {
        Some(index_end(text, next + 1))
    } else {
        None
    }
}

/// Where the number of what specialized a function ends, which starts at `at`.
pub open spec fn pass_end(text: Seq<char>, at: int) -> Option<int> {
    let start = if char_at(text, at) == 'q' {
        at + 1
    } else {
        at
    };
    if is_digit(char_at(text, start)) {
        Some(start + 1)
    } else {
        None
    }
}

/// Where a specialization of a function by its parameters ends, which starts at `at`. None where its
/// result is specialized too.
pub open spec fn specialization_end(text: Seq<char>, at: int) -> Option<int> {
    match pass_end(text, at) {
        Some(start) => {
            let line = first_place(text, start, '_');
            if char_at(text, line + 1) == 'n' {
                Some(line + 2)
            } else {
                None
            }
        },
        None => None,
    }
}

/// A part of a name.
pub struct SwiftPart {
    /// Where the next part starts.
    pub next: int,
    /// Whether the part makes a type or a generic signature.
    pub typed: bool,
    /// How many parts the part stands for.
    pub count: int,
    /// How many parts that stand before it the part repeats.
    pub repeated: int,
}

/// A part that stands for itself and ends at `next`.
pub open spec fn single_part(next: int, typed: bool) -> Option<SwiftPart> {
    Some(SwiftPart { next, typed, count: 1, repeated: 0 })
}

/// A part that stands for itself and may end at `next`.
pub open spec fn possible_part(next: Option<int>, typed: bool) -> Option<SwiftPart> {
    match next {
        Some(next) => single_part(next, typed),
        None => None,
    }
}

/// The part of a thunk or a specialization at `at`.
pub open spec fn thunk_part(text: Seq<char>, at: int) -> Option<SwiftPart> {
    let d = char_at(text, at + 1);
    if "gGipP"@.contains(d) {
        possible_part(pass_end(text, at + 2), false)
    } else if "KkHh"@.contains(d) {
        single_part(
            if char_at(text, at + 2) == 'q' {
                at + 3
            } else {
                at + 2
            },
            false,
        )
    } else if d == 'v' {
        single_part(index_end(text, at + 2), false)
    } else if d == 'f' {
        possible_part(specialization_end(text, at + 2), false)
    } else if d == 'e' {
        None
    } else {
        single_part(at + 2, false)
    }
}

/// The part at `at` that has a second letter.
pub open spec fn lettered_part(text: Seq<char>, at: int) -> Option<SwiftPart> {
    let c = text[at];
    let d = char_at(text, at + 1);
    if c == 'B' {
        single_part(
            if "fiv"@.contains(d) {
                index_end(text, at + 2)
            } else {
                at + 2
            },
            true,
        )
    } else if c == 'H' {
        if "ADI"@.contains(d) {
            single_part(index_end(text, at + 2), false)
        } else {
            single_part(at + 2, false)
        }
    } else if c == 'L' {
        if "LlabcdefghijABCDEFGHIJ"@.contains(d) {
            single_part(at + 2, false)
        } else {
            single_part(index_end(text, at + 1), false)
        }
    } else if c == 'M' {
        single_part(
            if d == 'X' {
                at + 3
            } else {
                at + 2
            },
            false,
        )
    } else if c == 'Q' {
        if d == 'o' {
            single_part(index_end(text, at + 2), true)
        } else if "yY"@.contains(d) {
            single_part(parameter_end(text, at + 2), true)
        } else {
            single_part(at + 2, d != 'O')
        }
    } else if c == 'S' {
        if is_digit(d) {
            match number_at(text, at + 1) {
                Some((end, number)) => Some(
                    SwiftPart {
                        next: end + 1,
                        typed: true,
                        count: at_least_one(number),
                        repeated: 0,
                    },
                ),
                None => None,
            }
        } else {
            single_part(at + 2, d != 'o' && d != 'C')
        }
    } else if c == 'W' {
        single_part(
            if "vO"@.contains(d) {
                at + 3
            } else {
                at + 2
            },
            false,
        )
    } else if c == 'X' {
        single_part(
            if "MmS"@.contains(d) {
                at + 3
            } else {
                at + 2
            },
            d != 'Z',
        )
    } else if c == 'f' {
        single_part(
            if "UuA"@.contains(d) {
                index_end(text, at + 2)
            } else {
                at + 2
            },
            false,
        )
    } else if c == 'v' || c == 'i' {
        single_part(
            if "al"@.contains(d) {
                at + 3
            } else {
                at + 2
            },
            false,
        )
    } else if c == 'w' {
        single_part(at + 3, false)
    } else if c == 'o' {
        single_part(at + 2, false)
    } else {
        None
    }
}

/// The part at `at`. None where it is not known where it ends.
pub open spec fn part_at(text: Seq<char>, at: int) -> Option<SwiftPart> {
    let c = text[at];
    if is_digit(c) {
        possible_part(identifier_end(text, at), false)
    } else if "CVOPaGmnhzxcptul"@.contains(c) {
        single_part(at + 1, true)
    } else if "DEFKNZdsy_"@.contains(c) {
        single_part(at + 1, false)
    } else if c == 'A' {
        match repeats_end(text, at + 1, 0) {
            Some((next, repeated)) => Some(
                SwiftPart { next, typed: false, count: repeated, repeated },
            ),
            None => None,
        }
    } else if c == 'I' {
        single_part(first_place(text, at + 1, '_') + 1, true)
    } else if c == 'R' {
        possible_part(requirement_end(text, at + 1), false)
    } else if c == 'T' {
        thunk_part(text, at)
    } else if c == 'q' {
        single_part(parameter_end(text, at + 1), true)
    } else if c == 'r' {
        possible_part(counts_end(text, at + 1), true)
    } else if c == 'g' {
        single_part(index_end(text, at + 1), false)
    } else if c == '.' {
        single_part(text.len() as int, false)
    } else {
        lettered_part(text, at)
    }
}

/// Whether a thunk may stand at `at` that needs types before it.
pub open spec fn needs_types(text: Seq<char>, at: int) -> bool {
    text[at] == 'T' && "Rry"@.contains(char_at(text, at + 1))
}

/// Whether no part that needs a type or is repeated can start at `at`.
pub open spec fn is_plain_at(text: Seq<char>, at: int) -> bool {
    &&& !needs_types(text, at)
    &&& text[at] != 'A'
    &&& !(text[at] == 'S' && is_digit(char_at(text, at + 1)))
}

/// Whether nothing of what stands from `at` on needs a type or is repeated, wherever parts start.
pub open spec fn is_plain(text: Seq<char>, at: int) -> bool {
    forall|i: int| at <= i < text.len() ==> #[trigger] is_plain_at(text, i)
}

/// How many parts a name may have.
pub const MAX_PARTS: u64 = 256;

/// How many parts of a name may be repeated.
pub const MAX_REPEATED: u64 = 36;

/// Whether what stands from `at` on can be demangled, where parts that stand for `count` and repeat
/// `repeated` stand before it, the last of which is `typed`. A thunk that needs types stands behind
/// one, and names in full need more than one.
pub open spec fn rest_is_sound(
    text: Seq<char>,
    at: int,
    count: int,
    repeated: int,
    typed: bool,
    full: bool,
) -> bool
    decreases text.len() - at,
{
    if at >= text.len() {
        count <= MAX_PARTS && repeated <= MAX_REPEATED
    } else {
        match part_at(text, at) {
            Some(part) => if at < part.next <= text.len() {
                &&& needs_types(text, at) ==> typed && !full && char_at(text, at + 1) != 'y'
                &&& rest_is_sound(
                    text,
                    part.next,
                    count + part.count,
                    repeated + part.repeated,
                    part.typed,
                    full,
                )
            } else {
                tail_is_sound(text, at, count, repeated)
            },
            None => tail_is_sound(text, at, count, repeated),
        }
    }
}

/// Whether what stands from `at` on can be demangled wherever parts start, where parts that stand for
/// `count` and repeat `repeated` stand before it.
pub open spec fn tail_is_sound(text: Seq<char>, at: int, count: int, repeated: int) -> bool {
    &&& is_plain(text, at)
    &&& count + (text.len() - at) <= MAX_PARTS
    &&& repeated <= MAX_REPEATED
}

/// Whether a name starts as those of Swift do.
pub open spec fn is_swift_name(text: Seq<char>) -> bool {
    ||| stands_at(text, 0, "_T"@)
    ||| stands_at(text, 0, "$S"@)
    ||| stands_at(text, 0, "_$S"@)
    ||| stands_at(text, 0, "$s"@)
    ||| stands_at(text, 0, "_$s"@)
}

/// Where the parts of a name start.
pub open spec fn parts_start(text: Seq<char>) -> int {
    if stands_at(text, 0, "$S"@) || stands_at(text, 0, "$s"@) {
        2
    } else {
        3
    }
}

/// Whether all characters are ASCII. The length of an identifier counts bytes.
pub open spec fn is_ascii(text: Seq<char>) -> bool {
    forall|i: int| 0 <= i < text.len() ==> (#[trigger] text[i] as int) < 128
}

/// Whether a character points to a place outside of the name.
pub open spec fn is_reference_mark(c: char) -> bool {
    1 <= c as int <= 12
}

/// Whether the demangler for Swift names can be given a name, in full or not. An opaque type names
/// what stands before its types. In names in the first form of the language each character may hold
/// another part.
pub open spec fn is_sound_swift(text: Seq<char>, full: bool) -> bool {
    &&& text.len() <= 65536
    &&& forall|i: int| 0 <= i < text.len() ==> !is_reference_mark(#[trigger] text[i])
    &&& if stands_at(text, 0, "_T"@) && !stands_at(text, 0, "_T0"@) {
        text.len() <= 96
    } else {
        &&& char_at(text, parts_start(text)) == 'y' ==> !stands_in(text, "Qo"@)
        &&& if is_ascii(text) {
            rest_is_sound(text, parts_start(text), 0, 0, false, full)
        } else {
            tail_is_sound(text, parts_start(text), 0, 0)
        }
    }
}

fn char_or_end(text: &Vec<char>, at: usize) -> (r: char)
    ensures
        r == char_at(text@, at as int),
{
    if at < text.len() {
        text[at]
    } else {
        '\0'
    }
}

fn check_small(c: char) -> (r: bool)
    ensures
        r == is_small(c),
{
    97 <= c as u32 && c as u32 <= 122
}

fn check_capital(c: char) -> (r: bool)
    ensures
        r == is_capital(c),
{
    65 <= c as u32 && c as u32 <= 90
}

fn digit_value(c: char) -> (r: u64)
    requires
        is_digit(c),
    ensures
        r == c as int - 48,
        r <= 9,
{
    (c as u32 - 48) as u64
}

pub(crate) fn is_one_of(c: char, letters: &str) -> (r: bool)
    ensures
        r == letters@.contains(c),
{
    let chars = chars_of(letters);
    let mut i: usize = 0;
    while i < chars.len()
        invariant
            chars@ == letters@,
            i <= chars.len(),
            forall|j: int| 0 <= j < i ==> letters@[j] != c,
        decreases chars.len() - i,
    {
        if chars[i] == c {
            assert(letters@[i as int] == c);
            return true;
        }
        i += 1;
    }
    false
}

fn find_digits_end(text: &Vec<char>, at: usize) -> (r: usize)
    ensures
        r == digits_end(text@, at as int),
        at <= r,
        r <= at || r <= text.len(),
        forall|i: int| at <= i < r ==> is_digit(#[trigger] text@[i]),
{
    let mut end: usize = at;
    while end < text.len() && char_is_digit(text[end])
        invariant
            at <= end,
            end <= at || end <= text.len(),
            digits_end(text@, at as int) == digits_end(text@, end as int),
            forall|i: int| at <= i < end ==> is_digit(#[trigger] text@[i]),
        decreases text.len() - end,
    {
        end += 1;
    }
    end
}

fn read_number(text: &Vec<char>, at: usize) -> (r: Option<(usize, u64)>)
    requires
        text.len() <= 65536,
    ensures
        match r {
            Some((end, number)) => {
                &&& number_at(text@, at as int) == Some((end as int, number as int))
                &&& at < end <= text.len()
                &&& number < 1_000_000_000
            },
            None => number_at(text@, at as int) is None,
        },
{
    let end: usize = find_digits_end(text, at);
    if end == at || end - at > 9 {
        return None;
    }
    let mut number: u64 = 0;
    let mut limit: u64 = 1;
    let mut k: usize = at;
    while k < end
        invariant
            at <= k <= end <= at + 9,
            end <= text.len() <= 65536,
            forall|i: int| at <= i < end ==> is_digit(#[trigger] text@[i]),
            number == number_of(text@, at as int, k as int),
            number < limit,
            k == at ==> limit == 1,
            k == at + 1 ==> limit == 10,
            k == at + 2 ==> limit == 100,
            k == at + 3 ==> limit == 1_000,
            k == at + 4 ==> limit == 10_000,
            k == at + 5 ==> limit == 100_000,
            k == at + 6 ==> limit == 1_000_000,
            k == at + 7 ==> limit == 10_000_000,
            k == at + 8 ==> limit == 100_000_000,
            k == at + 9 ==> limit == 1_000_000_000,
        decreases end - k,
    {
        number = 10 * number + digit_value(text[k]);
        limit = 10 * limit;
        k += 1;
    }
    Some((end, number))
}

fn find_index_end(text: &Vec<char>, at: usize) -> (r: usize)
    requires
        text.len() <= 65536,
        at <= 65550,
    ensures
        r == index_end(text@, at as int),
        at <= r,
        r <= at || r <= text.len(),
{
    let end: usize = find_digits_end(text, at);
    if char_or_end(text, end) == '_' {
        end + 1
    } else {
        end
    }
}

fn find_parameter_end(text: &Vec<char>, at: usize) -> (r: usize)
    requires
        text.len() <= 65536,
        at <= 65540,
    ensures
        r == parameter_end(text@, at as int),
        at <= r <= 65541,
{
    let c: char = char_or_end(text, at);
    if c == 'd' {
        let first: usize = find_index_end(text, at + 1);
        find_index_end(text, first)
    } else if c == 'z' {
        at + 1
    } else {
        find_index_end(text, at)
    }
}

fn find_counted_end(text: &Vec<char>, at: usize) -> (r: Option<usize>)
    requires
        text.len() <= 65536,
    ensures
        match r {
            Some(end) => counted_end(text@, at as int) == Some(end as int) && at < end
                <= 1_000_065_536,
            None => counted_end(text@, at as int) is None,
        },
{
    match read_number(text, at) {
        Some((end, number)) => if number > 0 {
            Some(end + number as usize)
        } else {
            None
        },
        None => None,
    }
}

fn find_words_end(text: &Vec<char>, start: usize) -> (r: Option<usize>)
    requires
        text.len() <= 65536,
    ensures
        match r {
            Some(end) => words_end(text@, start as int) == Some(end as int) && end
                <= 1_000_065_536,
            None => words_end(text@, start as int) is None,
        },
{
    let mut at: usize = start;
    while at < text.len()
        invariant
            text.len() <= 65536,
            words_end(text@, start as int) == words_end(text@, at as int),
        decreases text.len() - at,
    {
        let c: char = text[at];
        if check_small(c) {
            at += 1;
        } else if check_capital(c) {
            if char_or_end(text, at + 1) == '0' {
                return Some(at + 2);
            }
            return find_counted_end(text, at + 1);
        } else if c == '0' {
            return Some(at + 1);
        } else {
            match find_counted_end(text, at) {
                Some(next) => {
                    if next > text.len() {
                        return None;
                    }
                    at = next;
                },
                None => return None,
            }
        }
    }
    None
}

fn find_identifier_end(text: &Vec<char>, at: usize) -> (r: Option<usize>)
    requires
        text.len() <= 65536,
        at < text.len(),
    ensures
        match r {
            Some(end) => identifier_end(text@, at as int) == Some(end as int) && end
                <= 1_000_065_537,
            None => identifier_end(text@, at as int) is None,
        },
{
    if text[at] != '0' {
        find_counted_end(text, at)
    } else if char_or_end(text, at + 1) != '0' {
        find_words_end(text, at + 1)
    } else if char_or_end(text, at + 2) == '0' {
        None
    } else {
        match read_number(text, at + 2) {
            Some((end, number)) => if number == 0 {
                None
            } else if char_or_end(text, end) == '_' {
                Some(end + 1 + number as usize)
            } else {
                Some(end + number as usize)
            },
            None => None,
        }
    }
}

fn find_repeats_end(text: &Vec<char>, start: usize) -> (r: Option<(usize, u64)>)
    requires
        text.len() <= 65536,
    ensures
        match r {
            Some((end, repeated)) => {
                &&& repeats_end(text@, start as int, 0) == Some((end as int, repeated as int))
                &&& end <= 65537
                &&& start < end
                &&& repeated <= 1_000_000_000 * (end - start)
            },
            None => repeats_end(text@, start as int, 0) is None,
        },
{
    let mut at: usize = start;
    let mut repeated: u64 = 0;
    while at < text.len()
        invariant
            text.len() <= 65536,
            start <= at,
            at <= start || at <= 65537,
            repeated <= 1_000_000_000 * (at - start),
            repeats_end(text@, start as int, 0) == repeats_end(
                text@,
                at as int,
                repeated as int,
            ),
        decreases text.len() - at,
    {
        let c: char = text[at];
        if check_small(c) {
            at += 1;
            repeated += 1;
        } else if check_capital(c) || c == '_' {
            return Some((at + 1, repeated + 1));
        } else {
            match read_number(text, at) {
                Some((end, number)) => {
                    let d: char = char_or_end(text, end);
                    let times: u64 = if number > 1 {
                        number
                    } else {
                        1
                    };
                    if check_small(d) {
                        at = end + 1;
                        repeated += times;
                    } else if check_capital(d) {
                        return Some((end + 1, repeated + times));
                    } else if d == '_' {
                        return Some((end + 1, repeated + 1));
                    } else {
                        return None;
                    }
                },
                None => return None,
            }
        }
    }
    None
}

fn find_first_place(text: &Vec<char>, start: usize, c: char) -> (r: usize)
    ensures
        r == first_place(text@, start as int, c),
        start <= r,
        r <= start || r <= text.len(),
{
    let mut at: usize = start;
    while at < text.len() && text[at] != c
        invariant
            start <= at,
            at <= start || at <= text.len(),
            first_place(text@, start as int, c) == first_place(text@, at as int, c),
        decreases text.len() - at,
    {
        at += 1;
    }
    at
}

fn find_counts_end(text: &Vec<char>, start: usize) -> (r: Option<usize>)
    ensures
        match r {
            Some(end) => counts_end(text@, start as int) == Some(end as int) && end <= text.len(),
            None => counts_end(text@, start as int) is None,
        },
{
    let mut at: usize = start;
    while at < text.len()
        invariant
            counts_end(text@, start as int) == counts_end(text@, at as int),
        decreases text.len() - at,
    {
        let c: char = text[at];
        if c == 'l' {
            return Some(at + 1);
        } else if c == 'z' || c == '_' || char_is_digit(c) {
            at += 1;
        } else {
            return None;
        }
    }
    None
}

fn find_requirement_end(text: &Vec<char>, at: usize) -> (r: Option<usize>)
    requires
        text.len() <= 65536,
        at <= 65537,
    ensures
        match r {
            Some(end) => requirement_end(text@, at as int) == Some(end as int) && end <= 65545,
            None => requirement_end(text@, at as int) is None,
        },
{
    let c: char = char_or_end(text, at);
    let next: usize = if is_one_of(c, "BSLQ") {
        at + 1
    } else if is_one_of(c, "cCbtTsmMlpP") {
        find_parameter_end(text, at + 1)
    } else {
        find_parameter_end(text, at)
    };
    let d: char = char_or_end(text, next);
    if !is_one_of(c, "mMlL") {
        Some(next)
    } else if is_one_of(d, "URNCDT") {
        Some(next + 1)
    } else if is_one_of(d, "EM") {
        let first: usize = find_index_end(text, next + 1);
        Some(find_index_end(text, first))
    } else if is_one_of(d, "em") {
        Some(find_index_end(text, next + 1))
    } else {
        None
    }
}

fn find_pass_end(text: &Vec<char>, at: usize) -> (r: Option<usize>)
    requires
        text.len() <= 65536,
        at <= 65540,
    ensures
        match r {
            Some(end) => pass_end(text@, at as int) == Some(end as int) && end <= 65542,
            None => pass_end(text@, at as int) is None,
        },
{
    let start: usize = if char_or_end(text, at) == 'q' {
        at + 1
    } else {
        at
    };
    if char_is_digit(char_or_end(text, start)) {
        Some(start + 1)
    } else {
        None
    }
}

fn find_specialization_end(text: &Vec<char>, at: usize) -> (r: Option<usize>)
    requires
        text.len() <= 65536,
        at <= 65540,
    ensures
        match r {
            Some(end) => specialization_end(text@, at as int) == Some(end as int) && end <= 65545,
            None => specialization_end(text@, at as int) is None,
        },
{
    match find_pass_end(text, at) {
        Some(start) => {
            let line: usize = find_first_place(text, start, '_');
            if char_or_end(text, line + 1) == 'n' {
                Some(line + 2)
            } else {
                None
            }
        },
        None => None,
    }
}

/// A part of a name that was found: where the next part starts, whether it makes a type or a generic
/// signature, how many parts it stands for, and how many it repeats.
struct FoundPart {
    next: usize,
    typed: bool,
    count: u64,
    repeated: u64,
}

/// Whether a part is the one that was found.
spec fn is_found(found: Option<FoundPart>, part: Option<SwiftPart>) -> bool {
    match found {
        Some(found) => part == Some(
            SwiftPart {
                next: found.next as int,
                typed: found.typed,
                count: found.count as int,
                repeated: found.repeated as int,
            },
        ) && found.count <= 100_000_000_000_000 && found.repeated <= found.count,
        None => part is None,
    }
}

fn single(next: usize, typed: bool) -> (r: Option<FoundPart>)
    ensures
        is_found(r, single_part(next as int, typed)),
{
    Some(FoundPart { next, typed, count: 1, repeated: 0 })
}

fn possible(next: Option<usize>, typed: bool) -> (r: Option<FoundPart>)
    ensures
        is_found(
            r,
            match next {
                Some(next) => single_part(next as int, typed),
                None => None,
            },
        ),
{
    match next {
        Some(next) => single(next, typed),
        None => None,
    }
}

fn find_thunk(text: &Vec<char>, at: usize) -> (r: Option<FoundPart>)
    requires
        at < text.len() <= 65536,
    ensures
        is_found(r, thunk_part(text@, at as int)),
{
    let d: char = char_or_end(text, at + 1);
    if is_one_of(d, "gGipP") {
        possible(find_pass_end(text, at + 2), false)
    } else if is_one_of(d, "KkHh") {
        if char_or_end(text, at + 2) == 'q' {
            single(at + 3, false)
        } else {
            single(at + 2, false)
        }
    } else if d == 'v' {
        single(find_index_end(text, at + 2), false)
    } else if d == 'f' {
        possible(find_specialization_end(text, at + 2), false)
    } else if d == 'e' {
        None
    } else {
        single(at + 2, false)
    }
}

/// Two or three letters, the latter where the second letter is one of some.
fn find_letters(at: usize, d: char, longer: &str, typed: bool) -> (r: Option<FoundPart>)
    requires
        at <= 65536,
    ensures
        is_found(
            r,
            single_part(
                if longer@.contains(d) {
                    at + 3
                } else {
                    at + 2
                },
                typed,
            ),
        ),
{
    if is_one_of(d, longer) {
        single(at + 3, typed)
    } else {
        single(at + 2, typed)
    }
}

/// Two letters, with an index where the second letter is one of some.
fn find_indexed(text: &Vec<char>, at: usize, d: char, indexed: &str, typed: bool) -> (r: Option<
    FoundPart,
>)
    requires
        at < text.len() <= 65536,
    ensures
        is_found(
            r,
            single_part(
                if indexed@.contains(d) {
                    index_end(text@, at + 2)
                } else {
                    at + 2
                },
                typed,
            ),
        ),
{
    if is_one_of(d, indexed) {
        single(find_index_end(text, at + 2), typed)
    } else {
        single(at + 2, typed)
    }
}

fn find_lettered(text: &Vec<char>, at: usize) -> (r: Option<FoundPart>)
    requires
        at < text.len() <= 65536,
    ensures
        is_found(r, lettered_part(text@, at as int)),
{
    let d: char = char_or_end(text, at + 1);
    match text[at] {
        'B' => find_indexed(text, at, d, "fiv", true),
        'H' => find_indexed(text, at, d, "ADI", false),
        'L' => if is_one_of(d, "LlabcdefghijABCDEFGHIJ") {
            single(at + 2, false)
        } else {
            single(find_index_end(text, at + 1), false)
        },
        'M' => if d == 'X' {
            single(at + 3, false)
        } else {
            single(at + 2, false)
        },
        'Q' => if d == 'o' {
            single(find_index_end(text, at + 2), true)
        } else if is_one_of(d, "yY") {
            single(find_parameter_end(text, at + 2), true)
        } else {
            single(at + 2, d != 'O')
        },
        'S' => if char_is_digit(d) {
            match read_number(text, at + 1) {
                Some((end, number)) => {
                    let count: u64 = if number > 1 {
                        number
                    } else {
                        1
                    };
                    Some(FoundPart { next: end + 1, typed: true, count, repeated: 0 })
                },
                None => None,
            }
        } else {
            single(at + 2, d != 'o' && d != 'C')
        },
        'W' => find_letters(at, d, "vO", false),
        'X' => find_letters(at, d, "MmS", d != 'Z'),
        'f' => find_indexed(text, at, d, "UuA", false),
        'v' => find_letters(at, d, "al", false),
        'i' => find_letters(at, d, "al", false),
        'w' => single(at + 3, false),
        'o' => single(at + 2, false),
        _ => None,
    }
}

fn find_part(text: &Vec<char>, at: usize) -> (r: Option<FoundPart>)
    requires
        at < text.len() <= 65536,
    ensures
        is_found(r, part_at(text@, at as int)),
{
    let c: char = text[at];
    if char_is_digit(c) {
        possible(find_identifier_end(text, at), false)
    } else if is_one_of(c, "CVOPaGmnhzxcptul") {
        single(at + 1, true)
    } else if is_one_of(c, "DEFKNZdsy_") {
        single(at + 1, false)
    } else if c == 'A' {
        match find_repeats_end(text, at + 1) {
            Some((next, repeated)) => Some(
                FoundPart { next, typed: false, count: repeated, repeated },
            ),
            None => None,
        }
    } else if c == 'I' {
        single(find_first_place(text, at + 1, '_') + 1, true)
    } else if c == 'R' {
        possible(find_requirement_end(text, at + 1), false)
    } else if c == 'T' {
        find_thunk(text, at)
    } else if c == 'q' {
        single(find_parameter_end(text, at + 1), true)
    } else if c == 'r' {
        possible(find_counts_end(text, at + 1), true)
    } else if c == 'g' {
        single(find_index_end(text, at + 1), false)
    } else if c == '.' {
        single(text.len(), false)
    } else {
        find_lettered(text, at)
    }
}

fn check_needs_types(text: &Vec<char>, at: usize) -> (r: bool)
    requires
        at < text.len() <= 65536,
    ensures
        r == needs_types(text@, at as int),
{
    text[at] == 'T' && is_one_of(char_or_end(text, at + 1), "Rry")
}

fn check_tail(text: &Vec<char>, at: usize, count: u64, repeated: u64) -> (r: bool)
    requires
        at <= text.len() <= 65536,
        count <= 7_000_000_000_000_000_000,
    ensures
        r == tail_is_sound(text@, at as int, count as int, repeated as int),
{
    let mut i: usize = at;
    while i < text.len()
        invariant
            at <= i <= text.len() <= 65536,
            forall|j: int| at <= j < i ==> #[trigger] is_plain_at(text@, j),
        decreases text.len() - i,
    {
        let counted: bool = text[i] == 'S' && char_is_digit(char_or_end(text, i + 1));
        let plain: bool = !check_needs_types(text, i) && text[i] != 'A' && !counted;
        assert(plain == is_plain_at(text@, i as int));
        if !plain {
            return false;
        }
        i += 1;
    }
    count + (text.len() - at) as u64 <= MAX_PARTS && repeated <= MAX_REPEATED
}

fn check_rest(text: &Vec<char>, start: usize, full: bool) -> (r: bool)
    requires
        text.len() <= 65536,
    ensures
        r == rest_is_sound(text@, start as int, 0, 0, false, full),
{
    let mut at: usize = start;
    let mut count: u64 = 0;
    let mut repeated: u64 = 0;
    let mut typed: bool = false;
    while at < text.len()
        invariant
            text.len() <= 65536,
            at <= start || at <= text.len(),
            start <= at,
            count <= 100_000_000_000_000 * (at - start),
            repeated <= count,
            rest_is_sound(text@, start as int, 0, 0, false, full) == rest_is_sound(
                text@,
                at as int,
                count as int,
                repeated as int,
                typed,
                full,
            ),
        decreases text.len() - at,
    {
        let part: FoundPart = match find_part(text, at) {
            Some(part) => part,
            None => return check_tail(text, at, count, repeated),
        };
        if part.next <= at || part.next > text.len() {
            return check_tail(text, at, count, repeated);
        }
        if check_needs_types(text, at) && (!typed || full || char_or_end(text, at + 1) == 'y') {
            return false;
        }
        count += part.count;
        repeated += part.repeated;
        typed = part.typed;
        at = part.next;
    }
    count <= MAX_PARTS && repeated <= MAX_REPEATED
}

fn check_marks(text: &Vec<char>) -> (r: bool)
    ensures
        r == forall|i: int| 0 <= i < text.len() ==> !is_reference_mark(#[trigger] text@[i]),
{
    let mut i: usize = 0;
    while i < text.len()
        invariant
            i <= text.len(),
            forall|j: int| 0 <= j < i ==> !is_reference_mark(#[trigger] text@[j]),
        decreases text.len() - i,
    {
        if char_is_mark(text[i]) {
            assert(is_reference_mark(text@[i as int]));
            return false;
        }
        i += 1;
    }
    true
}

fn char_is_mark(c: char) -> (r: bool)
    ensures
        r == is_reference_mark(c),
{
    1 <= c as u32 && c as u32 <= 12
}

fn char_is_ascii(c: char) -> (r: bool)
    ensures
        r == ((c as int) < 128),
{
    (c as u32) < 128
}

fn check_ascii(text: &Vec<char>) -> (r: bool)
    ensures
        r == is_ascii(text@),
{
    let mut i: usize = 0;
    while i < text.len()
        invariant
            i <= text.len(),
            forall|j: int| 0 <= j < i ==> (#[trigger] text@[j] as int) < 128,
        decreases text.len() - i,
    {
        if !char_is_ascii(text[i]) {
            assert(!((text@[i as int] as int) < 128));
            return false;
        }
        i += 1;
    }
    true
}

/// Whether a name starts as those of Swift do.
pub(crate) fn check_swift_name(text: &Vec<char>) -> (r: bool)
    ensures
        r == is_swift_name(text@),
{
    starts_with(text, "_T") || starts_with(text, "$S") || starts_with(text, "_$S") || starts_with(
        text,
        "$s",
    ) || starts_with(text, "_$s")
}

/// Whether the demangler for Swift names can be given a name, in full or not.
pub(crate) fn check_swift(text: &Vec<char>, full: bool) -> (r: bool)
    requires
        is_swift_name(text@),
    ensures
        r == is_sound_swift(text@, full),
{
    if text.len() > 65536 || !check_marks(text) {
        return false;
    }
    if starts_with(text, "_T") && !starts_with(text, "_T0") {
        return text.len() <= 96;
    }
    let start: usize = if starts_with(text, "$S") || starts_with(text, "$s") {
        2
    } else {
        3
    };
    proof {
        reveal_strlit("$S");
        reveal_strlit("$s");
        reveal_strlit("_$S");
        reveal_strlit("_$s");
        reveal_strlit("_T0");
    }
    if char_or_end(text, start) == 'y' && holds(text, "Qo") {
        return false;
    }
    if check_ascii(text) {
        check_rest(text, start, full)
    } else {
        check_tail(text, start, 0, 0)
    }
}

} // verus!
