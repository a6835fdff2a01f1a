//! Which names are shown demangled.

use vstd::prelude::*;

use crate::demangle::{
    demangled, has_long_guard, is_sound_msvc, nameless, readable_name, repeats, stands_at,
    stands_in, total_cost, DemangleFormat,
};
use crate::swift::{
    char_at, first_place, is_ascii, is_plain, is_plain_at, is_sound_swift, part_at, rest_is_sound,
    single_part,
};

verus! {

/// A name is shown demangled, or as it is.
pub proof fn law_name_or_symbol(
    symbol: Seq<char>,
    language: u32,
    with_arguments: bool,
    format: DemangleFormat,
)
    ensures
        readable_name(symbol, language, with_arguments, format) == symbol || readable_name(
            symbol,
            language,
            with_arguments,
            format,
        ) == demangled(symbol, language, with_arguments, format),
{
}

/// The counts of what characters may stand for are no higher than their number allows.
proof fn lemma_counts(text: Seq<char>, count: int)
    requires
        0 <= count <= text.len(),
    ensures
        0 <= total_cost(text, count) <= 12 * count,
        0 <= repeats(text, count) <= count,
        0 <= nameless(text, count) <= count,
    decreases count,
{
    if count > 0 {
        lemma_counts(text, count - 1);
    }
}

/// All names of C, D, Go, Objective-C and Rust are demangled.
pub proof fn law_plain_languages(
    symbol: Seq<char>,
    language: u32,
    with_arguments: bool,
    format: DemangleFormat,
)
    requires
        language == 1 || language == 3 || language == 4 || language == 5 || language == 7,
    ensures
        readable_name(symbol, language, with_arguments, format) == demangled(
            symbol,
            language,
            with_arguments,
            format,
        ),
{
}

/// Where the first characters differ, a word does not stand at the start.
proof fn lemma_starts(text: Seq<char>)
    ensures
        text.len() == 0 || text[0] != '?' ==> !stands_at(text, 0, "?"@),
        text.len() == 0 || text[0] != '$' ==> !stands_at(text, 0, "$S"@) && !stands_at(
            text,
            0,
            "$s"@,
        ),
        text.len() == 0 || text[0] != '_' ==> !stands_at(text, 0, "_T"@) && !stands_at(
            text,
            0,
            "_$S"@,
        ) && !stands_at(text, 0, "_$s"@),
        text.len() < 2 || (text[1] != 'T' && text[1] != '$') ==> !stands_at(text, 0, "_T"@)
            && !stands_at(text, 0, "_$S"@) && !stands_at(text, 0, "_$s"@),
{
    reveal_strlit("?");
    reveal_strlit("$S");
    reveal_strlit("$s");
    reveal_strlit("_T");
    reveal_strlit("_$S");
    reveal_strlit("_$s");
    if text.len() >= 1 {
        let one = text.subrange(0, 1);
        assert(one[0] == text[0]);
    }
    if text.len() >= 2 {
        let two = text.subrange(0, 2);
        assert(two[0] == text[0] && two[1] == text[1]);
    }
    if text.len() >= 3 {
        let three = text.subrange(0, 3);
        assert(three[0] == text[0] && three[1] == text[1]);
    }
}

/// A name of C++ or Objective-C++ that is not one of MSVC is demangled, however long it is, where at
/// most 1024 of its characters can start a component without a name: always where it has no more.
pub proof fn law_itanium_names(
    symbol: Seq<char>,
    language: u32,
    with_arguments: bool,
    format: DemangleFormat,
)
    requires
        language == 2 || language == 6,
        symbol.len() == 0 || symbol[0] != '?' || language == 6,
        symbol.len() <= 1024,
    ensures
        readable_name(symbol, language, with_arguments, format) == demangled(
            symbol,
            language,
            with_arguments,
            format,
        ),
{
    lemma_counts(symbol, symbol.len() as int);
    lemma_starts(symbol);
}

/// How many digits stand among the first characters is at least how often they repeat a part.
proof fn lemma_digits(text: Seq<char>, count: int)
    requires
        0 <= count <= text.len(),
    ensures
        repeats(text, count) <= text.take(count).filter(|c: char| 48 <= c as int <= 57).len(),
    decreases count,
{
    reveal(Seq::filter);
    if count > 0 {
        lemma_digits(text, count - 1);
        assert(text.take(count).drop_last() =~= text.take(count - 1));
        assert(text.take(count).last() == text[count - 1]);
    }
}

/// An MSVC name of at most 83 characters and 30 digits is demangled, unless it holds one of the few
/// words that may not fit.
pub proof fn law_msvc_names(
    symbol: Seq<char>,
    language: u32,
    with_arguments: bool,
    format: DemangleFormat,
)
    requires
        language == 2,
        symbol.len() <= 83,
        symbol.filter(|c: char| 48 <= c as int <= 57).len() <= 30,
        !stands_in(symbol, "IAAAAAAA@"@),
        !stands_in(symbol, "?$TSS"@),
        !stands_in(symbol, "_0"@),
        !stands_in(symbol, "_1"@),
    ensures
        readable_name(symbol, language, with_arguments, format) == demangled(
            symbol,
            language,
            with_arguments,
            format,
        ),
{
    let n = symbol.len() as int;
    lemma_counts(symbol, n);
    lemma_digits(symbol, n);
    assert(symbol.take(n) =~= symbol);
    assert forall|i: int| 0 <= i < n implies !#[trigger] has_long_guard(symbol, i) by {
        assert(!stands_at(symbol, i, "?$TSS"@));
    }
    assert(is_sound_msvc(symbol));
}

/// A name of an unknown language is demangled where it is of none of the forms with limits.
pub proof fn law_names_of_unknown_languages(
    symbol: Seq<char>,
    language: u32,
    with_arguments: bool,
    format: DemangleFormat,
)
    requires
        language == 0 || language > 8,
        symbol.len() <= 1024,
        symbol.len() > 0 ==> symbol[0] != '?' && symbol[0] != '$',
        symbol.len() > 1 ==> symbol[1] != 'T' && symbol[1] != '$',
    ensures
        readable_name(symbol, language, with_arguments, format) == demangled(
            symbol,
            language,
            with_arguments,
            format,
        ),
{
    lemma_counts(symbol, symbol.len() as int);
    lemma_starts(symbol);
}

/// Parts that repeat nothing and need no types are sound while there are few of them.
proof fn lemma_plain_rest(
    text: Seq<char>,
    at: int,
    count: int,
    repeated: int,
    typed: bool,
    full: bool,
)
    requires
        0 <= at <= text.len(),
        is_plain(text, at),
        count + (text.len() - at) <= 256,
        repeated <= 36,
    ensures
        rest_is_sound(text, at, count, repeated, typed, full),
    decreases text.len() - at,
{
    if at < text.len() {
        assert(is_plain_at(text, at));
        match part_at(text, at) {
            Some(part) => {
                if at < part.next <= text.len() {
                    assert(part.count == 1 && part.repeated == 0);
                    assert forall|i: int| part.next <= i < text.len() implies #[trigger] is_plain_at(
                        text,
                        i,
                    ) by {}
                    lemma_plain_rest(
                        text,
                        part.next,
                        count + part.count,
                        repeated + part.repeated,
                        part.typed,
                        full,
                    );
                }
            },
            None => {},
        }
    }
}

/// A Swift name of at most 256 characters is demangled where nothing in it can be a thunk that needs
/// types or a repeated part, and it points nowhere.
pub proof fn law_swift_names(
    symbol: Seq<char>,
    language: u32,
    with_arguments: bool,
    format: DemangleFormat,
)
    requires
        language == 8,
        2 <= symbol.len() <= 256,
        symbol[0] == '$',
        symbol[1] == 's' || symbol[1] == 'S',
        symbol.len() > 2 ==> symbol[2] != 'y',
        forall|i: int|
            #![trigger symbol[i]]
            2 <= i < symbol.len() ==> {
                &&& symbol[i] != 'A'
                &&& symbol[i] == 'T' && i + 1 < symbol.len() ==> symbol[i + 1] != 'R' && symbol[i
                    + 1] != 'r' && symbol[i + 1] != 'y'
                &&& symbol[i] == 'S' && i + 1 < symbol.len() ==> !(48 <= symbol[i + 1] as int <= 57)
            },
        forall|i: int| 0 <= i < symbol.len() ==> !(1 <= #[trigger] symbol[i] as int <= 12),
    ensures
        readable_name(symbol, language, with_arguments, format) == demangled(
            symbol,
            language,
            with_arguments,
            format,
        ),
{
    let full = format == DemangleFormat::Full;
    reveal_strlit("$S");
    reveal_strlit("$s");
    reveal_strlit("_T");
    reveal_strlit("_T0");
    reveal_strlit("_$S");
    reveal_strlit("_$s");
    reveal_strlit("Rry");
    let two = symbol.subrange(0, 2);
    assert(two[0] == symbol[0] && two[1] == symbol[1]);
    if symbol.len() >= 3 {
        let three = symbol.subrange(0, 3);
        assert(three[0] == symbol[0] && three[1] == symbol[1] && three[2] == symbol[2]);
    }
    assert(!stands_at(symbol, 0, "_T"@));
    if crate::swift::is_swift_name(symbol) {
        let start = crate::swift::parts_start(symbol);
        assert("$s"@.len() == 2 && "$S"@.len() == 2);
        assert(two =~= "$s"@ || two =~= "$S"@);
        assert(start == 2);
        assert forall|i: int| start <= i < symbol.len() implies #[trigger] is_plain_at(
            symbol,
            i,
        ) by {
            assert(symbol[i] != 'A');
            assert(char_at(symbol, i + 1) == if i + 1 < symbol.len() {
                symbol[i + 1]
            } else {
                '\0'
            });
            assert(!"Rry"@.contains('\0'));
            if i + 1 < symbol.len() && "Rry"@.contains(symbol[i + 1]) {
                let k = choose|k: int| 0 <= k < 3 && "Rry"@[k] == symbol[i + 1];
                assert(k == 0 || k == 1 || k == 2);
            }
        }
        assert(char_at(symbol, start) != 'y');
        if is_ascii(symbol) {
            lemma_plain_rest(symbol, start, 0, 0, false, full);
        }
        assert(is_sound_swift(symbol, full));
    }
}

/// The first low line from `at` on stands where no other stands before.
proof fn lemma_first_place(text: Seq<char>, at: int, place: int)
    requires
        0 <= at <= place < text.len(),
        text[place] == '_',
        forall|i: int| at <= i < place ==> #[trigger] text[i] != '_',
    ensures
        first_place(text, at, '_') == place,
    decreases place - at,
{
    if at < place {
        lemma_first_place(text, at + 1, place);
    }
}

/// A thunk between two function types is demangled, whatever their conventions.
pub proof fn law_swift_thunks(
    outer: Seq<char>,
    inner: Seq<char>,
    language: u32,
    with_arguments: bool,
)
    requires
        language == 8,
        outer.len() + inner.len() <= 1000,
        forall|i: int|
            0 <= i < outer.len() ==> (#[trigger] outer[i]) != '_' && 13 <= outer[i] as int <= 127,
        forall|i: int|
            0 <= i < inner.len() ==> (#[trigger] inner[i]) != '_' && 13 <= inner[i] as int <= 127,
    ensures
        ({
            let symbol = seq!['$', 's', 'I'] + outer + seq!['_', 'I'] + inner + seq!['_', 'T', 'R'];
            readable_name(symbol, language, with_arguments, DemangleFormat::Short) == demangled(
                symbol,
                language,
                with_arguments,
                DemangleFormat::Short,
            )
        }),
{
    let symbol = seq!['$', 's', 'I'] + outer + seq!['_', 'I'] + inner + seq!['_', 'T', 'R'];
    reveal_strlit("$S");
    reveal_strlit("$s");
    reveal_strlit("_T");
    reveal_strlit("_T0");
    reveal_strlit("_$S");
    reveal_strlit("_$s");
    reveal_strlit("Rry");
    let two = symbol.subrange(0, 2);
    assert(two[0] == '$' && two[1] == 's');
    assert(two =~= "$s"@);
    assert(!stands_at(symbol, 0, "_T"@)) by {
        assert("_T"@[0] == '_');
    }
    let first_end: int = 3 + outer.len() as int;
    let second: int = first_end + 1;
    let second_end: int = second + 1 + inner.len() as int;
    let thunk: int = second_end + 1;
    assert(symbol.len() == thunk + 2);
    assert(symbol[2] == 'I' && symbol[first_end] == '_' && symbol[second] == 'I');
    assert(symbol[second_end] == '_' && symbol[thunk] == 'T');
    assert(symbol[thunk + 1] == 'R');
    assert forall|i: int| 3 <= i < first_end implies #[trigger] symbol[i] != '_' by {
        assert(symbol[i] == outer[i - 3]);
    }
    assert forall|i: int| second + 1 <= i < second_end implies #[trigger] symbol[i] != '_' by {
        assert(symbol[i] == inner[i - second - 1]);
    }
    assert forall|i: int| 0 <= i < symbol.len() implies 13 <= (#[trigger] symbol[i]) as int
        <= 127 by {
        if 3 <= i < first_end {
            assert(symbol[i] == outer[i - 3]);
        } else if second + 1 <= i < second_end {
            assert(symbol[i] == inner[i - second - 1]);
        }
    }
    lemma_first_place(symbol, 3, first_end);
    lemma_first_place(symbol, second + 1, second_end);
    lemma_letters();
    assert(part_at(symbol, 2) == single_part(second, true));
    assert(part_at(symbol, second) == single_part(thunk, true));
    assert(part_at(symbol, thunk) == single_part(thunk + 2, false));
    assert(char_at(symbol, thunk + 1) == 'R');
    reveal_with_fuel(rest_is_sound, 5);
    assert(rest_is_sound(symbol, thunk + 2, 3, 0, false, false));
    assert(rest_is_sound(symbol, thunk, 2, 0, true, false));
    assert(rest_is_sound(symbol, second, 1, 0, true, false));
    assert(rest_is_sound(symbol, 2, 0, 0, false, false));
    assert(is_sound_swift(symbol, false));
}

/// The letters for function types and for thunks are among no others.
proof fn lemma_letters()
    ensures
        !"CVOPaGmnhzxcptul"@.contains('I'),
        !"CVOPaGmnhzxcptul"@.contains('T'),
        !"DEFKNZdsy_"@.contains('I'),
        !"DEFKNZdsy_"@.contains('T'),
        !"gGipP"@.contains('R'),
        !"KkHh"@.contains('R'),
{
    reveal_strlit("CVOPaGmnhzxcptul");
    reveal_strlit("DEFKNZdsy_");
    reveal_strlit("gGipP");
    reveal_strlit("KkHh");
}

} // verus!
