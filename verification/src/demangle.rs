//! Demangling of the names of functions.

use vstd::prelude::*;

use crate::arch::Language;
use crate::swift::{check_swift, check_swift_name, is_one_of, is_sound_swift, is_swift_name};

verus! {

/// How names are printed once they are demangled.
#[derive(Clone, Copy, Debug, PartialEq, Eq, Structural)]
pub enum DemangleFormat {
    /// Without parameter names, and sometimes without packages or namespaces.
    Short,
    /// With arguments, return types, generics and packages.
    Full,
}

/// Whether a word stands in a text at `at`.
pub open spec fn stands_at(text: Seq<char>, at: int, word: Seq<char>) -> bool {
    at + word.len() <= text.len() && text.subrange(at, at + word.len()) == word
}

/// Whether a word stands in a text.
pub open spec fn stands_in(text: Seq<char>, word: Seq<char>) -> bool {
    exists|i: int| 0 <= i && #[trigger] stands_at(text, i, word)
}

/// Whether a character is a decimal digit.
pub open spec fn is_digit(c: char) -> bool {
    48 <= c as int <= 57
}

/// Whether the character at `at` is part of an identifier: a small letter or a low line stands
/// before it.
pub open spec fn in_identifier(text: Seq<char>, at: int) -> bool {
    0 < at && (97 <= text[at - 1] as int <= 122 || text[at - 1] == '_')
}

/// Whether the character at `at` of an MSVC name says how a pointer or a reference may be used. It
/// stands behind the letter of the pointer, or behind that and an `E`.
pub open spec fn qualifies(text: Seq<char>, at: int) -> bool {
    ||| 0 < at && is_pointer(text[at - 1])
    ||| 1 < at && text[at - 1] == 'E' && (is_pointer(text[at - 2]) || is_reference(text[at - 2]))
}

/// Whether a character of an MSVC name starts a pointer.
pub open spec fn is_pointer(c: char) -> bool {
    c == 'P' || c == 'Q' || c == 'R' || c == 'S'
}

/// Whether a character of an MSVC name starts a reference.
pub open spec fn is_reference(c: char) -> bool {
    c == 'A' || c == 'B'
}

/// What the character at `at` of an MSVC name may cost of the stack: most where it may start a name
/// inside another, less where it may start a type, and little where it may end the dimension of an
/// array.
pub open spec fn stack_cost(text: Seq<char>, at: int) -> int {
    let c = text[at];
    if c == '?' {
        12
    } else if c == '@' {
        1
    } else if in_identifier(text, at) {
        0
    } else if is_pointer(c) || c == 'Y' || (is_reference(c) && !qualifies(text, at)) {
        9
    } else {
        0
    }
}

/// What the first `count` characters of an MSVC name may cost of the stack.
pub open spec fn total_cost(text: Seq<char>, count: int) -> int
    decreases count,
{
    if count <= 0 {
        0
    } else {
        total_cost(text, count - 1) + stack_cost(text, count - 1)
    }
}

/// Whether the character at `at` of an MSVC name may repeat a part that stands before it: it is a
/// digit that neither is part of an identifier, nor says of which kind a template argument or an
/// enumeration is.
pub open spec fn may_repeat(text: Seq<char>, at: int) -> bool {
    &&& is_digit(text[at])
    &&& !in_identifier(text, at)
    &&& !(0 < at && text[at - 1] == '$')
    &&& !(1 < at && text[at] == '4' && text[at - 1] == 'W' && text[at - 2] != '_')
}

/// How many of the first `count` characters of an MSVC name may repeat a part that stands before
/// them.
pub open spec fn repeats(text: Seq<char>, count: int) -> int
    decreases count,
{
    if count <= 0 {
        0
    } else if may_repeat(text, count - 1) {
        repeats(text, count - 1) + 1
    } else {
        repeats(text, count - 1)
    }
}

/// Whether a guard of an MSVC name at `at` may be numbered with more than nine digits. Once there are
/// nine, room is made for one more unless the number ends.
pub open spec fn has_long_guard(text: Seq<char>, at: int) -> bool {
    &&& stands_at(text, at, "?$TSS"@)
    &&& at + 14 <= text.len()
    &&& forall|k: int| at + 5 <= k < at + 14 ==> is_digit(#[trigger] text[k])
    &&& !(at + 14 < text.len() && text[at + 14] == '@')
}

/// Whether an escape of a string literal may stand in an MSVC name at `at` with a letter below `A`.
pub open spec fn has_low_escape(text: Seq<char>, at: int) -> bool {
    &&& stands_at(text, at, "?$"@)
    &&& (at + 2 < text.len() && (text[at + 2] as int) < 65) || (at + 3 < text.len() && (text[at
        + 3] as int) < 65)
}

/// What an MSVC name may cost of the stack.
pub const MAX_COST: u64 = 1000;

/// How often an MSVC name may repeat a part.
pub const MAX_REPEATS: u64 = 30;

/// Whether the demangler for MSVC names can be given a name.
pub open spec fn is_sound_msvc(text: Seq<char>) -> bool {
    &&& total_cost(text, text.len() as int) <= MAX_COST
    &&& repeats(text, text.len() as int) <= MAX_REPEATS
    &&& !stands_in(text, "IAAAAAAA@"@)
    &&& forall|i: int| 0 <= i < text.len() ==> !#[trigger] has_long_guard(text, i)
    &&& stands_in(text, "_0"@) || stands_in(text, "_1"@) ==> forall|i: int|
        0 <= i < text.len() ==> !#[trigger] has_low_escape(text, i)
}

/// Whether two characters of an Itanium name may be an operator.
pub open spec fn is_operator(a: char, b: char) -> bool {
    if a == 'a' {
        "adnSNw"@.contains(b)
    } else if a == 'c' {
        "olmv"@.contains(b)
    } else if a == 'd' {
        "aelvV"@.contains(b)
    } else if a == 'e' {
        "oOq"@.contains(b)
    } else if a == 'g' {
        "et"@.contains(b)
    } else if a == 'i' {
        b == 'x'
    } else if a == 'l' {
        "eistS"@.contains(b)
    } else if a == 'm' {
        "ilmIL"@.contains(b)
    } else if a == 'n' {
        "aegtw"@.contains(b)
    } else if a == 'o' {
        "orR"@.contains(b)
    } else if a == 'p' {
        "lmpstL"@.contains(b)
    } else if a == 'q' {
        b == 'u'
    } else if a == 'r' {
        "msMS"@.contains(b)
    } else if a == 's' {
        b == 's'
    } else {
        a == 'v' && is_digit(b)
    }
}

/// Whether a component that has no name of its own may start at `at` of an Itanium name: template
/// arguments, a tag, a constructor, a destructor or an operator.
pub open spec fn may_be_nameless(text: Seq<char>, at: int) -> bool {
    ||| "IBCD"@.contains(text[at])
    ||| at + 1 < text.len() && is_operator(text[at], text[at + 1])
}

/// How many components of the first `count` characters of an Itanium name may have no name of their
/// own.
pub open spec fn nameless(text: Seq<char>, count: int) -> int
    decreases count,
{
    if count <= 0 {
        0
    } else if may_be_nameless(text, count - 1) {
        nameless(text, count - 1) + 1
    } else {
        nameless(text, count - 1)
    }
}

/// How many components of an Itanium name may have no name of their own.
pub const MAX_NAMELESS: u64 = 1024;

/// Whether the demangler for Itanium names can be given a name.
pub open spec fn is_sound_itanium(text: Seq<char>) -> bool {
    nameless(text, text.len() as int) <= MAX_NAMELESS
}

/// Whether a name starts as Itanium names do.
pub open spec fn is_itanium_name(text: Seq<char>) -> bool {
    ||| stands_at(text, 0, "_Z"@)
    ||| stands_at(text, 0, "__Z"@)
    ||| stands_at(text, 0, "___Z"@)
    ||| stands_at(text, 0, "____Z"@)
}

/// Whether a name of a language can be demangled or is left as it is.
///
/// The demanglers call themselves for parts of a name that hold others, for MSVC names and Swift
/// names without a limit, and for Itanium names without one while they look for the last component
/// that has a name. Here the number of such calls is limited. The demanglers for MSVC names and for
/// Swift names print parts again where a name asks for it, so that the text grows with a power of
/// how often it does: that is limited too. The one for MSVC names computes some numbers and letters
/// without looking whether they fit. The one for Swift names takes it for granted that some thunks
/// and opaque types stand behind the types that they need, and that some characters lead to a place
/// behind them. All other names are left to the limits of their demanglers.
pub open spec fn can_be_demangled(symbol: Seq<char>, language: u32, format: DemangleFormat) -> bool {
    let language = Language::spec_from_code(language);
    let unknown = language == Language::Unknown;
    let is_msvc = stands_at(symbol, 0, "?"@);
    &&& (language == Language::Cpp || unknown) && is_msvc ==> is_sound_msvc(symbol)
    &&& language == Language::Cpp && !is_msvc ==> is_sound_itanium(symbol)
    &&& (language == Language::ObjCpp || unknown) && is_itanium_name(symbol) ==> is_sound_itanium(
        symbol,
    )
    &&& (language == Language::Swift || unknown) && is_swift_name(symbol) ==> is_sound_swift(
        symbol,
        format == DemangleFormat::Full,
    )
}

/// A name, demangled as `symbolic::demangle` does it; the name itself where that cannot be done.
pub uninterp spec fn demangled(
    symbol: Seq<char>,
    language: u32,
    with_arguments: bool,
    format: DemangleFormat,
) -> Seq<char>;

/// Calls `symbolic::demangle::Demangle::try_demangle` on a name of a language. Claims that the text
/// depends on the name, the language and the options alone. How much of the stack the calls take that
/// the demanglers make is the compiler's affair, and nothing is said of it.
#[verifier::external_body]
pub(crate) fn demangle_name(
    symbol: &str,
    language: u32,
    with_arguments: bool,
    format: DemangleFormat,
) -> (r: String)
    requires
        can_be_demangled(symbol@, language, format),
    ensures
        r@ == demangled(symbol@, language, with_arguments, format),
{
    let language = symbolic::common::Language::from_u32(language);
    let format = match format {
        DemangleFormat::Short => symbolic::demangle::DemangleFormat::Short,
        DemangleFormat::Full => symbolic::demangle::DemangleFormat::Full,
    };
    let options = symbolic::demangle::DemangleOptions { format, with_arguments };
    let name = symbolic::common::Name::with_language(symbol, language);
    symbolic::demangle::Demangle::try_demangle(&name, options).into_owned()
}

pub(crate) fn chars_of(text: &str) -> (r: Vec<char>)
    ensures
        r@ == text@,
{
    let mut chars: Vec<char> = Vec::new();
    for c in it: text.chars()
        invariant
            it.seq() == text@,
            chars@ == text@.take(it.index()),
    {
        assert(text@.take(it.index() + 1) =~= text@.take(it.index()).push(c));
        chars.push(c);
    }
    assert(text@.take(text@.len() as int) =~= text@);
    chars
}

fn word_at(text: &Vec<char>, at: usize, word: &Vec<char>) -> (r: bool)
    requires
        at <= text.len(),
    ensures
        r == stands_at(text@, at as int, word@),
{
    if text.len() - at < word.len() {
        return false;
    }
    let ghost part = text@.subrange(at as int, at + word.len());
    let mut k: usize = 0;
    while k < word.len()
        invariant
            at + word.len() <= text.len(),
            part == text@.subrange(at as int, at + word.len()),
            k <= word.len(),
            forall|j: int| 0 <= j < k ==> #[trigger] part[j] == word@[j],
        decreases word.len() - k,
    {
        assert(part[k as int] == text@[at + k]);
        if text[at + k] != word[k] {
            return false;
        }
        k += 1;
    }
    assert(part =~= word@);
    true
}

pub(crate) fn starts_with(text: &Vec<char>, word: &str) -> (r: bool)
    ensures
        r == stands_at(text@, 0, word@),
{
    let word = chars_of(word);
    word_at(text, 0, &word)
}

pub(crate) fn holds(text: &Vec<char>, word: &str) -> (r: bool)
    ensures
        r == stands_in(text@, word@),
{
    let chars = chars_of(word);
    let mut i: usize = 0;
    while i < text.len()
        invariant
            chars@ == word@,
            i <= text.len(),
            forall|j: int| 0 <= j < i ==> !#[trigger] stands_at(text@, j, word@),
        decreases text.len() - i,
    {
        if word_at(text, i, &chars) {
            return true;
        }
        i += 1;
    }
    // Only an empty word stands at the end.
    word_at(text, i, &chars)
}

pub(crate) fn char_is_digit(c: char) -> (r: bool)
    ensures
        r == is_digit(c),
{
    48 <= c as u32 && c as u32 <= 57
}

fn char_is_small(c: char) -> (r: bool)
    ensures
        r == (97 <= c as int <= 122),
{
    97 <= c as u32 && c as u32 <= 122
}

fn char_is_low(c: char) -> (r: bool)
    ensures
        r == ((c as int) < 65),
{
    (c as u32) < 65
}

fn char_in_identifier(text: &Vec<char>, at: usize) -> (r: bool)
    requires
        at < text.len(),
    ensures
        r == in_identifier(text@, at as int),
{
    if at == 0 {
        return false;
    }
    let c: char = text[at - 1];
    char_is_small(c) || c == '_'
}

fn char_is_pointer(c: char) -> (r: bool)
    ensures
        r == is_pointer(c),
{
    c == 'P' || c == 'Q' || c == 'R' || c == 'S'
}

fn char_qualifies(text: &Vec<char>, at: usize) -> (r: bool)
    requires
        at < text.len(),
    ensures
        r == qualifies(text@, at as int),
{
    if at > 0 && char_is_pointer(text[at - 1]) {
        return true;
    }
    at > 1 && text[at - 1] == 'E' && (char_is_pointer(text[at - 2]) || text[at - 2] == 'A'
        || text[at - 2] == 'B')
}

fn char_cost(text: &Vec<char>, at: usize) -> (r: u64)
    requires
        at < text.len(),
    ensures
        r == stack_cost(text@, at as int),
        r <= 12,
{
    let c: char = text[at];
    if c == '?' {
        12
    } else if c == '@' {
        1
    } else if char_in_identifier(text, at) {
        0
    } else if char_is_pointer(c) || c == 'Y' || ((c == 'A' || c == 'B') && !char_qualifies(
        text,
        at,
    )) {
        9
    } else {
        0
    }
}

/// What more characters cost of the stack is added to what fewer do, and how often they repeat parts
/// too.
proof fn lemma_counts_grow(text: Seq<char>, count: int, end: int)
    requires
        0 <= count <= end <= text.len(),
    ensures
        total_cost(text, count) <= total_cost(text, end),
        repeats(text, count) <= repeats(text, end),
        nameless(text, count) <= nameless(text, end),
    decreases end - count,
{
    if count < end {
        lemma_counts_grow(text, count, end - 1);
    }
}

fn char_may_repeat(text: &Vec<char>, at: usize) -> (r: bool)
    requires
        at < text.len(),
    ensures
        r == may_repeat(text@, at as int),
{
    char_is_digit(text[at]) && !char_in_identifier(text, at) && !(0 < at && text[at - 1] == '$')
        && !(1 < at && text[at] == '4' && text[at - 1] == 'W' && text[at - 2] != '_')
}

fn check_parts(text: &Vec<char>) -> (r: bool)
    ensures
        r == (total_cost(text@, text.len() as int) <= MAX_COST && repeats(text@, text.len() as int)
            <= MAX_REPEATS),
{
    let mut cost: u64 = 0;
    let mut repeated: u64 = 0;
    let mut i: usize = 0;
    while i < text.len()
        invariant
            i <= text.len(),
            cost <= MAX_COST,
            repeated <= MAX_REPEATS,
            cost == total_cost(text@, i as int),
            repeated == repeats(text@, i as int),
        decreases text.len() - i,
    {
        proof {
            lemma_counts_grow(text@, i + 1, text.len() as int);
        }
        cost += char_cost(text, i);
        if char_may_repeat(text, i) {
            repeated += 1;
        }
        if cost > MAX_COST || repeated > MAX_REPEATS {
            return false;
        }
        i += 1;
    }
    true
}

fn check_operator(a: char, b: char) -> (r: bool)
    ensures
        r == is_operator(a, b),
{
    match a {
        'a' => is_one_of(b, "adnSNw"),
        'c' => is_one_of(b, "olmv"),
        'd' => is_one_of(b, "aelvV"),
        'e' => is_one_of(b, "oOq"),
        'g' => is_one_of(b, "et"),
        'i' => b == 'x',
        'l' => is_one_of(b, "eistS"),
        'm' => is_one_of(b, "ilmIL"),
        'n' => is_one_of(b, "aegtw"),
        'o' => is_one_of(b, "orR"),
        'p' => is_one_of(b, "lmpstL"),
        'q' => b == 'u',
        'r' => is_one_of(b, "msMS"),
        's' => b == 's',
        'v' => char_is_digit(b),
        _ => false,
    }
}

fn check_itanium(text: &Vec<char>) -> (r: bool)
    ensures
        r == is_sound_itanium(text@),
{
    let mut found: u64 = 0;
    let mut i: usize = 0;
    while i < text.len()
        invariant
            i <= text.len(),
            found <= MAX_NAMELESS,
            found == nameless(text@, i as int),
        decreases text.len() - i,
    {
        proof {
            lemma_counts_grow(text@, i + 1, text.len() as int);
        }
        let may: bool = is_one_of(text[i], "IBCD") || (text.len() - i > 1 && check_operator(
            text[i],
            text[i + 1],
        ));
        assert(may == may_be_nameless(text@, i as int));
        if may {
            if found == MAX_NAMELESS {
                return false;
            }
            found += 1;
        }
        i += 1;
    }
    true
}

fn holds_long_guard(text: &Vec<char>) -> (r: bool)
    ensures
        r == exists|i: int| 0 <= i < text.len() && #[trigger] has_long_guard(text@, i),
{
    let word = chars_of("?$TSS");
    let mut i: usize = 0;
    while i < text.len()
        invariant
            word@ == "?$TSS"@,
            i <= text.len(),
            forall|j: int| 0 <= j < i ==> !#[trigger] has_long_guard(text@, j),
        decreases text.len() - i,
    {
        if word_at(text, i, &word) && text.len() - i >= 14 {
            let mut k: usize = i + 5;
            while k < i + 14 && char_is_digit(text[k])
                invariant
                    i + 5 <= k <= i + 14 <= text.len(),
                    forall|j: int| i + 5 <= j < k ==> is_digit(#[trigger] text@[j]),
                decreases i + 14 - k,
            {
                k += 1;
            }
            let ended: bool = text.len() - i > 14 && text[i + 14] == '@';
            if k == i + 14 && !ended {
                assert(has_long_guard(text@, i as int));
                return true;
            }
            assert(k < i + 14 ==> !is_digit(text@[k as int]));
        }
        i += 1;
    }
    false
}

fn holds_low_escape(text: &Vec<char>) -> (r: bool)
    ensures
        r == exists|i: int| 0 <= i < text.len() && #[trigger] has_low_escape(text@, i),
{
    let word = chars_of("?$");
    let mut i: usize = 0;
    while i < text.len()
        invariant
            word@ == "?$"@,
            i <= text.len(),
            forall|j: int| 0 <= j < i ==> !#[trigger] has_low_escape(text@, j),
        decreases text.len() - i,
    {
        if word_at(text, i, &word) {
            let rest: usize = text.len() - i;
            if (rest > 2 && char_is_low(text[i + 2])) || (rest > 3 && char_is_low(text[i + 3])) {
                assert(has_low_escape(text@, i as int));
                return true;
            }
        }
        i += 1;
    }
    false
}

fn check_msvc(text: &Vec<char>) -> (r: bool)
    ensures
        r == is_sound_msvc(text@),
{
    if !check_parts(text) || holds(text, "IAAAAAAA@") || holds_long_guard(text) {
        return false;
    }
    (!holds(text, "_0") && !holds(text, "_1")) || !holds_low_escape(text)
}

/// Whether a name of a language can be demangled or is left as it is.
pub fn check_name(symbol: &str, language: u32, format: DemangleFormat) -> (r: bool)
    ensures
        r == can_be_demangled(symbol@, language, format),
{
    let language = Language::from_code(language);
    let text = chars_of(symbol);
    let unknown: bool = language == Language::Unknown;
    if starts_with(&text, "?") {
        if (unknown || language == Language::Cpp) && !check_msvc(&text) {
            return false;
        }
    } else if language == Language::Cpp && !check_itanium(&text) {
        return false;
    }
    if (unknown || language == Language::ObjCpp) && (starts_with(&text, "_Z") || starts_with(
        &text,
        "__Z",
    ) || starts_with(&text, "___Z") || starts_with(&text, "____Z")) && !check_itanium(&text) {
        return false;
    }
    !((unknown || language == Language::Swift) && check_swift_name(&text)) || check_swift(
        &text,
        format == DemangleFormat::Full,
    )
}

/// A name as it is shown: demangled, or as it is where it cannot be.
pub open spec fn readable_name(
    symbol: Seq<char>,
    language: u32,
    with_arguments: bool,
    format: DemangleFormat,
) -> Seq<char> {
    if can_be_demangled(symbol, language, format) {
        demangled(symbol, language, with_arguments, format)
    } else {
        symbol
    }
}

/// A name as it is shown: demangled, or as it is where it cannot be.
pub fn read_name(symbol: &str, language: u32, with_arguments: bool, format: DemangleFormat) -> (r:
    String)
    ensures
        r@ == readable_name(symbol@, language, with_arguments, format),
{
    if check_name(symbol, language, format) {
        demangle_name(symbol, language, with_arguments, format)
    } else {
        symbol.to_owned()
    }
}

} // verus!
