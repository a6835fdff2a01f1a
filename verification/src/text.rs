//! Comparison and slicing of text.

use vstd::prelude::*;
use vstd::string::*;

verus! {

/// Whether two texts hold the same characters.
pub(crate) fn same_text(a: &str, b: &str) -> (r: bool)
    ensures
        r == (a@ == b@),
{
    let a: String = a.to_owned();
    let b: String = b.to_owned();
    a == b
}

/// The number of characters before the first space, or of all characters where there is none.
pub open spec fn first_word_len(s: Seq<char>) -> nat
    decreases s.len(),
{
    if s.len() == 0 || s[0] == ' ' {
        0
    } else {
        1 + first_word_len(s.drop_first())
    }
}

/// The text before the first space, or all of it where there is none.
pub open spec fn first_word(s: Seq<char>) -> Seq<char> {
    s.take(first_word_len(s) as int)
}

/// The text before the first space, or all of it where there is none.
pub(crate) fn word_before_space(text: &str) -> (r: &str)
    ensures
        r@ == first_word(text@),
        r@.is_prefix_of(text@),
        !r@.contains(' '),
        r@.len() == text@.len() || text@[r@.len() as int] == ' ',
{
    proof {
        law_first_word(text@);
    }
    let total: usize = text.unicode_len();
    let mut count: usize = 0;
    let mut ended: bool = false;
    assert(text@.skip(0) =~= text@);
    for c in it: text.chars()
        invariant
            it.seq() == text@,
            text@.len() == total,
            count <= it.index() <= total,
            ended ==> first_word_len(text@) == count,
            !ended ==> count == it.index() && first_word_len(text@) == count + first_word_len(
                text@.skip(count as int),
            ),
    {
        if !ended {
            assert(text@.skip(count as int)[0] == c);
            assert(text@.skip(count as int).drop_first() =~= text@.skip(count + 1));
            if c == ' ' {
                ended = true;
            } else {
                count += 1;
            }
        }
    }
    text.substring_char(0, count)
}

/// The first word is no longer than the text.
proof fn lemma_first_word_len(s: Seq<char>)
    ensures
        first_word_len(s) <= s.len(),
    decreases s.len(),
{
    if s.len() > 0 && s[0] != ' ' {
        lemma_first_word_len(s.drop_first());
    }
}

/// The first word of a text stands at its start and holds no space. Either it is all of the text, or
/// a space follows it.
pub proof fn law_first_word(s: Seq<char>)
    ensures
        first_word(s).is_prefix_of(s),
        forall|i: int| 0 <= i < first_word(s).len() ==> #[trigger] first_word(s)[i] != ' ',
        first_word(s).len() == s.len() || s[first_word(s).len() as int] == ' ',
    decreases s.len(),
{
    lemma_first_word_len(s);
    if s.len() > 0 && s[0] != ' ' {
        let rest = s.drop_first();
        lemma_first_word_len(rest);
        law_first_word(rest);
        let word = first_word(s);
        assert(first_word_len(s) == 1 + first_word_len(rest));
        assert(first_word(rest).len() == first_word_len(rest));
        assert(word.len() == first_word_len(s));
        assert forall|i: int| 0 <= i < word.len() implies #[trigger] word[i] != ' ' by {
            if i > 0 {
                assert(word[i] == first_word(rest)[i - 1]);
            }
        }
    }
}

/// A word that a space follows is the first word of the text, and so is one that is all of it.
pub proof fn law_word_before_space(word: Seq<char>, rest: Seq<char>)
    requires
        forall|i: int| 0 <= i < word.len() ==> #[trigger] word[i] != ' ',
    ensures
        first_word(word + seq![' '] + rest) == word,
        first_word(word) == word,
{
    let s = word + seq![' '] + rest;
    law_first_word(s);
    law_first_word(word);
    let n = first_word(s).len() as int;
    assert(s[word.len() as int] == ' ');
    if n < word.len() {
        assert(s[n] == word[n]);
    }
    if n > word.len() {
        assert(first_word(s)[word.len() as int] == s[word.len() as int]);
    }
    assert(first_word(s) =~= word);
    let m = first_word(word).len() as int;
    if m < word.len() {
        assert(word[m] != ' ');
    }
    assert(first_word(word) =~= word);
}

} // verus!
