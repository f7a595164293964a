//! Splitting a line into tokens at runs of whitespace.

use vstd::prelude::*;

verus! {

/// Whether `c` is whitespace: one of the characters that Unicode marks
/// `White_Space`.
pub open spec fn is_whitespace(c: char) -> bool {
    ||| '\u{9}' <= c <= '\u{d}'
    ||| c == ' '
    ||| c == '\u{85}'
    ||| c == '\u{a0}'
    ||| c == '\u{1680}'
    ||| '\u{2000}' <= c <= '\u{200a}'
    ||| c == '\u{2028}'
    ||| c == '\u{2029}'
    ||| c == '\u{202f}'
    ||| c == '\u{205f}'
    ||| c == '\u{3000}'
}

/// The length of the longest run of characters other than whitespace that
/// `s` starts with.
pub open spec fn word_len(s: Seq<char>) -> nat
    decreases s.len(),
{
    if s.len() == 0 || is_whitespace(s[0]) {
        0
    } else {
        1 + word_len(s.skip(1))
    }
}

/// The tokens of `s`, in order: its longest runs of characters other than
/// whitespace. Whitespace before, between and after them is dropped.
pub open spec fn tokens(s: Seq<char>) -> Seq<Seq<char>>
    decreases s.len(),
{
    if s.len() == 0 {
        Seq::empty()
    } else if is_whitespace(s[0]) {
        tokens(s.skip(1))
    } else {
        proof {
            lemma_word_len_bound(s);
        }
        seq![s.take(word_len(s) as int)] + tokens(s.skip(word_len(s) as int))
    }
}

/// The character sequences that a vector of tokens holds.
pub open spec fn words_view(words: Seq<Vec<char>>) -> Seq<Seq<char>> {
    words.map_values(|w: Vec<char>| w@)
}

/// A leading word is no longer than the text, and is not empty unless the
/// text is empty or starts with whitespace.
pub proof fn lemma_word_len_bound(s: Seq<char>)
    ensures
        word_len(s) <= s.len(),
        s.len() > 0 && !is_whitespace(s[0]) ==> word_len(s) >= 1,
    decreases s.len(),
{
    if !(s.len() == 0 || is_whitespace(s[0])) {
        lemma_word_len_bound(s.skip(1));
    }
}

/// Every token is non-empty and holds no whitespace.
pub proof fn lemma_tokens_are_words(s: Seq<char>)
    ensures
        forall|i: int, k: int|
            0 <= i < tokens(s).len() && 0 <= k < tokens(s)[i].len() ==> !is_whitespace(
                #[trigger] tokens(s)[i][k],
            ),
        forall|i: int| 0 <= i < tokens(s).len() ==> (#[trigger] tokens(s)[i]).len() > 0,
    decreases s.len(),
{
    if s.len() == 0 {
    } else if is_whitespace(s[0]) {
        lemma_tokens_are_words(s.skip(1));
        assert(tokens(s) == tokens(s.skip(1)));
    } else {
        let n = word_len(s) as int;
        lemma_word_has_no_whitespace(s);
        lemma_tokens_are_words(s.skip(n));
        assert(tokens(s) == seq![s.take(n)] + tokens(s.skip(n)));
    }
}

/// The leading word of a text holds no whitespace.
pub proof fn lemma_word_has_no_whitespace(s: Seq<char>)
    ensures
        word_len(s) <= s.len(),
        forall|k: int| 0 <= k < word_len(s) ==> !is_whitespace(#[trigger] s[k]),
    decreases s.len(),
{
    if !(s.len() == 0 || is_whitespace(s[0])) {
        lemma_word_has_no_whitespace(s.skip(1));
        assert forall|k: int| 0 <= k < word_len(s) implies !is_whitespace(#[trigger] s[k]) by {
            if k > 0 {
                assert(s[k] == s.skip(1)[k - 1]);
            }
        }
    }
}

/// Whitespace in front of a text adds no token.
pub proof fn lemma_tokens_after_whitespace(c: char, rest: Seq<char>)
    requires
        is_whitespace(c),
    ensures
        tokens(seq![c] + rest) == tokens(rest),
{
    assert((seq![c] + rest).skip(1) =~= rest);
}

/// A word in front of a text that is empty or starts with whitespace is
/// the first token, and the tokens of the text follow.
pub proof fn lemma_tokens_after_word(word: Seq<char>, rest: Seq<char>)
    requires
        word.len() > 0,
        forall|k: int| 0 <= k < word.len() ==> !is_whitespace(#[trigger] word[k]),
        rest.len() == 0 || is_whitespace(rest[0]),
    ensures
        tokens(word + rest) == seq![word] + tokens(rest),
{
    let s = word + rest;
    lemma_word_len_of(word, rest);
    assert(s.take(word.len() as int) =~= word);
    assert(s.skip(word.len() as int) =~= rest);
}

/// The leading word of `word + rest` is `word`, where `word` holds no
/// whitespace and `rest` is empty or starts with whitespace.
pub proof fn lemma_word_len_of(word: Seq<char>, rest: Seq<char>)
    requires
        forall|k: int| 0 <= k < word.len() ==> !is_whitespace(#[trigger] word[k]),
        rest.len() == 0 || is_whitespace(rest[0]),
    ensures
        word_len(word + rest) == word.len(),
    decreases word.len(),
{
    if word.len() > 0 {
        lemma_word_len_of(word.skip(1), rest);
        assert((word + rest).skip(1) =~= word.skip(1) + rest);
    }
}

/// Whether `c` is whitespace.
pub fn whitespace(c: char) -> (yes: bool)
    ensures
        yes == is_whitespace(c),
{
    (c >= '\u{9}' && c <= '\u{d}') || c == ' ' || c == '\u{85}' || c == '\u{a0}' || c
        == '\u{1680}' || (c >= '\u{2000}' && c <= '\u{200a}') || c == '\u{2028}' || c
        == '\u{2029}' || c == '\u{202f}' || c == '\u{205f}' || c == '\u{3000}'
}

/// The characters of `s`, one by one.
pub fn chars_of(s: &str) -> (chars: Vec<char>)
    ensures
        chars@ == s@,
{
    let mut chars: Vec<char> = Vec::new();
    for c in it: s.chars()
        invariant
            chars@ == it.seq().take(it.index() as int),
            it.seq() == s@,
    {
        chars.push(c);
    }
    chars
}

/// Splits `line` into its tokens.
pub fn split_whitespace(line: &Vec<char>) -> (words: Vec<Vec<char>>)
    ensures
        words_view(words@) == tokens(line@),
{
    let ghost s = line@;
    let mut words: Vec<Vec<char>> = Vec::new();
    let mut i: usize = 0;
    assert(s.skip(0) =~= s);
    while i < line.len()
        invariant
            s == line@,
            i <= line.len(),
            tokens(s) == words_view(words@) + tokens(s.skip(i as int)),
        decreases line.len() - i,
    {
        let ghost rest = s.skip(i as int);
        if whitespace(line[i]) {
            assert(rest.skip(1) =~= s.skip(i + 1));
            i = i + 1;
        } else {
            let start: usize = i;
            let mut word: Vec<char> = Vec::new();
            while i < line.len() && !whitespace(line[i])
                invariant
                    s == line@,
                    start <= i <= line.len(),
                    word@ == s.subrange(start as int, i as int),
                    word_len(s.skip(start as int)) == (i - start) + word_len(s.skip(i as int)),
                decreases line.len() - i,
            {
                assert(s.skip(i as int).skip(1) =~= s.skip(i + 1));
                word.push(line[i]);
                i = i + 1;
            }
            proof {
                let n = word_len(rest) as int;
                assert(rest.take(n) =~= word@);
                assert(rest.skip(n) =~= s.skip(i as int));
                assert(words_view(words@) + (seq![word@] + tokens(s.skip(i as int)))
                    =~= words_view(words@.push(word)) + tokens(s.skip(i as int)));
            }
            words.push(word);
        }
    }
    words
}

} // verus!
