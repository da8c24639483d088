//! Cutting a line of text into its words.
//!
//! A word is a longest run of characters that holds no white space. The
//! words of a line are all such runs, from left to right. Nothing is quoted
//! and nothing is escaped: white space always separates.

use crate::whitespace::{is_whitespace, is_whitespace_char};
use vstd::prelude::*;

verus! {

/// Whether `s` holds white space only. The empty text is blank.
pub open spec fn is_blank(s: Seq<char>) -> bool {
    forall|i: int| 0 <= i < s.len() ==> is_whitespace_char(#[trigger] s[i])
}

/// Whether `s` is a word: not empty, and free of white space.
pub open spec fn is_word(s: Seq<char>) -> bool {
    &&& s.len() > 0
    &&& forall|i: int| 0 <= i < s.len() ==> !is_whitespace_char(#[trigger] s[i])
}

/// How many characters stand at the start of `s` before its first white
/// space character, or before its end where it holds none.
pub open spec fn word_len(s: Seq<char>) -> nat
    decreases s.len(),
{
    if s.len() == 0 || is_whitespace_char(s[0]) {
        0
    } else {
        1 + word_len(s.drop_first())
    }
}

/// The words of `s`, from left to right.
///
/// White space at the start of `s` is passed over. What follows it begins
/// with a word, which ends at the next white space character or at the end
/// of `s`; the other words are those of the text behind it.
pub open spec fn tokens(s: Seq<char>) -> Seq<Seq<char>>
    decreases s.len(),
{
    if s.len() == 0 {
        Seq::empty()
    } else if is_whitespace_char(s[0]) {
        tokens(s.drop_first())
    } else {
        proof {
            lemma_word_len(s);
        }
        let n = word_len(s) as int;
        seq![s.take(n)] + tokens(s.skip(n))
    }
}

/// The text in which the words of `words` stand in order, with `gaps[i]`
/// before the word of index `i` and the last gap behind the last word.
pub open spec fn spaced(gaps: Seq<Seq<char>>, words: Seq<Seq<char>>) -> Seq<char>
    recommends
        gaps.len() == words.len() + 1,
    decreases words.len(),
{
    if words.len() == 0 {
        gaps[0]
    } else {
        gaps[0] + words[0] + spaced(gaps.drop_first(), words.drop_first())
    }
}

/// Whether `gaps` can separate `words`: there is one gap before each word
/// and one behind the last, every gap is blank, and a gap between two words
/// is not empty.
pub open spec fn separates(gaps: Seq<Seq<char>>, words: Seq<Seq<char>>) -> bool {
    &&& gaps.len() == words.len() + 1
    &&& forall|i: int| 0 <= i < gaps.len() ==> is_blank(#[trigger] gaps[i])
    &&& forall|i: int| 0 < i < words.len() ==> (#[trigger] gaps[i]).len() > 0
}

/// `word_len(s)` is the place of the first white space character of `s`,
/// or the length of `s` where it holds none.
pub proof fn lemma_word_len(s: Seq<char>)
    ensures
        word_len(s) <= s.len(),
        forall|i: int| 0 <= i < word_len(s) ==> !is_whitespace_char(#[trigger] s[i]),
        word_len(s) < s.len() ==> is_whitespace_char(s[word_len(s) as int]),
        s.len() > 0 && !is_whitespace_char(s[0]) ==> word_len(s) >= 1,
    decreases s.len(),
{
    if s.len() > 0 && !is_whitespace_char(s[0]) {
        let rest = s.drop_first();
        lemma_word_len(rest);
        assert forall|i: int| 0 <= i < word_len(s) implies !is_whitespace_char(#[trigger] s[i]) by {
            if i > 0 {
                assert(s[i] == rest[i - 1]);
            }
        }
    }
}

/// A run of `n` characters without white space that ends `s`, or that a
/// white space character follows, is the word that `s` starts with.
pub proof fn lemma_word_len_is(s: Seq<char>, n: nat)
    requires
        n <= s.len(),
        forall|i: int| 0 <= i < n ==> !is_whitespace_char(#[trigger] s[i]),
        n < s.len() ==> is_whitespace_char(s[n as int]),
    ensures
        word_len(s) == n,
    decreases n,
{
    if n > 0 {
        let rest = s.drop_first();
        assert forall|i: int| 0 <= i < n - 1 implies !is_whitespace_char(#[trigger] rest[i]) by {
            assert(rest[i] == s[i + 1]);
        }
        lemma_word_len_is(rest, (n - 1) as nat);
    }
}

/// White space before a text adds no word to it.
pub proof fn lemma_tokens_skip_blank(blank: Seq<char>, s: Seq<char>)
    requires
        is_blank(blank),
    ensures
        tokens(blank + s) == tokens(s),
    decreases blank.len(),
{
    if blank.len() == 0 {
        assert(blank + s =~= s);
    } else {
        let rest = blank.drop_first();
        assert((blank + s).drop_first() =~= rest + s);
        assert(is_blank(rest)) by {
            assert forall|i: int| 0 <= i < rest.len() implies is_whitespace_char(
                #[trigger] rest[i],
            ) by {
                assert(rest[i] == blank[i + 1]);
            }
        }
        lemma_tokens_skip_blank(rest, s);
    }
}

/// A word before a text that is empty or starts with white space is the
/// first word of the whole.
pub proof fn lemma_tokens_first_word(word: Seq<char>, s: Seq<char>)
    requires
        is_word(word),
        s.len() > 0 ==> is_whitespace_char(s[0]),
    ensures
        tokens(word + s) == seq![word] + tokens(s),
{
    let line = word + s;
    let n = word.len();
    assert forall|i: int| 0 <= i < n implies !is_whitespace_char(#[trigger] line[i]) by {
        assert(line[i] == word[i]);
    }
    assert(n < line.len() ==> line[n as int] == s[0]);
    lemma_word_len_is(line, n);
    assert(line.take(n as int) =~= word);
    assert(line.skip(n as int) =~= s);
}

/// Every one of the words of `s` is a word: none is empty, and none holds
/// white space.
pub proof fn lemma_tokens_are_words(s: Seq<char>)
    ensures
        forall|i: int| 0 <= i < tokens(s).len() ==> is_word(#[trigger] tokens(s)[i]),
    decreases s.len(),
{
    if s.len() == 0 {
    } else if is_whitespace_char(s[0]) {
        lemma_tokens_are_words(s.drop_first());
        assert(tokens(s) == tokens(s.drop_first()));
    } else {
        lemma_word_len(s);
        let n = word_len(s) as int;
        lemma_tokens_are_words(s.skip(n));
        assert forall|i: int| 0 <= i < tokens(s).len() implies is_word(#[trigger] tokens(s)[i]) by {
            if i > 0 {
                assert(tokens(s)[i] == tokens(s.skip(n))[i - 1]);
            } else {
                assert(tokens(s)[0] == s.take(n));
            }
        }
    }
}

/// A text has no words if and only if it is blank.
pub proof fn lemma_tokens_of_blank(s: Seq<char>)
    ensures
        is_blank(s) <==> tokens(s).len() == 0,
    decreases s.len(),
{
    if s.len() > 0 && is_whitespace_char(s[0]) {
        let rest = s.drop_first();
        lemma_tokens_of_blank(rest);
        if is_blank(s) {
            assert forall|i: int| 0 <= i < rest.len() implies is_whitespace_char(
                #[trigger] rest[i],
            ) by {
                assert(rest[i] == s[i + 1]);
            }
        }
        if is_blank(rest) {
            assert forall|i: int| 0 <= i < s.len() implies is_whitespace_char(#[trigger] s[i]) by {
                if i > 0 {
                    assert(s[i] == rest[i - 1]);
                }
            }
        }
    }
}

/// Cutting finds again the words that a text was put together from: where
/// `gaps` separates `words`, the words of the text made of both are
/// `words`, whatever white space the gaps hold.
pub proof fn lemma_tokens_of_spaced(gaps: Seq<Seq<char>>, words: Seq<Seq<char>>)
    requires
        separates(gaps, words),
        forall|i: int| 0 <= i < words.len() ==> is_word(#[trigger] words[i]),
    ensures
        tokens(spaced(gaps, words)) == words,
    decreases words.len(),
{
    if words.len() == 0 {
        lemma_tokens_of_blank(gaps[0]);
        assert(tokens(gaps[0]) =~= words);
    } else {
        let more_gaps = gaps.drop_first();
        let more_words = words.drop_first();
        let rest = spaced(more_gaps, more_words);
        assert(separates(more_gaps, more_words)) by {
            assert forall|i: int| 0 <= i < more_gaps.len() implies is_blank(
                #[trigger] more_gaps[i],
            ) by {
                assert(more_gaps[i] == gaps[i + 1]);
            }
            assert forall|i: int| 0 < i < more_words.len() implies (#[trigger] more_gaps[i]).len()
                > 0 by {
                assert(more_gaps[i] == gaps[i + 1]);
            }
        }
        assert forall|i: int| 0 <= i < more_words.len() implies is_word(
            #[trigger] more_words[i],
        ) by {
            assert(more_words[i] == words[i + 1]);
        }
        lemma_tokens_of_spaced(more_gaps, more_words);
        assert(rest.len() > 0 ==> is_whitespace_char(rest[0])) by {
            assert(more_gaps[0] == gaps[1]);
            if more_words.len() > 0 {
                assert(rest[0] == gaps[1][0]);
            }
        }
        assert(spaced(gaps, words) =~= gaps[0] + (words[0] + rest));
        lemma_tokens_skip_blank(gaps[0], words[0] + rest);
        lemma_tokens_first_word(words[0], rest);
        assert(seq![words[0]] + more_words =~= words);
    }
}

/// Every text is made of its words and of white space: there are gaps that
/// separate the words of `s` and that give `s` back when the words are
/// set between them. The proof hands out such gaps.
pub proof fn lemma_spaced_tokens(s: Seq<char>) -> (gaps: Seq<Seq<char>>)
    ensures
        separates(gaps, tokens(s)),
        spaced(gaps, tokens(s)) == s,
    decreases s.len(),
{
    if s.len() == 0 {
        seq![s]
    } else if is_whitespace_char(s[0]) {
        let rest = s.drop_first();
        let inner = lemma_spaced_tokens(rest);
        let gaps = inner.update(0, seq![s[0]] + inner[0]);
        assert(gaps.drop_first() =~= inner.drop_first());
        assert(spaced(gaps, tokens(s)) =~= seq![s[0]] + spaced(inner, tokens(rest)));
        assert(seq![s[0]] + rest =~= s);
        assert forall|i: int| 0 <= i < gaps.len() implies is_blank(#[trigger] gaps[i]) by {
            assert(is_blank(inner[i]));
        }
        gaps
    } else {
        lemma_word_len(s);
        let n = word_len(s) as int;
        let rest = s.skip(n);
        let inner = lemma_spaced_tokens(rest);
        let gaps = seq![Seq::<char>::empty()] + inner;
        let words = tokens(s);
        assert(gaps.drop_first() =~= inner);
        assert(words.drop_first() =~= tokens(rest));
        assert(spaced(gaps, words) =~= s.take(n) + rest);
        assert(s.take(n) + rest =~= s);
        assert forall|i: int| 0 <= i < gaps.len() implies is_blank(#[trigger] gaps[i]) by {
            if i > 0 {
                assert(gaps[i] == inner[i - 1]);
            }
        }
        assert forall|i: int| 0 < i < words.len() implies (#[trigger] gaps[i]).len() > 0 by {
            assert(gaps[i] == inner[i - 1]);
            if i == 1 && inner[0].len() == 0 {
                // The text behind the first word would begin with the
                // second word, yet white space ends the first.
                lemma_tokens_are_words(rest);
                assert(rest[0] == tokens(rest)[0][0]);
            }
        }
        gaps
    }
}

/// The characters of `line`, in order.
fn characters(line: &str) -> (chars: Vec<char>)
    ensures
        chars@ == line@,
{
    let mut chars: Vec<char> = Vec::new();
    for c in rest: line.chars()
        invariant
            rest.seq() == line@,
            chars@ == rest.seq().take(rest.index() as int),
    {
        chars.push(c);
    }
    chars
}

/// The words of `line`, from left to right, each as a string of its own.
pub fn split_whitespace(line: &str) -> (words: Vec<String>)
    ensures
        words.deep_view() == tokens(line@),
{
    let chars = characters(line);
    let n = chars.len();
    let mut words: Vec<String> = Vec::new();
    let mut i: usize = 0;
    assert(line@.skip(0) =~= line@);
    assert(words.deep_view() + tokens(line@) =~= tokens(line@));
    while i < n
        invariant
            chars@ == line@,
            n == line@.len(),
            i <= n,
            tokens(line@) == words.deep_view() + tokens(line@.skip(i as int)),
        decreases n - i,
    {
        let ghost here = line@.skip(i as int);
        if is_whitespace(chars[i]) {
            assert(here.drop_first() =~= line@.skip(i + 1));
            i += 1;
        } else {
            let start = i;
            i += 1;
            while i < n && !is_whitespace(chars[i])
                invariant
                    chars@ == line@,
                    n == line@.len(),
                    start < i <= n,
                    forall|k: int| start <= k < i ==> !is_whitespace_char(#[trigger] line@[k]),
                decreases n - i,
            {
                i += 1;
            }
            let word = line.substring_char(start, i).to_string();
            let ghost found = words.deep_view();
            words.push(word);
            proof {
                let len = (i - start) as nat;
                let behind = tokens(line@.skip(i as int));
                assert forall|k: int| 0 <= k < len implies !is_whitespace_char(
                    #[trigger] here[k],
                ) by {
                    assert(here[k] == line@[start + k]);
                }
                lemma_word_len_is(here, len);
                assert(here.take(len as int) =~= word@);
                assert(here.skip(len as int) =~= line@.skip(i as int));
                assert(words.deep_view() =~= found.push(word@));
                assert(found + (seq![word@] + behind) =~= found.push(word@) + behind);
            }
        }
    }
    assert(tokens(line@.skip(n as int)) =~= Seq::<Seq<char>>::empty());
    words
}

} // verus!
