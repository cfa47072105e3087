//! Text layout for the message region: splitting a text into words and
//! wrapping the words greedily into lines.
//!
//! A line is a sequence of words and is rendered with one space between
//! neighbours. A word joins the line as long as the line with it renders in
//! fewer characters than the column budget; a word that is too long even for
//! a line of its own is never broken and stands alone. A text may have any
//! number of words.

use vstd::prelude::*;
use vstd::string::{StrSliceExecFns, StringExecFns};

use crate::text::chars_of;

verus! {

/// Whether `c` separates words: space, tab, line feed, form feed or
/// carriage return.
pub open spec fn is_space(c: char) -> bool {
    c == ' ' || c == '\t' || c == '\n' || c == '\x0C' || c == '\r'
}

/// Length of the longest prefix of `text` without a separator.
pub open spec fn word_len(text: Seq<char>) -> nat
    decreases text.len(),
{
    if text.len() == 0 || is_space(text[0]) {
        0
    } else {
        1 + word_len(text.drop_first())
    }
}

/// The words of `text`: its maximal runs of characters that are no
/// separators, in order.
pub open spec fn words_of(text: Seq<char>) -> Seq<Seq<char>>
    decreases text.len(),
    via words_of_terminates
{
    if text.len() == 0 {
        Seq::empty()
    } else if is_space(text[0]) {
        words_of(text.drop_first())
    } else {
        seq![text.take(word_len(text) as int)] + words_of(text.skip(word_len(text) as int))
    }
}

#[via_fn]
proof fn words_of_terminates(text: Seq<char>) {
    lemma_word_len_bounds(text);
}

/// A word is no longer than the text it starts, and has a character where
/// the text starts with one that is no separator.
pub proof fn lemma_word_len_bounds(text: Seq<char>)
    ensures
        word_len(text) <= text.len(),
        text.len() > 0 && !is_space(text[0]) ==> word_len(text) >= 1,
    decreases text.len(),
{
    if text.len() > 0 && !is_space(text[0]) {
        lemma_word_len_bounds(text.drop_first());
    }
}

/// A text has no more words than characters.
pub proof fn lemma_words_len(text: Seq<char>)
    ensures
        words_of(text).len() <= text.len(),
    decreases text.len(),
{
    if text.len() > 0 {
        if is_space(text[0]) {
            lemma_words_len(text.drop_first());
        } else {
            lemma_word_len_bounds(text);
            lemma_words_len(text.skip(word_len(text) as int));
        }
    }
}

/// No word is longer than the text it comes from.
pub proof fn lemma_word_is_short(text: Seq<char>, k: int)
    requires
        0 <= k < words_of(text).len(),
    ensures
        words_of(text)[k].len() <= text.len(),
    decreases text.len(),
{
    if is_space(text[0]) {
        lemma_word_is_short(text.drop_first(), k);
    } else {
        lemma_word_len_bounds(text);
        if k > 0 {
            lemma_word_is_short(text.skip(word_len(text) as int), k - 1);
        }
    }
}

/// The texts of a sequence of string slices.
pub open spec fn word_texts(words: Seq<&str>) -> Seq<Seq<char>> {
    words.map_values(|s: &str| s@)
}

/// The texts of a sequence of strings.
pub open spec fn line_texts(lines: Seq<String>) -> Seq<Seq<char>> {
    lines.map_values(|s: String| s@)
}

/// Characters in all the words of `line` together.
pub open spec fn chars_in(line: Seq<Seq<char>>) -> nat
    decreases line.len(),
{
    if line.len() == 0 {
        0
    } else {
        chars_in(line.drop_last()) + line.last().len()
    }
}

/// Characters that `line` takes when rendered: those of its words and one
/// separator between neighbours.
pub open spec fn width(line: Seq<Seq<char>>) -> nat {
    if line.len() == 0 {
        0
    } else {
        (chars_in(line) + line.len() - 1) as nat
    }
}

/// The words of `line` with one space between neighbours.
pub open spec fn render(line: Seq<Seq<char>>) -> Seq<char>
    decreases line.len(),
{
    if line.len() == 0 {
        Seq::empty()
    } else if line.len() == 1 {
        line[0]
    } else {
        render(line.drop_last()) + seq![' '] + line.last()
    }
}

/// How many words the line takes that starts with the first `taken` words
/// of `words`: one more as long as the line with it stays under `budget`.
pub open spec fn extend(words: Seq<Seq<char>>, taken: nat, budget: nat) -> nat
    decreases words.len() - taken,
{
    if taken < words.len() && width(words.take((taken + 1) as int)) < budget {
        extend(words, taken + 1, budget)
    } else {
        taken
    }
}

/// The lines into which `words` are wrapped: each starts with the first
/// word that is left and is extended as far as the budget allows.
pub open spec fn wrap(words: Seq<Seq<char>>, budget: nat) -> Seq<Seq<Seq<char>>>
    decreases words.len(),
    via wrap_terminates
{
    if words.len() == 0 {
        Seq::empty()
    } else {
        let taken = extend(words, 1, budget);
        seq![words.take(taken as int)] + wrap(words.skip(taken as int), budget)
    }
}

#[via_fn]
proof fn wrap_terminates(words: Seq<Seq<char>>, budget: nat) {
    if words.len() > 0 {
        lemma_extend_bounds(words, 1, budget);
    }
}

/// The lines that are drawn for `words`: those of `wrap`, or one empty line
/// where there is no word at all.
pub open spec fn lines_of(words: Seq<Seq<char>>, budget: nat) -> Seq<Seq<Seq<char>>> {
    if words.len() == 0 {
        seq![Seq::empty()]
    } else {
        wrap(words, budget)
    }
}

/// Each line of `lines` as it is rendered.
pub open spec fn rendered(lines: Seq<Seq<Seq<char>>>) -> Seq<Seq<char>> {
    lines.map_values(|line: Seq<Seq<char>>| render(line))
}

/// A rendered line has as many characters as `width` says.
pub proof fn lemma_render_len(line: Seq<Seq<char>>)
    ensures
        render(line).len() == width(line),
    decreases line.len(),
{
    if line.len() == 1 {
        assert(line.drop_last().len() == 0);
        assert(chars_in(line.drop_last()) == 0);
    } else if line.len() > 1 {
        lemma_render_len(line.drop_last());
    }
}

/// A line takes at least the words it starts with and at most all of them.
pub proof fn lemma_extend_bounds(words: Seq<Seq<char>>, taken: nat, budget: nat)
    requires
        taken <= words.len(),
    ensures
        taken <= extend(words, taken, budget) <= words.len(),
    decreases words.len() - taken,
{
    if taken < words.len() && width(words.take((taken + 1) as int)) < budget {
        lemma_extend_bounds(words, taken + 1, budget);
    }
}

/// Wrapping loses no word, repeats none and keeps their order: the lines,
/// one after the other, are the words that were wrapped.
pub proof fn lemma_wrap_keeps_words(words: Seq<Seq<char>>, budget: nat)
    ensures
        wrap(words, budget).flatten() == words,
        lines_of(words, budget).flatten() == words,
    decreases words.len(),
{
    if words.len() == 0 {
        let one: Seq<Seq<Seq<char>>> = seq![Seq::empty()];
        assert(one.drop_first() == Seq::<Seq<Seq<char>>>::empty());
        assert(one.flatten() == one.first() + one.drop_first().flatten());
        assert(lines_of(words, budget).flatten() == words);
    } else {
        let taken = extend(words, 1, budget);
        lemma_extend_bounds(words, 1, budget);
        let head = words.take(taken as int);
        let tail = wrap(words.skip(taken as int), budget);
        lemma_wrap_keeps_words(words.skip(taken as int), budget);
        let all = seq![head] + tail;
        assert(all.first() == head);
        assert(all.drop_first() == tail);
        assert(all.flatten() == head + tail.flatten());
        assert(head + words.skip(taken as int) == words);
    }
}

/// Every line holds at least one word.
pub proof fn lemma_wrap_lines_are_not_empty(words: Seq<Seq<char>>, budget: nat, i: int)
    requires
        0 <= i < wrap(words, budget).len(),
    ensures
        wrap(words, budget)[i].len() >= 1,
    decreases words.len(),
{
    let taken = extend(words, 1, budget);
    lemma_extend_bounds(words, 1, budget);
    if i > 0 {
        lemma_wrap_lines_are_not_empty(words.skip(taken as int), budget, i - 1);
    }
}

/// There are never more lines than words.
pub proof fn lemma_wrap_len(words: Seq<Seq<char>>, budget: nat)
    ensures
        wrap(words, budget).len() <= words.len(),
        words.len() > 0 ==> wrap(words, budget).len() >= 1,
        1 <= lines_of(words, budget).len(),
        lines_of(words, budget).len() <= words.len() || lines_of(words, budget).len() == 1,
    decreases words.len(),
{
    if words.len() > 0 {
        let taken = extend(words, 1, budget);
        lemma_extend_bounds(words, 1, budget);
        lemma_wrap_len(words.skip(taken as int), budget);
    }
}

/// The words that `extend` takes render under the budget, unless the line
/// holds no more than the words it started with.
pub proof fn lemma_extend_fits(words: Seq<Seq<char>>, taken: nat, budget: nat)
    requires
        1 <= taken <= words.len(),
    ensures
        extend(words, taken, budget) == taken || width(
            words.take(extend(words, taken, budget) as int),
        ) < budget,
    decreases words.len() - taken,
{
    if taken < words.len() && width(words.take((taken + 1) as int)) < budget {
        lemma_extend_fits(words, taken + 1, budget);
    }
}

/// A line stops only where the words have ended or where the next word
/// would bring it to the budget or beyond.
pub proof fn lemma_extend_is_greedy(words: Seq<Seq<char>>, taken: nat, budget: nat)
    requires
        taken <= words.len(),
    ensures
        extend(words, taken, budget) == words.len() || width(
            words.take((extend(words, taken, budget) + 1) as int),
        ) >= budget,
    decreases words.len() - taken,
{
    if taken < words.len() && width(words.take((taken + 1) as int)) < budget {
        lemma_extend_is_greedy(words, taken + 1, budget);
    }
}

/// Wrapping is greedy: a line ends only where the first word of the next
/// line would have brought it to the budget or beyond.
pub proof fn lemma_wrap_is_greedy(words: Seq<Seq<char>>, budget: nat, i: int)
    requires
        0 <= i,
        i + 1 < wrap(words, budget).len(),
    ensures
        wrap(words, budget)[i + 1].len() >= 1,
        width(wrap(words, budget)[i].push(wrap(words, budget)[i + 1][0])) >= budget,
    decreases words.len(),
{
    let taken = extend(words, 1, budget);
    lemma_extend_bounds(words, 1, budget);
    let rest = words.skip(taken as int);
    lemma_wrap_lines_are_not_empty(words, budget, i + 1);
    if i == 0 {
        lemma_extend_is_greedy(words, 1, budget);
        lemma_extend_bounds(rest, 1, budget);
        assert(wrap(words, budget)[1] == wrap(rest, budget)[0]);
        assert(wrap(rest, budget)[0][0] == words[taken as int]);
        assert(words.take((taken + 1) as int) == words.take(taken as int).push(
            words[taken as int],
        ));
    } else {
        lemma_wrap_is_greedy(rest, budget, i - 1);
    }
}

/// A line renders in fewer characters than the budget, unless it is a
/// single word that alone is as long as the budget or longer: such a word
/// is never broken.
pub proof fn lemma_wrap_lines_fit(words: Seq<Seq<char>>, budget: nat, i: int)
    requires
        0 <= i < wrap(words, budget).len(),
    ensures
        width(wrap(words, budget)[i]) < budget || (wrap(words, budget)[i].len() == 1 && wrap(
            words,
            budget,
        )[i][0].len() >= budget),
        render(wrap(words, budget)[i]).len() == width(wrap(words, budget)[i]),
    decreases words.len(),
{
    let taken = extend(words, 1, budget);
    lemma_extend_bounds(words, 1, budget);
    lemma_render_len(wrap(words, budget)[i]);
    if i == 0 {
        lemma_extend_fits(words, 1, budget);
        let line = words.take(taken as int);
        if taken == 1 {
            assert(line.drop_last().len() == 0);
            assert(chars_in(line.drop_last()) == 0);
            assert(width(line) == line[0].len());
        }
    } else {
        lemma_wrap_lines_fit(words.skip(taken as int), budget, i - 1);
    }
}

/// Where no word is longer than the budget, no line renders in more
/// characters than the budget.
pub proof fn lemma_wrap_respects_budget(words: Seq<Seq<char>>, budget: nat, i: int)
    requires
        forall|k: int| 0 <= k < words.len() ==> (#[trigger] words[k]).len() <= budget,
        0 <= i < lines_of(words, budget).len(),
    ensures
        render(lines_of(words, budget)[i]).len() <= budget,
{
    lemma_render_len(lines_of(words, budget)[i]);
    if words.len() > 0 {
        lemma_wrap_lines_fit(words, budget, i);
        lemma_wrap_lines_are_not_empty(words, budget, i);
        lemma_wrap_holds_words(words, budget, i, 0);
    }
}

/// Every word of every line is one of the words that were wrapped.
pub proof fn lemma_wrap_holds_words(words: Seq<Seq<char>>, budget: nat, i: int, j: int)
    requires
        0 <= i < wrap(words, budget).len(),
        0 <= j < wrap(words, budget)[i].len(),
    ensures
        exists|k: int| 0 <= k < words.len() && words[k] == wrap(words, budget)[i][j],
    decreases words.len(),
{
    let taken = extend(words, 1, budget);
    lemma_extend_bounds(words, 1, budget);
    if i == 0 {
        assert(words[j] == wrap(words, budget)[i][j]);
    } else {
        let rest = words.skip(taken as int);
        lemma_wrap_holds_words(rest, budget, i - 1, j);
        let k = choose|k: int| 0 <= k < rest.len() && rest[k] == wrap(rest, budget)[i - 1][j];
        assert(words[k + taken] == wrap(words, budget)[i][j]);
    }
}

/// Whether `word` can stand as a word: it has a character, and none of its
/// characters is a separator.
pub open spec fn is_word(word: Seq<char>) -> bool {
    word.len() > 0 && forall|i: int| 0 <= i < word.len() ==> !is_space(#[trigger] word[i])
}

/// The characters that a word takes are no separators.
pub proof fn lemma_word_len_holds_no_space(text: Seq<char>, i: int)
    requires
        0 <= i < word_len(text),
    ensures
        i < text.len(),
        !is_space(text[i]),
    decreases text.len(),
{
    if i > 0 {
        lemma_word_len_holds_no_space(text.drop_first(), i - 1);
    }
}

/// Each of the words of a text can stand as a word.
pub proof fn lemma_words_are_words(text: Seq<char>, k: int)
    requires
        0 <= k < words_of(text).len(),
    ensures
        is_word(words_of(text)[k]),
    decreases text.len(),
{
    if is_space(text[0]) {
        lemma_words_are_words(text.drop_first(), k);
    } else {
        lemma_word_len_bounds(text);
        if k > 0 {
            lemma_words_are_words(text.skip(word_len(text) as int), k - 1);
        } else {
            let word = text.take(word_len(text) as int);
            assert forall|i: int| 0 <= i < word.len() implies !is_space(#[trigger] word[i]) by {
                lemma_word_len_holds_no_space(text, i);
            }
        }
    }
}

proof fn lemma_word_len_before_space(head: Seq<char>, tail: Seq<char>)
    requires
        tail.len() == 0 || is_space(tail[0]),
    ensures
        word_len(head + tail) == word_len(head),
    decreases head.len(),
{
    if head.len() == 0 {
        assert(head + tail == tail);
    } else if !is_space(head[0]) {
        assert((head + tail).drop_first() == head.drop_first() + tail);
        lemma_word_len_before_space(head.drop_first(), tail);
    }
}

proof fn lemma_word_len_of_word(word: Seq<char>)
    requires
        forall|i: int| 0 <= i < word.len() ==> !is_space(#[trigger] word[i]),
    ensures
        word_len(word) == word.len(),
    decreases word.len(),
{
    if word.len() > 0 {
        let rest = word.drop_first();
        assert forall|i: int| 0 <= i < rest.len() implies !is_space(#[trigger] rest[i]) by {
            assert(rest[i] == word[i + 1]);
        }
        lemma_word_len_of_word(rest);
    }
}

/// The words of a text that is followed by a separator are not changed by
/// what follows: they are the words of the text, then those of the rest.
pub proof fn lemma_words_of_before_space(head: Seq<char>, tail: Seq<char>)
    requires
        tail.len() == 0 || is_space(tail[0]),
    ensures
        words_of(head + tail) == words_of(head) + words_of(tail),
    decreases head.len(),
{
    let whole = head + tail;
    if head.len() == 0 {
        assert(whole == tail);
    } else if is_space(head[0]) {
        assert(whole.drop_first() == head.drop_first() + tail);
        lemma_words_of_before_space(head.drop_first(), tail);
    } else {
        lemma_word_len_before_space(head, tail);
        lemma_word_len_bounds(head);
        let n = word_len(head) as int;
        assert(whole.take(n) == head.take(n));
        assert(whole.skip(n) == head.skip(n) + tail);
        lemma_words_of_before_space(head.skip(n), tail);
    }
}

/// A word alone is its own and only word.
pub proof fn lemma_words_of_word(word: Seq<char>)
    requires
        is_word(word),
    ensures
        words_of(word) == seq![word],
{
    lemma_word_len_of_word(word);
    let n = word.len() as int;
    assert(!is_space(word[0]));
    assert(word.take(n) == word);
    assert(word.skip(n).len() == 0);
    assert(words_of(word.skip(n)) == Seq::<Seq<char>>::empty());
    assert(words_of(word) == seq![word.take(n)] + words_of(word.skip(n)));
}

/// Splitting a rendered line gives back the words of the line.
pub proof fn lemma_render_splits_back(line: Seq<Seq<char>>)
    requires
        forall|k: int| 0 <= k < line.len() ==> is_word(#[trigger] line[k]),
    ensures
        words_of(render(line)) == line,
    decreases line.len(),
{
    if line.len() == 1 {
        lemma_words_of_word(line[0]);
    } else if line.len() > 1 {
        let init = line.drop_last();
        let last = line.last();
        let tail = seq![' '] + last;
        assert(render(line) == render(init) + tail);
        lemma_render_splits_back(init);
        lemma_words_of_before_space(render(init), tail);
        assert(tail.drop_first() == last);
        lemma_words_of_word(last);
        assert(init + seq![last] == line);
    }
}

/// Nothing is lost on the way from a text to its lines: each line, split
/// again, gives the words that were put on it, and the lines one after the
/// other hold the words of the text, each once and in their order.
pub proof fn lemma_lines_keep_the_words(text: Seq<char>, budget: nat, i: int)
    requires
        0 <= i < lines_of(words_of(text), budget).len(),
    ensures
        words_of(rendered(lines_of(words_of(text), budget))[i]) == lines_of(
            words_of(text),
            budget,
        )[i],
        lines_of(words_of(text), budget).flatten() == words_of(text),
{
    let words = words_of(text);
    let line = lines_of(words, budget)[i];
    lemma_wrap_keeps_words(words, budget);
    if words.len() > 0 {
        assert forall|k: int| 0 <= k < line.len() implies is_word(#[trigger] line[k]) by {
            lemma_wrap_holds_words(words, budget, i, k);
            let j = choose|j: int| 0 <= j < words.len() && words[j] == wrap(words, budget)[i][k];
            lemma_words_are_words(text, j);
        }
    }
    lemma_render_splits_back(line);
}

proof fn lemma_word_len_step(text: Seq<char>, k: int)
    requires
        0 <= k < text.len(),
        !is_space(text[k]),
    ensures
        word_len(text.skip(k)) == 1 + word_len(text.skip(k + 1)),
{
    assert(text.skip(k).drop_first() == text.skip(k + 1));
}

proof fn lemma_words_of_after_space(text: Seq<char>, k: int)
    requires
        0 <= k < text.len(),
        is_space(text[k]),
    ensures
        words_of(text.skip(k)) == words_of(text.skip(k + 1)),
{
    assert(text.skip(k).drop_first() == text.skip(k + 1));
}

proof fn lemma_words_of_after_word(text: Seq<char>, from: int, to: int)
    requires
        0 <= from < to <= text.len(),
        !is_space(text[from]),
        word_len(text.skip(from)) == to - from,
    ensures
        words_of(text.skip(from)) == seq![text.subrange(from, to)] + words_of(text.skip(to)),
{
    assert(text.skip(from).take(to - from) == text.subrange(from, to));
    assert(text.skip(from).skip(to - from) == text.skip(to));
}

/// Whether `c` separates words.
pub fn is_separator(c: char) -> (yes: bool)
    ensures
        yes == is_space(c),
{
    c == ' ' || c == '\t' || c == '\n' || c == '\x0C' || c == '\r'
}

/// Splits `text` into its words.
pub fn split_words<'a>(text: &'a str) -> (words: Vec<&'a str>)
    ensures
        word_texts(words@) == words_of(text@),
{
    let chars = chars_of(text);
    let n = chars.len();
    let mut words: Vec<&'a str> = Vec::new();
    let mut i: usize = 0;
    assert(text@.skip(0) == text@);
    while i < n
        invariant
            chars@ == text@,
            n == chars@.len(),
            i <= n,
            word_texts(words@) + words_of(text@.skip(i as int)) == words_of(text@),
        decreases n - i,
    {
        if is_separator(chars[i]) {
            proof {
                lemma_words_of_after_space(text@, i as int);
            }
            i += 1;
        } else {
            let mut j: usize = i + 1;
            proof {
                lemma_word_len_step(text@, i as int);
            }
            while j < n && !is_separator(chars[j])
                invariant
                    chars@ == text@,
                    n == chars@.len(),
                    i < j <= n,
                    word_len(text@.skip(i as int)) == (j - i) + word_len(text@.skip(j as int)),
                decreases n - j,
            {
                proof {
                    lemma_word_len_step(text@, j as int);
                }
                j += 1;
            }
            let word = text.substring_char(i, j);
            proof {
                lemma_words_of_after_word(text@, i as int, j as int);
                assert(word_texts(words@.push(word)) == word_texts(words@) + seq![word@]);
            }
            words.push(word);
            i = j;
        }
    }
    words
}

/// Whether a word of `len` characters still goes on a line that renders in
/// `used` characters so far.
fn has_room(used: usize, len: usize, budget: usize) -> (yes: bool)
    ensures
        yes == (used + 1 + len < budget),
{
    used < budget && len < budget - used - 1
}

/// Wraps `words` into lines that render in fewer than `budget` characters
/// wherever the words allow it, and renders each line. Without words there
/// is one empty line.
pub fn wrap_words(words: &Vec<&str>, budget: usize) -> (lines: Vec<String>)
    ensures
        line_texts(lines@) == rendered(lines_of(word_texts(words@), budget as nat)),
{
    let n = words.len();
    let mut lines: Vec<String> = Vec::new();
    let ghost all = word_texts(words@);
    if n == 0 {
        lines.push(String::new());
        assert(line_texts(lines@) == rendered(lines_of(all, budget as nat)));
        return lines;
    }
    let mut i: usize = 0;
    assert(all.skip(0) == all);
    while i < n
        invariant
            n == words@.len(),
            all == word_texts(words@),
            i <= n,
            line_texts(lines@) + rendered(wrap(all.skip(i as int), budget as nat)) == rendered(
                wrap(all, budget as nat),
            ),
        decreases n - i,
    {
        let ghost rest = all.skip(i as int);
        let mut line = String::from_str(words[i]);
        let mut used: usize = words[i].unicode_len();
        let mut taken: usize = 1;
        proof {
            assert(rest.take(1).drop_last().len() == 0);
            assert(chars_in(rest.take(1).drop_last()) == 0);
        }
        while i + taken < n && has_room(used, words[i + taken].unicode_len(), budget)
            invariant
                n == words@.len(),
                all == word_texts(words@),
                rest == all.skip(i as int),
                i < n,
                1 <= taken <= n - i,
                extend(rest, taken as nat, budget as nat) == extend(rest, 1, budget as nat),
                line@ == render(rest.take(taken as int)),
                used == width(rest.take(taken as int)),
            decreases n - i - taken,
        {
            proof {
                reveal_strlit(" ");
                assert(rest.take(taken + 1).drop_last() == rest.take(taken as int));
                assert(rest.take(taken + 1).last() == words@[i + taken]@);
                assert(" "@ == seq![' ']);
            }
            used = used + 1 + words[i + taken].unicode_len();
            line.append(" ");
            line.append(words[i + taken]);
            taken += 1;
        }
        proof {
            if i + taken < n {
                assert(rest.take(taken + 1).drop_last() == rest.take(taken as int));
                assert(rest.take(taken + 1).last() == words@[i + taken]@);
            }
            assert(extend(rest, taken as nat, budget as nat) == taken);
            let first = rest.take(taken as int);
            let others = wrap(rest.skip(taken as int), budget as nat);
            assert(wrap(rest, budget as nat) == seq![first] + others);
            assert(rendered(seq![first] + others) == seq![render(first)] + rendered(others));
            assert(rest.skip(taken as int) == all.skip(i + taken));
            assert(line_texts(lines@.push(line)) == line_texts(lines@) + seq![line@]);
        }
        lines.push(line);
        i += taken;
    }
    proof {
        assert(rendered(wrap(all.skip(n as int), budget as nat)).len() == 0);
    }
    lines
}

/// Splits `text` into words and wraps them: the lines to draw for `text`.
pub fn wrap_text(text: &str, budget: usize) -> (lines: Vec<String>)
    ensures
        line_texts(lines@) == rendered(lines_of(words_of(text@), budget as nat)),
{
    let words = split_words(text);
    wrap_words(&words, budget)
}

} // verus!
