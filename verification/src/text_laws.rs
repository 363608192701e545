//! What the operations on texts do, without regard to how.
use crate::text::{
    has_part, has_prefix, is_white_space, joined_with, padded, replaced, trim_end, trim_start,
    trimmed, word_len, words,
};
use vstd::prelude::*;

verus! {

/// A text in which something does not stand is the same after it was replaced.
pub proof fn law_nothing_to_replace(s: Seq<char>, from: Seq<char>, to: Seq<char>)
    requires
        !has_part(s, from),
    ensures
        replaced(s, from, to) == s,
    decreases s.len(),
{
    if from.len() > 0 && s.len() >= from.len() {
        let at: int = 0;
        assert(s.subrange(at, at + from.len()) =~= s.take(from.len() as int));
        let rest = s.skip(1);
        assert forall|i: int| 0 <= i <= rest.len() - from.len() implies #[trigger] rest.subrange(
            i,
            i + from.len(),
        ) != from by {
            let j = i + 1;
            assert(rest.subrange(i, i + from.len()) =~= s.subrange(j, j + from.len()));
        }
        law_nothing_to_replace(rest, from, to);
        assert(seq![s[0]] + rest =~= s);
    }
}

/// Where something stands in a text for the first time, what goes before it stays, what is to
/// replace it stands in its place, and what comes after it is treated likewise.
pub proof fn law_first_is_replaced(
    before: Seq<char>,
    from: Seq<char>,
    after: Seq<char>,
    to: Seq<char>,
)
    requires
        from.len() > 0,
        !has_part((before + from).drop_last(), from),
    ensures
        replaced(before + from + after, from, to) == before + to + replaced(after, from, to),
    decreases before.len(),
{
    let s = before + from + after;
    let n = from.len() as int;
    if before.len() == 0 {
        assert(s.take(n) =~= from);
        assert(s.skip(n) =~= after);
        assert(before + to + replaced(after, from, to) =~= to + replaced(after, from, to));
    } else {
        let head = (before + from).drop_last();
        assert(!has_prefix(s, from)) by {
            if has_prefix(s, from) {
                let at: int = 0;
                assert(head.subrange(at, at + from.len()) =~= s.take(n));
            }
        }
        let rest = before.skip(1);
        let later = (rest + from).drop_last();
        assert forall|i: int| 0 <= i <= later.len() - from.len() implies #[trigger] later.subrange(
            i,
            i + from.len(),
        ) != from by {
            let j = i + 1;
            assert(later.subrange(i, i + from.len()) =~= head.subrange(j, j + from.len()));
        }
        law_first_is_replaced(rest, from, after, to);
        assert(s.skip(1) =~= rest + from + after);
        assert(seq![s[0]] + (rest + to + replaced(after, from, to)) =~= before + to + replaced(
            after,
            from,
            to,
        ));
    }
}

/// A text that is padded begins with the text, has only spaces after it, and is as long as it is
/// to be, or as the text where that is longer.
pub proof fn law_padding_is_spaces(s: Seq<char>, width: nat)
    ensures
        padded(s, width).len() == if s.len() < width {
            width
        } else {
            s.len()
        },
        padded(s, width).take(s.len() as int) == s,
        forall|i: int| s.len() <= i < padded(s, width).len() ==> padded(s, width)[i] == ' ',
    decreases width - s.len(),
{
    if s.len() < width {
        let one = s.push(' ');
        law_padding_is_spaces(one, width);
        let all = padded(s, width);
        assert(all.take(one.len() as int)[s.len() as int] == all[s.len() as int]);
        assert(all.take(s.len() as int) =~= all.take(one.len() as int).take(s.len() as int));
        assert(one.take(s.len() as int) =~= s);
    } else {
        assert(s.take(s.len() as int) =~= s);
    }
}

proof fn lemma_trim_start_takes(s: Seq<char>) -> (n: int)
    ensures
        0 <= n <= s.len(),
        trim_start(s) == s.skip(n),
        forall|i: int| 0 <= i < n ==> is_white_space(#[trigger] s[i]),
        n < s.len() ==> !is_white_space(s[n]),
    decreases s.len(),
{
    if s.len() > 0 && is_white_space(s[0]) {
        let rest = s.skip(1);
        let n = lemma_trim_start_takes(rest);
        assert(rest.skip(n) =~= s.skip(n + 1));
        assert forall|i: int| 0 <= i < n + 1 implies is_white_space(#[trigger] s[i]) by {
            if i > 0 {
                assert(rest[i - 1] == s[i]);
            }
        }
        if n + 1 < s.len() {
            assert(rest[n] == s[n + 1]);
        }
        n + 1
    } else {
        assert(s.skip(0) =~= s);
        0
    }
}

proof fn lemma_trim_end_takes(s: Seq<char>) -> (n: int)
    ensures
        0 <= n <= s.len(),
        trim_end(s) == s.take(n),
        forall|i: int| n <= i < s.len() ==> is_white_space(#[trigger] s[i]),
        n > 0 ==> !is_white_space(s[n - 1]),
    decreases s.len(),
{
    if s.len() > 0 && is_white_space(s.last()) {
        let rest = s.drop_last();
        let n = lemma_trim_end_takes(rest);
        assert(rest.take(n) =~= s.take(n));
        assert forall|i: int| n <= i < s.len() implies is_white_space(#[trigger] s[i]) by {
            if i < rest.len() {
                assert(rest[i] == s[i]);
            }
        }
        if n > 0 {
            assert(rest[n - 1] == s[n - 1]);
        }
        n
    } else {
        assert(s.take(s.len() as int) =~= s);
        s.len() as int
    }
}

/// A text that is trimmed is a piece of the text with nothing but white space on either side, and
/// neither begins nor ends with white space itself.
pub proof fn law_trimming_takes_white_space(s: Seq<char>) -> (from: int)
    ensures
        0 <= from <= from + trimmed(s).len() <= s.len(),
        s.subrange(from, from + trimmed(s).len()) == trimmed(s),
        forall|i: int|
            0 <= i < from || from + trimmed(s).len() <= i < s.len() ==> is_white_space(
                #[trigger] s[i],
            ),
        trimmed(s).len() > 0 ==> !is_white_space(trimmed(s).first()) && !is_white_space(
            trimmed(s).last(),
        ),
{
    let m = lemma_trim_start_takes(s);
    let t = trim_start(s);
    let n = lemma_trim_end_takes(t);
    assert(s.subrange(m, m + n) =~= t.take(n));
    assert forall|i: int| m + n <= i < s.len() implies is_white_space(#[trigger] s[i]) by {
        assert(t[i - m] == s[i]);
    }
    if n > 0 {
        assert(trimmed(s).first() == t[0]);
        assert(t[0] == s[m]);
        assert(trimmed(s).last() == t[n - 1]);
    }
    m
}

proof fn lemma_word(word: Seq<char>, rest: Seq<char>)
    requires
        forall|i: int| 0 <= i < word.len() ==> !is_white_space(#[trigger] word[i]),
        rest.len() > 0 ==> is_white_space(rest[0]),
    ensures
        word_len(word + rest) == word.len(),
    decreases word.len(),
{
    let s = word + rest;
    if word.len() > 0 {
        let later = word.skip(1);
        assert forall|i: int| 0 <= i < later.len() implies !is_white_space(#[trigger] later[i]) by {
            assert(later[i] == word[i + 1]);
        }
        lemma_word(later, rest);
        assert(s[0] == word[0]);
        assert(s.skip(1) =~= later + rest);
    } else {
        assert(s =~= rest);
    }
}

/// The words of a text are taken in order: one without white space in it that ends where white
/// space or the text's end comes is the first, and the words of what follows come after it.
/// White space in front makes no difference.
pub proof fn law_words_one_by_one(blank: char, word: Seq<char>, rest: Seq<char>)
    requires
        is_white_space(blank),
        word.len() > 0,
        forall|i: int| 0 <= i < word.len() ==> !is_white_space(#[trigger] word[i]),
        rest.len() > 0 ==> is_white_space(rest[0]),
    ensures
        words(word + rest) == seq![word] + words(rest),
        words(seq![blank] + word + rest) == words(word + rest),
        words(Seq::empty()).len() == 0,
        words(seq![blank]).len() == 0,
{
    let s = word + rest;
    assert(s[0] == word[0]);
    assert(trim_start(s) == s);
    lemma_word(word, rest);
    assert(s.take(word.len() as int) =~= word);
    assert(s.skip(word.len() as int) =~= rest);
    let t = seq![blank] + word + rest;
    assert(t.skip(1) =~= s);
    assert(trim_start(t) == trim_start(s));
    let one = seq![blank];
    assert(one.skip(1) =~= Seq::empty());
    assert(trim_start(one) == trim_start(Seq::empty()));
}

/// Texts that are joined stand one after the other with the separator between each two.
pub proof fn law_joining_one_by_one(first: Seq<char>, rest: Seq<Seq<char>>, separator: Seq<char>)
    ensures
        joined_with(seq![first], separator) == first,
        rest.len() > 0 ==> joined_with(seq![first] + rest, separator) == first + separator
            + joined_with(rest, separator),
        joined_with(Seq::empty(), separator).len() == 0,
    decreases rest.len(),
{
    let all = seq![first] + rest;
    if rest.len() == 1 {
        assert(all.drop_last() =~= seq![first]);
        assert(all.last() == rest[0]);
    } else if rest.len() > 1 {
        let early = rest.drop_last();
        law_joining_one_by_one(first, early, separator);
        assert(all.drop_last() =~= seq![first] + early);
        assert(all.last() == rest.last());
        assert(joined_with(all, separator) =~= first + separator + joined_with(rest, separator));
    }
}

} // verus!
