//! Splitting a text into its whitespace-delimited tokens.

use crate::text::{is_whitespace, is_whitespace_char};
use vstd::prelude::*;

verus! {

/// The tokens of `text`: its maximal runs of non-whitespace characters, from
/// left to right.
///
/// Reading the text character by character: a whitespace character adds
/// nothing; a character that directly follows a non-whitespace character
/// extends the last token; any other character starts a new token.
pub open spec fn tokens(text: Seq<char>) -> Seq<Seq<char>>
    decreases text.len(),
{
    if text.len() == 0 {
        Seq::empty()
    } else {
        let before = tokens(text.drop_last());
        let c = text.last();
        if is_whitespace(c) {
            before
        } else if ends_in_token(text.drop_last()) {
            before.drop_last().push(before.last().push(c))
        } else {
            before.push(seq![c])
        }
    }
}

/// Whether the last character of `text` belongs to a token.
pub open spec fn ends_in_token(text: Seq<char>) -> bool {
    text.len() > 0 && !is_whitespace(text.last())
}

/// Whether `word` could be a token: it is not empty and holds no whitespace.
pub open spec fn is_word(word: Seq<char>) -> bool {
    &&& word.len() > 0
    &&& forall|i: int| 0 <= i < word.len() ==> !is_whitespace(#[trigger] word[i])
}

/// Whether `text` holds nothing but whitespace.
pub open spec fn is_blank(text: Seq<char>) -> bool {
    forall|i: int| 0 <= i < text.len() ==> is_whitespace(#[trigger] text[i])
}

/// The texts that `strings` hold, in order.
pub open spec fn texts_of(strings: Seq<String>) -> Seq<Seq<char>> {
    Seq::new(strings.len(), |i: int| strings[i]@)
}

/// Splits `text` at whitespace: the result holds the tokens of `text` in
/// order, and none of the whitespace between and around them.
pub fn split_whitespace(text: &str) -> (words: Vec<String>)
    ensures
        texts_of(words@) == tokens(text@),
{
    let mut words: Vec<String> = Vec::new();
    let mut current = String::new();
    let mut in_token = false;
    for c in it: text.chars()
        invariant
            it.seq() == text@,
            in_token == ends_in_token(text@.take(it.index())),
            in_token ==> tokens(text@.take(it.index())) == texts_of(words@).push(current@),
            !in_token ==> current@.len() == 0 && tokens(text@.take(it.index())) == texts_of(
                words@,
            ),
    {
        proof {
            let k = it.index();
            assert(text@.take(k + 1).drop_last() == text@.take(k));
            assert(text@.take(k + 1).last() == c);
        }
        let ghost before = texts_of(words@);
        if is_whitespace_char(c) {
            if in_token {
                words.push(current);
                current = String::new();
                in_token = false;
                assert(texts_of(words@) == before.push(words@.last()@));
            }
        } else {
            let ghost grown = before.push(current@);
            current.push(c);
            assert(in_token ==> grown.drop_last() == before);
            assert(!in_token ==> current@ == seq![c]);
            in_token = true;
        }
    }
    assert(text@.take(text@.len() as int) == text@);
    if in_token {
        let ghost before = texts_of(words@);
        words.push(current);
        assert(texts_of(words@) == before.push(words@.last()@));
    }
    words
}

/// Every token is a word: it is not empty and holds no whitespace. And a
/// text that ends inside a token has at least one token.
pub proof fn tokens_are_words(text: Seq<char>)
    ensures
        forall|i: int| 0 <= i < tokens(text).len() ==> is_word(#[trigger] tokens(text)[i]),
        ends_in_token(text) ==> tokens(text).len() > 0,
    decreases text.len(),
{
    if text.len() > 0 {
        let init = text.drop_last();
        let before = tokens(init);
        tokens_are_words(init);
        assert forall|i: int| 0 <= i < tokens(text).len() implies is_word(
            #[trigger] tokens(text)[i],
        ) by {
            if i < before.len() - 1 {
                assert(is_word(before[i]));
            } else if !is_whitespace(text.last()) {
                if ends_in_token(init) {
                    assert(is_word(before.last()));
                }
            } else {
                assert(is_word(before[i]));
            }
        }
    }
}

/// A blank text has no tokens.
pub proof fn tokens_of_blank(text: Seq<char>)
    requires
        is_blank(text),
    ensures
        tokens(text).len() == 0,
    decreases text.len(),
{
    if text.len() > 0 {
        assert(is_whitespace(text[text.len() - 1]));
        tokens_of_blank(text.drop_last());
    }
}

/// A word is its own single token.
pub proof fn tokens_of_word(word: Seq<char>)
    requires
        is_word(word),
    ensures
        tokens(word) == seq![word],
    decreases word.len(),
{
    let init = word.drop_last();
    assert(!is_whitespace(word[word.len() - 1]));
    if init.len() > 0 {
        assert(!is_whitespace(word[init.len() - 1]));
        tokens_of_word(init);
        assert(init.push(word.last()) == word);
        assert(seq![init].drop_last().push(word) == seq![word]);
        assert(init.last() == word[init.len() - 1]);
    } else {
        assert(tokens(init) == Seq::<Seq<char>>::empty());
        assert(seq![word.last()] == word);
        assert(Seq::<Seq<char>>::empty().push(word) == seq![word]);
    }
}

/// Tokens never reach across whitespace: where a whitespace character `c`
/// stands between `left` and `right`, the tokens of the whole are those of
/// `left` followed by those of `right`.
pub proof fn tokens_split_at_whitespace(left: Seq<char>, c: char, right: Seq<char>)
    requires
        is_whitespace(c),
    ensures
        tokens(left.push(c) + right) == tokens(left) + tokens(right),
    decreases right.len(),
{
    let whole = left.push(c) + right;
    if right.len() == 0 {
        assert(whole == left.push(c));
        assert(whole.drop_last() == left);
        assert(tokens(left) + tokens(right) == tokens(left));
    } else {
        let init = right.drop_last();
        tokens_split_at_whitespace(left, c, init);
        tokens_are_words(init);
        assert(whole.drop_last() == left.push(c) + init);
        assert(whole.last() == right.last());
        assert(ends_in_token(whole.drop_last()) == ends_in_token(init)) by {
            if init.len() > 0 {
                assert(whole.drop_last().last() == init.last());
            } else {
                assert(whole.drop_last().last() == c);
            }
        }
        let l = tokens(left);
        let r = tokens(init);
        if is_whitespace(right.last()) {
        } else if ends_in_token(init) {
            assert((l + r).drop_last().push((l + r).last().push(right.last())) == l
                + r.drop_last().push(r.last().push(right.last())));
        } else {
            assert((l + r).push(seq![right.last()]) == l + r.push(seq![right.last()]));
        }
    }
}

/// Whitespace at either end of a text has no bearing on its tokens.
pub proof fn tokens_ignore_outer_whitespace(before: Seq<char>, text: Seq<char>, after: Seq<char>)
    requires
        is_blank(before),
        is_blank(after),
    ensures
        tokens(before + text + after) == tokens(text),
    decreases before.len() + after.len(),
{
    if after.len() > 0 {
        let init = after.drop_last();
        assert(is_whitespace(after[after.len() - 1]));
        assert forall|i: int| 0 <= i < init.len() implies is_whitespace(#[trigger] init[i]) by {
            assert(init[i] == after[i]);
        }
        tokens_ignore_outer_whitespace(before, text, init);
        assert((before + text + after).drop_last() == before + text + init);
    } else if before.len() > 0 {
        let c = before.last();
        let init = before.drop_last();
        assert(is_whitespace(before[before.len() - 1]));
        assert forall|i: int| 0 <= i < init.len() implies is_whitespace(#[trigger] init[i]) by {
            assert(init[i] == before[i]);
        }
        tokens_of_blank(init);
        tokens_split_at_whitespace(init, c, text);
        assert(before + text + after == init.push(c) + text);
        assert(tokens(init) + tokens(text) == tokens(text));
    } else {
        assert(before + text + after == text);
    }
}

} // verus!
