use vstd::prelude::*;
use crate::classify::{category_of, char_token, classified, end_token, is_ascii_letter};
use crate::coalesce::{coalesce_from, coalesced, flush};
use crate::token::{TokenType, TokenView};

verus! {

/// The texts of `ts` joined in stream order.
pub open spec fn concat_texts(ts: Seq<TokenView>) -> Seq<char>
    decreases ts.len(),
{
    if ts.len() == 0 {
        Seq::empty()
    } else {
        ts[0].text + concat_texts(ts.drop_first())
    }
}

/// Whether the offsets of `ts` never go backward along the stream.
pub open spec fn offsets_nondecreasing(ts: Seq<TokenView>) -> bool {
    forall|i: int, j: int| 0 <= i <= j < ts.len() ==> #[trigger] ts[i].offset <= #[trigger] ts[j].offset
}

/// Whether every offset of `ts` is at least `b`.
pub open spec fn offsets_at_least(ts: Seq<TokenView>, b: int) -> bool {
    forall|i: int| 0 <= i < ts.len() ==> b <= #[trigger] ts[i].offset
}

/// Whether no token of `ts` is a `Letter`.
pub open spec fn has_no_letters(ts: Seq<TokenView>) -> bool {
    forall|i: int| 0 <= i < ts.len() ==> #[trigger] ts[i].category != TokenType::Letter
}

proof fn lemma_concat_single(t: TokenView)
    ensures
        concat_texts(seq![t]) == t.text,
{
    let one = seq![t];
    assert(one.drop_first() =~= Seq::<TokenView>::empty());
    assert(concat_texts(one.drop_first()) == Seq::<char>::empty());
    assert(t.text + Seq::<char>::empty() =~= t.text);
}

proof fn lemma_concat_append(a: Seq<TokenView>, b: Seq<TokenView>)
    ensures
        concat_texts(a + b) == concat_texts(a) + concat_texts(b),
    decreases a.len(),
{
    if a.len() == 0 {
        assert(a + b =~= b);
        assert(concat_texts(a) + concat_texts(b) =~= concat_texts(b));
    } else {
        assert((a + b).drop_first() =~= a.drop_first() + b);
        lemma_concat_append(a.drop_first(), b);
        assert(concat_texts(a + b) =~= concat_texts(a) + concat_texts(b));
    }
}

proof fn lemma_coalesce_from_texts(ts: Seq<TokenView>, word: Seq<char>, start: int)
    ensures
        concat_texts(coalesce_from(ts, word, start)) == word + concat_texts(ts),
    decreases ts.len(),
{
    let out = coalesce_from(ts, word, start);
    assert(concat_texts(flush(word, start)) =~= word) by {
        if word.len() > 0 {
            lemma_concat_single(flush(word, start)[0]);
            assert(flush(word, start) =~= seq![flush(word, start)[0]]);
        }
    }
    if ts.len() == 0 {
        assert(word + concat_texts(ts) =~= word);
    } else if ts[0].category == TokenType::Letter {
        let next_start = if word.len() == 0 { ts[0].offset } else { start };
        lemma_coalesce_from_texts(ts.drop_first(), word + ts[0].text, next_start);
        assert(word + ts[0].text + concat_texts(ts.drop_first()) =~= word + concat_texts(ts));
    } else {
        let rest = coalesce_from(ts.drop_first(), Seq::empty(), 0);
        lemma_coalesce_from_texts(ts.drop_first(), Seq::empty(), 0);
        lemma_concat_append(flush(word, start) + seq![ts[0]], rest);
        lemma_concat_append(flush(word, start), seq![ts[0]]);
        lemma_concat_single(ts[0]);
        assert(Seq::<char>::empty() + concat_texts(ts.drop_first()) =~= concat_texts(
            ts.drop_first(),
        ));
        assert(word + ts[0].text + concat_texts(ts.drop_first()) =~= word + concat_texts(ts));
    }
}

proof fn lemma_classified_texts(s: Seq<char>, k: int)
    requires
        0 <= k <= s.len(),
    ensures
        concat_texts(classified(s).skip(k)) == s.skip(k),
    decreases s.len() - k,
{
    let ts = classified(s).skip(k);
    if k == s.len() {
        assert(ts =~= seq![end_token(s.len() as int)]);
        lemma_concat_single(end_token(s.len() as int));
        assert(s.skip(k) =~= Seq::<char>::empty());
    } else {
        lemma_classified_texts(s, k + 1);
        assert(ts.drop_first() =~= classified(s).skip(k + 1));
        assert(s.skip(k) =~= seq![s[k]] + s.skip(k + 1));
    }
}

/// Every character of a text yields exactly one token, carrying that character
/// at its offset and a category of the per-character set (never `Word` nor
/// `EndOfInput`), and the stream ends with one `EndOfInput` token.
pub proof fn classify_is_total(s: Seq<char>)
    ensures
        classified(s).len() == s.len() + 1,
        forall|i: int|
            0 <= i < s.len() ==> {
                &&& #[trigger] classified(s)[i] == char_token(s, i)
                &&& classified(s)[i].text == seq![s[i]]
                &&& classified(s)[i].offset == i
                &&& category_of(s[i]) != TokenType::Word
                &&& category_of(s[i]) != TokenType::EndOfInput
            },
        classified(s)[s.len() as int] == end_token(s.len() as int),
{
}

/// Joining the texts of the coalesced stream of `s`, in order, gives back `s`.
pub proof fn coalesced_texts_rebuild_input(s: Seq<char>)
    ensures
        concat_texts(coalesced(classified(s))) == s,
{
    lemma_coalesce_from_texts(classified(s), Seq::empty(), 0);
    lemma_classified_texts(s, 0);
    assert(classified(s).skip(0) =~= classified(s));
    assert(s.skip(0) =~= s);
    assert(Seq::<char>::empty() + s =~= s);
}

proof fn lemma_last_token_kept(ts: Seq<TokenView>, word: Seq<char>, start: int)
    requires
        ts.len() > 0,
        ts.last().category != TokenType::Letter,
    ensures
        coalesce_from(ts, word, start).len() > 0,
        coalesce_from(ts, word, start).last() == ts.last(),
    decreases ts.len(),
{
    let rest = ts.drop_first();
    if ts[0].category == TokenType::Letter {
        let next_start = if word.len() == 0 { ts[0].offset } else { start };
        lemma_last_token_kept(rest, word + ts[0].text, next_start);
    } else if rest.len() == 0 {
        assert(coalesce_from(rest, Seq::empty(), 0) =~= Seq::<TokenView>::empty());
    } else {
        lemma_last_token_kept(rest, Seq::empty(), 0);
    }
}

proof fn lemma_without_letters_unchanged(ts: Seq<TokenView>)
    requires
        has_no_letters(ts),
    ensures
        coalesce_from(ts, Seq::empty(), 0) == ts,
    decreases ts.len(),
{
    if ts.len() > 0 {
        let rest = ts.drop_first();
        assert(has_no_letters(rest)) by {
            assert forall|i: int| 0 <= i < rest.len() implies #[trigger] rest[i].category
                != TokenType::Letter by {
                assert(rest[i] == ts[i + 1]);
            }
        }
        assert(ts[0].category != TokenType::Letter);
        lemma_without_letters_unchanged(rest);
        assert(flush(Seq::empty(), 0) + seq![ts[0]] + rest =~= ts);
    } else {
        assert(flush(Seq::empty(), 0) =~= ts);
    }
}

proof fn lemma_output_has_no_letters(ts: Seq<TokenView>, word: Seq<char>, start: int)
    ensures
        has_no_letters(coalesce_from(ts, word, start)),
    decreases ts.len(),
{
    if ts.len() > 0 {
        let rest = ts.drop_first();
        if ts[0].category == TokenType::Letter {
            let next_start = if word.len() == 0 { ts[0].offset } else { start };
            lemma_output_has_no_letters(rest, word + ts[0].text, next_start);
        } else {
            lemma_output_has_no_letters(rest, Seq::empty(), 0);
            let head = flush(word, start) + seq![ts[0]];
            let tail = coalesce_from(rest, Seq::empty(), 0);
            assert forall|i: int| 0 <= i < (head + tail).len() implies #[trigger] (head
                + tail)[i].category != TokenType::Letter by {
                if i >= head.len() {
                    assert((head + tail)[i] == tail[i - head.len()]);
                }
            }
        }
    }
}

/// The last token of the coalesced stream of `s` is `EndOfInput`, with empty
/// text and the number of characters of `s` as its offset.
pub proof fn coalesced_ends_with_terminator(s: Seq<char>)
    ensures
        coalesced(classified(s)).len() > 0,
        coalesced(classified(s)).last() == end_token(s.len() as int),
        coalesced(classified(s)).last().text.len() == 0,
{
    lemma_last_token_kept(classified(s), Seq::empty(), 0);
}

/// On a text without letters, coalescing the per-character stream leaves it
/// unchanged: no `Word` token appears.
pub proof fn coalesce_keeps_letterless_stream(s: Seq<char>)
    requires
        forall|i: int| 0 <= i < s.len() ==> !is_ascii_letter(#[trigger] s[i]),
    ensures
        coalesced(classified(s)) == classified(s),
{
    let ts = classified(s);
    assert forall|i: int| 0 <= i < ts.len() implies #[trigger] ts[i].category
        != TokenType::Letter by {
        if i < s.len() {
            assert(!is_ascii_letter(s[i]));
        }
    }
    lemma_without_letters_unchanged(ts);
}

/// Coalescing twice gives what coalescing once gives: a coalesced stream holds
/// no `Letter` token, so nothing more is merged.
pub proof fn coalesce_is_idempotent(ts: Seq<TokenView>)
    ensures
        coalesced(coalesced(ts)) == coalesced(ts),
{
    lemma_output_has_no_letters(ts, Seq::empty(), 0);
    lemma_without_letters_unchanged(coalesced(ts));
}

proof fn lemma_coalesce_from_ordered(ts: Seq<TokenView>, word: Seq<char>, start: int, b: int)
    requires
        offsets_nondecreasing(ts),
        offsets_at_least(ts, b),
        word.len() > 0 ==> b <= start && offsets_at_least(ts, start),
    ensures
        offsets_nondecreasing(coalesce_from(ts, word, start)),
        offsets_at_least(coalesce_from(ts, word, start), b),
    decreases ts.len(),
{
    let out = coalesce_from(ts, word, start);
    if ts.len() == 0 {
    } else {
        let rest = ts.drop_first();
        assert forall|i: int| 0 <= i < rest.len() implies rest[i] == ts[i + 1] by {}
        assert(offsets_at_least(rest, ts[0].offset)) by {
            assert forall|i: int| 0 <= i < rest.len() implies ts[0].offset <= #[trigger] rest[i].offset by {
                assert(ts[0].offset <= ts[i + 1].offset);
            }
        }
        assert(offsets_nondecreasing(rest)) by {
            assert forall|i: int, j: int| 0 <= i <= j < rest.len() implies #[trigger] rest[i].offset
                <= #[trigger] rest[j].offset by {
                assert(ts[i + 1].offset <= ts[j + 1].offset);
            }
        }
        if ts[0].category == TokenType::Letter {
            let next_start = if word.len() == 0 { ts[0].offset } else { start };
            assert(offsets_at_least(rest, next_start)) by {
                if word.len() > 0 {
                    assert forall|i: int| 0 <= i < rest.len() implies start <= #[trigger] rest[i].offset by {
                        assert(start <= ts[i + 1].offset);
                    }
                }
            }
            assert(b <= next_start) by {
                assert(b <= ts[0].offset);
            }
            lemma_coalesce_from_ordered(rest, word + ts[0].text, next_start, next_start);
        } else {
            let head = flush(word, start) + seq![ts[0]];
            let tail = coalesce_from(rest, Seq::empty(), 0);
            lemma_coalesce_from_ordered(rest, Seq::empty(), 0, ts[0].offset);
            assert(b <= ts[0].offset);
            assert(word.len() > 0 ==> start <= ts[0].offset);
            assert(offsets_nondecreasing(head) && offsets_at_least(head, b));
            assert forall|i: int| 0 <= i < head.len() implies #[trigger] head[i].offset <= ts[0].offset by {}
            assert(out == head + tail);
            assert forall|i: int, j: int| 0 <= i <= j < out.len() implies #[trigger] out[i].offset
                <= #[trigger] out[j].offset by {
                if j < head.len() {
                    assert(out[i] == head[i] && out[j] == head[j]);
                } else if i < head.len() {
                    assert(out[i] == head[i] && out[j] == tail[j - head.len()]);
                    assert(head[i].offset <= ts[0].offset);
                    assert(ts[0].offset <= tail[j - head.len()].offset);
                } else {
                    assert(out[i] == tail[i - head.len()] && out[j] == tail[j - head.len()]);
                }
            }
            assert forall|i: int| 0 <= i < out.len() implies b <= #[trigger] out[i].offset by {
                if i < head.len() {
                    assert(out[i] == head[i]);
                } else {
                    assert(out[i] == tail[i - head.len()]);
                }
            }
        }
    }
}

/// The offsets of the coalesced stream of `s` never go backward: a `Word`
/// token carries the offset of the first character of its run.
pub proof fn coalesced_offsets_are_ordered(s: Seq<char>)
    ensures
        offsets_nondecreasing(coalesced(classified(s))),
{
    lemma_coalesce_from_ordered(classified(s), Seq::empty(), 0, 0);
}

} // verus!
