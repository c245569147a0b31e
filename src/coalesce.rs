use vstd::prelude::*;
use crate::classify::{classified, classify};
use crate::token::{Token, TokenType, TokenView};

verus! {

/// The `Word` token for a pending run: nothing when the run is empty.
pub open spec fn flush(word: Seq<char>, start: int) -> Seq<TokenView> {
    if word.len() == 0 {
        Seq::empty()
    } else {
        seq![TokenView { category: TokenType::Word, text: word, offset: start }]
    }
}

/// What the coalescer emits for `ts` when a run with text `word`, begun at
/// offset `start`, is pending. A `Letter` token extends the run (and opens it,
/// recording its offset, while the run's text is empty); any other token closes
/// the run, which is emitted as a `Word` when its text is not empty, and then
/// passes through unchanged. At the end of the stream the pending run is
/// flushed.
pub open spec fn coalesce_from(ts: Seq<TokenView>, word: Seq<char>, start: int) -> Seq<TokenView>
    decreases ts.len(),
{
    if ts.len() == 0 {
        flush(word, start)
    } else if ts[0].category == TokenType::Letter {
        let next_start = if word.len() == 0 { ts[0].offset } else { start };
        coalesce_from(ts.drop_first(), word + ts[0].text, next_start)
    } else {
        flush(word, start) + seq![ts[0]] + coalesce_from(ts.drop_first(), Seq::empty(), 0)
    }
}

/// The coalesced form of a token stream: each maximal run of `Letter` tokens
/// becomes one `Word` token holding the run's text at the offset of its first
/// token; every other token passes through in order.
pub open spec fn coalesced(ts: Seq<TokenView>) -> Seq<TokenView> {
    coalesce_from(ts, Seq::empty(), 0)
}

/// Merges each maximal run of `Letter` tokens of `tokenized_characters` into one
/// `Word` token, keeping every other token unchanged and in order.
pub fn process_letters_into_words(tokenized_characters: Vec<Token>) -> (r: Vec<Token>)
    ensures
        r.deep_view() == coalesced(tokenized_characters.deep_view()),
{
    let ghost ts = tokenized_characters.deep_view();
    let mut processed_tokens: Vec<Token> = Vec::new();
    let mut start_of_word: usize = 0;
    let mut word: String = String::new();
    let mut i: usize = 0;
    assert(ts.skip(0) =~= ts);
    assert(processed_tokens.deep_view() + coalesced(ts) =~= coalesced(ts));
    while i < tokenized_characters.len()
        invariant
            ts == tokenized_characters.deep_view(),
            0 <= i <= ts.len(),
            processed_tokens.deep_view() + coalesce_from(
                ts.skip(i as int),
                word@,
                start_of_word as int,
            ) == coalesced(ts),
        decreases ts.len() - i,
    {
        let token = &tokenized_characters[i];
        assert(ts.skip(i as int).drop_first() =~= ts.skip(i + 1));
        assert(ts.skip(i as int)[0] == token.deep_view());
        if token.category == TokenType::Letter {
            if word.as_str().is_empty() {
                start_of_word = token.offset;
            }
            word.append(token.text.as_str());
        } else {
            let ghost before = processed_tokens.deep_view();
            let ghost old_word = word@;
            let ghost old_start = start_of_word as int;
            if !word.as_str().is_empty() {
                processed_tokens.push(Token::new(TokenType::Word, word, start_of_word));
                word = String::new();
                start_of_word = 0;
            }
            processed_tokens.push(token.duplicate());
            let ghost rest = coalesce_from(ts.skip(i + 1), Seq::empty(), 0);
            assert(processed_tokens.deep_view() =~= before + flush(old_word, old_start) + seq![
                token.deep_view(),
            ]);
            assert(processed_tokens.deep_view() + rest =~= before + (flush(old_word, old_start)
                + seq![token.deep_view()] + rest));
        }
        i = i + 1;
    }
    assert(ts.skip(i as int) =~= Seq::<TokenView>::empty());
    let ghost before = processed_tokens.deep_view();
    let ghost pending = flush(word@, start_of_word as int);
    if !word.as_str().is_empty() {
        processed_tokens.push(Token::new(TokenType::Word, word, start_of_word));
    }
    assert(processed_tokens.deep_view() =~= before + pending);
    processed_tokens
}

/// Scans `contents` and merges its runs of letters into words.
pub fn tokenize_contents(contents: &str) -> (r: Vec<Token>)
    ensures
        r.deep_view() == coalesced(classified(contents@)),
{
    process_letters_into_words(classify(contents))
}

} // verus!
