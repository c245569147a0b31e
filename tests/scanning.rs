use tokenizer::classify::{category_of_char, classify};
use tokenizer::coalesce::{process_letters_into_words, tokenize_contents};
use tokenizer::token::{Token, TokenType};

fn tok(category: TokenType, text: &str, offset: usize) -> Token {
    Token::new(category, String::from(text), offset)
}

fn joined(tokens: &[Token]) -> String {
    let mut s = String::new();
    for t in tokens {
        s.push_str(&t.text);
    }
    s
}

#[test]
fn word_merging() {
    let r = process_letters_into_words(classify("ab3cd"));
    assert_eq!(
        r,
        vec![
            tok(TokenType::Word, "ab", 0),
            tok(TokenType::Digit, "3", 2),
            tok(TokenType::Word, "cd", 3),
            tok(TokenType::EndOfInput, "", 5),
        ]
    );
}

#[test]
fn leading_word_offset() {
    let r = tokenize_contents("hi!");
    assert_eq!(
        r,
        vec![
            tok(TokenType::Word, "hi", 0),
            tok(TokenType::Exclamation, "!", 2),
            tok(TokenType::EndOfInput, "", 3),
        ]
    );
}

#[test]
fn single_letter_at_start() {
    let r = tokenize_contents("a b");
    assert_eq!(
        r,
        vec![
            tok(TokenType::Word, "a", 0),
            tok(TokenType::Space, " ", 1),
            tok(TokenType::Word, "b", 2),
            tok(TokenType::EndOfInput, "", 3),
        ]
    );
}

#[test]
fn empty_input() {
    let expected = vec![tok(TokenType::EndOfInput, "", 0)];
    assert_eq!(classify(""), expected);
    assert_eq!(process_letters_into_words(classify("")), expected);
    assert_eq!(tokenize_contents(""), expected);
}

#[test]
fn classify_one_token_per_character() {
    let r = classify("a1 ");
    assert_eq!(
        r,
        vec![
            tok(TokenType::Letter, "a", 0),
            tok(TokenType::Digit, "1", 1),
            tok(TokenType::Space, " ", 2),
            tok(TokenType::EndOfInput, "", 3),
        ]
    );
}

#[test]
fn offsets_count_characters_not_bytes() {
    let r = tokenize_contents("é日x!");
    assert_eq!(
        r,
        vec![
            tok(TokenType::Unclassified, "é", 0),
            tok(TokenType::Unclassified, "日", 1),
            tok(TokenType::Word, "x", 2),
            tok(TokenType::Exclamation, "!", 3),
            tok(TokenType::EndOfInput, "", 4),
        ]
    );
}

#[test]
fn punctuation_and_whitespace_categories() {
    let cases: Vec<(char, TokenType)> = vec![
        ('&', TokenType::Ampersand),
        ('@', TokenType::At),
        ('*', TokenType::Asterisk),
        ('\\', TokenType::Backslash),
        ('`', TokenType::Backtick),
        (':', TokenType::Colon),
        (',', TokenType::Comma),
        ('}', TokenType::CurlyBracketClose),
        ('{', TokenType::CurlyBracketOpen),
        ('.', TokenType::Dot),
        ('$', TokenType::Dollar),
        ('"', TokenType::DoubleQuotes),
        ('=', TokenType::Equals),
        ('!', TokenType::Exclamation),
        ('/', TokenType::ForwardSlash),
        ('>', TokenType::GT),
        ('#', TokenType::Hashtag),
        ('<', TokenType::LT),
        ('-', TokenType::Minus),
        (')', TokenType::ParenthesisClose),
        ('(', TokenType::ParenthesisOpen),
        ('|', TokenType::Pipe),
        ('+', TokenType::Plus),
        ('?', TokenType::QuestionMark),
        (';', TokenType::Semicolon),
        ('\'', TokenType::SingleQuote),
        (']', TokenType::SquareBracketClose),
        ('[', TokenType::SquareBracketOpen),
        ('~', TokenType::Tilde),
        ('_', TokenType::Underscore),
        (' ', TokenType::Space),
        ('\n', TokenType::Newline),
        ('\t', TokenType::Tab),
        ('\r', TokenType::CarriageReturn),
        ('A', TokenType::Letter),
        ('Z', TokenType::Letter),
        ('a', TokenType::Letter),
        ('z', TokenType::Letter),
        ('0', TokenType::Digit),
        ('9', TokenType::Digit),
        ('%', TokenType::Unclassified),
        ('^', TokenType::Unclassified),
        ('é', TokenType::Unclassified),
        ('\u{0}', TokenType::Unclassified),
    ];
    for (c, expected) in cases {
        assert_eq!(category_of_char(c), expected, "character {:?}", c);
        let s = c.to_string();
        let r = classify(&s);
        assert_eq!(r, vec![tok(expected, &s, 0), tok(TokenType::EndOfInput, "", 1)]);
    }
}

#[test]
fn every_scalar_value_is_classified() {
    for u in 0u32..=0x10FFFF {
        if let Some(c) = char::from_u32(u) {
            let k = category_of_char(c);
            assert_ne!(k, TokenType::Word);
            assert_ne!(k, TokenType::EndOfInput);
            let letter = c.is_ascii_alphabetic();
            assert_eq!(k == TokenType::Letter, letter);
            assert_eq!(k == TokenType::Digit, c.is_ascii_digit());
        }
    }
}

#[test]
fn round_trip_rebuilds_input() {
    for s in ["", "hello, world!", "ab3cd", "x", "Größe: 42 €\r\n\tend", "{a:[1,2]}"] {
        let r = tokenize_contents(s);
        assert_eq!(joined(&r), s);
    }
}

#[test]
fn stream_ends_with_terminator() {
    for s in ["", "abc", "1 2", "mixed Text 9", "ü"] {
        let r = tokenize_contents(s);
        let last = r.last().unwrap();
        assert_eq!(*last, tok(TokenType::EndOfInput, "", s.chars().count()));
    }
}

#[test]
fn letterless_input_passes_through() {
    for s in ["", "12 + 3 = 15!", "#$%^&*()", "é日\n\t"] {
        let per_char = classify(s);
        let merged = process_letters_into_words(classify(s));
        assert_eq!(merged, per_char);
        assert!(merged.iter().all(|t| t.category != TokenType::Word));
    }
}

#[test]
fn coalescing_twice_changes_nothing() {
    for s in ["", "ab3cd", "hi there, you!", "a", "1a2bb3ccc"] {
        let once = tokenize_contents(s);
        let twice = process_letters_into_words(once.clone());
        assert_eq!(twice, once);
    }
}

#[test]
fn trailing_run_is_flushed_without_terminator() {
    let stream = vec![
        tok(TokenType::Digit, "7", 0),
        tok(TokenType::Letter, "a", 1),
        tok(TokenType::Letter, "b", 2),
    ];
    let r = process_letters_into_words(stream);
    assert_eq!(r, vec![tok(TokenType::Digit, "7", 0), tok(TokenType::Word, "ab", 1)]);
}

#[test]
fn run_takes_offset_of_first_letter() {
    let stream = vec![
        tok(TokenType::Letter, "q", 10),
        tok(TokenType::Letter, "r", 11),
        tok(TokenType::Space, " ", 12),
        tok(TokenType::EndOfInput, "", 13),
    ];
    let r = process_letters_into_words(stream);
    assert_eq!(
        r,
        vec![
            tok(TokenType::Word, "qr", 10),
            tok(TokenType::Space, " ", 12),
            tok(TokenType::EndOfInput, "", 13),
        ]
    );
}
