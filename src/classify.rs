use vstd::prelude::*;
use crate::token::{Token, TokenType, TokenView};

verus! {

/// Whether `c` is an ASCII letter.
pub open spec fn is_ascii_letter(c: char) -> bool {
    ('A' <= c && c <= 'Z') || ('a' <= c && c <= 'z')
}

/// Whether `c` is an ASCII digit.
pub open spec fn is_ascii_digit(c: char) -> bool {
    '0' <= c && c <= '9'
}

/// The category of a single character.
pub open spec fn category_of(c: char) -> TokenType {
    if c == '&' { TokenType::Ampersand }
    else if c == '@' { TokenType::At }
    else if c == '*' { TokenType::Asterisk }
    else if c == '`' { TokenType::Backtick }
    else if c == '\\' { TokenType::Backslash }
    else if c == ':' { TokenType::Colon }
    else if c == ',' { TokenType::Comma }
    else if c == '}' { TokenType::CurlyBracketClose }
    else if c == '{' { TokenType::CurlyBracketOpen }
    else if c == '.' { TokenType::Dot }
    else if c == '$' { TokenType::Dollar }
    else if c == '"' { TokenType::DoubleQuotes }
    else if c == '=' { TokenType::Equals }
    else if c == '!' { TokenType::Exclamation }
    else if c == '/' { TokenType::ForwardSlash }
    else if c == '>' { TokenType::GT }
    else if c == '#' { TokenType::Hashtag }
    else if c == '<' { TokenType::LT }
    else if c == '-' { TokenType::Minus }
    else if c == ')' { TokenType::ParenthesisClose }
    else if c == '(' { TokenType::ParenthesisOpen }
    else if c == '|' { TokenType::Pipe }
    else if c == '+' { TokenType::Plus }
    else if c == '?' { TokenType::QuestionMark }
    else if c == ';' { TokenType::Semicolon }
    else if c == '\'' { TokenType::SingleQuote }
    else if c == ']' { TokenType::SquareBracketClose }
    else if c == '[' { TokenType::SquareBracketOpen }
    else if c == '~' { TokenType::Tilde }
    else if c == '_' { TokenType::Underscore }
    else if c == ' ' { TokenType::Space }
    else if c == '\n' { TokenType::Newline }
    else if c == '\t' { TokenType::Tab }
    else if c == '\r' { TokenType::CarriageReturn }
    else if is_ascii_letter(c) { TokenType::Letter }
    else if is_ascii_digit(c) { TokenType::Digit }
    else { TokenType::Unclassified }
}

/// The token of the character at offset `i` of `s`.
pub open spec fn char_token(s: Seq<char>, i: int) -> TokenView {
    TokenView { category: category_of(s[i]), text: seq![s[i]], offset: i }
}

/// The terminating token of a text of `n` characters.
pub open spec fn end_token(n: int) -> TokenView {
    TokenView { category: TokenType::EndOfInput, text: Seq::empty(), offset: n }
}

/// The per-character token stream of `s`: one token per character, in order,
/// then the terminator.
pub open spec fn classified(s: Seq<char>) -> Seq<TokenView> {
    Seq::new(
        s.len() + 1,
        |i: int|
            if i < s.len() {
                char_token(s, i)
            } else {
                end_token(s.len() as int)
            },
    )
}

/// Relies on `String::from(char)`: a string that holds exactly that character.
#[verifier::external_body]
fn char_to_string(c: char) -> (r: String)
    ensures
        r@ == seq![c],
{
    String::from(c)
}

/// The category of a single character.
pub fn category_of_char(c: char) -> (r: TokenType)
    ensures
        r == category_of(c),
{
    match c {
        '&' => TokenType::Ampersand,
        '@' => TokenType::At,
        '*' => TokenType::Asterisk,
        '`' => TokenType::Backtick,
        '\\' => TokenType::Backslash,
        ':' => TokenType::Colon,
        ',' => TokenType::Comma,
        '}' => TokenType::CurlyBracketClose,
        '{' => TokenType::CurlyBracketOpen,
        '.' => TokenType::Dot,
        '$' => TokenType::Dollar,
        '"' => TokenType::DoubleQuotes,
        '=' => TokenType::Equals,
        '!' => TokenType::Exclamation,
        '/' => TokenType::ForwardSlash,
        '>' => TokenType::GT,
        '#' => TokenType::Hashtag,
        '<' => TokenType::LT,
        '-' => TokenType::Minus,
        ')' => TokenType::ParenthesisClose,
        '(' => TokenType::ParenthesisOpen,
        '|' => TokenType::Pipe,
        '+' => TokenType::Plus,
        '?' => TokenType::QuestionMark,
        ';' => TokenType::Semicolon,
        '\'' => TokenType::SingleQuote,
        ']' => TokenType::SquareBracketClose,
        '[' => TokenType::SquareBracketOpen,
        '~' => TokenType::Tilde,
        '_' => TokenType::Underscore,
        ' ' => TokenType::Space,
        '\n' => TokenType::Newline,
        '\t' => TokenType::Tab,
        '\r' => TokenType::CarriageReturn,
        'A'..='Z' | 'a'..='z' => TokenType::Letter,
        '0'..='9' => TokenType::Digit,
        _ => TokenType::Unclassified,
    }
}

/// Scans `contents` into one token per character, each with its category, its
/// character and its offset in characters, followed by one `EndOfInput` token
/// whose offset is the number of characters.
pub fn classify(contents: &str) -> (r: Vec<Token>)
    ensures
        r.deep_view() == classified(contents@),
{
    let n: usize = contents.unicode_len();
    let mut tokens: Vec<Token> = Vec::new();
    let mut i: usize = 0;
    for c in it: contents.chars()
        invariant
            n == contents@.len(),
            it.seq() == contents@,
            i == it.index(),
            tokens.deep_view() == classified(contents@).take(i as int),
    {
        assert(c == contents@[i as int]);
        let ghost before = tokens.deep_view();
        let t = Token::new(category_of_char(c), char_to_string(c), i);
        tokens.push(t);
        assert(tokens.deep_view() =~= before.push(char_token(contents@, i as int)));
        i = i + 1;
        assert(tokens.deep_view() =~= classified(contents@).take(i as int));
    }
    let ghost before = tokens.deep_view();
    tokens.push(Token::new(TokenType::EndOfInput, String::new(), n));
    assert(tokens.deep_view() =~= before.push(end_token(n as int)));
    assert(tokens.deep_view() =~= classified(contents@));
    tokens
}

} // verus!
