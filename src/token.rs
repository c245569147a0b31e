use vstd::prelude::*;

verus! {

/// The closed set of categories a token can carry.
#[derive(Debug, Clone, Copy, PartialEq, Eq, Structural)]
pub enum TokenType {
    Ampersand,
    At,
    Asterisk,
    Backslash,
    Backtick,
    CarriageReturn,
    Colon,
    Comma,
    CurlyBracketClose,
    CurlyBracketOpen,
    Digit,
    Dot,
    Dollar,
    DoubleQuotes,
    Equals,
    EndOfInput,
    Exclamation,
    ForwardSlash,
    GT,
    Hashtag,
    LT,
    Letter,
    Minus,
    Newline,
    ParenthesisClose,
    ParenthesisOpen,
    Pipe,
    Plus,
    QuestionMark,
    Semicolon,
    SingleQuote,
    Space,
    SquareBracketClose,
    SquareBracketOpen,
    Tab,
    Tilde,
    Unclassified,
    Underscore,
    Word,
}

/// A scanned token: its category, the text it stands for, and the offset (in
/// characters) of its first character within the scanned input.
#[derive(Debug, Clone, PartialEq, Eq)]
pub struct Token {
    pub category: TokenType,
    pub text: String,
    pub offset: usize,
}

/// The mathematical value of a token.
pub struct TokenView {
    pub category: TokenType,
    pub text: Seq<char>,
    pub offset: int,
}

impl DeepView for Token {
    type V = TokenView;

    open spec fn deep_view(&self) -> TokenView {
        TokenView { category: self.category, text: self.text@, offset: self.offset as int }
    }
}

impl Token {
    /// Builds a token from its three parts.
    pub fn new(category: TokenType, text: String, offset: usize) -> (r: Token)
        ensures
            r.deep_view() == (TokenView { category, text: text@, offset: offset as int }),
    {
        Token { category, text, offset }
    }

    /// A copy of this token whose parts are known to be equal to its own.
    pub fn duplicate(&self) -> (r: Token)
        ensures
            r.deep_view() == self.deep_view(),
    {
        Token { category: self.category, text: self.text.clone(), offset: self.offset }
    }
}

} // verus!
