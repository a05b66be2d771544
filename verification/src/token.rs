//! Tokens: what the scanner produces, and the keywords of the language.

use vstd::prelude::*;
use crate::text::{matches_word, to_chars};

verus! {

/// The reserved words. A word is a keyword only if it is one of these,
/// letter for letter.
#[derive(Debug, Clone, Copy, PartialEq, Eq)]
pub enum KeywordType {
    If,
    Else,
    While,
    For,
    Return,
    Break,
    Continue,
    Null,
}

/// The keyword that `text` spells, if it spells one.
pub open spec fn keyword_of(text: Seq<char>) -> Option<KeywordType> {
    if text == "if"@ {
        Some(KeywordType::If)
    } else if text == "else"@ {
        Some(KeywordType::Else)
    } else if text == "while"@ {
        Some(KeywordType::While)
    } else if text == "for"@ {
        Some(KeywordType::For)
    } else if text == "return"@ {
        Some(KeywordType::Return)
    } else if text == "break"@ {
        Some(KeywordType::Break)
    } else if text == "continue"@ {
        Some(KeywordType::Continue)
    } else if text == "null"@ {
        Some(KeywordType::Null)
    } else {
        None
    }
}

impl KeywordType {
    /// How the keyword is written in source text.
    pub open spec fn spelling(self) -> Seq<char> {
        match self {
            KeywordType::If => "if"@,
            KeywordType::Else => "else"@,
            KeywordType::While => "while"@,
            KeywordType::For => "for"@,
            KeywordType::Return => "return"@,
            KeywordType::Break => "break"@,
            KeywordType::Continue => "continue"@,
            KeywordType::Null => "null"@,
        }
    }

    /// The keyword spelled by the characters `chars[from..to]`, if any.
    pub fn from_chars(chars: &Vec<char>, from: usize, to: usize) -> (keyword: Option<Self>)
        requires
            from <= to <= chars.len(),
        ensures
            keyword == keyword_of(chars@.subrange(from as int, to as int)),
    {
        if matches_word(chars, from, to, "if") {
            Some(Self::If)
        } else if matches_word(chars, from, to, "else") {
            Some(Self::Else)
        } else if matches_word(chars, from, to, "while") {
            Some(Self::While)
        } else if matches_word(chars, from, to, "for") {
            Some(Self::For)
        } else if matches_word(chars, from, to, "return") {
            Some(Self::Return)
        } else if matches_word(chars, from, to, "break") {
            Some(Self::Break)
        } else if matches_word(chars, from, to, "continue") {
            Some(Self::Continue)
        } else if matches_word(chars, from, to, "null") {
            Some(Self::Null)
        } else {
            None
        }
    }

    pub fn from_str(s: &str) -> (keyword: Option<Self>)
        ensures
            keyword == keyword_of(s@),
    {
        let chars = to_chars(s);
        assert(chars@.subrange(0, chars@.len() as int) =~= s@);
        Self::from_chars(&chars, 0, chars.len())
    }
}

/// The classification of a lexeme, with the payload of a literal, a name or a
/// diagnostic.
///
/// `BracketLeft` and `BracketRight` are the round brackets `(` and `)`;
/// `ParenthesesLeft` and `ParenthesesRight` are the square brackets `[` and `]`.
#[allow(dead_code)]
#[derive(Debug, Clone, PartialEq, Eq)]
pub enum TokenType {
    Plus,
    Minus,
    Divide,
    Multiply,
    BraceLeft,
    BraceRight,
    BracketLeft,
    BracketRight,
    ParenthesesLeft,
    ParenthesesRight,
    SemiColon,
    GreaterThan,
    LessThan,
    GreaterEqual,
    LessEqual,
    EqualEqual,
    NotEqual,
    Equal,
    PlusEqual,
    MinusEqual,
    EqualPlus,
    EqualMinus,
    Number(u32),
    StringLiteral(String),
    CharLiteral(char),
    Invalid(String),
    Identifier(String),
    Keyword(KeywordType),
    EOF,
}

/// The mathematical content of a [`TokenType`]: the same variants, with text
/// as a sequence of characters.
pub enum TokenTypeView {
    Plus,
    Minus,
    Divide,
    Multiply,
    BraceLeft,
    BraceRight,
    BracketLeft,
    BracketRight,
    ParenthesesLeft,
    ParenthesesRight,
    SemiColon,
    GreaterThan,
    LessThan,
    GreaterEqual,
    LessEqual,
    EqualEqual,
    NotEqual,
    Equal,
    PlusEqual,
    MinusEqual,
    EqualPlus,
    EqualMinus,
    Number(u32),
    StringLiteral(Seq<char>),
    CharLiteral(char),
    Invalid(Seq<char>),
    Identifier(Seq<char>),
    Keyword(KeywordType),
    EOF,
}

impl View for TokenType {
    type V = TokenTypeView;

    open spec fn view(&self) -> TokenTypeView {
        match *self {
            TokenType::Plus => TokenTypeView::Plus,
            TokenType::Minus => TokenTypeView::Minus,
            TokenType::Divide => TokenTypeView::Divide,
            TokenType::Multiply => TokenTypeView::Multiply,
            TokenType::BraceLeft => TokenTypeView::BraceLeft,
            TokenType::BraceRight => TokenTypeView::BraceRight,
            TokenType::BracketLeft => TokenTypeView::BracketLeft,
            TokenType::BracketRight => TokenTypeView::BracketRight,
            TokenType::ParenthesesLeft => TokenTypeView::ParenthesesLeft,
            TokenType::ParenthesesRight => TokenTypeView::ParenthesesRight,
            TokenType::SemiColon => TokenTypeView::SemiColon,
            TokenType::GreaterThan => TokenTypeView::GreaterThan,
            TokenType::LessThan => TokenTypeView::LessThan,
            TokenType::GreaterEqual => TokenTypeView::GreaterEqual,
            TokenType::LessEqual => TokenTypeView::LessEqual,
            TokenType::EqualEqual => TokenTypeView::EqualEqual,
            TokenType::NotEqual => TokenTypeView::NotEqual,
            TokenType::Equal => TokenTypeView::Equal,
            TokenType::PlusEqual => TokenTypeView::PlusEqual,
            TokenType::MinusEqual => TokenTypeView::MinusEqual,
            TokenType::EqualPlus => TokenTypeView::EqualPlus,
            TokenType::EqualMinus => TokenTypeView::EqualMinus,
            TokenType::Number(value) => TokenTypeView::Number(value),
            TokenType::StringLiteral(text) => TokenTypeView::StringLiteral(text@),
            TokenType::CharLiteral(c) => TokenTypeView::CharLiteral(c),
            TokenType::Invalid(text) => TokenTypeView::Invalid(text@),
            TokenType::Identifier(text) => TokenTypeView::Identifier(text@),
            TokenType::Keyword(keyword) => TokenTypeView::Keyword(keyword),
            TokenType::EOF => TokenTypeView::EOF,
        }
    }
}

/// The mathematical content of a [`Token`].
pub struct TokenView {
    pub kind: TokenTypeView,
    pub lexeme: Seq<char>,
    pub line: nat,
}

/// One lexeme of the source: its classification, the source text that
/// produced it, and the line on which it begins. Lines are counted from 0.
#[derive(Debug, Clone, PartialEq, Eq)]
pub struct Token {
    pub token_type: TokenType,
    pub lexeme: String,
    pub line: usize,
}

impl View for Token {
    type V = TokenView;

    open spec fn view(&self) -> TokenView {
        TokenView { kind: self.token_type@, lexeme: self.lexeme@, line: self.line as nat }
    }
}

/// The contents of a sequence of tokens, one by one.
pub open spec fn token_views(tokens: Seq<Token>) -> Seq<TokenView> {
    tokens.map_values(|token: Token| token@)
}

impl Token {
    pub fn new(token_type: TokenType, lexeme: &str, line: usize) -> (token: Self)
        ensures
            token.token_type == token_type,
            token.lexeme@ == lexeme@,
            token.line == line,
            token@ == (TokenView { kind: token_type@, lexeme: lexeme@, line: line as nat }),
    {
        Self { token_type, lexeme: lexeme.to_owned(), line }
    }
}

} // verus!
