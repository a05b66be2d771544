//! The lexical rules of the language, as functions on sequences of
//! characters. The scanner is proved to compute exactly what is defined here.

use vstd::prelude::*;
use crate::text::unicode_alphanumeric;
use crate::token::{keyword_of, TokenTypeView, TokenView};

verus! {

/// Characters that separate lexemes and produce no token.
pub open spec fn is_blank(c: char) -> bool {
    c == ' ' || c == '\t' || c == '\r' || c == '\n'
}

/// An ASCII decimal digit.
pub open spec fn is_digit(c: char) -> bool {
    '0' <= c <= '9'
}

/// A character that may begin an identifier: an ASCII letter or `_`.
pub open spec fn is_ident_start(c: char) -> bool {
    'a' <= c <= 'z' || 'A' <= c <= 'Z' || c == '_'
}

/// Whether `c` may continue an identifier, given whether it is
/// alphanumeric: every alphanumeric character may, and `_`.
pub open spec fn ident_part_when(c: char, alphanumeric: bool) -> bool {
    alphanumeric || c == '_'
}

/// A character that may continue an identifier: alphanumeric or `_`.
pub open spec fn is_ident_part(c: char) -> bool {
    ident_part_when(c, unicode_alphanumeric(c))
}

/// The number of newline characters among the first `pos` characters of `s`.
/// This is the line, counted from 0, on which position `pos` lies.
pub open spec fn newlines_before(s: Seq<char>, pos: int) -> nat
    decreases pos,
{
    if pos <= 0 {
        0
    } else if pos <= s.len() && s[pos - 1] == '\n' {
        newlines_before(s, pos - 1) + 1
    } else {
        newlines_before(s, pos - 1)
    }
}

/// The first position at or after `from` at which `c` stands, or the length
/// of `s` if there is none.
pub open spec fn find_char(s: Seq<char>, from: int, c: char) -> int
    decreases s.len() - from,
{
    if from >= s.len() {
        s.len() as int
    } else if s[from] == c {
        from
    } else {
        find_char(s, from + 1, c)
    }
}

/// The position just after the first `*/` that begins at or after `from`, or
/// the length of `s` if there is none: a block comment that is never closed
/// runs to the end of the input.
pub open spec fn block_comment_end(s: Seq<char>, from: int) -> int
    decreases s.len() - from,
{
    if from + 1 >= s.len() {
        s.len() as int
    } else if s[from] == '*' && s[from + 1] == '/' {
        from + 2
    } else {
        block_comment_end(s, from + 1)
    }
}

/// The first position at or after `from` that does not continue an
/// identifier.
pub open spec fn ident_end(s: Seq<char>, from: int) -> int
    decreases s.len() - from,
{
    if from >= s.len() {
        s.len() as int
    } else if !is_ident_part(s[from]) {
        from
    } else {
        ident_end(s, from + 1)
    }
}

/// The first position at or after `from` that holds no digit.
pub open spec fn digits_end(s: Seq<char>, from: int) -> int
    decreases s.len() - from,
{
    if from >= s.len() {
        s.len() as int
    } else if !is_digit(s[from]) {
        from
    } else {
        digits_end(s, from + 1)
    }
}

/// The value of a decimal digit.
pub open spec fn digit_value(c: char) -> nat
    recommends
        is_digit(c),
{
    (c as int - '0' as int) as nat
}

/// The number that a sequence of decimal digits denotes.
pub open spec fn decimal_value(digits: Seq<char>) -> nat
    decreases digits.len(),
{
    if digits.len() == 0 {
        0
    } else {
        10 * decimal_value(digits.drop_last()) + digit_value(digits.last())
    }
}

/// The token of a punctuation mark that is a lexeme by itself wherever it
/// stands.
pub open spec fn punctuation(c: char) -> Option<TokenTypeView> {
    if c == '+' {
        Some(TokenTypeView::Plus)
    } else if c == '-' {
        Some(TokenTypeView::Minus)
    } else if c == '*' {
        Some(TokenTypeView::Multiply)
    } else if c == '{' {
        Some(TokenTypeView::BraceLeft)
    } else if c == '}' {
        Some(TokenTypeView::BraceRight)
    } else if c == '(' {
        Some(TokenTypeView::BracketLeft)
    } else if c == ')' {
        Some(TokenTypeView::BracketRight)
    } else if c == '[' {
        Some(TokenTypeView::ParenthesesLeft)
    } else if c == ']' {
        Some(TokenTypeView::ParenthesesRight)
    } else if c == ';' {
        Some(TokenTypeView::SemiColon)
    } else {
        None
    }
}

/// Whether the character after position `pos` is `expected`.
pub open spec fn followed_by(s: Seq<char>, pos: int, expected: char) -> bool {
    pos + 1 < s.len() && s[pos + 1] == expected
}

/// What the scanner makes of the input at one position.
pub enum Lexed {
    /// Blank space or a comment: nothing is produced, and scanning goes on
    /// at `next`.
    Skip { next: int },
    /// A lexeme of the given kind, which ends just before `next`.
    Emit { kind: TokenTypeView, next: int },
    /// A character that begins no lexeme.
    Reject,
}

/// The operator that begins with `c`, one of `= > < !`, at position `pos`:
/// with a following `=` it is the two-character operator, without one the
/// one-character operator. A `!` by itself is no operator.
pub open spec fn lex_operator(s: Seq<char>, pos: int, pair: TokenTypeView, single: TokenTypeView) -> Lexed {
    if followed_by(s, pos, '=') {
        Lexed::Emit { kind: pair, next: pos + 2 }
    } else {
        Lexed::Emit { kind: single, next: pos + 1 }
    }
}

/// A `/` at position `pos`: a line comment up to the next newline, a block
/// comment up to its closing `*/`, or the division operator.
pub open spec fn lex_slash(s: Seq<char>, pos: int) -> Lexed {
    if followed_by(s, pos, '/') {
        Lexed::Skip { next: find_char(s, pos + 2, '\n') }
    } else if followed_by(s, pos, '*') {
        Lexed::Skip { next: block_comment_end(s, pos + 2) }
    } else {
        Lexed::Emit { kind: TokenTypeView::Divide, next: pos + 1 }
    }
}

/// A `"` at position `pos`: the text up to the next `"`, taken as it stands,
/// or a diagnostic if the input ends first.
pub open spec fn lex_string(s: Seq<char>, pos: int) -> Lexed {
    let close = find_char(s, pos + 1, '"');
    if close < s.len() {
        Lexed::Emit { kind: TokenTypeView::StringLiteral(s.subrange(pos + 1, close)), next: close + 1 }
    } else {
        Lexed::Emit {
            kind: TokenTypeView::Invalid("Unterminated string literal"@),
            next: s.len() as int,
        }
    }
}

/// A `'` at position `pos`: one character, whatever it is, and a closing
/// `'`. If the input ends before either, or another character stands in
/// place of the closing `'` (it is consumed), the result is a diagnostic.
pub open spec fn lex_char(s: Seq<char>, pos: int) -> Lexed {
    if pos + 2 < s.len() {
        if s[pos + 2] == '\'' {
            Lexed::Emit { kind: TokenTypeView::CharLiteral(s[pos + 1]), next: pos + 3 }
        } else {
            Lexed::Emit {
                kind: TokenTypeView::Invalid("Unterminated character literal"@),
                next: pos + 3,
            }
        }
    } else {
        Lexed::Emit {
            kind: TokenTypeView::Invalid("Unterminated character literal"@),
            next: s.len() as int,
        }
    }
}

/// What a word is: a keyword if it spells one exactly, and a name
/// otherwise.
pub open spec fn word_kind(text: Seq<char>) -> TokenTypeView {
    match keyword_of(text) {
        Some(keyword) => TokenTypeView::Keyword(keyword),
        None => TokenTypeView::Identifier(text),
    }
}

/// A word that begins at position `pos`: the longest run of identifier
/// characters, classified as a whole.
pub open spec fn lex_word(s: Seq<char>, pos: int) -> Lexed {
    let end = ident_end(s, pos + 1);
    Lexed::Emit { kind: word_kind(s.subrange(pos, end)), next: end }
}

/// A number that begins at position `pos`: the longest run of digits, with
/// its value, or a diagnostic if the value does not fit in 32 bits.
pub open spec fn lex_number(s: Seq<char>, pos: int) -> Lexed {
    let end = digits_end(s, pos + 1);
    let value = decimal_value(s.subrange(pos, end));
    if value <= u32::MAX {
        Lexed::Emit { kind: TokenTypeView::Number(value as u32), next: end }
    } else {
        Lexed::Emit { kind: TokenTypeView::Invalid("Number literal out of range"@), next: end }
    }
}

/// What the scanner makes of the input at position `pos`, decided by the
/// character that stands there.
pub open spec fn lex_at(s: Seq<char>, pos: int) -> Lexed
    recommends
        0 <= pos < s.len(),
{
    let c = s[pos];
    if is_blank(c) {
        Lexed::Skip { next: pos + 1 }
    } else if punctuation(c) is Some {
        Lexed::Emit { kind: punctuation(c)->0, next: pos + 1 }
    } else if c == '=' {
        lex_operator(s, pos, TokenTypeView::EqualEqual, TokenTypeView::Equal)
    } else if c == '>' {
        lex_operator(s, pos, TokenTypeView::GreaterEqual, TokenTypeView::GreaterThan)
    } else if c == '<' {
        lex_operator(s, pos, TokenTypeView::LessEqual, TokenTypeView::LessThan)
    } else if c == '!' {
        lex_operator(s, pos, TokenTypeView::NotEqual, TokenTypeView::Invalid("Unexpected '!'"@))
    } else if c == '/' {
        lex_slash(s, pos)
    } else if c == '"' {
        lex_string(s, pos)
    } else if c == '\'' {
        lex_char(s, pos)
    } else if is_ident_start(c) {
        lex_word(s, pos)
    } else if is_digit(c) {
        lex_number(s, pos)
    } else {
        Lexed::Reject
    }
}

/// The token for a lexeme of the given kind that occupies `s[pos..next]`: its
/// text is that part of the source, its line the one on which it begins.
pub open spec fn token_at(s: Seq<char>, pos: int, kind: TokenTypeView, next: int) -> TokenView {
    TokenView { kind, lexeme: s.subrange(pos, next), line: newlines_before(s, pos) }
}

/// The outcome of a scan: the tokens in source order, or the position of the
/// first character that begins no lexeme.
pub type Scan = Result<Seq<TokenView>, int>;

/// `tokens` followed by the tokens of `rest`, or the failure of `rest`.
pub open spec fn prepend(tokens: Seq<TokenView>, rest: Scan) -> Scan {
    match rest {
        Ok(more) => Ok(tokens + more),
        Err(at) => Err(at),
    }
}

/// The outcome of scanning `s` from position `pos` to its end.
pub open spec fn scan_from(s: Seq<char>, pos: int) -> Scan
    decreases s.len() - pos,
    via scan_from_decreases
{
    if pos < 0 || pos >= s.len() {
        Ok(Seq::empty())
    } else {
        match lex_at(s, pos) {
            Lexed::Skip { next } => scan_from(s, next),
            Lexed::Emit { kind, next } => prepend(
                seq![token_at(s, pos, kind, next)],
                scan_from(s, next),
            ),
            Lexed::Reject => Err(pos),
        }
    }
}

/// The outcome of scanning the whole of `s`.
pub open spec fn scan(s: Seq<char>) -> Scan {
    scan_from(s, 0)
}

#[via_fn]
proof fn scan_from_decreases(s: Seq<char>, pos: int) {
    if 0 <= pos < s.len() {
        lemma_lex_advances(s, pos);
    }
}

/// Where `find_char` points there is a `c`, unless it points at the end, and
/// there is none between `from` and there.
pub proof fn lemma_find_char(s: Seq<char>, from: int, c: char)
    requires
        0 <= from <= s.len(),
    ensures
        from <= find_char(s, from, c) <= s.len(),
        find_char(s, from, c) < s.len() ==> s[find_char(s, from, c)] == c,
        forall|i: int| from <= i < find_char(s, from, c) ==> s[i] != c,
    decreases s.len() - from,
{
    if from < s.len() && s[from] != c {
        lemma_find_char(s, from + 1, c);
    }
}

/// The first position at or after `from` that holds `c` is `at`, if `c`
/// stands at `at`, or `at` is the end of `s`, and `c` stands nowhere between.
pub proof fn lemma_find_char_is(s: Seq<char>, from: int, c: char, at: int)
    requires
        0 <= from <= at <= s.len(),
        at < s.len() ==> s[at] == c,
        forall|i: int| from <= i < at ==> s[i] != c,
    ensures
        find_char(s, from, c) == at,
    decreases at - from,
{
    if from < at {
        lemma_find_char_is(s, from + 1, c, at);
    }
}

/// A block comment ends within the input, and a closed one holds at least
/// its closing `*/`.
pub proof fn lemma_block_comment_end(s: Seq<char>, from: int)
    requires
        0 <= from <= s.len(),
    ensures
        from <= block_comment_end(s, from) <= s.len(),
        block_comment_end(s, from) < s.len() ==> block_comment_end(s, from) >= from + 2,
    decreases s.len() - from,
{
    if from + 1 < s.len() && !(s[from] == '*' && s[from + 1] == '/') {
        lemma_block_comment_end(s, from + 1);
    }
}

/// An identifier takes every character up to the first that cannot
/// continue it.
pub proof fn lemma_ident_end(s: Seq<char>, from: int)
    requires
        0 <= from <= s.len(),
    ensures
        from <= ident_end(s, from) <= s.len(),
        ident_end(s, from) < s.len() ==> !is_ident_part(s[ident_end(s, from)]),
        forall|i: int| from <= i < ident_end(s, from) ==> is_ident_part(s[i]),
    decreases s.len() - from,
{
    if from < s.len() && is_ident_part(s[from]) {
        lemma_ident_end(s, from + 1);
    }
}

/// The run of identifier characters that begins at `from` ends at `at`, if
/// every character between may continue an identifier and the one at `at`,
/// if there is one, may not.
pub proof fn lemma_ident_end_is(s: Seq<char>, from: int, at: int)
    requires
        0 <= from <= at <= s.len(),
        at < s.len() ==> !is_ident_part(s[at]),
        forall|i: int| from <= i < at ==> is_ident_part(s[i]),
    ensures
        ident_end(s, from) == at,
    decreases at - from,
{
    if from < at {
        lemma_ident_end_is(s, from + 1, at);
    }
}

/// A run of digits takes every character up to the first that is no digit.
pub proof fn lemma_digits_end(s: Seq<char>, from: int)
    requires
        0 <= from <= s.len(),
    ensures
        from <= digits_end(s, from) <= s.len(),
        digits_end(s, from) < s.len() ==> !is_digit(s[digits_end(s, from)]),
        forall|i: int| from <= i < digits_end(s, from) ==> is_digit(s[i]),
    decreases s.len() - from,
{
    if from < s.len() && is_digit(s[from]) {
        lemma_digits_end(s, from + 1);
    }
}

/// Every step of the scanner consumes at least one character and stays
/// within the input.
pub proof fn lemma_lex_advances(s: Seq<char>, pos: int)
    requires
        0 <= pos < s.len(),
    ensures
        lex_at(s, pos) matches Lexed::Skip { next } ==> pos < next <= s.len(),
        lex_at(s, pos) matches Lexed::Emit { kind, next } ==> pos < next <= s.len(),
{
    if followed_by(s, pos, '/') {
        lemma_find_char(s, pos + 2, '\n');
    }
    if followed_by(s, pos, '*') {
        lemma_block_comment_end(s, pos + 2);
    }
    lemma_find_char(s, pos + 1, '"');
    lemma_ident_end(s, pos + 1);
    lemma_digits_end(s, pos + 1);
}

} // verus!
