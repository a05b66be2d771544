//! The scanner: one pass over the source text that produces its tokens, and
//! a cursor to read them one at a time.

use vstd::prelude::*;
use crate::error::{Error, ErrorView};
use crate::grammar;
use crate::grammar::{Lexed, Scan};
use crate::text::{to_chars, to_text};
use crate::token::{token_views, KeywordType, Token, TokenType, TokenView};

verus! {

/// The diagnostic for a character that begins no lexeme, found on `line`.
pub open spec fn invalid_character(line: nat) -> ErrorView {
    ErrorView::fresh("Invalid Character Placeholder"@, line)
}

/// What one step of the scanner found.
pub enum Step {
    Skip(usize),
    Emit(TokenType, usize),
    Reject,
}

impl View for Step {
    type V = Lexed;

    open spec fn view(&self) -> Lexed {
        match *self {
            Step::Skip(next) => Lexed::Skip { next: next as int },
            Step::Emit(kind, next) => Lexed::Emit { kind: kind@, next: next as int },
            Step::Reject => Lexed::Reject,
        }
    }
}

/// The first position at or after `from` that holds `c`.
fn seek_char(chars: &Vec<char>, from: usize, c: char) -> (at: usize)
    requires
        from <= chars.len(),
    ensures
        at == grammar::find_char(chars@, from as int, c),
        from <= at <= chars.len(),
{
    let mut i: usize = from;
    while i < chars.len() && chars[i] != c
        invariant
            from <= i <= chars.len(),
            grammar::find_char(chars@, from as int, c) == grammar::find_char(chars@, i as int, c),
        decreases chars.len() - i,
    {
        i += 1;
    }
    i
}

/// The position just after the `*/` that closes a block comment whose body
/// begins at `from`.
fn seek_comment_end(chars: &Vec<char>, from: usize) -> (at: usize)
    requires
        from <= chars.len(),
    ensures
        at == grammar::block_comment_end(chars@, from as int),
        from <= at <= chars.len(),
{
    let mut i: usize = from;
    while chars.len() - i > 1 && !(chars[i] == '*' && chars[i + 1] == '/')
        invariant
            from <= i <= chars.len(),
            grammar::block_comment_end(chars@, from as int) == grammar::block_comment_end(
                chars@,
                i as int,
            ),
        decreases chars.len() - i,
    {
        i += 1;
    }
    if chars.len() - i > 1 {
        i + 2
    } else {
        chars.len()
    }
}

/// Whether `c` may continue an identifier, given in `alphanumeric` what
/// `char::is_alphanumeric` answers for it.
pub fn continues_identifier(c: char, alphanumeric: bool) -> (part: bool)
    ensures
        part == grammar::ident_part_when(c, alphanumeric),
        part == (alphanumeric || c == '_'),
{
    alphanumeric || c == '_'
}

/// The end of the run of identifier characters that begins at `from`.
fn seek_ident_end(chars: &Vec<char>, from: usize) -> (at: usize)
    requires
        from <= chars.len(),
    ensures
        at == grammar::ident_end(chars@, from as int),
        from <= at <= chars.len(),
{
    let mut i: usize = from;
    while i < chars.len() && continues_identifier(chars[i], chars[i].is_alphanumeric())
        invariant
            from <= i <= chars.len(),
            grammar::ident_end(chars@, from as int) == grammar::ident_end(chars@, i as int),
        decreases chars.len() - i,
    {
        i += 1;
    }
    i
}

/// The end of the run of digits that begins at `from`.
fn seek_digits_end(chars: &Vec<char>, from: usize) -> (at: usize)
    requires
        from <= chars.len(),
    ensures
        at == grammar::digits_end(chars@, from as int),
        from <= at <= chars.len(),
        forall|i: int| from <= i < at ==> grammar::is_digit(chars@[i]),
{
    let mut i: usize = from;
    while i < chars.len() && '0' <= chars[i] && chars[i] <= '9'
        invariant
            from <= i <= chars.len(),
            grammar::digits_end(chars@, from as int) == grammar::digits_end(chars@, i as int),
            forall|j: int| from <= j < i ==> grammar::is_digit(chars@[j]),
        decreases chars.len() - i,
    {
        i += 1;
    }
    i
}

/// The value of the digits `chars[from..to]`, if it fits in 32 bits.
fn number_value(chars: &Vec<char>, from: usize, to: usize) -> (value: Option<u32>)
    requires
        from <= to <= chars.len(),
        forall|i: int| from <= i < to ==> grammar::is_digit(chars@[i]),
    ensures
        value == (if grammar::decimal_value(chars@.subrange(from as int, to as int)) <= u32::MAX {
            Some(grammar::decimal_value(chars@.subrange(from as int, to as int)) as u32)
        } else {
            None
        }),
{
    let mut value: u64 = 0;
    let mut fits: bool = true;
    let mut i: usize = from;
    while i < to
        invariant
            from <= i <= to <= chars.len(),
            forall|j: int| from <= j < to ==> grammar::is_digit(chars@[j]),
            fits ==> value == grammar::decimal_value(chars@.subrange(from as int, i as int)),
            fits ==> value <= u32::MAX,
            !fits ==> grammar::decimal_value(chars@.subrange(from as int, i as int)) > u32::MAX,
        decreases to - i,
    {
        proof {
            let longer = chars@.subrange(from as int, i + 1);
            assert(longer.drop_last() =~= chars@.subrange(from as int, i as int));
            assert(longer.last() == chars@[i as int]);
        }
        if fits {
            let digit: u64 = (chars[i] as u32 - '0' as u32) as u64;
            value = 10 * value + digit;
            if value > 0xffff_ffff {
                fits = false;
            }
        }
        i += 1;
    }
    if fits {
        Some(value as u32)
    } else {
        None
    }
}

/// The line on which position `to` lies, given that `line` is the one on
/// which position `from` lies.
fn line_at(chars: &Vec<char>, from: usize, to: usize, line: usize) -> (end_line: usize)
    requires
        from <= to <= chars.len(),
        line == grammar::newlines_before(chars@, from as int),
        line <= from,
    ensures
        end_line == grammar::newlines_before(chars@, to as int),
        end_line <= to,
{
    let mut end_line: usize = line;
    let mut i: usize = from;
    while i < to
        invariant
            from <= i <= to <= chars.len(),
            end_line == grammar::newlines_before(chars@, i as int),
            end_line <= i,
        decreases to - i,
    {
        if chars[i] == '\n' {
            end_line += 1;
        }
        i += 1;
    }
    end_line
}

/// The operator that begins at `pos`: `pair` if a `=` follows, else `single`.
fn lex_operator(chars: &Vec<char>, pos: usize, pair: TokenType, single: TokenType) -> (step: Step)
    requires
        pos < chars.len(),
    ensures
        step@ == grammar::lex_operator(chars@, pos as int, pair@, single@),
{
    let mut next: usize = pos + 1;
    if TokenScanner::match_expected(chars, &mut next, '=') {
        Step::Emit(pair, next)
    } else {
        Step::Emit(single, next)
    }
}

/// A comment or the division operator, for the `/` at `pos`.
fn lex_slash(chars: &Vec<char>, pos: usize) -> (step: Step)
    requires
        pos < chars.len(),
    ensures
        step@ == grammar::lex_slash(chars@, pos as int),
{
    let mut next: usize = pos + 1;
    if TokenScanner::match_expected(chars, &mut next, '/') {
        Step::Skip(seek_char(chars, next, '\n'))
    } else if TokenScanner::match_expected(chars, &mut next, '*') {
        Step::Skip(seek_comment_end(chars, next))
    } else {
        Step::Emit(TokenType::Divide, next)
    }
}

/// The string literal that the `"` at `pos` opens.
fn lex_string(chars: &Vec<char>, pos: usize) -> (step: Step)
    requires
        pos < chars.len(),
    ensures
        step@ == grammar::lex_string(chars@, pos as int),
{
    let close = seek_char(chars, pos + 1, '"');
    if close < chars.len() {
        Step::Emit(TokenType::StringLiteral(to_text(chars, pos + 1, close)), close + 1)
    } else {
        Step::Emit(TokenType::Invalid("Unterminated string literal".to_owned()), close)
    }
}

/// The character literal that the `'` at `pos` opens.
fn lex_char(chars: &Vec<char>, pos: usize) -> (step: Step)
    requires
        pos < chars.len(),
    ensures
        step@ == grammar::lex_char(chars@, pos as int),
{
    if chars.len() - pos > 2 {
        if chars[pos + 2] == '\'' {
            Step::Emit(TokenType::CharLiteral(chars[pos + 1]), pos + 3)
        } else {
            Step::Emit(TokenType::Invalid("Unterminated character literal".to_owned()), pos + 3)
        }
    } else {
        Step::Emit(TokenType::Invalid("Unterminated character literal".to_owned()), chars.len())
    }
}

/// The token of the word `chars[from..to]`: the keyword that it spells, or
/// an identifier of that name.
pub fn classify_word(chars: &Vec<char>, from: usize, to: usize) -> (kind: TokenType)
    requires
        from <= to <= chars.len(),
    ensures
        kind@ == grammar::word_kind(chars@.subrange(from as int, to as int)),
{
    match KeywordType::from_chars(chars, from, to) {
        Some(keyword) => TokenType::Keyword(keyword),
        None => TokenType::Identifier(to_text(chars, from, to)),
    }
}

/// The keyword or identifier that begins at `pos`.
fn lex_word(chars: &Vec<char>, pos: usize) -> (step: Step)
    requires
        pos < chars.len(),
    ensures
        step@ == grammar::lex_word(chars@, pos as int),
{
    let end = seek_ident_end(chars, pos + 1);
    Step::Emit(classify_word(chars, pos, end), end)
}

/// The number that begins at `pos`.
fn lex_number(chars: &Vec<char>, pos: usize) -> (step: Step)
    requires
        pos < chars.len(),
        grammar::is_digit(chars@[pos as int]),
    ensures
        step@ == grammar::lex_number(chars@, pos as int),
{
    let end = seek_digits_end(chars, pos + 1);
    match number_value(chars, pos, end) {
        Some(value) => Step::Emit(TokenType::Number(value), end),
        None => Step::Emit(TokenType::Invalid("Number literal out of range".to_owned()), end),
    }
}

/// One step of the scanner: what stands at `pos`, and where it ends.
pub fn lex_at(chars: &Vec<char>, pos: usize) -> (step: Step)
    requires
        pos < chars.len(),
    ensures
        step@ == grammar::lex_at(chars@, pos as int),
{
    let c = chars[pos];
    match c {
        ' ' | '\n' | '\t' | '\r' => Step::Skip(pos + 1),
        '+' => Step::Emit(TokenType::Plus, pos + 1),
        '-' => Step::Emit(TokenType::Minus, pos + 1),
        '*' => Step::Emit(TokenType::Multiply, pos + 1),
        '{' => Step::Emit(TokenType::BraceLeft, pos + 1),
        '}' => Step::Emit(TokenType::BraceRight, pos + 1),
        '(' => Step::Emit(TokenType::BracketLeft, pos + 1),
        ')' => Step::Emit(TokenType::BracketRight, pos + 1),
        '[' => Step::Emit(TokenType::ParenthesesLeft, pos + 1),
        ']' => Step::Emit(TokenType::ParenthesesRight, pos + 1),
        ';' => Step::Emit(TokenType::SemiColon, pos + 1),
        '=' => lex_operator(chars, pos, TokenType::EqualEqual, TokenType::Equal),
        '>' => lex_operator(chars, pos, TokenType::GreaterEqual, TokenType::GreaterThan),
        '<' => lex_operator(chars, pos, TokenType::LessEqual, TokenType::LessThan),
        '!' => lex_operator(
            chars,
            pos,
            TokenType::NotEqual,
            TokenType::Invalid("Unexpected '!'".to_owned()),
        ),
        '/' => lex_slash(chars, pos),
        '"' => lex_string(chars, pos),
        '\'' => lex_char(chars, pos),
        _ => {
            if ('a' <= c && c <= 'z') || ('A' <= c && c <= 'Z') || c == '_' {
                lex_word(chars, pos)
            } else if '0' <= c && c <= '9' {
                lex_number(chars, pos)
            } else {
                Step::Reject
            }
        },
    }
}

/// The token under a cursor, if the cursor is within the tokens.
pub open spec fn token_under(tokens: Seq<TokenView>, cursor: nat) -> Option<TokenView> {
    if cursor < tokens.len() {
        Some(tokens[cursor as int])
    } else {
        None
    }
}

/// Where a cursor stands after one token has been asked for: one further,
/// unless it is already past the last token.
pub open spec fn cursor_after_pull(tokens: Seq<TokenView>, cursor: nat) -> nat {
    if cursor < tokens.len() {
        cursor + 1
    } else {
        cursor
    }
}

/// The contents of a token that may or may not be there.
pub open spec fn option_view(token: Option<&Token>) -> Option<TokenView> {
    match token {
        Some(token) => Some(token@),
        None => None,
    }
}

/// A scanner over one source text. It holds the tokens of the text and a
/// cursor into them.
#[derive(Debug)]
pub struct TokenScanner {
    input: String,
    tokens: Vec<Token>,
    pos: usize,
    line: usize,
}

impl TokenScanner {
    /// The source text.
    pub closed spec fn source(&self) -> Seq<char> {
        self.input@
    }

    /// The tokens held, in source order.
    pub closed spec fn tokens(&self) -> Seq<TokenView> {
        token_views(self.tokens@)
    }

    /// How many tokens have been handed out.
    pub closed spec fn cursor(&self) -> nat {
        self.pos as nat
    }

    /// The line counter: the number of newlines that the scan passed.
    pub closed spec fn lines(&self) -> nat {
        self.line as nat
    }

    /// The scanner holds exactly the tokens of its source, has counted all of
    /// its newlines, and its cursor is within the tokens or just past them.
    pub open spec fn wf(&self) -> bool {
        &&& grammar::scan(self.source()) == Ok::<Seq<TokenView>, int>(self.tokens())
        &&& self.cursor() <= self.tokens().len()
        &&& self.lines() == grammar::newlines_before(self.source(), self.source().len() as int)
    }

    /// The token under the cursor, if any is left.
    pub open spec fn current(&self) -> Option<TokenView> {
        token_under(self.tokens(), self.cursor())
    }

    /// Scans `input` from its first character to its last. The scanner that
    /// comes back holds the tokens of `input`, with its cursor on the first.
    /// The scan fails on the first character that begins no lexeme, with the
    /// line on which that character stands.
    pub fn new(input: String) -> (scanner: Result<Self, Error>)
        ensures
            match grammar::scan(input@) {
                Ok(tokens) => {
                    &&& scanner matches Ok(scanner)
                    &&& scanner.source() == input@
                    &&& scanner.tokens() == tokens
                    &&& scanner.cursor() == 0
                    &&& scanner.lines() == grammar::newlines_before(input@, input@.len() as int)
                    &&& scanner.wf()
                },
                Err(at) => {
                    &&& scanner matches Err(error)
                    &&& error@ == invalid_character(grammar::newlines_before(input@, at))
                },
            },
    {
        let mut scanner = TokenScanner { input, tokens: Vec::new(), pos: 0, line: 0 };
        match scanner.populate_tokens() {
            Ok(()) => Ok(scanner),
            Err(error) => Err(error),
        }
    }

    /// Hands out the token under the cursor and moves the cursor past it.
    /// Once every token has been handed out, the answer is `None` and the
    /// scanner stays as it is.
    pub fn next_token(&mut self) -> (token: Option<&Token>)
        ensures
            option_view(token) == old(self).current(),
            final(self).cursor() == cursor_after_pull(old(self).tokens(), old(self).cursor()),
            final(self).source() == old(self).source(),
            final(self).tokens() == old(self).tokens(),
            final(self).lines() == old(self).lines(),
            old(self).wf() ==> final(self).wf(),
    {
        if self.pos >= self.tokens.len() {
            None
        } else {
            let t = &self.tokens[self.pos];
            self.pos += 1;
            Some(t)
        }
    }

    /// The token under the cursor, which stays where it is.
    pub fn peek_token(&self) -> (token: Option<&Token>)
        ensures
            option_view(token) == self.current(),
    {
        if self.pos < self.tokens.len() {
            Some(&self.tokens[self.pos])
        } else {
            None
        }
    }

    /// The line counter after the scan: the number of newlines in the source.
    pub fn line(&self) -> (line: usize)
        ensures
            line == self.lines(),
    {
        self.line
    }

    /// The single pass over the source: appends the token of every lexeme to
    /// `self.tokens` and counts the lines.
    fn populate_tokens(&mut self) -> (outcome: Result<(), Error>)
        requires
            old(self).tokens@.len() == 0,
            old(self).pos == 0,
        ensures
            final(self).input@ == old(self).input@,
            final(self).pos == 0,
            match outcome {
                Ok(()) => final(self).wf(),
                Err(error) => {
                    &&& grammar::scan(old(self).input@) matches Err(at)
                    &&& error@ == invalid_character(
                        grammar::newlines_before(old(self).input@, at),
                    )
                },
            },
    {
        let chars = to_chars(self.input.as_str());
        let ghost s = chars@;
        let mut pos: usize = 0;
        let mut line: usize = 0;
        assert(token_views(self.tokens@) =~= Seq::<TokenView>::empty());
        assert(Seq::<TokenView>::empty() + Seq::<TokenView>::empty() =~= Seq::<TokenView>::empty());
        while pos < chars.len()
            invariant
                chars@ == s,
                self.input@ == s,
                old(self).input@ == s,
                self.pos == 0,
                pos <= chars.len(),
                line <= pos,
                line == grammar::newlines_before(s, pos as int),
                grammar::scan(s) == grammar::prepend(
                    token_views(self.tokens@),
                    grammar::scan_from(s, pos as int),
                ),
            decreases chars.len() - pos,
        {
            proof {
                grammar::lemma_lex_advances(s, pos as int);
            }
            let ghost before = token_views(self.tokens@);
            match lex_at(&chars, pos) {
                Step::Skip(next) => {
                    line = line_at(&chars, pos, next, line);
                    pos = next;
                },
                Step::Emit(token_type, next) => {
                    let lexeme = to_text(&chars, pos, next);
                    let token = Token { token_type, lexeme, line };
                    proof {
                        let rest = grammar::scan_from(s, next as int);
                        assert(token@ == grammar::token_at(s, pos as int, token_type@, next as int));
                        assert(token_views(self.tokens@.push(token)) =~= before + seq![token@]);
                        assert(grammar::prepend(before, grammar::prepend(seq![token@], rest))
                            == grammar::prepend(before + seq![token@], rest)) by {
                            if let Ok(more) = rest {
                                assert(before + (seq![token@] + more) =~= (before + seq![
                                    token@,
                                ]) + more);
                            }
                        }
                    }
                    self.tokens.push(token);
                    line = line_at(&chars, pos, next, line);
                    pos = next;
                },
                Step::Reject => {
                    return Err(Error::new("Invalid Character Placeholder", line as u64));
                },
            }
        }
        self.line = line;
        proof {
            assert(token_views(self.tokens@) + Seq::<TokenView>::empty() =~= token_views(
                self.tokens@,
            ));
        }
        Ok(())
    }

    /// If the character at `*pos` is `expected`, moves `*pos` past it.
    pub fn match_expected(chars: &Vec<char>, pos: &mut usize, expected: char) -> (matched: bool)
        ensures
            matched == (*old(pos) < chars.len() && chars@[*old(pos) as int] == expected),
            *final(pos) == if matched { *old(pos) + 1 } else { *old(pos) as int },
    {
        if *pos < chars.len() && chars[*pos] == expected {
            *pos = *pos + 1;
            true
        } else {
            false
        }
    }
}

} // verus!
