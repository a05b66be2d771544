//! What holds of the lexical rules and of the scanner's cursor, for all
//! inputs.

use vstd::prelude::*;
use crate::grammar::{
    block_comment_end, decimal_value, find_char, followed_by, is_blank, is_digit, is_ident_part,
    is_ident_start, lemma_digits_end, lemma_find_char_is, lemma_ident_end_is, lemma_lex_advances, lex_at, newlines_before, prepend, punctuation, scan, scan_from, token_at,
    word_kind, Lexed,
};
use crate::token::{keyword_of, KeywordType, TokenTypeView, TokenView};
use crate::token_scanner::{cursor_after_pull, token_under, TokenScanner};

verus! {

/// Every character of `s` from position `from` on is blank.
pub open spec fn blank_from(s: Seq<char>, from: int) -> bool {
    forall|i: int| from <= i < s.len() ==> is_blank(#[trigger] s[i])
}

/// Scanning blank space produces nothing.
pub proof fn lemma_blank_tail_has_no_tokens(s: Seq<char>, from: int)
    requires
        0 <= from,
        blank_from(s, from),
    ensures
        scan_from(s, from) == Ok::<Seq<TokenView>, int>(Seq::empty()),
    decreases s.len() - from,
{
    if from < s.len() {
        assert(is_blank(s[from]));
        lemma_blank_tail_has_no_tokens(s, from + 1);
    }
}

/// An input of spaces, tabs, carriage returns and newlines alone has no
/// tokens.
pub proof fn lemma_blank_input_has_no_tokens(s: Seq<char>)
    requires
        blank_from(s, 0),
    ensures
        scan(s) == Ok::<Seq<TokenView>, int>(Seq::empty()),
{
    lemma_blank_tail_has_no_tokens(s, 0);
}

/// The line counter of a position is the number of newline characters
/// before it.
pub proof fn lemma_newlines_before_counts_newlines(s: Seq<char>, pos: int)
    requires
        0 <= pos <= s.len(),
    ensures
        newlines_before(s, pos) == s.take(pos).filter(|c: char| c == '\n').len(),
    decreases pos,
{
    reveal(Seq::filter);
    if pos > 0 {
        lemma_newlines_before_counts_newlines(s, pos - 1);
        assert(s.take(pos).drop_last() =~= s.take(pos - 1));
    }
}

/// A scanner of blank input holds no token, and its line counter is the
/// number of newline characters in the input.
pub proof fn lemma_blank_source(scanner: TokenScanner)
    requires
        scanner.wf(),
        blank_from(scanner.source(), 0),
    ensures
        scanner.tokens().len() == 0,
        scanner.current() is None,
        scanner.lines() == scanner.source().filter(|c: char| c == '\n').len(),
{
    let s = scanner.source();
    lemma_blank_input_has_no_tokens(s);
    lemma_newlines_before_counts_newlines(s, s.len() as int);
    assert(s.take(s.len() as int) =~= s);
}

/// The line counter of any scanner is the number of newline characters in
/// its source, wherever they stand: between lexemes, in a comment or in a
/// literal.
pub proof fn lemma_lines_count_newlines(scanner: TokenScanner)
    requires
        scanner.wf(),
    ensures
        scanner.lines() == scanner.source().filter(|c: char| c == '\n').len(),
{
    let s = scanner.source();
    lemma_newlines_before_counts_newlines(s, s.len() as int);
    assert(s.take(s.len() as int) =~= s);
}

/// Further on in the source, the line is the same or a later one.
pub proof fn lemma_newlines_before_grows(s: Seq<char>, from: int, to: int)
    requires
        from <= to,
    ensures
        newlines_before(s, from) <= newlines_before(s, to),
    decreases to - from,
{
    if from < to {
        lemma_newlines_before_grows(s, from, to - 1);
    }
}

/// The lines of `tokens` never go back, and none lies outside `first..=last`.
pub open spec fn lines_in_order(tokens: Seq<TokenView>, first: nat, last: nat) -> bool {
    &&& forall|i: int| 0 <= i < tokens.len() ==> first <= (#[trigger] tokens[i]).line <= last
    &&& forall|i: int, j: int|
        0 <= i <= j < tokens.len() ==> (#[trigger] tokens[i]).line <= (#[trigger] tokens[j]).line
}

/// The tokens of the input from `pos` on stand in source order: their lines
/// never go back, they begin at the line of `pos` or later, and none has an
/// empty lexeme.
pub proof fn lemma_tokens_follow_the_source(s: Seq<char>, pos: int)
    requires
        0 <= pos <= s.len(),
    ensures
        scan_from(s, pos) matches Ok(tokens) ==> {
            &&& lines_in_order(tokens, newlines_before(s, pos), newlines_before(s, s.len() as int))
            &&& forall|i: int| 0 <= i < tokens.len() ==> (#[trigger] tokens[i]).lexeme.len() > 0
        },
    decreases s.len() - pos,
{
    if pos < s.len() {
        lemma_lex_advances(s, pos);
        match lex_at(s, pos) {
            Lexed::Skip { next } => {
                lemma_tokens_follow_the_source(s, next);
                lemma_newlines_before_grows(s, pos, next);
            },
            Lexed::Emit { kind, next } => {
                lemma_tokens_follow_the_source(s, next);
                lemma_newlines_before_grows(s, pos, next);
                lemma_newlines_before_grows(s, pos, s.len() as int);
                if let Ok(more) = scan_from(s, next) {
                    let first = token_at(s, pos, kind, next);
                    let tokens = seq![first] + more;
                    assert(scan_from(s, pos) == Ok::<Seq<TokenView>, int>(tokens));
                    assert forall|i: int| 0 < i < tokens.len() implies tokens[i] == more[i - 1] by {}
                    assert(tokens[0] == first);
                }
            },
            Lexed::Reject => {},
        }
    }
}

/// The tokens that a scanner holds stand in source order, each with a lexeme
/// that is not empty and a line that the line counter has reached.
pub proof fn lemma_scanner_tokens_follow_the_source(scanner: TokenScanner)
    requires
        scanner.wf(),
    ensures
        lines_in_order(scanner.tokens(), 0, scanner.lines()),
        forall|i: int|
            0 <= i < scanner.tokens().len() ==> (#[trigger] scanner.tokens()[i]).lexeme.len() > 0,
{
    lemma_tokens_follow_the_source(scanner.source(), 0);
}

/// The punctuation marks that are a lexeme by themselves and never begin a
/// longer one.
pub open spec fn is_single_punctuation(c: char) -> bool {
    c == '+' || c == '-' || c == '{' || c == '}' || c == '(' || c == ')' || c == '[' || c == ']'
        || c == ';'
}

/// An input that is one punctuation mark has exactly one token: the one of
/// that mark, with the mark as its text, on line 0.
pub proof fn lemma_single_punctuation(c: char)
    requires
        is_single_punctuation(c),
    ensures
        scan(seq![c]) matches Ok(tokens) && tokens.len() == 1 && tokens[0].lexeme == seq![c]
            && tokens[0].line == 0 && Some(tokens[0].kind) == punctuation(c),
        c == '+' ==> punctuation(c) == Some(TokenTypeView::Plus),
        c == '-' ==> punctuation(c) == Some(TokenTypeView::Minus),
        c == '{' ==> punctuation(c) == Some(TokenTypeView::BraceLeft),
        c == '}' ==> punctuation(c) == Some(TokenTypeView::BraceRight),
        c == '(' ==> punctuation(c) == Some(TokenTypeView::BracketLeft),
        c == ')' ==> punctuation(c) == Some(TokenTypeView::BracketRight),
        c == '[' ==> punctuation(c) == Some(TokenTypeView::ParenthesesLeft),
        c == ']' ==> punctuation(c) == Some(TokenTypeView::ParenthesesRight),
        c == ';' ==> punctuation(c) == Some(TokenTypeView::SemiColon),
{
    let s = seq![c];
    let token = token_at(s, 0, punctuation(c)->0, 1);
    assert(lex_at(s, 0) == Lexed::Emit { kind: punctuation(c)->0, next: 1 });
    assert(scan_from(s, 1) == Ok::<Seq<TokenView>, int>(Seq::empty()));
    assert(scan_from(s, 0) == prepend(seq![token], scan_from(s, 1)));
    assert(seq![token] + Seq::<TokenView>::empty() =~= seq![token]);
    assert(s.subrange(0, 1) =~= s);
}

/// A `=` is matched greedily: with a `=` after it, the two are one
/// `EqualEqual` token, never two `Equal` tokens; with anything else after
/// it, or at the end of the input, it is an `Equal` token by itself.
pub proof fn lemma_equal_is_greedy(s: Seq<char>, pos: int)
    requires
        0 <= pos < s.len(),
        s[pos] == '=',
    ensures
        followed_by(s, pos, '=') ==> lex_at(s, pos) == (Lexed::Emit {
            kind: TokenTypeView::EqualEqual,
            next: pos + 2,
        }),
        !followed_by(s, pos, '=') ==> lex_at(s, pos) == (Lexed::Emit {
            kind: TokenTypeView::Equal,
            next: pos + 1,
        }),
        scan_from(s, pos) == prepend(
            seq![
                token_at(
                    s,
                    pos,
                    if followed_by(s, pos, '=') {
                        TokenTypeView::EqualEqual
                    } else {
                        TokenTypeView::Equal
                    },
                    if followed_by(s, pos, '=') {
                        pos + 2
                    } else {
                        pos + 1
                    },
                ),
            ],
            scan_from(
                s,
                if followed_by(s, pos, '=') {
                    pos + 2
                } else {
                    pos + 1
                },
            ),
        ),
{
}

/// The input `==` has exactly one token, `EqualEqual`.
pub proof fn lemma_double_equal()
    ensures
        scan(seq!['=', '=']) == Ok::<Seq<TokenView>, int>(
            seq![
                TokenView { kind: TokenTypeView::EqualEqual, lexeme: seq!['=', '='], line: 0 },
            ],
        ),
{
    let s = seq!['=', '='];
    let token = token_at(s, 0, TokenTypeView::EqualEqual, 2);
    lemma_equal_is_greedy(s, 0);
    assert(scan_from(s, 2) == Ok::<Seq<TokenView>, int>(Seq::empty()));
    assert(seq![token] + Seq::<TokenView>::empty() =~= seq![token]);
    assert(s.subrange(0, 2) =~= s);
}

/// In the tokens of `=` followed by one other character, the first is
/// `Equal`, with `=` as its text, and no other is `Equal` or `EqualEqual`.
pub proof fn lemma_equal_then_other(c: char)
    requires
        c != '=',
    ensures
        scan(seq!['=', c]) matches Ok(tokens) ==> {
            &&& 1 <= tokens.len() <= 2
            &&& tokens[0].kind == TokenTypeView::Equal
            &&& tokens[0].lexeme == seq!['=']
            &&& forall|i: int|
                1 <= i < tokens.len() ==> (#[trigger] tokens[i]).kind != TokenTypeView::Equal
                    && tokens[i].kind != TokenTypeView::EqualEqual
        },
{
    let s = seq!['=', c];
    let first = token_at(s, 0, TokenTypeView::Equal, 1);
    lemma_equal_is_greedy(s, 0);
    lemma_lex_advances(s, 1);
    assert(s.subrange(0, 1) =~= seq!['=']);
    assert(scan_from(s, 2) == Ok::<Seq<TokenView>, int>(Seq::empty()));
    match lex_at(s, 1) {
        Lexed::Skip { next } => {
            assert(seq![first] + Seq::<TokenView>::empty() =~= seq![first]);
        },
        Lexed::Emit { kind, next } => {
            let second = token_at(s, 1, kind, 2);
            assert(kind != TokenTypeView::Equal && kind != TokenTypeView::EqualEqual);
            assert(seq![second] + Seq::<TokenView>::empty() =~= seq![second]);
            assert(seq![first] + seq![second] =~= seq![first, second]);
        },
        Lexed::Reject => {},
    }
}

/// A word is a keyword exactly if it is the spelling of that keyword: no
/// keyword is taken for another, and none is recognised by a part of it or
/// in a longer word.
pub proof fn lemma_keyword_is_its_spelling(text: Seq<char>, keyword: KeywordType)
    ensures
        keyword_of(text) == Some(keyword) <==> text == keyword.spelling(),
{
    reveal_strlit("if");
    reveal_strlit("else");
    reveal_strlit("while");
    reveal_strlit("for");
    reveal_strlit("return");
    reveal_strlit("break");
    reveal_strlit("continue");
    reveal_strlit("null");
    assert("if"@.len() == 2 && "for"@.len() == 3 && "return"@.len() == 6 && "continue"@.len() == 8);
    assert("else"@.len() == 4 && "null"@.len() == 4 && "else"@[0] == 'e' && "null"@[0] == 'n');
    assert("while"@.len() == 5 && "break"@.len() == 5 && "while"@[0] == 'w' && "break"@[0] == 'b');
}

/// Text between double quotes is one string literal that holds the text as
/// it stands; its lexeme includes the quotes.
pub proof fn lemma_string_literal(body: Seq<char>)
    requires
        forall|i: int| 0 <= i < body.len() ==> body[i] != '"',
    ensures
        scan(seq!['"'] + body + seq!['"']) == Ok::<Seq<TokenView>, int>(
            seq![
                TokenView {
                    kind: TokenTypeView::StringLiteral(body),
                    lexeme: seq!['"'] + body + seq!['"'],
                    line: 0,
                },
            ],
        ),
{
    let s = seq!['"'] + body + seq!['"'];
    let close = body.len() as int + 1;
    lemma_find_char_is(s, 1, '"', close);
    let kind = TokenTypeView::StringLiteral(s.subrange(1, close));
    let token = token_at(s, 0, kind, close + 1);
    assert(s.subrange(1, close) =~= body);
    assert(s.subrange(0, close + 1) =~= s);
    assert(lex_at(s, 0) == Lexed::Emit { kind, next: close + 1 });
    assert(scan_from(s, close + 1) == Ok::<Seq<TokenView>, int>(Seq::empty()));
    assert(seq![token] + Seq::<TokenView>::empty() =~= seq![token]);
}

/// An opening double quote with no closing one is one diagnostic token that
/// takes the rest of the input.
pub proof fn lemma_unterminated_string_literal(body: Seq<char>)
    requires
        forall|i: int| 0 <= i < body.len() ==> body[i] != '"',
    ensures
        scan(seq!['"'] + body) == Ok::<Seq<TokenView>, int>(
            seq![
                TokenView {
                    kind: TokenTypeView::Invalid("Unterminated string literal"@),
                    lexeme: seq!['"'] + body,
                    line: 0,
                },
            ],
        ),
{
    let s = seq!['"'] + body;
    let end = s.len() as int;
    lemma_find_char_is(s, 1, '"', end);
    let kind = TokenTypeView::Invalid("Unterminated string literal"@);
    let token = token_at(s, 0, kind, end);
    assert(s.subrange(0, end) =~= s);
    assert(lex_at(s, 0) == Lexed::Emit { kind, next: end });
    assert(scan_from(s, end) == Ok::<Seq<TokenView>, int>(Seq::empty()));
    assert(seq![token] + Seq::<TokenView>::empty() =~= seq![token]);
}

/// A word is classified as a whole. Where a word begins at `pos`, every
/// character up to `end` may continue it and the one at `end` may not, the
/// token is what the text `s[pos..end]` is: a keyword only if the text spells
/// one exactly, so a keyword with a letter behind it is a name.
pub proof fn lemma_word_is_classified_whole(s: Seq<char>, pos: int, end: int)
    requires
        0 <= pos < end <= s.len(),
        is_ident_start(s[pos]),
        forall|i: int| pos < i < end ==> is_ident_part(s[i]),
        end < s.len() ==> !is_ident_part(s[end]),
    ensures
        lex_at(s, pos) == (Lexed::Emit { kind: word_kind(s.subrange(pos, end)), next: end }),
        keyword_of(s.subrange(pos, end)) is None ==> word_kind(s.subrange(pos, end))
            == TokenTypeView::Identifier(s.subrange(pos, end)),
{
    lemma_ident_end_is(s, pos + 1, end);
}

/// A number takes every digit that follows its first and nothing else: what
/// stands behind it, a letter for one, begins another lexeme.
pub proof fn lemma_number_is_a_run_of_digits(s: Seq<char>, pos: int)
    requires
        0 <= pos < s.len(),
        is_digit(s[pos]),
    ensures
        lex_at(s, pos) matches Lexed::Emit { kind, next } && {
            &&& pos < next <= s.len()
            &&& forall|i: int| pos <= i < next ==> is_digit(s[i])
            &&& next < s.len() ==> !is_digit(s[next])
            &&& decimal_value(s.subrange(pos, next)) <= u32::MAX ==> kind
                == TokenTypeView::Number(decimal_value(s.subrange(pos, next)) as u32)
            &&& decimal_value(s.subrange(pos, next)) > u32::MAX ==> kind
                == TokenTypeView::Invalid("Number literal out of range"@)
        },
{
    lemma_digits_end(s, pos + 1);
}

/// A comment produces no token: the scan goes on behind it. A line comment
/// ends before the next newline, or with the input; a block comment ends
/// behind the next `*/`, or with the input.
pub proof fn lemma_comment_produces_no_token(s: Seq<char>, pos: int)
    requires
        0 <= pos < s.len(),
        s[pos] == '/',
        followed_by(s, pos, '/') || followed_by(s, pos, '*'),
    ensures
        followed_by(s, pos, '/') ==> lex_at(s, pos) == (Lexed::Skip {
            next: find_char(s, pos + 2, '\n'),
        }) && scan_from(s, pos) == scan_from(s, find_char(s, pos + 2, '\n')),
        followed_by(s, pos, '*') ==> lex_at(s, pos) == (Lexed::Skip {
            next: block_comment_end(s, pos + 2),
        }) && scan_from(s, pos) == scan_from(s, block_comment_end(s, pos + 2)),
{
}

/// Where a cursor stands after `pulls` tokens have been asked for.
pub open spec fn cursor_after(tokens: Seq<TokenView>, cursor: nat, pulls: nat) -> nat
    decreases pulls,
{
    if pulls == 0 {
        cursor
    } else {
        cursor_after(tokens, cursor_after_pull(tokens, cursor), (pulls - 1) as nat)
    }
}

/// Once every token has been handed out, the cursor stays where it is
/// however often a token is asked for, and no token is under it.
pub proof fn lemma_exhaustion_is_terminal(tokens: Seq<TokenView>, cursor: nat, pulls: nat)
    requires
        cursor >= tokens.len(),
    ensures
        cursor_after(tokens, cursor, pulls) == cursor,
        token_under(tokens, cursor_after(tokens, cursor, pulls)) is None,
    decreases pulls,
{
    if pulls > 0 {
        lemma_exhaustion_is_terminal(tokens, cursor, (pulls - 1) as nat);
    }
}

/// Asking for tokens from the start hands them out in order, each once, and
/// then no more.
pub proof fn lemma_pulls_walk_the_tokens(tokens: Seq<TokenView>, cursor: nat, pulls: nat)
    requires
        cursor <= tokens.len(),
    ensures
        cursor_after(tokens, cursor, pulls) == if cursor + pulls <= tokens.len() {
            cursor + pulls
        } else {
            tokens.len()
        },
    decreases pulls,
{
    if pulls > 0 {
        if cursor < tokens.len() {
            lemma_pulls_walk_the_tokens(tokens, cursor + 1, (pulls - 1) as nat);
        } else {
            lemma_pulls_walk_the_tokens(tokens, cursor, (pulls - 1) as nat);
        }
    }
}

} // verus!
