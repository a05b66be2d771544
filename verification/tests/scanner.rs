use rlox::token::{KeywordType, Token, TokenType};
use rlox::token_scanner::{classify_word, continues_identifier, lex_at, Step, TokenScanner};

fn scan(source: &str) -> Vec<Token> {
    let mut scanner = match TokenScanner::new(source.to_string()) {
        Ok(scanner) => scanner,
        Err(error) => panic!("scan failed: {}", error.to_string()),
    };
    let mut tokens = Vec::new();
    while let Some(token) = scanner.next_token() {
        tokens.push(token.clone());
    }
    tokens
}

fn kinds(source: &str) -> Vec<TokenType> {
    scan(source).into_iter().map(|token| token.token_type).collect()
}

fn invalid(message: &str) -> TokenType {
    TokenType::Invalid(message.to_string())
}

#[test]
fn empty_input_has_no_tokens() {
    let mut scanner = TokenScanner::new(String::new()).unwrap();
    assert!(scanner.peek_token().is_none());
    assert!(scanner.next_token().is_none());
    assert_eq!(scanner.line(), 0);
}

#[test]
fn blank_input_has_no_tokens_and_counts_newlines() {
    let mut scanner = TokenScanner::new("  \t\r\n \n\n\t".to_string()).unwrap();
    assert!(scanner.next_token().is_none());
    assert_eq!(scanner.line(), 3);
    let scanner = TokenScanner::new(" \t \r".to_string()).unwrap();
    assert!(scanner.peek_token().is_none());
    assert_eq!(scanner.line(), 0);
}

#[test]
fn single_punctuation_yields_one_token() {
    let cases = vec![
        ("+", TokenType::Plus),
        ("-", TokenType::Minus),
        ("{", TokenType::BraceLeft),
        ("}", TokenType::BraceRight),
        ("(", TokenType::BracketLeft),
        (")", TokenType::BracketRight),
        ("[", TokenType::ParenthesesLeft),
        ("]", TokenType::ParenthesesRight),
        (";", TokenType::SemiColon),
    ];
    for (source, expected) in cases {
        let tokens = scan(source);
        assert_eq!(tokens.len(), 1, "source {:?}", source);
        assert_eq!(tokens[0].token_type, expected);
        assert_eq!(tokens[0].lexeme, source);
        assert_eq!(tokens[0].line, 0);
    }
}

#[test]
fn multiply_and_divide() {
    assert_eq!(kinds("*"), vec![TokenType::Multiply]);
    assert_eq!(kinds("/"), vec![TokenType::Divide]);
    assert_eq!(kinds("a/b"), vec![
        TokenType::Identifier("a".to_string()),
        TokenType::Divide,
        TokenType::Identifier("b".to_string()),
    ]);
    assert_eq!(kinds("2*3"), vec![TokenType::Number(2), TokenType::Multiply, TokenType::Number(3)]);
}

#[test]
fn double_equal_is_one_token() {
    let tokens = scan("==");
    assert_eq!(tokens.len(), 1);
    assert_eq!(tokens[0].token_type, TokenType::EqualEqual);
    assert_eq!(tokens[0].lexeme, "==");
}

#[test]
fn equal_followed_by_other_character() {
    assert_eq!(kinds("="), vec![TokenType::Equal]);
    assert_eq!(kinds("=+"), vec![TokenType::Equal, TokenType::Plus]);
    assert_eq!(kinds("= ="), vec![TokenType::Equal, TokenType::Equal]);
    assert_eq!(kinds("=a"), vec![TokenType::Equal, TokenType::Identifier("a".to_string())]);
    assert_eq!(kinds("==="), vec![TokenType::EqualEqual, TokenType::Equal]);
    let tokens = scan("=1");
    assert_eq!(tokens[0].lexeme, "=");
    assert_eq!(tokens[1].token_type, TokenType::Number(1));
}

#[test]
fn comparison_operators() {
    assert_eq!(kinds(">"), vec![TokenType::GreaterThan]);
    assert_eq!(kinds(">="), vec![TokenType::GreaterEqual]);
    assert_eq!(kinds("<"), vec![TokenType::LessThan]);
    assert_eq!(kinds("<="), vec![TokenType::LessEqual]);
    assert_eq!(kinds("!="), vec![TokenType::NotEqual]);
    assert_eq!(kinds("<>"), vec![TokenType::LessThan, TokenType::GreaterThan]);
    assert_eq!(kinds("<=>"), vec![TokenType::LessEqual, TokenType::GreaterThan]);
}

#[test]
fn lone_bang_is_invalid() {
    let tokens = scan("!");
    assert_eq!(tokens.len(), 1);
    assert_eq!(tokens[0].token_type, invalid("Unexpected '!'"));
    assert_eq!(tokens[0].lexeme, "!");
    assert_eq!(kinds("!a"), vec![invalid("Unexpected '!'"), TokenType::Identifier("a".to_string())]);
}

#[test]
fn plus_and_minus_never_pair_with_equal() {
    assert_eq!(kinds("+="), vec![TokenType::Plus, TokenType::Equal]);
    assert_eq!(kinds("-="), vec![TokenType::Minus, TokenType::Equal]);
    assert_eq!(kinds("=-"), vec![TokenType::Equal, TokenType::Minus]);
}

#[test]
fn string_literal() {
    let tokens = scan("\"hello\"");
    assert_eq!(tokens.len(), 1);
    assert_eq!(tokens[0].token_type, TokenType::StringLiteral("hello".to_string()));
    assert_eq!(tokens[0].lexeme, "\"hello\"");
}

#[test]
fn unterminated_string_literal() {
    let tokens = scan("\"hello");
    assert_eq!(tokens.len(), 1);
    assert_eq!(tokens[0].token_type, invalid("Unterminated string literal"));
    assert_eq!(tokens[0].lexeme, "\"hello");
    assert_eq!(kinds("\""), vec![invalid("Unterminated string literal")]);
}

#[test]
fn string_literal_is_taken_verbatim() {
    assert_eq!(kinds("\"\""), vec![TokenType::StringLiteral(String::new())]);
    assert_eq!(kinds("\"a\\\"b"), vec![
        TokenType::StringLiteral("a\\".to_string()),
        TokenType::Identifier("b".to_string()),
    ]);
    assert_eq!(kinds("\"// no comment\";"), vec![
        TokenType::StringLiteral("// no comment".to_string()),
        TokenType::SemiColon,
    ]);
    assert_eq!(kinds("\"#\u{e9}\""), vec![TokenType::StringLiteral("#\u{e9}".to_string())]);
}

#[test]
fn string_literal_with_newline_counts_lines() {
    let mut scanner = TokenScanner::new("\"a\nb\" x".to_string()).unwrap();
    assert_eq!(scanner.line(), 1);
    let first = scanner.next_token().unwrap().clone();
    assert_eq!(first.token_type, TokenType::StringLiteral("a\nb".to_string()));
    assert_eq!(first.line, 0);
    let second = scanner.next_token().unwrap().clone();
    assert_eq!(second.token_type, TokenType::Identifier("x".to_string()));
    assert_eq!(second.line, 1);
}

#[test]
fn character_literal() {
    let tokens = scan("'a'");
    assert_eq!(tokens.len(), 1);
    assert_eq!(tokens[0].token_type, TokenType::CharLiteral('a'));
    assert_eq!(tokens[0].lexeme, "'a'");
    assert_eq!(kinds("'''"), vec![TokenType::CharLiteral('\'')]);
    assert_eq!(kinds("'\n'"), vec![TokenType::CharLiteral('\n')]);
    assert_eq!(kinds("'#'+"), vec![TokenType::CharLiteral('#'), TokenType::Plus]);
}

#[test]
fn unterminated_character_literal() {
    let message = "Unterminated character literal";
    assert_eq!(kinds("'"), vec![invalid(message)]);
    assert_eq!(kinds("'a"), vec![invalid(message)]);
    assert_eq!(kinds("''"), vec![invalid(message)]);
    let tokens = scan("'ab+");
    assert_eq!(tokens.len(), 2);
    assert_eq!(tokens[0].token_type, invalid(message));
    assert_eq!(tokens[0].lexeme, "'ab");
    assert_eq!(tokens[1].token_type, TokenType::Plus);
}

#[test]
fn keyword_and_identifier() {
    assert_eq!(kinds("if"), vec![TokenType::Keyword(KeywordType::If)]);
    assert_eq!(kinds("ifx"), vec![TokenType::Identifier("ifx".to_string())]);
    assert_eq!(kinds("If"), vec![TokenType::Identifier("If".to_string())]);
    assert_eq!(kinds("_if"), vec![TokenType::Identifier("_if".to_string())]);
    assert_eq!(kinds("if_"), vec![TokenType::Identifier("if_".to_string())]);
    assert_eq!(kinds("if2"), vec![TokenType::Identifier("if2".to_string())]);
}

#[test]
fn every_keyword() {
    assert_eq!(kinds("if else while for return break continue null"), vec![
        TokenType::Keyword(KeywordType::If),
        TokenType::Keyword(KeywordType::Else),
        TokenType::Keyword(KeywordType::While),
        TokenType::Keyword(KeywordType::For),
        TokenType::Keyword(KeywordType::Return),
        TokenType::Keyword(KeywordType::Break),
        TokenType::Keyword(KeywordType::Continue),
        TokenType::Keyword(KeywordType::Null),
    ]);
}

#[test]
fn identifier_continues_over_unicode_letters_and_digits() {
    assert_eq!(kinds("a\u{e9}\u{663}_9"), vec![TokenType::Identifier("a\u{e9}\u{663}_9".to_string())]);
    assert_eq!(kinds("x-y"), vec![
        TokenType::Identifier("x".to_string()),
        TokenType::Minus,
        TokenType::Identifier("y".to_string()),
    ]);
    let tokens = scan("abc def");
    assert_eq!(tokens[0].lexeme, "abc");
    assert_eq!(tokens[1].lexeme, "def");
}

#[test]
fn number_then_identifier() {
    let tokens = scan("123abc");
    assert_eq!(tokens.len(), 2);
    assert_eq!(tokens[0].token_type, TokenType::Number(123));
    assert_eq!(tokens[0].lexeme, "123");
    assert_eq!(tokens[1].token_type, TokenType::Identifier("abc".to_string()));
    assert_eq!(tokens[1].lexeme, "abc");
}

#[test]
fn number_values() {
    assert_eq!(kinds("0"), vec![TokenType::Number(0)]);
    assert_eq!(kinds("007"), vec![TokenType::Number(7)]);
    assert_eq!(kinds("4294967295"), vec![TokenType::Number(4294967295)]);
    assert_eq!(kinds("-12"), vec![TokenType::Minus, TokenType::Number(12)]);
    assert_eq!(kinds("1 2"), vec![TokenType::Number(1), TokenType::Number(2)]);
    assert_eq!(kinds("12;"), vec![TokenType::Number(12), TokenType::SemiColon]);
}

#[test]
fn number_out_of_range_is_invalid() {
    let tokens = scan("4294967296");
    assert_eq!(tokens.len(), 1);
    assert_eq!(tokens[0].token_type, invalid("Number literal out of range"));
    assert_eq!(tokens[0].lexeme, "4294967296");
    assert_eq!(kinds("99999999999999999999999999999999 1"), vec![
        invalid("Number literal out of range"),
        TokenType::Number(1),
    ]);
}

#[test]
fn line_comment_produces_no_token() {
    let mut scanner = TokenScanner::new("// comment\n+".to_string()).unwrap();
    assert_eq!(scanner.line(), 1);
    let token = scanner.next_token().unwrap().clone();
    assert_eq!(token.token_type, TokenType::Plus);
    assert_eq!(token.line, 1);
    assert!(scanner.next_token().is_none());
    assert_eq!(kinds("// only a comment"), vec![]);
    assert_eq!(kinds("//"), vec![]);
    assert_eq!(kinds("1 // one\n2"), vec![TokenType::Number(1), TokenType::Number(2)]);
}

#[test]
fn block_comment_produces_no_token() {
    let mut scanner = TokenScanner::new("/* a\nb */-".to_string()).unwrap();
    assert_eq!(scanner.line(), 1);
    let token = scanner.next_token().unwrap().clone();
    assert_eq!(token.token_type, TokenType::Minus);
    assert_eq!(token.line, 1);
    assert!(scanner.next_token().is_none());
    assert_eq!(kinds("/**/+"), vec![TokenType::Plus]);
    assert_eq!(kinds("/***/+"), vec![TokenType::Plus]);
}

#[test]
fn block_comment_does_not_nest() {
    assert_eq!(kinds("/* /* */ + */"), vec![TokenType::Plus, TokenType::Multiply, TokenType::Divide]);
}

#[test]
fn unclosed_block_comment_runs_to_the_end() {
    assert_eq!(kinds("/* never closed +"), vec![]);
    assert_eq!(kinds("/*"), vec![]);
    assert_eq!(kinds("/*/"), vec![]);
    assert_eq!(kinds("+/* *"), vec![TokenType::Plus]);
    let scanner = TokenScanner::new("/*\n\n".to_string()).unwrap();
    assert_eq!(scanner.line(), 2);
}

#[test]
fn tokens_carry_their_line() {
    let tokens = scan("a\nb\n\n  c d");
    let lines: Vec<usize> = tokens.iter().map(|token| token.line).collect();
    assert_eq!(lines, vec![0, 1, 3, 3]);
}

#[test]
fn unknown_character_stops_the_scan() {
    let error = TokenScanner::new("a\n\n # b".to_string()).err().unwrap();
    assert_eq!(error.message(), "Invalid Character Placeholder");
    assert_eq!(error.line(), 2);
    assert_eq!(error.trace(), "");
    assert!(TokenScanner::new("#".to_string()).is_err());
    assert!(TokenScanner::new("a.b".to_string()).is_err());
    assert!(TokenScanner::new("\u{e9}".to_string()).is_err());
    assert!(TokenScanner::new("x = 1 @".to_string()).is_err());
    assert!(TokenScanner::new("\"#\" '#' // #".to_string()).is_ok());
}

#[test]
fn peek_agrees_with_next() {
    let mut scanner = TokenScanner::new("if (x >= 10) { y = 'c'; }".to_string()).unwrap();
    let mut count = 0;
    loop {
        let peeked = scanner.peek_token().cloned();
        let again = scanner.peek_token().cloned();
        assert_eq!(peeked, again);
        let pulled = scanner.next_token().cloned();
        assert_eq!(peeked, pulled);
        if pulled.is_none() {
            break;
        }
        count += 1;
    }
    assert_eq!(count, 12);
}

#[test]
fn exhaustion_is_terminal() {
    let mut scanner = TokenScanner::new("+ -".to_string()).unwrap();
    assert_eq!(scanner.next_token().unwrap().token_type, TokenType::Plus);
    assert_eq!(scanner.next_token().unwrap().token_type, TokenType::Minus);
    for _ in 0..5 {
        assert!(scanner.peek_token().is_none());
        assert!(scanner.next_token().is_none());
    }
}

#[test]
fn a_small_program() {
    let source = "while (i <= 10) {\n  total = total + i; // sum\n}\nreturn total;";
    assert_eq!(kinds(source), vec![
        TokenType::Keyword(KeywordType::While),
        TokenType::BracketLeft,
        TokenType::Identifier("i".to_string()),
        TokenType::LessEqual,
        TokenType::Number(10),
        TokenType::BracketRight,
        TokenType::BraceLeft,
        TokenType::Identifier("total".to_string()),
        TokenType::Equal,
        TokenType::Identifier("total".to_string()),
        TokenType::Plus,
        TokenType::Identifier("i".to_string()),
        TokenType::SemiColon,
        TokenType::BraceRight,
        TokenType::Keyword(KeywordType::Return),
        TokenType::Identifier("total".to_string()),
        TokenType::SemiColon,
    ]);
    let scanner = TokenScanner::new(source.to_string()).unwrap();
    assert_eq!(scanner.line(), 3);
}

#[test]
fn match_expected_moves_only_on_a_match() {
    let chars: Vec<char> = "a=b".chars().collect();
    let mut pos = 1;
    assert!(TokenScanner::match_expected(&chars, &mut pos, '='));
    assert_eq!(pos, 2);
    assert!(!TokenScanner::match_expected(&chars, &mut pos, '='));
    assert_eq!(pos, 2);
    let mut end = 3;
    assert!(!TokenScanner::match_expected(&chars, &mut end, 'b'));
    assert_eq!(end, 3);
    let mut beyond = 7;
    assert!(!TokenScanner::match_expected(&chars, &mut beyond, 'a'));
    assert_eq!(beyond, 7);
}

#[test]
fn lex_at_reports_one_step() {
    let chars: Vec<char> = "ab >= // c\n#".chars().collect();
    assert!(matches!(lex_at(&chars, 0), Step::Emit(TokenType::Identifier(name), 2) if name == "ab"));
    assert!(matches!(lex_at(&chars, 1), Step::Emit(TokenType::Identifier(name), 2) if name == "b"));
    assert!(matches!(lex_at(&chars, 2), Step::Skip(3)));
    assert!(matches!(lex_at(&chars, 3), Step::Emit(TokenType::GreaterEqual, 5)));
    assert!(matches!(lex_at(&chars, 4), Step::Emit(TokenType::Equal, 5)));
    assert!(matches!(lex_at(&chars, 6), Step::Skip(10)));
    assert!(matches!(lex_at(&chars, 10), Step::Skip(11)));
    assert!(matches!(lex_at(&chars, 11), Step::Reject));
}

#[test]
fn continues_identifier_takes_alphanumerics_and_underscore() {
    assert!(continues_identifier('x', true));
    assert!(continues_identifier('7', true));
    assert!(continues_identifier('_', false));
    assert!(continues_identifier('_', true));
    assert!(!continues_identifier('-', false));
    assert!(!continues_identifier(' ', false));
    assert!(!continues_identifier('x', false));
}

#[test]
fn classify_word_is_exact_about_keywords() {
    let chars: Vec<char> = "ifx if".chars().collect();
    assert_eq!(classify_word(&chars, 0, 2), TokenType::Keyword(KeywordType::If));
    assert_eq!(classify_word(&chars, 0, 3), TokenType::Identifier("ifx".to_string()));
    assert_eq!(classify_word(&chars, 4, 6), TokenType::Keyword(KeywordType::If));
    assert_eq!(classify_word(&chars, 1, 3), TokenType::Identifier("fx".to_string()));
    assert_eq!(classify_word(&chars, 0, 1), TokenType::Identifier("i".to_string()));
}
