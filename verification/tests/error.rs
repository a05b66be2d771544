use rlox::error::{error, error_with_trace, push_decimal, Error};

#[test]
fn new_error_has_empty_trace() {
    let e = Error::new("Bad thing", 7);
    assert_eq!(e.message(), "Bad thing");
    assert_eq!(e.line(), 7);
    assert_eq!(e.trace(), "");
    assert_eq!(e.to_string(), "Bad thing\n\t");
}

#[test]
fn error_function_builds_the_same_value() {
    let e = error("Bad thing", 3);
    assert_eq!(e.message(), "Bad thing");
    assert_eq!(e.line(), 3);
    assert_eq!(e.to_string(), "Bad thing\n\t");
}

#[test]
fn trace_entry_names_message_and_line() {
    let e = error_with_trace("in string literal", 12, Error::new("Unexpected end", 12));
    assert_eq!(e.trace(), "in string literal: at line 12");
    assert_eq!(e.message(), "Unexpected end");
    assert_eq!(e.line(), 12);
    assert_eq!(e.to_string(), "Unexpected end\n\tin string literal: at line 12");
}

#[test]
fn trace_entries_chain_in_order() {
    let inner = Error::new("Unexpected end", 4);
    let middle = error_with_trace("in literal", 4, inner);
    let outer = error_with_trace("in statement", 2, middle);
    assert_eq!(outer.trace(), "in literal: at line 4in statement: at line 2");
    assert_eq!(outer.line(), 4);
    assert_eq!(
        outer.to_string(),
        "Unexpected end\n\tin literal: at line 4in statement: at line 2"
    );
}

#[test]
fn trace_line_numbers_are_decimal() {
    let e = error_with_trace("m", 0, Error::new("x", 0));
    assert_eq!(e.trace(), "m: at line 0");
    let e = error_with_trace("m", 18446744073709551615, Error::new("x", 0));
    assert_eq!(e.trace(), "m: at line 18446744073709551615");
    let e = error_with_trace("m", 1000, Error::new("x", 0));
    assert_eq!(e.trace(), "m: at line 1000");
}

#[test]
fn push_decimal_appends_the_numeral() {
    let mut text = String::from("n=");
    push_decimal(&mut text, 0);
    assert_eq!(text, "n=0");
    push_decimal(&mut text, 9);
    push_decimal(&mut text, 10);
    push_decimal(&mut text, 4096);
    assert_eq!(text, "n=09104096");
}

#[test]
fn rendered_text_of_a_traced_error() {
    let e = error_with_trace("ctx", 7, Error::new("boom", 3));
    assert_eq!(e.trace(), "ctx: at line 7");
    assert_eq!(e.to_string(), "boom\n\tctx: at line 7");
    assert_eq!(e.to_string().chars().count(), 20);
    assert_eq!(e.line(), 3);
}
