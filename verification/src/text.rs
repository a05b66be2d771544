//! Conversions between strings and character vectors, and the two standard
//! library functions on characters and strings that the scanner relies on.

use vstd::prelude::*;

verus! {

/// What `char::is_alphanumeric` answers for a character: whether Unicode
/// classes it as alphabetic or numeric.
pub uninterp spec fn unicode_alphanumeric(c: char) -> bool;

/// `char::is_alphanumeric` depends on the character alone; nothing more is
/// claimed of it than that its answer is [`unicode_alphanumeric`].
pub assume_specification[ char::is_alphanumeric ](c: char) -> (r: bool)
    ensures
        r == unicode_alphanumeric(c),
;

/// `String::push` appends the character to the end of the string and leaves
/// the characters before it as they were.
pub assume_specification[ String::push ](s: &mut String, c: char)
    ensures
        final(s)@ == old(s)@.push(c),
;

/// The characters of `s`, in order.
pub fn to_chars(s: &str) -> (chars: Vec<char>)
    ensures
        chars@ == s@,
{
    let mut chars: Vec<char> = Vec::new();
    for c in it: s.chars()
        invariant
            chars@ == it.seq().take(it.index()),
    {
        chars.push(c);
    }
    chars
}

/// The string made of the characters `chars[from..to]`.
pub fn to_text(chars: &Vec<char>, from: usize, to: usize) -> (text: String)
    requires
        from <= to <= chars.len(),
    ensures
        text@ == chars@.subrange(from as int, to as int),
{
    let mut text = String::new();
    let mut i: usize = from;
    while i < to
        invariant
            from <= i <= to <= chars.len(),
            text@ == chars@.subrange(from as int, i as int),
        decreases to - i,
    {
        text.push(chars[i]);
        i += 1;
        assert(text@ =~= chars@.subrange(from as int, i as int));
    }
    text
}

/// Whether the characters `chars[from..to]` spell `word`.
pub fn matches_word(chars: &Vec<char>, from: usize, to: usize, word: &str) -> (same: bool)
    requires
        from <= to <= chars.len(),
    ensures
        same == (chars@.subrange(from as int, to as int) == word@),
{
    let ghost text = chars@.subrange(from as int, to as int);
    let word_chars = to_chars(word);
    if word_chars.len() != to - from {
        return false;
    }
    let mut i: usize = 0;
    while i < word_chars.len()
        invariant
            from <= to <= chars.len(),
            word_chars@ == word@,
            word_chars.len() == to - from,
            text == chars@.subrange(from as int, to as int),
            i <= word_chars.len(),
            forall|j: int| 0 <= j < i ==> text[j] == word_chars@[j],
        decreases word_chars.len() - i,
    {
        if chars[from + i] != word_chars[i] {
            assert(text[i as int] != word_chars@[i as int]);
            return false;
        }
        i += 1;
    }
    assert(text =~= word_chars@);
    true
}

} // verus!
