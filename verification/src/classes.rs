//! Character classes of the repository and release grammars.
//!
//! Below U+0080 the classes are written out here. Above it they are the Unicode classes
//! of the `regex` crate, whose tables define them.

use vstd::prelude::*;
use vstd::string::StrSliceExecFns;

verus! {

/// What `regex` answers for a pattern and a haystack: whether the pattern matches
/// somewhere in the haystack, or `None` where it does not accept the pattern.
pub uninterp spec fn regex_verdict(pattern: Seq<char>, haystack: Seq<char>) -> Option<bool>;

/// Compiles `pattern` with `Regex::new` and asks `Regex::is_match` about `haystack`.
///
/// Trusted: the answer depends on the two texts alone and is the one named
/// [`regex_verdict`]; a pattern that does not compile gives `None`.
#[verifier::external_body]
fn regex_is_match(pattern: &str, haystack: &str) -> (r: Option<bool>)
    ensures
        r == regex_verdict(pattern@, haystack@),
{
    match regex::Regex::new(pattern) {
        Ok(re) => Some(re.is_match(haystack)),
        Err(_) => None,
    }
}

/// The character `c` alone matches the class that `pattern` names.
pub open spec fn in_class(pattern: Seq<char>, c: char) -> bool {
    regex_verdict(pattern, seq![c]) == Some(true)
}

pub open spec fn is_ascii_char(c: char) -> bool {
    c <= '\x7f'
}

pub open spec fn is_ascii_letter(c: char) -> bool {
    ('a' <= c && c <= 'z') || ('A' <= c && c <= 'Z')
}

pub open spec fn is_ascii_digit(c: char) -> bool {
    '0' <= c && c <= '9'
}

/// A decimal digit: `0` to `9`, or a character beyond ASCII of the class `\d`.
pub open spec fn is_digit(c: char) -> bool {
    if is_ascii_char(c) {
        is_ascii_digit(c)
    } else {
        in_class("\\d"@, c)
    }
}

/// A word character: an ASCII letter or digit, the underscore, or a character beyond
/// ASCII of the class `\w`.
pub open spec fn is_word(c: char) -> bool {
    if is_ascii_char(c) {
        is_ascii_letter(c) || is_ascii_digit(c) || c == '_'
    } else {
        in_class("\\w"@, c)
    }
}

/// A character that may stand in a repository owner: an ASCII letter, a digit or a hyphen.
pub open spec fn is_owner_char(c: char) -> bool {
    is_ascii_letter(c) || is_digit(c) || c == '-'
}

/// A character that may stand in a repository name, or after the first character of a
/// label: a word character, a dot or a hyphen.
pub open spec fn is_name_char(c: char) -> bool {
    is_word(c) || c == '.' || c == '-'
}

/// Tells whether the character of `text` at `i` matches the class that `pattern` names.
fn class_holds(pattern: &str, text: &str, chars: &Vec<char>, i: usize) -> (b: bool)
    requires
        chars@ == text@,
        i < chars.len(),
    ensures
        b == in_class(pattern@, text@[i as int]),
{
    let one = text.substring_char(i, i + 1);
    assert(one@ =~= seq![text@[i as int]]);
    match regex_is_match(pattern, one) {
        Some(verdict) => verdict,
        None => false,
    }
}

pub fn ascii_letter(c: char) -> (b: bool)
    ensures
        b == is_ascii_letter(c),
{
    (c >= 'a' && c <= 'z') || (c >= 'A' && c <= 'Z')
}

/// Tells whether the character at `i` of `text`, whose characters are `chars`, is a digit.
pub fn digit_at(text: &str, chars: &Vec<char>, i: usize) -> (b: bool)
    requires
        chars@ == text@,
        i < chars.len(),
    ensures
        b == is_digit(text@[i as int]),
{
    let c = chars[i];
    if c <= '\x7f' {
        c >= '0' && c <= '9'
    } else {
        class_holds("\\d", text, chars, i)
    }
}

/// Tells whether the character at `i` of `text`, whose characters are `chars`, is a word
/// character.
pub fn word_at(text: &str, chars: &Vec<char>, i: usize) -> (b: bool)
    requires
        chars@ == text@,
        i < chars.len(),
    ensures
        b == is_word(text@[i as int]),
{
    let c = chars[i];
    if c <= '\x7f' {
        ascii_letter(c) || (c >= '0' && c <= '9') || c == '_'
    } else {
        class_holds("\\w", text, chars, i)
    }
}

/// Tells whether the character at `i` of `text`, whose characters are `chars`, may stand
/// in an owner.
pub fn owner_char_at(text: &str, chars: &Vec<char>, i: usize) -> (b: bool)
    requires
        chars@ == text@,
        i < chars.len(),
    ensures
        b == is_owner_char(text@[i as int]),
{
    let c = chars[i];
    ascii_letter(c) || c == '-' || digit_at(text, chars, i)
}

/// Tells whether the character at `i` of `text`, whose characters are `chars`, may stand
/// in a name.
pub fn name_char_at(text: &str, chars: &Vec<char>, i: usize) -> (b: bool)
    requires
        chars@ == text@,
        i < chars.len(),
    ensures
        b == is_name_char(text@[i as int]),
{
    let c = chars[i];
    c == '.' || c == '-' || word_at(text, chars, i)
}

} // verus!
