//! The `regex` crate as this library sees it.
//!
//! Nothing in this module is proved. Each function below is one call into
//! `regex`, and its contract is what the rest of the library takes on trust
//! about that call. Compiled expressions are carried around as opaque values;
//! what they do is spoken of only through the spec functions declared here.
use vstd::prelude::*;
use regex::Regex;

verus! {

/// `regex::Regex`, a compiled expression. It is carried around as it is;
/// what it matches is said by `captures_of` and `matches_of`.
#[verifier::external_type_specification]
#[verifier::external_body]
pub struct ExRegex(regex::Regex);

/// `regex::Error`, the reason why a pattern does not compile. It is carried
/// around as it is; its message is said by `error_text`.
#[verifier::external_type_specification]
#[verifier::external_body]
pub struct ExRegexError(regex::Error);

/// What `Regex::new` returns for a pattern: the compiled expression, or the
/// error that rejects the pattern.
pub uninterp spec fn compiled(pattern: Seq<char>) -> Result<Regex, regex::Error>;

/// What `Regex::captures` returns on one haystack: `None` where the expression
/// does not match, else one entry per capture group (group 0, the whole match,
/// first), each `None` where that group took no part in the match.
pub uninterp spec fn captures_of(re: Regex, text: Seq<char>) -> Option<Seq<Option<Seq<char>>>>;

/// What `Regex::find_iter` yields on one haystack: the matched substrings,
/// from left to right.
pub uninterp spec fn matches_of(re: Regex, text: Seq<char>) -> Seq<Seq<char>>;

/// The message that a `regex::Error` displays.
pub uninterp spec fn error_text(err: regex::Error) -> Seq<char>;

/// Whether `c` is one of the characters that `regex::escape` puts a backslash
/// before (the meta characters of `regex_syntax::is_meta_character`).
pub open spec fn is_meta_character(c: char) -> bool {
    c == '\\' || c == '.' || c == '+' || c == '*' || c == '?' || c == '(' || c == ')' || c == '|'
        || c == '[' || c == ']' || c == '{' || c == '}' || c == '^' || c == '$' || c == '#'
        || c == '&' || c == '-' || c == '~'
}

/// `text` with a backslash put before each meta character.
pub open spec fn escaped(text: Seq<char>) -> Seq<char>
    decreases text.len(),
{
    if text.len() == 0 {
        Seq::empty()
    } else if is_meta_character(text.last()) {
        escaped(text.drop_last()).push('\\').push(text.last())
    } else {
        escaped(text.drop_last()).push(text.last())
    }
}

/// `regex::escape`: copies `text`, putting a backslash before every meta
/// character and leaving all other characters as they are.
#[verifier::external_body]
pub(crate) fn escape(text: &str) -> (quoted: String)
    ensures
        quoted@ == escaped(text@),
{
    regex::escape(text)
}

/// `Regex::new`: compiles `pattern` with the default options. The outcome
/// depends on the pattern text alone.
#[verifier::external_body]
pub(crate) fn compile(pattern: &str) -> (r: Result<Regex, regex::Error>)
    ensures
        r == compiled(pattern@),
{
    Regex::new(pattern)
}

/// `Regex::captures`: the leftmost match of `re` in `text` with its capture
/// groups, each handed out as an owned string. The outcome depends on the
/// expression and the haystack alone.
#[verifier::external_body]
pub(crate) fn captures(re: &Regex, text: &str) -> (groups: Option<Vec<Option<String>>>)
    ensures
        groups.deep_view() == captures_of(*re, text@),
{
    re.captures(text).map(|c| c.iter().map(|g| g.map(|m| m.as_str().to_string())).collect())
}

/// `Regex::find_iter`: the successive non-overlapping matches of `re` in
/// `text`, as slices of `text`.
#[verifier::external_body]
pub(crate) fn find_all<'t>(re: &Regex, text: &'t str) -> (found: Vec<&'t str>)
    ensures
        found.deep_view() == matches_of(*re, text@),
{
    re.find_iter(text).map(|m| m.as_str()).collect()
}

/// `regex::Error`'s `Display`: the message of a compile error.
#[verifier::external_body]
pub(crate) fn error_message(err: &regex::Error) -> (message: String)
    ensures
        message@ == error_text(*err),
{
    err.to_string()
}

} // verus!
