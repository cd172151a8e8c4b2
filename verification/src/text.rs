//! The few string functions of `std` that the library leans on and that come
//! without a specification. Each function below is one call into `std`, and
//! its contract is taken on trust.
use vstd::prelude::*;

verus! {

/// What `str::to_uppercase` returns.
pub uninterp spec fn uppercase(s: Seq<char>) -> Seq<char>;

/// What `str::trim` returns: `s` without its leading and trailing white space.
pub uninterp spec fn trimmed(s: Seq<char>) -> Seq<char>;

/// What `String::from_utf8_lossy` returns: the text that `bytes` encode, with
/// U+FFFD in place of each invalid sequence.
pub uninterp spec fn utf8_lossy(bytes: Seq<u8>) -> Seq<char>;

/// What `str::parse::<u8>` returns: the number that `s` is a numeral of, if
/// it is one of a number below 256.
pub uninterp spec fn parsed_u8(s: Seq<char>) -> Option<u8>;

/// What `str::rsplit` yields for a separator character: the parts of `s`
/// between the separators, from the last to the first.
pub uninterp spec fn rsplit_parts(s: Seq<char>, separator: char) -> Seq<Seq<char>>;

/// The views of a sequence of strings.
pub open spec fn views(strings: Seq<String>) -> Seq<Seq<char>> {
    strings.map_values(|s: String| s@)
}

/// `str::to_uppercase`.
#[verifier::external_body]
pub(crate) fn to_uppercase(s: &str) -> (upper: String)
    ensures
        upper@ == uppercase(s@),
{
    s.to_uppercase()
}

/// `str::trim`.
#[verifier::external_body]
pub(crate) fn trim(s: &str) -> (inner: &str)
    ensures
        inner@ == trimmed(s@),
{
    s.trim()
}

/// `String::from_utf8_lossy`, as an owned string.
#[verifier::external_body]
pub(crate) fn from_utf8_lossy(bytes: &[u8]) -> (text: String)
    ensures
        text@ == utf8_lossy(bytes@),
{
    String::from_utf8_lossy(bytes).into_owned()
}

/// `str::parse::<u8>`, with the reason of a failure left out.
#[verifier::external_body]
pub(crate) fn parse_u8(s: &str) -> (number: Option<u8>)
    ensures
        number == parsed_u8(s@),
{
    s.parse::<u8>().ok()
}

/// `str::rsplit` with a character as the separator, gathered into a vector.
#[verifier::external_body]
pub(crate) fn rsplit<'a>(s: &'a str, separator: char) -> (parts: Vec<&'a str>)
    ensures
        parts.deep_view() == rsplit_parts(s@, separator),
{
    s.rsplit(separator).collect()
}

/// `str`'s `==`: whether two strings hold the same characters.
#[verifier::external_body]
pub(crate) fn str_eq(a: &str, b: &str) -> (same: bool)
    ensures
        same == (a@ == b@),
{
    a == b
}

} // verus!
