//! Patterns for custom tags: the regular expression that finds a TODO-style
//! annotation inside one comment type.
//!
//! A user may be named in two ways: in parentheses right after the tag, as in
//! `// TODO(user): content`, or with an `@` inside the content, as in
//! `// TODO: tag @user in this`.
//!
//! The capture groups of a pattern are:
//! 1. the tag,
//! 2. the user in parentheses, if any,
//! 3. the content,
//! 4. the first user named in the content, if any.
use vstd::prelude::*;
use regex::Regex;
use crate::comments::{CommentKind, CommentType};
use crate::engine::{compile, compiled};
use crate::text::views;

verus! {

/// The parts, with `sep` between each two neighbours.
pub open spec fn joined(parts: Seq<Seq<char>>, sep: Seq<char>) -> Seq<char>
    decreases parts.len(),
{
    if parts.len() == 0 {
        Seq::empty()
    } else if parts.len() == 1 {
        parts[0]
    } else {
        joined(parts.drop_last(), sep) + sep + parts.last()
    }
}

/// The pattern that matches, on one line, a comment of the given kind that
/// starts with one of the tags. Matching ignores case and is anchored at the
/// start of the line; white space around the tokens and a colon after the tag
/// are optional.
pub open spec fn comment_pattern(tags: Seq<Seq<char>>, kind: CommentKind) -> Seq<char> {
    r"(?i)^\s*"@ + kind.prefix() + r"\s*("@ + joined(tags, "|"@) + r")\s?"@
        + r"(?:\(@?(\S+)\))?"@ + r"[:\s]?\s+"@ + r"((?:.*?@(\S+))?.*?)"@ + r"\s*"@
        + kind.suffix()
}

/// Joins the tags with `|` into one alternation.
pub fn join_tags(tags: &[String]) -> (alternation: String)
    ensures
        alternation@ == joined(views(tags@), "|"@),
{
    let mut out = String::new();
    let mut i: usize = 0;
    while i < tags.len()
        invariant
            i <= tags.len(),
            out@ == joined(views(tags@).take(i as int), "|"@),
        decreases tags.len() - i,
    {
        proof {
            let parts = views(tags@);
            assert(parts.take(i as int + 1).drop_last() =~= parts.take(i as int));
            assert(parts.take(i as int + 1).last() == tags@[i as int]@);
        }
        if i > 0 {
            out.append("|");
        }
        out.append(tags[i].as_str());
        i += 1;
    }
    assert(views(tags@).take(tags.len() as int) =~= views(tags@));
    out
}

/// Writes out the pattern for one comment type and the given tags.
pub fn pattern_for_comment(custom_tags: &[String], comment_type: &CommentType) -> (pattern: String)
    ensures
        pattern@ == comment_pattern(views(custom_tags@), comment_type@),
{
    let tags_string = join_tags(custom_tags);
    let mut pattern = String::from_str(r"(?i)^\s*");
    pattern.append(comment_type.prefix());
    pattern.append(r"\s*(");
    pattern.append(tags_string.as_str());
    pattern.append(r")\s?");
    pattern.append(r"(?:\(@?(\S+)\))?");
    pattern.append(r"[:\s]?\s+");
    pattern.append(r"((?:.*?@(\S+))?.*?)");
    pattern.append(r"\s*");
    pattern.append(comment_type.suffix());
    pattern
}

/// Compiles the expression that finds a tagged comment of the given type.
///
/// The result is the engine's verdict on `comment_pattern`: the tags are
/// spliced in as they are, so a tag that is not a valid expression makes the
/// whole pattern fail to compile.
pub fn get_regex_for_comment(custom_tags: &[String], comment_type: &CommentType) -> (r: Result<
    Regex,
    regex::Error,
>)
    ensures
        r == compiled(comment_pattern(views(custom_tags@), comment_type@)),
{
    let pattern = pattern_for_comment(custom_tags, comment_type);
    compile(pattern.as_str())
}

} // verus!
