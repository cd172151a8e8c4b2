//! Finding the annotations in the content of a file.
//!
//! The content is read line by line. Every expression of the set is tried on
//! every line, in the set's order, and each one that matches gives one
//! annotation: a line that two expressions match gives two.
use vstd::prelude::*;
use vstd::slice::slice_subrange;
use regex::Regex;
use crate::comments::{kinds, CommentKind, CommentTypes};
use crate::custom_tags::{comment_pattern, get_regex_for_comment};
use crate::engine::{captures, captures_of, compiled};
use crate::lines::{lemma_lines_step, line_end, raw_lines, strip_cr, without_cr};
use crate::text::{from_utf8_lossy, trim, trimmed, uppercase, utf8_lossy, views};
use crate::rescan::lemma_scan_ascends;
use crate::todo::{lines_ascend, todo_views, Todo, TodoView};

verus! {

/// The patterns of a set of comment kinds, one for each kind, in order.
pub open spec fn patterns_for(kinds: Seq<CommentKind>, tags: Seq<Seq<char>>) -> Seq<Seq<char>> {
    kinds.map_values(|k: CommentKind| comment_pattern(tags, k))
}

/// What compiling the patterns one after the other gives: the expressions, or
/// the error of the first pattern that the engine rejects.
pub open spec fn compile_all(patterns: Seq<Seq<char>>) -> Result<Seq<Regex>, regex::Error>
    decreases patterns.len(),
{
    if patterns.len() == 0 {
        Ok(Seq::empty())
    } else {
        match compile_all(patterns.drop_last()) {
            Err(e) => Err(e),
            Ok(res) => match compiled(patterns.last()) {
                Ok(re) => Ok(res.push(re)),
                Err(e) => Err(e),
            },
        }
    }
}

/// The expressions for a set of comment kinds and the given tags.
pub open spec fn parser_regexs(kinds: Seq<CommentKind>, tags: Seq<Seq<char>>) -> Result<
    Seq<Regex>,
    regex::Error,
> {
    compile_all(patterns_for(kinds, tags))
}

/// Whether the outcome `r` is the outcome `model`, expression for expression.
pub open spec fn same_outcome(
    r: Result<Vec<Regex>, regex::Error>,
    model: Result<Seq<Regex>, regex::Error>,
) -> bool {
    match model {
        Ok(res) => r is Ok && r->Ok_0@ == res,
        Err(e) => r == Err::<Vec<Regex>, regex::Error>(e),
    }
}

/// Builds the expressions that `parse_content` takes: one for each comment
/// type, in the collection's order. Fails with the engine's error for the
/// first comment type whose pattern does not compile.
pub fn build_parser_regexs(comment_types: &CommentTypes, tags: &[String]) -> (r: Result<
    Vec<Regex>,
    regex::Error,
>)
    ensures
        same_outcome(r, parser_regexs(comment_types@, views(tags@))),
{
    let types = comment_types.as_slice();
    let ghost patterns = patterns_for(comment_types@, views(tags@));
    let mut regexs: Vec<Regex> = Vec::new();
    let mut i: usize = 0;
    while i < types.len()
        invariant
            i <= types.len(),
            kinds(types@) == comment_types@,
            patterns == patterns_for(comment_types@, views(tags@)),
            compile_all(patterns.take(i as int)) == Ok::<Seq<Regex>, regex::Error>(regexs@),
        decreases types.len() - i,
    {
        proof {
            assert(patterns.take(i as int + 1).drop_last() =~= patterns.take(i as int));
            assert(patterns.take(i as int + 1).last() == comment_pattern(
                views(tags@),
                types@[i as int]@,
            ));
            lemma_compile_all_fails_on(patterns, i as int + 1);
        }
        match get_regex_for_comment(tags, &types[i]) {
            Ok(re) => {
                regexs.push(re);
            },
            Err(e) => {
                return Err(e);
            },
        }
        i += 1;
    }
    assert(patterns.take(types.len() as int) =~= patterns);
    Ok(regexs)
}

/// Once a prefix of the patterns fails to compile, so does the whole, with
/// the same error.
pub proof fn lemma_compile_all_fails_on(patterns: Seq<Seq<char>>, n: int)
    requires
        0 <= n <= patterns.len(),
    ensures
        compile_all(patterns.take(n)) is Err ==> compile_all(patterns) == compile_all(
            patterns.take(n),
        ),
    decreases patterns.len() - n,
{
    if n < patterns.len() {
        lemma_compile_all_fails_on(patterns, n + 1);
        assert(patterns.take(n + 1).drop_last() =~= patterns.take(n));
    } else {
        assert(patterns.take(n) =~= patterns);
    }
}

/// The annotation that the capture groups of a match give on line `number`,
/// if the groups of the tag and of the content took part in the match.
///
/// The content is group 3 without white space around it. Where group 2 names
/// a user, the content is that name behind an `@`, a space, and then the
/// content of group 3.
pub open spec fn todo_of_groups(number: nat, groups: Seq<Option<Seq<char>>>) -> Option<TodoView> {
    if groups.len() > 3 && groups[1] is Some && groups[3] is Some {
        let text = trimmed(groups[3]->Some_0);
        let content = match groups[2] {
            Some(user) => "@"@ + user + " "@ + text,
            None => text,
        };
        Some(TodoView { line: number, tag: uppercase(groups[1]->Some_0), content })
    } else {
        None
    }
}

/// The annotations of one line: one for each expression that matches, in the
/// order of the expressions.
pub open spec fn line_todos(number: nat, text: Seq<char>, regexs: Seq<Regex>) -> Seq<TodoView>
    decreases regexs.len(),
{
    if regexs.len() == 0 {
        Seq::empty()
    } else {
        let before = line_todos(number, text, regexs.drop_last());
        match captures_of(regexs.last(), text) {
            Some(groups) => match todo_of_groups(number, groups) {
                Some(todo) => before.push(todo),
                None => before,
            },
            None => before,
        }
    }
}

/// The annotations of the given lines, numbered from 1.
pub open spec fn scan_lines(lines: Seq<Seq<char>>, regexs: Seq<Regex>) -> Seq<TodoView>
    decreases lines.len(),
{
    if lines.len() == 0 {
        Seq::empty()
    } else {
        scan_lines(lines.drop_last(), regexs) + line_todos(lines.len(), lines.last(), regexs)
    }
}

/// The text of one physical line: its bytes without a closing carriage
/// return, decoded as UTF-8 with a replacement character for what is invalid.
pub open spec fn line_text(raw: Seq<u8>) -> Seq<char> {
    utf8_lossy(strip_cr(raw))
}

/// The lines of the content, as text.
pub open spec fn text_lines(content: Seq<u8>) -> Seq<Seq<char>> {
    raw_lines(content).map_values(|raw: Seq<u8>| line_text(raw))
}

/// The annotations found in the content.
pub open spec fn scan(content: Seq<u8>, regexs: Seq<Regex>) -> Seq<TodoView> {
    scan_lines(text_lines(content), regexs)
}

/// Makes the annotation of a match on line `line` from its capture groups.
pub fn todo_from_captures(line: usize, groups: &Vec<Option<String>>) -> (todo: Option<Todo>)
    ensures
        todo is Some <==> todo_of_groups(line as nat, groups.deep_view()) is Some,
        todo is Some ==> todo->Some_0@ == todo_of_groups(line as nat, groups.deep_view())->Some_0,
{
    if groups.len() <= 3 {
        return None;
    }
    let ghost model = groups.deep_view();
    assert(model[1] == groups@[1].deep_view());
    assert(model[2] == groups@[2].deep_view());
    assert(model[3] == groups@[3].deep_view());
    match (&groups[1], &groups[3]) {
        (Some(tag), Some(text)) => {
            let text = trim(text.as_str());
            let todo = match &groups[2] {
                Some(user) => {
                    let mut content = String::from_str("@");
                    content.append(user.as_str());
                    content.append(" ");
                    content.append(text);
                    Todo::new(line, tag.as_str(), content.as_str())
                },
                None => Todo::new(line, tag.as_str(), text),
            };
            Some(todo)
        },
        _ => None,
    }
}

/// Finds the annotations in `content`: the lines are numbered from 1, and on
/// each line the expressions are tried in their order.
pub fn parse_content(content: &[u8], regexs: &[Regex]) -> (todos: Vec<Todo>)
    ensures
        todo_views(todos@) == scan(content@, regexs@),
        lines_ascend(todo_views(todos@)),
{
    proof {
        lemma_scan_ascends(content@, regexs@);
    }
    let mut todos: Vec<Todo> = Vec::new();
    let mut start: usize = 0;
    let mut line_num: usize = 0;
    let ghost mut done: Seq<Seq<u8>> = Seq::empty();
    assert(todo_views(todos@) =~= Seq::<TodoView>::empty());
    assert(content@.skip(0) =~= content@);
    while start < content.len()
        invariant
            start <= content.len(),
            line_num <= start,
            done.len() == line_num,
            raw_lines(content@) == done + raw_lines(content@.skip(start as int)),
            todo_views(todos@) == scan_lines(done.map_values(|raw: Seq<u8>| line_text(raw)), regexs@),
        decreases content.len() - start,
    {
        let end = line_end(content, start);
        proof {
            lemma_lines_step(content@, start as int, end as int);
        }
        let raw = slice_subrange(content, start, end);
        let text = from_utf8_lossy(without_cr(raw));
        line_num += 1;
        let ghost before = todo_views(todos@);
        let mut j: usize = 0;
        assert(regexs@.take(0) =~= Seq::<Regex>::empty());
        while j < regexs.len()
            invariant
                j <= regexs.len(),
                todo_views(todos@) == before + line_todos(
                    line_num as nat,
                    text@,
                    regexs@.take(j as int),
                ),
            decreases regexs.len() - j,
        {
            proof {
                assert(regexs@.take(j as int + 1).drop_last() =~= regexs@.take(j as int));
                assert(regexs@.take(j as int + 1).last() == regexs@[j as int]);
            }
            let ghost old_views = todo_views(todos@);
            match captures(&regexs[j], text.as_str()) {
                Some(groups) => match todo_from_captures(line_num, &groups) {
                    Some(todo) => {
                        todos.push(todo);
                        assert(todo_views(todos@) =~= old_views.push(todo@));
                    },
                    None => {},
                },
                None => {},
            }
            j += 1;
        }
        proof {
            assert(regexs@.take(regexs.len() as int) =~= regexs@);
            let texts = done.map_values(|raw: Seq<u8>| line_text(raw));
            let next = done.push(raw@);
            let next_texts = next.map_values(|raw: Seq<u8>| line_text(raw));
            assert(next_texts.drop_last() =~= texts);
            assert(next_texts.last() == text@);
            if end < content.len() {
                assert(done + (seq![raw@] + raw_lines(content@.skip(end + 1))) =~= next
                    + raw_lines(content@.skip(end + 1)));
            } else {
                assert(content@.skip(end as int) =~= Seq::<u8>::empty());
                assert(done + seq![raw@] =~= next + raw_lines(content@.skip(end as int)));
            }
            done = next;
        }
        start = if end < content.len() {
            end + 1
        } else {
            end
        };
    }
    proof {
        assert(content@.skip(start as int) =~= Seq::<u8>::empty());
        assert(done + raw_lines(content@.skip(start as int)) =~= done);
    }
    todos
}

/// The entries of `all` whose mark in `kept` is set, in their order.
pub open spec fn picked(all: Seq<Todo>, kept: Seq<bool>) -> Seq<Todo>
    decreases all.len(),
{
    if all.len() == 0 || kept.len() != all.len() {
        Seq::empty()
    } else if kept.last() {
        picked(all.drop_last(), kept.drop_last()).push(all.last())
    } else {
        picked(all.drop_last(), kept.drop_last())
    }
}

/// Whether `todos` is what is left of the annotations of `content` when
/// `pred` has been asked about each of them, in order, and those it turned
/// down were dropped.
pub open spec fn is_filtered_scan<P: Fn(&Todo) -> bool>(
    content: Seq<u8>,
    regexs: Seq<Regex>,
    pred: P,
    todos: Seq<Todo>,
) -> bool {
    exists|all: Seq<Todo>, kept: Seq<bool>|
        {
            &&& todo_views(all) == scan(content, regexs)
            &&& kept.len() == all.len()
            &&& forall|i: int|
                0 <= i < all.len() ==> call_ensures(pred, (&#[trigger] all[i],), kept[i])
            &&& todos == picked(all, kept)
        }
}

/// Finds the annotations in `content`, and keeps those that satisfy `pred`.
pub fn parse_content_with_filter<P: Fn(&Todo) -> bool>(
    content: &[u8],
    regexs: &[Regex],
    pred: P,
) -> (todos: Vec<Todo>)
    requires
        forall|t: &Todo| call_requires(pred, (t,)),
    ensures
        is_filtered_scan(content@, regexs@, pred, todos@),
{
    let found = parse_content(content, regexs);
    let ghost all = found@;
    let ghost mut kept: Seq<bool> = Seq::empty();
    let mut todos: Vec<Todo> = Vec::new();
    for todo in it: found
        invariant
            it.seq() == all,
            kept.len() == it.index(),
            forall|t: &Todo| call_requires(pred, (t,)),
            forall|i: int|
                0 <= i < kept.len() ==> call_ensures(pred, (&#[trigger] all[i],), kept[i]),
            todos@ == picked(all.take(it.index() as int), kept),
    {
        let ghost n = kept.len() as int;
        let keep = pred(&todo);
        proof {
            assert(all.take(n + 1).drop_last() =~= all.take(n));
            assert(kept.push(keep).drop_last() =~= kept);
            kept = kept.push(keep);
        }
        if keep {
            todos.push(todo);
        }
    }
    proof {
        assert(all.take(all.len() as int) =~= all);
    }
    todos
}

} // verus!
