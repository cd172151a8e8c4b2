//! Removing an annotation and scanning again: the file that is left holds the
//! annotations that the list says it holds.
use vstd::prelude::*;
use regex::Regex;
use crate::engine::captures_of;
use crate::lines::{
    join_lines,
    lemma_first_newline_is,
    lemma_lines_have_no_newline,
    raw_lines,
    LF,
};
use crate::parser::{line_text, line_todos, scan, scan_lines, text_lines, todo_of_groups};
use crate::remover::{first_at_or_after, found_on_line, lemma_first_at_or_after, lines_except, moved_up, removed_at, without_line};
use crate::todo::{lines_ascend, lines_strictly_ascend, TodoView};

verus! {

/// The annotations of the given lines, where the first line has the number
/// `offset + 1`.
pub open spec fn scan_from(lines: Seq<Seq<char>>, regexs: Seq<Regex>, offset: nat) -> Seq<TodoView>
    decreases lines.len(),
{
    if lines.len() == 0 {
        Seq::empty()
    } else {
        scan_from(lines.drop_last(), regexs, offset) + line_todos(
            offset + lines.len(),
            lines.last(),
            regexs,
        )
    }
}

/// Numbering from 1 is numbering with no offset.
proof fn lemma_scan_from_zero(lines: Seq<Seq<char>>, regexs: Seq<Regex>)
    ensures
        scan_lines(lines, regexs) == scan_from(lines, regexs, 0),
    decreases lines.len(),
{
    if lines.len() > 0 {
        lemma_scan_from_zero(lines.drop_last(), regexs);
    }
}

/// The annotations of two runs of lines, one after the other.
proof fn lemma_scan_from_split(
    a: Seq<Seq<char>>,
    b: Seq<Seq<char>>,
    regexs: Seq<Regex>,
    offset: nat,
)
    ensures
        scan_from(a + b, regexs, offset) == scan_from(a, regexs, offset) + scan_from(
            b,
            regexs,
            offset + a.len(),
        ),
    decreases b.len(),
{
    if b.len() == 0 {
        assert(a + b =~= a);
        assert(scan_from(a, regexs, offset) + Seq::<TodoView>::empty() =~= scan_from(
            a,
            regexs,
            offset,
        ));
    } else {
        lemma_scan_from_split(a, b.drop_last(), regexs, offset);
        assert((a + b).drop_last() =~= a + b.drop_last());
        assert((a + b).last() == b.last());
        let head = scan_from(a, regexs, offset);
        let mid = scan_from(b.drop_last(), regexs, offset + a.len());
        let tail = line_todos(offset + a.len() + b.len(), b.last(), regexs);
        assert((head + mid) + tail =~= head + (mid + tail));
    }
}

/// The annotations of a line stand on that line, and but for the line they
/// do not depend on its number.
proof fn lemma_line_todos(number: nat, text: Seq<char>, regexs: Seq<Regex>)
    ensures
        forall|j: int|
            0 <= j < line_todos(number, text, regexs).len() ==> (#[trigger] line_todos(
                number,
                text,
                regexs,
            )[j]).line == number,
        line_todos(number, text, regexs) == line_todos(number + 1, text, regexs).map_values(
            |t: TodoView| moved_up(t),
        ),
    decreases regexs.len(),
{
    if regexs.len() > 0 {
        lemma_line_todos(number, text, regexs.drop_last());
        let below = line_todos(number + 1, text, regexs.drop_last());
        match captures_of(regexs.last(), text) {
            Some(groups) => {
                match todo_of_groups(number + 1, groups) {
                    Some(todo) => {
                        assert(todo_of_groups(number, groups) == Some(moved_up(todo)));
                        assert(below.push(todo).map_values(|t: TodoView| moved_up(t))
                            =~= below.map_values(|t: TodoView| moved_up(t)).push(moved_up(todo)));
                    },
                    None => {},
                }
            },
            None => {},
        }
    } else {
        assert(line_todos(number, text, regexs) =~= line_todos(
            number + 1,
            text,
            regexs,
        ).map_values(|t: TodoView| moved_up(t)));
    }
}

/// The annotations of a run of lines stand on lines of that run, and with
/// the run one line further up they are the same annotations one line
/// further up.
proof fn lemma_scan_from(lines: Seq<Seq<char>>, regexs: Seq<Regex>, offset: nat)
    ensures
        forall|j: int|
            0 <= j < scan_from(lines, regexs, offset).len() ==> offset < (#[trigger] scan_from(
                lines,
                regexs,
                offset,
            )[j]).line <= offset + lines.len(),
        scan_from(lines, regexs, offset) == scan_from(lines, regexs, offset + 1).map_values(
            |t: TodoView| moved_up(t),
        ),
    decreases lines.len(),
{
    if lines.len() > 0 {
        lemma_scan_from(lines.drop_last(), regexs, offset);
        lemma_line_todos(offset + lines.len(), lines.last(), regexs);
        let low = scan_from(lines.drop_last(), regexs, offset + 1);
        let last = line_todos(offset + 1 + lines.len(), lines.last(), regexs);
        assert((low + last).map_values(|t: TodoView| moved_up(t)) =~= low.map_values(
            |t: TodoView| moved_up(t),
        ) + last.map_values(|t: TodoView| moved_up(t)));
    } else {
        assert(scan_from(lines, regexs, offset) =~= scan_from(
            lines,
            regexs,
            offset + 1,
        ).map_values(|t: TodoView| moved_up(t)));
    }
}

/// The annotations of a scan come in the order of their lines, and each
/// stands on a line that the content has.
pub proof fn lemma_scan_ascends(content: Seq<u8>, regexs: Seq<Regex>)
    ensures
        lines_ascend(scan(content, regexs)),
        forall|j: int|
            0 <= j < scan(content, regexs).len() ==> (#[trigger] scan(content, regexs)[j]).line
                <= raw_lines(content).len(),
{
    let texts = text_lines(content);
    lemma_scan_from_zero(texts, regexs);
    lemma_scan_from(texts, regexs, 0);
    lemma_scan_from_ascends(texts, regexs, 0);
}

/// The annotations of a run of lines come in the order of their lines.
proof fn lemma_scan_from_ascends(lines: Seq<Seq<char>>, regexs: Seq<Regex>, offset: nat)
    ensures
        forall|a: int, b: int|
            0 <= a < b < scan_from(lines, regexs, offset).len() ==> (#[trigger] scan_from(
                lines,
                regexs,
                offset,
            )[a]).line <= (#[trigger] scan_from(lines, regexs, offset)[b]).line,
    decreases lines.len(),
{
    if lines.len() > 0 {
        let head = scan_from(lines.drop_last(), regexs, offset);
        let tail = line_todos(offset + lines.len(), lines.last(), regexs);
        lemma_scan_from_ascends(lines.drop_last(), regexs, offset);
        lemma_scan_from(lines.drop_last(), regexs, offset);
        lemma_line_todos(offset + lines.len(), lines.last(), regexs);
        let all = scan_from(lines, regexs, offset);
        assert forall|a: int, b: int| 0 <= a < b < all.len() implies (#[trigger] all[a]).line <= (
        #[trigger] all[b]).line by {
            if b < head.len() {
                assert(all[a] == head[a] && all[b] == head[b]);
            } else if a < head.len() {
                assert(all[a] == head[a] && all[b] == tail[b - head.len()]);
            } else {
                assert(all[a] == tail[a - head.len()] && all[b] == tail[b - head.len()]);
            }
        }
    }
}

/// Where no two annotations share a line, removing one leaves a list in which
/// no two annotations share a line.
pub proof fn lemma_removal_keeps_order(todos: Seq<TodoView>, ind: int)
    requires
        lines_strictly_ascend(todos),
        0 <= ind < todos.len(),
    ensures
        lines_strictly_ascend(removed_at(todos, ind)),
{
    let left = removed_at(todos, ind);
    assert forall|a: int| 0 <= a < left.len() implies (#[trigger] left[a]).line >= 1 by {
        if a >= ind {
            assert(todos[ind].line < todos[a + 1].line);
        }
    }
    assert forall|a: int, b: int| 0 <= a < b < left.len() implies (#[trigger] left[a]).line < (
    #[trigger] left[b]).line by {
        if b < ind {
        } else if a < ind {
            assert(todos[a].line <= todos[ind].line);
            assert(todos[ind].line < todos[b + 1].line);
        } else {
            assert(todos[a + 1].line < todos[b + 1].line);
        }
    }
}

/// In a list ordered by line, the search of `remove_todo_by_line` finds an
/// annotation exactly if some annotation stands on the line.
pub proof fn lemma_found_on_line(todos: Seq<TodoView>, line: nat)
    requires
        lines_ascend(todos),
    ensures
        found_on_line(todos, line) <==> exists|j: int|
            0 <= j < todos.len() && (#[trigger] todos[j]).line == line,
{
    lemma_first_at_or_after(todos, line);
    let i = first_at_or_after(todos, line) as int;
    if exists|j: int| 0 <= j < todos.len() && (#[trigger] todos[j]).line == line {
        let j = choose|j: int| 0 <= j < todos.len() && (#[trigger] todos[j]).line == line;
        if j < i {
            assert(todos[j].line < line);
        }
        if i < j {
            assert(todos[i].line <= todos[j].line);
        }
    }
}

/// More than one line joined: the first line, a line feed, and the rest
/// joined.
proof fn lemma_join_head(lines: Seq<Seq<u8>>)
    requires
        lines.len() >= 2,
    ensures
        join_lines(lines) == lines[0] + seq![LF] + join_lines(lines.skip(1)),
    decreases lines.len(),
{
    let rest = lines.skip(1);
    assert(rest.drop_last() =~= lines.drop_last().skip(1));
    assert(rest.last() == lines.last());
    if lines.len() == 2 {
        assert(lines.drop_last().len() == 1);
        assert(join_lines(lines.drop_last()) == lines[0]);
        assert(join_lines(rest) == lines[1]);
    } else {
        lemma_join_head(lines.drop_last());
        let first = lines[0] + seq![LF];
        let mid = join_lines(lines.drop_last().skip(1));
        assert((first + mid) + seq![LF] + lines.last() =~= first + (mid + seq![LF]
            + lines.last()));
    }
}

/// The lines as they are read back once they were written out: the same
/// lines, but for an empty line at the end, which is no line any more.
pub open spec fn read_back(lines: Seq<Seq<u8>>) -> Seq<Seq<u8>> {
    if lines.len() > 0 && lines.last().len() == 0 {
        lines.drop_last()
    } else {
        lines
    }
}

/// Lines that are joined and split again are the lines read back, if none of
/// them holds a line feed.
proof fn lemma_lines_of_join(lines: Seq<Seq<u8>>)
    requires
        forall|i: int, j: int|
            0 <= i < lines.len() && 0 <= j < lines[i].len() ==> lines[i][j] != LF,
    ensures
        raw_lines(join_lines(lines)) == read_back(lines),
    decreases lines.len(),
{
    if lines.len() == 0 {
        assert(raw_lines(join_lines(lines)) =~= lines);
    } else if lines.len() == 1 {
        let s = lines[0];
        if s.len() == 0 {
            assert(raw_lines(s) =~= lines.drop_last());
        } else {
            lemma_first_newline_is(s, s.len() as int);
            assert(raw_lines(s) =~= lines);
        }
    } else {
        let rest = lines.skip(1);
        lemma_join_head(lines);
        let s = join_lines(lines);
        let k = lines[0].len() as int;
        assert(s[k] == LF);
        assert forall|i: int| 0 <= i < k implies s[i] != LF by {
            assert(s[i] == lines[0][i]);
        }
        lemma_first_newline_is(s, k);
        assert(s.take(k) =~= lines[0]);
        assert(s.skip(k + 1) =~= join_lines(rest));
        assert forall|i: int, j: int| 0 <= i < rest.len() && 0 <= j < rest[i].len() implies rest[i][j]
            != LF by {
            assert(rest[i] == lines[i + 1]);
        }
        assert(rest.last() == lines.last());
        lemma_lines_of_join(rest);
        assert(seq![lines[0]] + read_back(rest) =~= read_back(lines));
    }
}

/// Removing an annotation and scanning again agree.
///
/// Take the annotations that the expressions find in a file, and one of them
/// that stands alone on its line. If its line is taken out of the file, a new
/// scan finds the other annotations as they were, but that those after the
/// line stand one line further up: the list that `remove_todo_by_index`
/// leaves.
///
/// One kind of file is left out. Where the lines that are left end in an
/// empty line, that line is no line any more once the file is written out,
/// so the expressions must find nothing on an empty line. Those made by
/// `get_regex_for_comment` find nothing there: they ask for white space
/// after the tag.
pub proof fn lemma_remove_then_rescan(content: Seq<u8>, regexs: Seq<Regex>, i: int)
    requires
        0 <= i < scan(content, regexs).len(),
        forall|j: int|
            0 <= j < scan(content, regexs).len() && j != i ==> (#[trigger] scan(
                content,
                regexs,
            )[j]).line != scan(content, regexs)[i].line,
        ({
            let left = lines_except(raw_lines(content), scan(content, regexs)[i].line - 1);
            left.len() > 0 && left.last().len() == 0 ==> line_todos(
                left.len(),
                line_text(Seq::empty()),
                regexs,
            ).len() == 0
        }),
    ensures
        scan(without_line(content, scan(content, regexs)[i].line), regexs) == removed_at(
            scan(content, regexs),
            i,
        ),
{
    let raw = raw_lines(content);
    let texts = text_lines(content);
    let todos = scan(content, regexs);
    let line = todos[i].line;
    let k = line - 1;

    // The annotation stands on a line of the file.
    lemma_scan_from_zero(texts, regexs);
    lemma_scan_from(texts, regexs, 0);
    assert(0 <= k < raw.len());

    // The file that is left has the lines that are left, read back.
    let left = raw.remove(k);
    lemma_lines_have_no_newline(content);
    assert forall|a: int, b: int| 0 <= a < left.len() && 0 <= b < left[a].len() implies left[a][b]
        != LF by {
        if a < k {
            assert(left[a] == raw[a]);
        } else {
            assert(left[a] == raw[a + 1]);
        }
    }
    lemma_lines_of_join(left);
    let left_texts = texts.remove(k);
    assert(left.map_values(|raw: Seq<u8>| line_text(raw)) =~= left_texts);
    let again = scan(without_line(content, line), regexs);
    assert(again == scan_lines(left_texts, regexs)) by {
        if left.len() > 0 && left.last().len() == 0 {
            assert(text_lines(without_line(content, line)) =~= left_texts.drop_last());
            assert(left_texts.last() == line_text(left.last()));
            assert(left.last() =~= Seq::<u8>::empty());
            assert(scan_lines(left_texts.drop_last(), regexs) + Seq::<TodoView>::empty()
                =~= scan_lines(left_texts.drop_last(), regexs));
        } else {
            assert(text_lines(without_line(content, line)) =~= left_texts);
        }
    }

    // The annotations before the line, on it, and after it.
    let above = texts.take(k);
    let below = texts.skip(k + 1);
    assert(texts =~= above + (seq![texts[k]] + below));
    assert(left_texts =~= above + below);
    lemma_scan_from_split(above, seq![texts[k]] + below, regexs, 0);
    lemma_scan_from_split(seq![texts[k]], below, regexs, k as nat);
    lemma_scan_from_split(above, below, regexs, 0);
    let before = scan_from(above, regexs, 0);
    let on = line_todos(line, texts[k], regexs);
    let after = scan_from(below, regexs, line);
    let one = seq![texts[k]];
    assert(one.drop_last() =~= Seq::<Seq<char>>::empty());
    assert(scan_from(one.drop_last(), regexs, k as nat) =~= Seq::<TodoView>::empty());
    assert(one.last() == texts[k]);
    assert(scan_from(one, regexs, k as nat) =~= on);
    assert(todos =~= before + (on + after));
    lemma_scan_from(above, regexs, 0);
    lemma_line_todos(line, texts[k], regexs);
    lemma_scan_from(below, regexs, line);
    lemma_scan_from(below, regexs, k as nat);

    // The annotation is the only one on its line.
    if i < before.len() {
        assert(todos[i] == before[i]);
    }
    if i >= before.len() + on.len() {
        assert(todos[i] == after[i - before.len() - on.len()]);
    }
    assert(before.len() <= i < before.len() + on.len());
    if on.len() > 1 {
        let other = if i == before.len() {
            i + 1
        } else {
            before.len() as int
        };
        assert(todos[other] == on[other - before.len()]);
    }
    assert(on.len() == 1 && i == before.len());

    lemma_scan_from_zero(left_texts, regexs);
    let moved = after.map_values(|t: TodoView| moved_up(t));
    assert(again == before + moved);
    assert forall|j: int| 0 <= j < again.len() implies again[j] == removed_at(todos, i)[j] by {
        if j < i {
            assert(todos[j] == before[j]);
        } else {
            assert(todos[j + 1] == after[j - i]);
        }
    }
    assert(again =~= removed_at(todos, i));
}

} // verus!
