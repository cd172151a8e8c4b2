//! Removing an annotation: its physical line leaves the content of the file,
//! and the annotations after it move up by one line.
//!
//! Nothing here touches the disk. The functions take the bytes of the file as
//! it is and give the bytes it is to hold; writing them out, to a temporary
//! file that then takes the place of the old one, is the caller's part.
use vstd::prelude::*;
use vstd::slice::slice_subrange;
use crate::errors::TodoRError;
use crate::lines::{join_lines, lemma_lines_step, line_end, raw_lines, LF};
use crate::todo::{todo_views, Todo, TodoFile, TodoView};

verus! {

/// The lines without the one at index `k`, or all of them if there is no
/// such line.
pub open spec fn lines_except(lines: Seq<Seq<u8>>, k: int) -> Seq<Seq<u8>> {
    if 0 <= k < lines.len() {
        lines.remove(k)
    } else {
        lines
    }
}

/// The content without its physical line number `line_number` (counted from
/// 1): the other lines, byte for byte, with one line feed between each two
/// and none at the end.
pub open spec fn without_line(content: Seq<u8>, line_number: nat) -> Seq<u8> {
    join_lines(lines_except(raw_lines(content), line_number - 1))
}

/// The annotation one line further up.
pub open spec fn moved_up(todo: TodoView) -> TodoView {
    TodoView { line: (todo.line - 1) as nat, ..todo }
}

/// The list without the annotation at index `ind`, and with every annotation
/// that stood after it moved up by one line.
pub open spec fn removed_at(todos: Seq<TodoView>, ind: int) -> Seq<TodoView> {
    Seq::new(
        (todos.len() - 1) as nat,
        |j: int|
            if j < ind {
                todos[j]
            } else {
                moved_up(todos[j + 1])
            },
    )
}

/// Every annotation from index `from` on stands on line 1 or later.
pub open spec fn lines_positive_from(todos: Seq<TodoView>, from: int) -> bool {
    forall|j: int| from <= j < todos.len() ==> (#[trigger] todos[j]).line >= 1
}

/// The index of the first annotation on line `line` or later, or the length
/// of the list if there is none.
pub open spec fn first_at_or_after(todos: Seq<TodoView>, line: nat) -> nat
    decreases todos.len(),
{
    if todos.len() == 0 || todos[0].line >= line {
        0
    } else {
        1 + first_at_or_after(todos.skip(1), line)
    }
}

/// Whether the first annotation on line `line` or later stands on `line`
/// itself. In a list ordered by line this says that some annotation stands on
/// that line.
pub open spec fn found_on_line(todos: Seq<TodoView>, line: nat) -> bool {
    let i = first_at_or_after(todos, line) as int;
    i < todos.len() && todos[i].line == line
}

/// What `first_at_or_after` finds: all annotations before it stand on earlier
/// lines, and the one at it, if any, does not.
pub proof fn lemma_first_at_or_after(todos: Seq<TodoView>, line: nat)
    ensures
        0 <= first_at_or_after(todos, line) <= todos.len(),
        forall|j: int| 0 <= j < first_at_or_after(todos, line) ==> (#[trigger] todos[j]).line < line,
        first_at_or_after(todos, line) < todos.len() ==> todos[first_at_or_after(
            todos,
            line,
        ) as int].line >= line,
    decreases todos.len(),
{
    if todos.len() == 0 || todos[0].line >= line {
    } else {
        let rest = todos.skip(1);
        lemma_first_at_or_after(rest, line);
        assert forall|j: int| 0 <= j < first_at_or_after(todos, line) implies (#[trigger] todos[j]).line
            < line by {
            if j > 0 {
                assert(rest[j - 1] == todos[j]);
            }
        }
        let i = first_at_or_after(rest, line) as int;
        if i < rest.len() {
            assert(rest[i] == todos[i + 1]);
        }
    }
}

/// The first index whose annotation does not stand on an earlier line is the
/// one that `first_at_or_after` finds.
pub proof fn lemma_first_at_or_after_is(todos: Seq<TodoView>, line: nat, i: int)
    requires
        0 <= i <= todos.len(),
        forall|j: int| 0 <= j < i ==> (#[trigger] todos[j]).line < line,
        i < todos.len() ==> todos[i].line >= line,
    ensures
        first_at_or_after(todos, line) == i,
{
    lemma_first_at_or_after(todos, line);
    let f = first_at_or_after(todos, line) as int;
    if f < i {
        assert(todos[f].line < line);
    } else if i < f {
        assert(todos[i].line < line);
    }
}

/// Copies `orig` to the end of `copy`, line by line, but for the line with
/// the number `line_number`. The lines are copied as they are and parted by
/// single line feeds; no line feed follows the last one.
pub fn copy_except_line(orig: &[u8], copy: &mut Vec<u8>, line_number: usize)
    requires
        line_number >= 1,
    ensures
        final(copy)@ == old(copy)@ + without_line(orig@, line_number as nat),
{
    let mut start: usize = 0;
    let mut index: usize = 0;
    let mut first = true;
    let ghost mut done: Seq<Seq<u8>> = Seq::empty();
    let ghost k = line_number as int - 1;
    proof {
        assert(orig@.skip(0) =~= orig@);
        assert(copy@ + join_lines(lines_except(done, k)) =~= copy@);
    }
    while start < orig.len()
        invariant
            line_number >= 1,
            k == line_number as int - 1,
            start <= orig.len(),
            index <= start,
            done.len() == index,
            raw_lines(orig@) == done + raw_lines(orig@.skip(start as int)),
            copy@ == old(copy)@ + join_lines(lines_except(done, k)),
            first == (lines_except(done, k).len() == 0),
        decreases orig.len() - start,
    {
        let end = line_end(orig, start);
        proof {
            lemma_lines_step(orig@, start as int, end as int);
        }
        let line = slice_subrange(orig, start, end);
        let ghost kept = lines_except(done, k);
        let ghost next = done.push(line@);
        if index != line_number - 1 {
            if !first {
                copy.push(LF);
            }
            copy.extend_from_slice(line);
            first = false;
            proof {
                assert(lines_except(next, k) =~= kept.push(line@));
                assert(kept.push(line@).drop_last() =~= kept);
                if kept.len() == 0 {
                    assert(copy@ =~= old(copy)@ + join_lines(kept.push(line@)));
                } else {
                    assert(copy@ =~= old(copy)@ + (join_lines(kept) + seq![LF] + line@));
                }
            }
        } else {
            proof {
                assert(lines_except(next, k) =~= kept);
            }
        }
        proof {
            if end < orig.len() {
                assert(done + (seq![line@] + raw_lines(orig@.skip(end + 1))) =~= next + raw_lines(
                    orig@.skip(end + 1),
                ));
            } else {
                assert(orig@.skip(end as int) =~= Seq::<u8>::empty());
                assert(done + seq![line@] =~= next + raw_lines(orig@.skip(end as int)));
            }
            done = next;
        }
        index += 1;
        start = if end < orig.len() {
            end + 1
        } else {
            end
        };
    }
    proof {
        assert(orig@.skip(start as int) =~= Seq::<u8>::empty());
        assert(done + raw_lines(orig@.skip(start as int)) =~= done);
    }
}

/// Moves every annotation from index `from` on up by one line.
fn move_up_from(todos: &mut Vec<Todo>, from: usize)
    requires
        from <= old(todos).len(),
        lines_positive_from(todo_views(old(todos)@), from as int),
    ensures
        final(todos).len() == old(todos).len(),
        forall|j: int| 0 <= j < from ==> final(todos)@[j] == old(todos)@[j],
        forall|j: int|
            from <= j < old(todos).len() ==> (#[trigger] final(todos)@[j])@ == moved_up(
                old(todos)@[j]@,
            ),
{
    let mut j = from;
    while j < todos.len()
        invariant
            from <= j <= todos.len(),
            todos.len() == old(todos).len(),
            lines_positive_from(todo_views(old(todos)@), from as int),
            forall|i: int| 0 <= i < from ==> todos@[i] == old(todos)@[i],
            forall|i: int| from <= i < j ==> (#[trigger] todos@[i])@ == moved_up(old(todos)@[i]@),
            forall|i: int| j <= i < todos.len() ==> todos@[i] == old(todos)@[i],
        decreases todos.len() - j,
    {
        assert(todo_views(old(todos)@)[j as int].line >= 1);
        todos[j].line -= 1;
        j += 1;
    }
}

/// Removes the annotation at index `ind` from the file.
///
/// The annotation leaves the list, every annotation after it moves up by one
/// line, and the bytes returned are those of `content` without the physical
/// line the annotation stood on.
pub fn remove_todo_by_index(todo_file: &mut TodoFile, ind: usize, content: &[u8]) -> (copy: Vec<u8>)
    requires
        ind < old(todo_file)@.todos.len(),
        lines_positive_from(old(todo_file)@.todos, ind as int),
    ensures
        final(todo_file)@.filepath == old(todo_file)@.filepath,
        final(todo_file)@.todos == removed_at(old(todo_file)@.todos, ind as int),
        copy@ == without_line(content@, old(todo_file)@.todos[ind as int].line),
{
    let ghost before = todo_file@.todos;
    assert(before[ind as int].line >= 1);
    let todo_line = todo_file.todos.remove(ind).line;
    let mut copy: Vec<u8> = Vec::new();
    copy_except_line(content, &mut copy, todo_line);
    proof {
        let rest = todo_views(todo_file.todos@);
        assert forall|j: int| ind <= j < rest.len() implies (#[trigger] rest[j]).line >= 1 by {
            assert(rest[j] == before[j + 1]);
        }
    }
    move_up_from(&mut todo_file.todos, ind);
    proof {
        let after = todo_views(todo_file.todos@);
        assert forall|j: int| 0 <= j < after.len() implies after[j] == removed_at(
            before,
            ind as int,
        )[j] by {
            if j < ind {
                assert(after[j] == before[j]);
            } else {
                assert(todo_file.todos@[j]@ == moved_up(before[j + 1]));
            }
        }
        assert(after =~= removed_at(before, ind as int));
    }
    copy
}

/// Removes the annotation that stands on line `line` from the file.
///
/// The list is searched from the start for the first annotation that does not
/// stand on an earlier line. If that one stands on `line`, it is removed as
/// by `remove_todo_by_index`. If it does not, or there is none, the error is
/// `TodoNotFound` with the line asked for, and the file stays as it was.
pub fn remove_todo_by_line(todo_file: &mut TodoFile, line: usize, content: &[u8]) -> (r: Result<
    Vec<u8>,
    TodoRError,
>)
    requires
        lines_positive_from(
            old(todo_file)@.todos,
            first_at_or_after(old(todo_file)@.todos, line as nat) as int,
        ),
    ensures
        found_on_line(old(todo_file)@.todos, line as nat) ==> {
            &&& r is Ok
            &&& r->Ok_0@ == without_line(content@, line as nat)
            &&& final(todo_file)@.filepath == old(todo_file)@.filepath
            &&& final(todo_file)@.todos == removed_at(
                old(todo_file)@.todos,
                first_at_or_after(old(todo_file)@.todos, line as nat) as int,
            )
        },
        !found_on_line(old(todo_file)@.todos, line as nat) ==> {
            &&& r == Err::<Vec<u8>, TodoRError>(TodoRError::TodoNotFound { line })
            &&& *final(todo_file) == *old(todo_file)
        },
{
    let ghost todos = todo_file@.todos;
    let mut i: usize = 0;
    while i < todo_file.todos.len() && todo_file.todos[i].line < line
        invariant
            i <= todo_file.todos.len(),
            *todo_file == *old(todo_file),
            todos == todo_file@.todos,
            forall|j: int| 0 <= j < i ==> (#[trigger] todos[j]).line < line,
        decreases todo_file.todos.len() - i,
    {
        i += 1;
    }
    proof {
        if i < todo_file.todos.len() {
            assert(todos[i as int].line >= line);
        }
        lemma_first_at_or_after_is(todos, line as nat, i as int);
    }
    if i >= todo_file.todos.len() {
        return Err(TodoRError::TodoNotFound { line });
    }
    if todo_file.todos[i].line > line {
        return Err(TodoRError::TodoNotFound { line });
    }
    Ok(remove_todo_by_index(todo_file, i, content))
}

} // verus!
