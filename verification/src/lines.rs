//! The physical lines of a file, as bytes.
//!
//! A line ends at a line feed or at the end of the content; the line feed is
//! no part of the line. Content that ends in a line feed has no empty line
//! after it, and empty content has no line at all.
use vstd::prelude::*;
use vstd::slice::slice_subrange;

verus! {

/// The line feed byte.
pub const LF: u8 = 10;

/// The carriage return byte.
pub const CR: u8 = 13;

/// How many bytes stand before the first line feed of `s` (all of them, if
/// there is none).
pub open spec fn first_newline(s: Seq<u8>) -> nat
    decreases s.len(),
{
    if s.len() == 0 || s[0] == LF {
        0
    } else {
        1 + first_newline(s.skip(1))
    }
}

/// The lines of `s`, in order.
pub open spec fn raw_lines(s: Seq<u8>) -> Seq<Seq<u8>>
    decreases s.len(),
{
    if s.len() == 0 {
        Seq::empty()
    } else {
        let k = first_newline(s) as int;
        if k >= s.len() {
            seq![s]
        } else {
            seq![s.take(k)] + raw_lines(s.skip(k + 1))
        }
    }
}

/// The lines written out again, with one line feed between each two
/// neighbours and none at the end.
pub open spec fn join_lines(lines: Seq<Seq<u8>>) -> Seq<u8>
    decreases lines.len(),
{
    if lines.len() == 0 {
        Seq::empty()
    } else if lines.len() == 1 {
        lines[0]
    } else {
        join_lines(lines.drop_last()) + seq![LF] + lines.last()
    }
}

/// The line without the carriage return that may end it.
pub open spec fn strip_cr(line: Seq<u8>) -> Seq<u8> {
    if line.len() > 0 && line.last() == CR {
        line.drop_last()
    } else {
        line
    }
}

/// The first line feed lies within the sequence or right at its end, and no
/// byte before it is a line feed.
pub proof fn lemma_first_newline(s: Seq<u8>)
    ensures
        first_newline(s) <= s.len(),
        first_newline(s) < s.len() ==> s[first_newline(s) as int] == LF,
        forall|i: int| 0 <= i < first_newline(s) ==> s[i] != LF,
    decreases s.len(),
{
    if s.len() == 0 || s[0] == LF {
    } else {
        lemma_first_newline(s.skip(1));
        assert forall|i: int| 0 <= i < first_newline(s) implies s[i] != LF by {
            if i > 0 {
                assert(s.skip(1)[i - 1] == s[i]);
            }
        }
    }
}

/// The position of the first line feed is fixed by what it says: the first
/// index that holds a line feed, or the length.
pub proof fn lemma_first_newline_is(s: Seq<u8>, k: int)
    requires
        0 <= k <= s.len(),
        k < s.len() ==> s[k] == LF,
        forall|i: int| 0 <= i < k ==> s[i] != LF,
    ensures
        first_newline(s) == k,
{
    lemma_first_newline(s);
    let f = first_newline(s) as int;
    if f < k {
        assert(s[f] == LF);
    } else if k < f {
        assert(s[k] != LF);
    }
}

/// How the lines of the rest of the content unfold at `start`: the line that
/// begins there, then the lines after its line feed.
pub proof fn lemma_lines_step(content: Seq<u8>, start: int, end: int)
    requires
        0 <= start < content.len(),
        end == start + first_newline(content.skip(start)),
    ensures
        start <= end <= content.len(),
        end < content.len() ==> raw_lines(content.skip(start)) == seq![
            content.subrange(start, end),
        ] + raw_lines(content.skip(end + 1)),
        end == content.len() ==> raw_lines(content.skip(start)) == seq![
            content.subrange(start, end),
        ],
{
    let s = content.skip(start);
    lemma_first_newline(s);
    let k = first_newline(s) as int;
    assert(s.take(k) =~= content.subrange(start, end));
    if end < content.len() {
        assert(s.skip(k + 1) =~= content.skip(end + 1));
    } else {
        assert(s =~= content.subrange(start, end));
    }
}

/// No line holds a line feed.
pub proof fn lemma_lines_have_no_newline(s: Seq<u8>)
    ensures
        forall|i: int, j: int|
            0 <= i < raw_lines(s).len() && 0 <= j < raw_lines(s)[i].len() ==> raw_lines(s)[i][j]
                != LF,
    decreases s.len(),
{
    if s.len() == 0 {
    } else {
        lemma_first_newline(s);
        let k = first_newline(s) as int;
        if k >= s.len() {
        } else {
            lemma_lines_have_no_newline(s.skip(k + 1));
            let rest = raw_lines(s.skip(k + 1));
            assert forall|i: int, j: int|
                0 <= i < raw_lines(s).len() && 0 <= j < raw_lines(s)[i].len() implies raw_lines(
                s,
            )[i][j] != LF by {
                if i > 0 {
                    assert(raw_lines(s)[i] == rest[i - 1]);
                }
            }
        }
    }
}

/// Finds where the line that begins at `start` ends: at the next line feed, or
/// at the end of the content.
pub fn line_end(content: &[u8], start: usize) -> (end: usize)
    requires
        start <= content.len(),
    ensures
        end == start + first_newline(content@.skip(start as int)),
        start <= end <= content.len(),
{
    let mut end = start;
    while end < content.len() && content[end] != LF
        invariant
            start <= end <= content.len(),
            forall|i: int| start <= i < end ==> content@[i] != LF,
        decreases content.len() - end,
    {
        end += 1;
    }
    proof {
        let s = content@.skip(start as int);
        assert forall|i: int| 0 <= i < end - start implies s[i] != LF by {
            assert(s[i] == content@[start + i]);
        }
        lemma_first_newline_is(s, end - start);
    }
    end
}

/// The bytes of `line` without the carriage return that may end it.
pub fn without_cr(line: &[u8]) -> (stripped: &[u8])
    ensures
        stripped@ == strip_cr(line@),
{
    let n = line.len();
    if n > 0 && line[n - 1] == CR {
        let stripped = slice_subrange(line, 0, n - 1);
        assert(stripped@ =~= line@.drop_last());
        stripped
    } else {
        line
    }
}

} // verus!
