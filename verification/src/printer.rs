//! Reports of the annotations: the formats there are, and the text of the
//! reports in Markdown.
//!
//! A Markdown report is a run of tables, one for each tag or one for each
//! user. The order of the tables is the caller's to choose.
use vstd::prelude::*;
use crate::errors::{decimal, decimal_string, ErrorView, TodoRError};
use crate::text::str_eq;
use crate::todo::{users_of, PathedTodo, TodoView};
use crate::todor::pathed_views;

verus! {

/// A format for reports.
#[derive(Debug, Clone, Copy, PartialEq, Eq, Structural)]
pub enum ReportFormat {
    Json,
    JsonPretty,
    Markdown,
    UserMarkdown,
    Default,
}

impl ReportFormat {
    /// The format that `name` stands for, if it names one.
    pub open spec fn named(name: Seq<char>) -> Option<ReportFormat> {
        if name == "json"@ {
            Some(ReportFormat::Json)
        } else if name == "prettyjson"@ {
            Some(ReportFormat::JsonPretty)
        } else if name == "markdown"@ {
            Some(ReportFormat::Markdown)
        } else if name == "usermarkdown"@ {
            Some(ReportFormat::UserMarkdown)
        } else if name == "default"@ {
            Some(ReportFormat::Default)
        } else {
            None
        }
    }

    /// Reads the name of a format, as it is given on the command line. Fails
    /// with `InvalidOutputFormat`, and the name as its message, if no format
    /// has that name.
    pub fn from_name(name: &str) -> (r: Result<ReportFormat, TodoRError>)
        ensures
            match ReportFormat::named(name@) {
                Some(format) => r == Ok::<ReportFormat, TodoRError>(format),
                None => r is Err && r->Err_0@ == (ErrorView::InvalidOutputFormat {
                    message: name@,
                }),
            },
    {
        if str_eq(name, "json") {
            Ok(ReportFormat::Json)
        } else if str_eq(name, "prettyjson") {
            Ok(ReportFormat::JsonPretty)
        } else if str_eq(name, "markdown") {
            Ok(ReportFormat::Markdown)
        } else if str_eq(name, "usermarkdown") {
            Ok(ReportFormat::UserMarkdown)
        } else if str_eq(name, "default") {
            Ok(ReportFormat::Default)
        } else {
            Err(TodoRError::InvalidOutputFormat { message: String::from_str(name) })
        }
    }
}

/// An annotation with the path of its file, as the reports see it.
pub type Entry = (Seq<char>, TodoView);

/// The row of an annotation in the table of its tag.
pub open spec fn tag_row(entry: Entry) -> Seq<char> {
    "| "@ + entry.0 + " | "@ + decimal(entry.1.line) + " | "@ + entry.1.content + " |\n"@
}

/// The row of an annotation in the table of a user.
pub open spec fn user_row(entry: Entry) -> Seq<char> {
    "| "@ + entry.0 + " | "@ + decimal(entry.1.line) + " | "@ + entry.1.tag + " | "@
        + entry.1.content + " |\n"@
}

/// The head of the table of a tag.
pub open spec fn tag_table_head(tag: Seq<char>) -> Seq<char> {
    "### "@ + tag + "s\n| Filename | line | "@ + tag + " |\n|:---|:---:|:---|\n"@
}

/// The head of the table of a user, or of the annotations that name none.
pub open spec fn user_table_head(user: Seq<char>) -> Seq<char> {
    "### "@ + user + "\n| Filename | line | type | content |\n|:---|:---:|:---:|:---|\n"@
}

/// The rows of the annotations with the tag `tag`, in their order.
pub open spec fn tag_rows(all: Seq<Entry>, tag: Seq<char>) -> Seq<char>
    decreases all.len(),
{
    if all.len() == 0 {
        Seq::empty()
    } else if all.last().1.tag == tag {
        tag_rows(all.drop_last(), tag) + tag_row(all.last())
    } else {
        tag_rows(all.drop_last(), tag)
    }
}

/// The tables of the tags in `order`, each followed by an empty line.
pub open spec fn tag_tables(all: Seq<Entry>, order: Seq<Seq<char>>) -> Seq<char>
    decreases order.len(),
{
    if order.len() == 0 {
        Seq::empty()
    } else {
        tag_tables(all, order.drop_last()) + tag_table_head(order.last()) + tag_rows(
            all,
            order.last(),
        ) + "\n"@
    }
}

/// One row for each time that `user` stands among the first `n` of the users
/// named.
pub open spec fn rows_for_user(entry: Entry, named: Seq<Seq<char>>, user: Seq<char>, n: nat) -> Seq<
    char,
>
    decreases n,
{
    if n == 0 {
        Seq::empty()
    } else if named[n - 1] == user {
        rows_for_user(entry, named, user, (n - 1) as nat) + user_row(entry)
    } else {
        rows_for_user(entry, named, user, (n - 1) as nat)
    }
}

/// The rows of the annotations that name `user`, in their order. An
/// annotation that names the user twice has two rows.
pub open spec fn user_rows(all: Seq<Entry>, user: Seq<char>) -> Seq<char>
    decreases all.len(),
{
    if all.len() == 0 {
        Seq::empty()
    } else {
        let named = users_of(all.last().1.content);
        user_rows(all.drop_last(), user) + rows_for_user(all.last(), named, user, named.len())
    }
}

/// The rows of the annotations that name no user, in their order.
pub open spec fn untagged_rows(all: Seq<Entry>) -> Seq<char>
    decreases all.len(),
{
    if all.len() == 0 {
        Seq::empty()
    } else if users_of(all.last().1.content).len() == 0 {
        untagged_rows(all.drop_last()) + user_row(all.last())
    } else {
        untagged_rows(all.drop_last())
    }
}

/// The tables of the users in `order`, each followed by an empty line.
pub open spec fn user_tables(all: Seq<Entry>, order: Seq<Seq<char>>) -> Seq<char>
    decreases order.len(),
{
    if order.len() == 0 {
        Seq::empty()
    } else {
        user_tables(all, order.drop_last()) + user_table_head(order.last()) + user_rows(
            all,
            order.last(),
        ) + "\n"@
    }
}

/// The report by user: the tables of the users in `order`, and then, if any
/// annotation names no user, the table of those.
pub open spec fn user_report(all: Seq<Entry>, order: Seq<Seq<char>>) -> Seq<char> {
    if untagged_rows(all).len() == 0 {
        user_tables(all, order)
    } else {
        user_tables(all, order) + user_table_head("Untagged"@) + untagged_rows(all) + "\n"@
    }
}

/// Writes the start of a row: the path and the line.
fn push_row_start(out: &mut String, item: &PathedTodo<'_>)
    ensures
        final(out)@ == old(out)@ + "| "@ + item.file@ + " | "@ + decimal(item.todo@.line)
            + " | "@,
{
    out.append("| ");
    out.append(item.file);
    out.append(" | ");
    out.append(decimal_string(item.todo.line).as_str());
    out.append(" | ");
}

/// Writes the row of an annotation in the table of its tag.
fn push_tag_row(out: &mut String, item: &PathedTodo<'_>)
    ensures
        final(out)@ == old(out)@ + tag_row((item.file@, item.todo@)),
{
    push_row_start(out, item);
    out.append(item.todo.content.as_str());
    out.append(" |\n");
    assert(out@ =~= old(out)@ + tag_row((item.file@, item.todo@)));
}

/// Writes the row of an annotation in the table of a user.
fn push_user_row(out: &mut String, item: &PathedTodo<'_>)
    ensures
        final(out)@ == old(out)@ + user_row((item.file@, item.todo@)),
{
    push_row_start(out, item);
    out.append(item.todo.tag.as_str());
    out.append(" | ");
    out.append(item.todo.content.as_str());
    out.append(" |\n");
    assert(out@ =~= old(out)@ + user_row((item.file@, item.todo@)));
}

/// Writes the head of the table of a user.
fn push_user_table_head(out: &mut String, user: &str)
    ensures
        final(out)@ == old(out)@ + user_table_head(user@),
{
    out.append("### ");
    out.append(user);
    out.append("\n| Filename | line | type | content |\n|:---|:---:|:---:|:---|\n");
    assert(out@ =~= old(out)@ + user_table_head(user@));
}

/// The report by tag: for each tag in `order` a table of the annotations
/// with that tag.
pub fn markdown_report(all: &[PathedTodo<'_>], order: &[&str]) -> (report: String)
    ensures
        report@ == tag_tables(pathed_views(all@), order.deep_view()),
{
    let ghost entries = pathed_views(all@);
    let ghost tags = order.deep_view();
    let mut report = String::new();
    let mut t: usize = 0;
    while t < order.len()
        invariant
            t <= order.len(),
            entries == pathed_views(all@),
            tags == order.deep_view(),
            report@ == tag_tables(entries, tags.take(t as int)),
        decreases order.len() - t,
    {
        let tag = order[t];
        let ghost before = report@;
        proof {
            assert(tags.take(t as int + 1).drop_last() =~= tags.take(t as int));
            assert(tags.take(t as int + 1).last() == tag@);
        }
        report.append("### ");
        report.append(tag);
        report.append("s\n| Filename | line | ");
        report.append(tag);
        report.append(" |\n|:---|:---:|:---|\n");
        let ghost head = report@;
        assert(head =~= before + tag_table_head(tag@));
        let mut i: usize = 0;
        assert(head + tag_rows(entries.take(0), tag@) =~= head);
        while i < all.len()
            invariant
                i <= all.len(),
                entries == pathed_views(all@),
                report@ == head + tag_rows(entries.take(i as int), tag@),
            decreases all.len() - i,
        {
            proof {
                assert(entries.take(i as int + 1).drop_last() =~= entries.take(i as int));
                assert(entries.take(i as int + 1).last() == (all@[i as int].file@, all@[i as int].todo@));
            }
            if str_eq(all[i].todo.tag.as_str(), tag) {
                push_tag_row(&mut report, &all[i]);
                assert(report@ =~= head + (tag_rows(entries.take(i as int), tag@) + tag_row(
                    entries[i as int],
                )));
            }
            i += 1;
        }
        report.append("\n");
        proof {
            assert(entries.take(all.len() as int) =~= entries);
            assert(report@ =~= tag_tables(entries, tags.take(t as int)) + tag_table_head(tag@)
                + tag_rows(entries, tag@) + "\n"@);
        }
        t += 1;
    }
    assert(tags.take(order.len() as int) =~= tags);
    report
}

/// The report by user: for each user in `order` a table of the annotations
/// that name that user, and a last table of those that name no user, if
/// there are any. Users are given with their `@`.
pub fn user_markdown_report(all: &[PathedTodo<'_>], order: &[&str]) -> (report: String)
    ensures
        report@ == user_report(pathed_views(all@), order.deep_view()),
{
    let ghost entries = pathed_views(all@);
    let ghost users = order.deep_view();
    let mut report = String::new();
    let mut u: usize = 0;
    while u < order.len()
        invariant
            u <= order.len(),
            entries == pathed_views(all@),
            users == order.deep_view(),
            report@ == user_tables(entries, users.take(u as int)),
        decreases order.len() - u,
    {
        let user = order[u];
        let ghost before = report@;
        proof {
            assert(users.take(u as int + 1).drop_last() =~= users.take(u as int));
            assert(users.take(u as int + 1).last() == user@);
        }
        push_user_table_head(&mut report, user);
        let ghost head = report@;
        let mut i: usize = 0;
        assert(head + user_rows(entries.take(0), user@) =~= head);
        while i < all.len()
            invariant
                i <= all.len(),
                entries == pathed_views(all@),
                report@ == head + user_rows(entries.take(i as int), user@),
            decreases all.len() - i,
        {
            let named = all[i].todo.users();
            let ghost names = named.deep_view();
            let ghost rows = report@;
            let ghost entry = entries[i as int];
            proof {
                assert(entries.take(i as int + 1).drop_last() =~= entries.take(i as int));
                assert(entries.take(i as int + 1).last() == entry);
                assert(entry == (all@[i as int].file@, all@[i as int].todo@));
                assert(rows + rows_for_user(entry, names, user@, 0) =~= rows);
            }
            let mut k: usize = 0;
            while k < named.len()
                invariant
                    k <= named.len(),
                    i < all.len(),
                    names == named.deep_view(),
                    entry == (all@[i as int].file@, all@[i as int].todo@),
                    report@ == rows + rows_for_user(entry, names, user@, k as nat),
                decreases named.len() - k,
            {
                assert(names[k as int] == named@[k as int]@);
                if str_eq(named[k], user) {
                    push_user_row(&mut report, &all[i]);
                    assert(report@ =~= rows + (rows_for_user(entry, names, user@, k as nat)
                        + user_row(entry)));
                }
                k += 1;
            }
            proof {
                assert(report@ =~= head + (user_rows(entries.take(i as int), user@)
                    + rows_for_user(entry, names, user@, names.len())));
            }
            i += 1;
        }
        report.append("\n");
        proof {
            assert(entries.take(all.len() as int) =~= entries);
            assert(report@ =~= user_tables(entries, users.take(u as int)) + user_table_head(
                user@,
            ) + user_rows(entries, user@) + "\n"@);
        }
        u += 1;
    }
    assert(users.take(order.len() as int) =~= users);

    let ghost tables = report@;
    let mut untagged = String::new();
    let mut i: usize = 0;
    assert(entries.take(0) =~= Seq::<Entry>::empty());
    while i < all.len()
        invariant
            i <= all.len(),
            entries == pathed_views(all@),
            untagged@ == untagged_rows(entries.take(i as int)),
        decreases all.len() - i,
    {
        proof {
            assert(entries.take(i as int + 1).drop_last() =~= entries.take(i as int));
            assert(entries.take(i as int + 1).last() == (all@[i as int].file@, all@[i as int].todo@));
        }
        let named = all[i].todo.users();
        if named.len() == 0 {
            push_user_row(&mut untagged, &all[i]);
        }
        i += 1;
    }
    assert(entries.take(all.len() as int) =~= entries);
    if !untagged.as_str().is_empty() {
        push_user_table_head(&mut report, "Untagged");
        report.append(untagged.as_str());
        report.append("\n");
        assert(report@ =~= tables + user_table_head("Untagged"@) + untagged_rows(entries)
            + "\n"@);
    }
    report
}

} // verus!
