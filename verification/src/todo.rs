//! The annotations that were found: `Todo`, and `TodoFile` for the ones of a
//! file.
use vstd::prelude::*;
use crate::engine::{compile, compiled, find_all, matches_of};
use crate::errors::{decimal, decimal_string};
use crate::text::{str_eq, to_uppercase, uppercase};

verus! {

/// What a `Todo` stands for.
pub struct TodoView {
    /// The number of the physical line, counted from 1.
    pub line: nat,
    /// The tag, in upper case.
    pub tag: Seq<char>,
    /// The text of the annotation.
    pub content: Seq<char>,
}

/// One annotation, with where it was found.
#[derive(Debug)]
pub struct Todo {
    pub line: usize,
    pub tag: String,
    pub content: String,
}

impl View for Todo {
    type V = TodoView;

    open spec fn view(&self) -> TodoView {
        TodoView { line: self.line as nat, tag: self.tag@, content: self.content@ }
    }
}

/// The pattern of a user named in the content of an annotation: an `@` and
/// the characters after it, up to the next white space.
pub open spec fn user_pattern() -> Seq<char> {
    r"(@\S+)"@
}

/// The users named in `content`, each with its leading `@`, from left to
/// right.
pub open spec fn users_of(content: Seq<char>) -> Seq<Seq<char>> {
    match compiled(user_pattern()) {
        Ok(re) => matches_of(re, content),
        Err(_) => Seq::empty(),
    }
}

/// Whether one of the names found, without its first character, is `user`.
pub open spec fn names_user(found: Seq<Seq<char>>, user: Seq<char>) -> bool {
    exists|i: int|
        #![trigger found[i]]
        0 <= i < found.len() && found[i].len() > 0 && found[i].skip(1) == user
}

impl Todo {
    /// A new annotation. The tag is stored in upper case.
    pub fn new(line: usize, tag_str: &str, content: &str) -> (todo: Todo)
        ensures
            todo@ == (TodoView { line: line as nat, tag: uppercase(tag_str@), content: content@ }),
    {
        Todo { line, tag: to_uppercase(tag_str), content: String::from_str(content) }
    }

    /// All users named in the content, each with its leading `@`. They are
    /// looked up in the content anew on every call.
    pub fn users(&self) -> (found: Vec<&str>)
        ensures
            found.deep_view() == users_of(self.content@),
    {
        match compile(r"(@\S+)") {
            Ok(re) => find_all(&re, self.content.as_str()),
            Err(_) => {
                let none: Vec<&str> = Vec::new();
                assert(none.deep_view() =~= Seq::<Seq<char>>::empty());
                none
            },
        }
    }

    /// Whether `user` is named in the content. The name is compared without
    /// the `@`, and the case of the letters counts.
    pub fn tags_user(&self, user: &str) -> (tagged: bool)
        ensures
            tagged == names_user(users_of(self.content@), user@),
    {
        let users = self.users();
        let ghost found = users.deep_view();
        let mut i: usize = 0;
        while i < users.len()
            invariant
                i <= users.len(),
                found == users.deep_view(),
                found == users_of(self.content@),
                forall|j: int|
                    #![trigger found[j]]
                    0 <= j < i ==> !(found[j].len() > 0 && found[j].skip(1) == user@),
            decreases users.len() - i,
        {
            let u: &str = users[i];
            assert(found[i as int] == u@);
            let n = u.unicode_len();
            if n > 0 {
                let name = u.substring_char(1, n);
                assert(name@ =~= u@.skip(1));
                if str_eq(name, user) {
                    assert(found[i as int].len() > 0 && found[i as int].skip(1) == user@);
                    return true;
                }
            }
            i += 1;
        }
        false
    }
}

impl TodoView {
    /// The annotation on one line of text: the line, the tag and the content,
    /// with tabs between them.
    pub open spec fn text(self) -> Seq<char> {
        "line "@ + decimal(self.line) + "\t"@ + self.tag + "\t"@ + self.content
    }
}

impl Todo {
    /// The annotation on one line of text.
    pub fn to_string(&self) -> (s: String)
        ensures
            s@ == self@.text(),
    {
        let mut s = String::from_str("line ");
        s.append(decimal_string(self.line).as_str());
        s.append("\t");
        s.append(self.tag.as_str());
        s.append("\t");
        s.append(self.content.as_str());
        s
    }
}

impl Clone for Todo {
    fn clone(&self) -> (todo: Self)
        ensures
            todo == *self,
    {
        Todo { line: self.line, tag: self.tag.clone(), content: self.content.clone() }
    }
}

/// The views of a sequence of annotations.
pub open spec fn todo_views(todos: Seq<Todo>) -> Seq<TodoView> {
    todos.map_values(|t: Todo| t@)
}

/// What a `TodoFile` stands for.
pub struct TodoFileView {
    pub filepath: Seq<char>,
    pub todos: Seq<TodoView>,
}

/// The annotations of one file, in the order of their lines.
#[derive(Debug)]
pub struct TodoFile {
    pub filepath: String,
    pub todos: Vec<Todo>,
}

impl View for TodoFile {
    type V = TodoFileView;

    open spec fn view(&self) -> TodoFileView {
        TodoFileView { filepath: self.filepath@, todos: todo_views(self.todos@) }
    }
}

/// Every line number is at least 1, and none is smaller than the one before.
pub open spec fn lines_ascend(todos: Seq<TodoView>) -> bool {
    &&& forall|i: int| 0 <= i < todos.len() ==> (#[trigger] todos[i]).line >= 1
    &&& forall|i: int, j: int|
        0 <= i < j < todos.len() ==> (#[trigger] todos[i]).line <= (#[trigger] todos[j]).line
}

/// Every line number is at least 1, and each is larger than the one before:
/// no two annotations share a line.
pub open spec fn lines_strictly_ascend(todos: Seq<TodoView>) -> bool {
    &&& forall|i: int| 0 <= i < todos.len() ==> (#[trigger] todos[i]).line >= 1
    &&& forall|i: int, j: int|
        0 <= i < j < todos.len() ==> (#[trigger] todos[i]).line < (#[trigger] todos[j]).line
}

impl TodoFile {
    /// A file at `filepath` with no annotations yet.
    pub fn new(filepath: &str) -> (file: TodoFile)
        ensures
            file@.filepath == filepath@,
            file@.todos.len() == 0,
    {
        TodoFile { filepath: String::from_str(filepath), todos: Vec::new() }
    }

    /// Replaces the annotations of the file.
    pub fn set_todos(&mut self, todos: Vec<Todo>)
        ensures
            final(self).todos == todos,
            final(self).filepath == old(self).filepath,
    {
        self.todos = todos;
    }

    pub fn is_empty(&self) -> (empty: bool)
        ensures
            empty == (self@.todos.len() == 0),
    {
        self.todos.len() == 0
    }

    pub fn len(&self) -> (n: usize)
        ensures
            n == self@.todos.len(),
    {
        self.todos.len()
    }

    /// A walk over the annotations of the file, each with the file's path.
    pub fn iter(&self) -> (it: TodoFileIter<'_>)
        ensures
            it.file() == self,
            it.pos() == 0,
    {
        TodoFileIter::from(self)
    }
}

impl Clone for TodoFile {
    fn clone(&self) -> (file: Self)
        ensures
            file@ == self@,
    {
        let file = TodoFile { filepath: self.filepath.clone(), todos: self.todos.clone() };
        assert(file.todos@ =~= self.todos@);
        file
    }
}

/// An annotation together with the path of its file.
#[derive(Debug)]
pub struct PathedTodo<'a> {
    pub file: &'a str,
    pub todo: &'a Todo,
}

impl<'a> PathedTodo<'a> {
    pub fn new(todo: &'a Todo, file: &'a str) -> (pathed: PathedTodo<'a>)
        ensures
            pathed.todo == todo,
            pathed.file == file,
    {
        PathedTodo { file, todo }
    }
}

/// Walks over the annotations of a file, handing each out with the file's
/// path.
pub struct TodoFileIter<'a> {
    file: &'a TodoFile,
    pos: usize,
}

impl<'a> TodoFileIter<'a> {
    /// The file that is walked over.
    pub closed spec fn file(&self) -> &'a TodoFile {
        self.file
    }

    /// How many annotations were handed out.
    pub closed spec fn pos(&self) -> nat {
        self.pos as nat
    }

    /// A walk over `file` that starts at its first annotation.
    pub fn from(file: &'a TodoFile) -> (it: TodoFileIter<'a>)
        ensures
            it.file() == file,
            it.pos() == 0,
    {
        TodoFileIter { file, pos: 0 }
    }

    /// Hands out the next annotation, or `None` when all were handed out.
    pub fn next(&mut self) -> (item: Option<PathedTodo<'a>>)
        ensures
            final(self).file() == old(self).file(),
            old(self).pos() < old(self).file().todos.len() ==> {
                &&& item is Some
                &&& *item.unwrap().todo == old(self).file().todos[old(self).pos() as int]
                &&& item.unwrap().file@ == old(self).file().filepath@
                &&& final(self).pos() == old(self).pos() + 1
            },
            old(self).pos() >= old(self).file().todos.len() ==> {
                &&& item is None
                &&& final(self).pos() == old(self).pos()
            },
    {
        if self.pos < self.file.todos.len() {
            let item = PathedTodo::new(&self.file.todos[self.pos], self.file.filepath.as_str());
            self.pos += 1;
            Some(item)
        } else {
            None
        }
    }

    /// How many annotations are left, as a lower and an upper bound.
    pub fn size_hint(&self) -> (hint: (usize, Option<usize>))
        ensures
            self.pos() <= self.file().todos.len() ==> hint.0 == self.file().todos.len()
                - self.pos(),
            self.pos() > self.file().todos.len() ==> hint.0 == 0,
            hint.1 == Some(hint.0),
    {
        let left = if self.pos <= self.file.todos.len() {
            self.file.todos.len() - self.pos
        } else {
            0
        };
        (left, Some(left))
    }
}

} // verus!
