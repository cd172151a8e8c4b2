use todo_r::todo::{PathedTodo, Todo, TodoFile, TodoFileIter};

#[test]
fn new_todo_has_an_upper_case_tag() {
    let todo = Todo::new(2, "todo", "item");
    assert_eq!(todo.line, 2);
    assert_eq!(todo.tag, "TODO");
    assert_eq!(todo.content, "item");
    assert_eq!(Todo::new(1, "FixMe", "").tag, "FIXME");
}

#[test]
fn users_are_found_in_the_content() {
    let todo = Todo::new(1, "TODO", "@user1 ignore2 @user2");
    assert_eq!(todo.users(), vec!["@user1", "@user2"]);
    let todo = Todo::new(1, "TODO", "item @user@web.com, then");
    assert_eq!(todo.users(), vec!["@user@web.com,"]);
    let todo = Todo::new(1, "TODO", "mail me @ home");
    assert!(todo.users().is_empty());
    assert!(Todo::new(1, "TODO", "").users().is_empty());
}

#[test]
fn tags_user_compares_without_the_at_sign() {
    let todo = Todo::new(1, "TODO", "@alice ship it @Bob");
    assert!(todo.tags_user("alice"));
    assert!(todo.tags_user("Bob"));
    assert!(!todo.tags_user("bob"));
    assert!(!todo.tags_user("Alice"));
    assert!(!todo.tags_user("@alice"));
    assert!(!todo.tags_user("ali"));
    assert!(!todo.tags_user(""));
    assert!(!Todo::new(1, "TODO", "no one").tags_user("one"));
}

#[test]
fn cloned_todo_is_equal_in_every_field() {
    let todo = Todo::new(9, "todo", "item @u");
    let copy = todo.clone();
    assert_eq!((copy.line, copy.tag, copy.content), (9, todo.tag, todo.content));
}

#[test]
fn todo_file_starts_empty() {
    let mut file = TodoFile::new("tests/test.rs");
    assert_eq!(file.filepath, "tests/test.rs");
    assert!(file.is_empty());
    assert_eq!(file.len(), 0);
    file.set_todos(vec![Todo::new(2, "TODO", "item1"), Todo::new(5, "TODO", "item2 @u1")]);
    assert!(!file.is_empty());
    assert_eq!(file.len(), 2);
    assert_eq!(file.todos[1].line, 5);
    let copy = file.clone();
    assert_eq!(copy.filepath, "tests/test.rs");
    assert_eq!(copy.len(), 2);
    assert_eq!(copy.todos[0].content, "item1");
}

#[test]
fn pathed_todo_holds_the_todo_and_its_path() {
    let todo = Todo::new(2, "TODO", "item");
    let pathed = PathedTodo::new(&todo, "a/b.rs");
    assert_eq!(pathed.file, "a/b.rs");
    assert_eq!(pathed.todo.line, 2);
    assert_eq!(pathed.todo.content, "item");
}

#[test]
fn todo_file_iter_hands_out_every_todo_once() {
    let mut file = TodoFile::new("a.rs");
    file.set_todos(vec![Todo::new(2, "TODO", "x"), Todo::new(5, "FIXME", "y")]);
    let mut it = TodoFileIter::from(&file);
    assert_eq!(it.size_hint(), (2, Some(2)));
    let first = it.next().unwrap();
    assert_eq!((first.file, first.todo.line, first.todo.content.as_str()), ("a.rs", 2, "x"));
    assert_eq!(it.size_hint(), (1, Some(1)));
    let second = it.next().unwrap();
    assert_eq!((second.file, second.todo.line, second.todo.tag.as_str()), ("a.rs", 5, "FIXME"));
    assert_eq!(it.size_hint(), (0, Some(0)));
    assert!(it.next().is_none());
    assert!(it.next().is_none());
    let empty = TodoFile::new("b.rs");
    assert!(TodoFileIter::from(&empty).next().is_none());
}

#[test]
fn todo_is_written_on_one_line() {
    assert_eq!(Todo::new(2, "todo", "item @u").to_string(), "line 2\tTODO\titem @u");
    assert_eq!(Todo::new(1234, "Fixme", "").to_string(), "line 1234\tFIXME\t");
}

#[test]
fn todo_file_walk_starts_at_the_first_todo() {
    let mut file = TodoFile::new("a.rs");
    file.set_todos(vec![Todo::new(2, "TODO", "x")]);
    let mut it = file.iter();
    assert_eq!(it.next().unwrap().todo.line, 2);
    assert!(it.next().is_none());
}
