use todo_r::errors::TodoRError;
use todo_r::remover::{copy_except_line, remove_todo_by_index, remove_todo_by_line};
use todo_r::todo::{Todo, TodoFile};

fn assert_copy(orig_text: &str, expected_out_text: &str, todo_line: usize) {
    let mut out_buf: Vec<u8> = Vec::new();

    copy_except_line(orig_text.as_bytes(), &mut out_buf, todo_line);

    assert_eq!(
        expected_out_text.to_string(),
        String::from_utf8(out_buf).unwrap()
    );
}

#[test]
fn test_remove_line3() {
    let todo_line = 3;
    let orig_text = "code.run()
// regular comment
// item
// item2
other.stuff()
// another comment";

    let expected_out_text = "code.run()
// regular comment
// item2
other.stuff()
// another comment";

    assert_copy(orig_text, expected_out_text, todo_line);
}

#[test]
fn test_remove_line1() {
    let todo_line = 1;
    let orig_text = "code.run()
// regular comment
// item
// item2
other.stuff()
// another comment";

    let expected_out_text = "// regular comment
// item
// item2
other.stuff()
// another comment";

    assert_copy(orig_text, expected_out_text, todo_line);
}

#[test]
fn test_remove_line_last() {
    let todo_line = 6;
    let orig_text = "code.run()
// regular comment
// item
// item2
other.stuff()
// another comment";

    let expected_out_text = "code.run()
// regular comment
// item
// item2
other.stuff()";

    assert_copy(orig_text, expected_out_text, todo_line);
}

#[test]
fn test_remove_line_out_of_bounds() {
    let todo_line = 8;
    let orig_text = "code.run()
// regular comment
// item
// item2
other.stuff()
// another comment";

    let expected_out_text = "code.run()
// regular comment
// item
// item2
other.stuff()
// another comment";

    assert_copy(orig_text, expected_out_text, todo_line);
}

#[test]
fn removing_the_only_line_gives_an_empty_file() {
    assert_copy("// TODO: only", "", 1);
    assert_copy("// TODO: only\n", "", 1);
}

#[test]
fn copy_of_empty_content_is_empty() {
    assert_copy("", "", 1);
}

#[test]
fn copy_is_appended_to_the_buffer() {
    let mut out = b"kept:".to_vec();
    copy_except_line(b"a\nb\nc", &mut out, 2);
    assert_eq!(out, b"kept:a\nc".to_vec());
}

#[test]
fn empty_lines_are_kept() {
    assert_copy("a\n\nb\n\nc", "a\n\n\nc", 3);
    assert_copy("\n\nx", "\nx", 1);
    assert_copy("a\n\n", "a", 2);
}

#[test]
fn no_line_feed_follows_the_last_line() {
    assert_copy("a\nb\n", "b", 1);
    assert_copy("a\nb\n", "a", 2);
    assert_copy("a\nb\nc\n", "a\nb", 3);
}

#[test]
fn lines_are_copied_byte_for_byte() {
    let mut orig = b"first\r\n".to_vec();
    orig.extend_from_slice(&[0xff, 0xfe, b'\t']);
    orig.extend_from_slice(b"\r\nthird\r\n");
    let mut out: Vec<u8> = Vec::new();
    copy_except_line(&orig, &mut out, 1);
    let mut expected = vec![0xff, 0xfe, b'\t'];
    expected.extend_from_slice(b"\r\nthird\r");
    assert_eq!(out, expected);
}

fn five_line_file() -> (TodoFile, &'static str) {
    let content = "// TODO: one\ncode();\n// TODO: three\nmore();\n// TODO: five";
    let mut file = TodoFile::new("src/five.rs");
    file.set_todos(vec![
        Todo::new(1, "TODO", "one"),
        Todo::new(3, "TODO", "three"),
        Todo::new(5, "TODO", "five"),
    ]);
    (file, content)
}

fn lines_and_contents(file: &TodoFile) -> Vec<(usize, String)> {
    file.todos
        .iter()
        .map(|t| (t.line, t.content.clone()))
        .collect()
}

#[test]
fn remove_by_index_moves_later_todos_up() {
    let (mut file, content) = five_line_file();
    let out = remove_todo_by_index(&mut file, 1, content.as_bytes());
    assert_eq!(
        String::from_utf8(out).unwrap(),
        "// TODO: one\ncode();\nmore();\n// TODO: five"
    );
    assert_eq!(
        lines_and_contents(&file),
        vec![(1, "one".to_string()), (4, "five".to_string())]
    );
    assert_eq!(file.filepath, "src/five.rs");
}

#[test]
fn remove_by_index_of_first_and_last() {
    let (mut file, content) = five_line_file();
    let out = remove_todo_by_index(&mut file, 0, content.as_bytes());
    assert_eq!(
        String::from_utf8(out).unwrap(),
        "code();\n// TODO: three\nmore();\n// TODO: five"
    );
    assert_eq!(
        lines_and_contents(&file),
        vec![(2, "three".to_string()), (4, "five".to_string())]
    );

    let (mut file, content) = five_line_file();
    let out = remove_todo_by_index(&mut file, 2, content.as_bytes());
    assert_eq!(
        String::from_utf8(out).unwrap(),
        "// TODO: one\ncode();\n// TODO: three\nmore();"
    );
    assert_eq!(
        lines_and_contents(&file),
        vec![(1, "one".to_string()), (3, "three".to_string())]
    );
}

#[test]
fn remove_by_line_finds_the_todo_of_the_line() {
    let (mut file, content) = five_line_file();
    let out = remove_todo_by_line(&mut file, 3, content.as_bytes()).unwrap();
    assert_eq!(
        String::from_utf8(out).unwrap(),
        "// TODO: one\ncode();\nmore();\n// TODO: five"
    );
    assert_eq!(
        lines_and_contents(&file),
        vec![(1, "one".to_string()), (4, "five".to_string())]
    );
}

#[test]
fn remove_by_line_without_a_todo_on_the_line_changes_nothing() {
    let (mut file, content) = five_line_file();
    for line in [2, 4, 99, 0] {
        match remove_todo_by_line(&mut file, line, content.as_bytes()) {
            Err(TodoRError::TodoNotFound { line: l }) => assert_eq!(l, line),
            other => panic!("unexpected result: {:?}", other),
        }
        assert_eq!(
            lines_and_contents(&file),
            vec![
                (1, "one".to_string()),
                (3, "three".to_string()),
                (5, "five".to_string())
            ]
        );
    }
}

#[test]
fn remove_by_line_in_a_file_without_todos_is_not_found() {
    let mut file = TodoFile::new("empty.rs");
    let r = remove_todo_by_line(&mut file, 1, b"code();");
    assert!(matches!(r, Err(TodoRError::TodoNotFound { line: 1 })));
    assert!(file.is_empty());
}

#[test]
fn remove_by_line_moves_up_all_todos_after_the_one_found() {
    let mut file = TodoFile::new("twice.rs");
    file.set_todos(vec![
        Todo::new(2, "TODO", "a"),
        Todo::new(2, "TODO", "b"),
        Todo::new(4, "TODO", "c"),
    ]);
    let out = remove_todo_by_line(&mut file, 2, b"x\n/* TODO: a */\ny\n// TODO: c").unwrap();
    assert_eq!(String::from_utf8(out).unwrap(), "x\ny\n// TODO: c");
    assert_eq!(
        lines_and_contents(&file),
        vec![(1, "b".to_string()), (3, "c".to_string())]
    );
}
