use todo_r::comments::CommentTypes;
use todo_r::parser::{
    build_parser_regexs, parse_content, parse_content_with_filter, todo_from_captures,
};
use todo_r::todo::Todo;

fn comment_types_for(file_ext: &str) -> CommentTypes {
    match file_ext {
        "rs" => CommentTypes::new().add_single("//").add_block("/*", "*/"),
        "c" => CommentTypes::new().add_single("//").add_block("/*", "*/"),
        "py" => CommentTypes::new()
            .add_single("#")
            .add_block("\"\"\"", "\"\"\""),
        _ => CommentTypes::new().add_single("//").add_block("/*", "*/"),
    }
}

fn parse(content: &str, file_ext: &str) -> Vec<Todo> {
    let comment_types = comment_types_for(file_ext);
    parse_content(
        content.as_bytes(),
        &build_parser_regexs(&comment_types, &["TODO".to_string()]).unwrap(),
    )
}

fn test_content(content: &str, exp_result: Option<&str>, file_ext: &str) {
    let todos = parse(content, file_ext);

    if todos.is_empty() {
        assert_eq!(exp_result, None);
    } else {
        assert_eq!(exp_result, Some(todos[0].content.as_str()));
    }
}

fn test_users(content: &str, exp_content: Option<&str>, exp_users: &[&str], file_ext: &str) {
    let todos = parse(content, file_ext);

    if todos.is_empty() {
        assert_eq!(exp_content, None);
    } else {
        assert_eq!(exp_content, Some(todos[0].content.as_str()));
        assert_eq!(exp_users.len(), todos[0].users().len());
        for user in exp_users {
            assert!(todos[0].tags_user(user));
        }
    }
}

#[test]
fn find_todos_block_and_line1() {
    test_content("/* // todo: item */", None, "rs");
}

#[test]
fn find_todos_block_and_line2() {
    test_content("/* todo: // item */", Some("// item"), "rs");
}

#[test]
fn find_todos_block_and_line3() {
    test_content(" // /* todo: item */", None, "rs");
}

#[test]
fn find_todos_block_and_line4() {
    test_content(" //   todo:  /* item */", Some("/* item */"), "rs");
}

#[test]
fn find_todos_py_in_c_file() {
    test_content("# todo: item \t ", None, "c");
}

#[test]
fn find_todos_c_comment_in_py_comment() {
    test_content("# todo: \\ todo: item \t ", Some("\\ todo: item"), "py");
}

#[test]
fn find_todos_c_comment_in_py_comment_in_c_file() {
    test_content("# todo: \\ todo: item \t ", None, "c");
}

#[test]
fn find_user() {
    test_users("// todo(u): item  \t ", Some("@u item"), &["u"], "c");
}

#[test]
fn find_users() {
    test_users(
        "// todo(u): @u1 item @u2 \t ",
        Some("@u @u1 item @u2"),
        &["u", "u1", "u2"],
        "c",
    );
}

#[test]
fn single_line_comment_gives_one_todo() {
    let todos = parse("// TODO: fix this", "rs");
    assert_eq!(todos.len(), 1);
    assert_eq!(todos[0].line, 1);
    assert_eq!(todos[0].tag, "TODO");
    assert_eq!(todos[0].content, "fix this");
}

#[test]
fn block_comment_before_code_gives_one_todo() {
    let todos = parse("/* TODO: multi */ code();", "rs");
    assert_eq!(todos.len(), 1);
    assert_eq!(todos[0].line, 1);
    assert_eq!(todos[0].tag, "TODO");
    assert_eq!(todos[0].content, "multi");
}

#[test]
fn block_comment_over_two_lines_gives_no_todo() {
    let todos = parse("/* TODO: multi\n   line */ code();", "rs");
    assert!(todos.is_empty());
}

#[test]
fn user_in_parentheses_is_put_before_the_content() {
    let todos = parse("// TODO(alice): ship it", "rs");
    assert_eq!(todos.len(), 1);
    assert_eq!(todos[0].content, "@alice ship it");
    assert!(todos[0].tags_user("alice"));
}

#[test]
fn lines_are_numbered_from_one() {
    let content = "fn main() {\n    // TODO: first\n    run();\n    // todo: second\n}\n";
    let todos = parse(content, "rs");
    assert_eq!(todos.len(), 2);
    assert_eq!((todos[0].line, todos[0].content.as_str()), (2, "first"));
    assert_eq!((todos[1].line, todos[1].content.as_str()), (4, "second"));
    assert_eq!(todos[1].tag, "TODO");
}

#[test]
fn empty_content_gives_no_todo() {
    assert!(parse("", "rs").is_empty());
    assert!(parse("\n\n", "rs").is_empty());
}

#[test]
fn carriage_return_before_line_feed_is_no_part_of_the_line() {
    let todos = parse("// TODO: one\r\n// TODO: two\r\n", "rs");
    assert_eq!(todos.len(), 2);
    assert_eq!(todos[0].content, "one");
    assert_eq!((todos[1].line, todos[1].content.as_str()), (2, "two"));
}

#[test]
fn invalid_utf8_is_read_with_replacement_characters() {
    let mut content = b"// TODO: caf".to_vec();
    content.push(0xff);
    content.extend_from_slice(b" now\n// TODO: next");
    let regexs =
        build_parser_regexs(&comment_types_for("rs"), &["TODO".to_string()]).unwrap();
    let todos = parse_content(&content, &regexs);
    assert_eq!(todos.len(), 2);
    assert_eq!(todos[0].content, "caf\u{fffd} now");
    assert_eq!((todos[1].line, todos[1].content.as_str()), (2, "next"));
}

#[test]
fn line_matched_by_two_expressions_gives_two_todos() {
    let comment_types = CommentTypes::new().add_single("//").add_single("//");
    let regexs = build_parser_regexs(&comment_types, &["TODO".to_string()]).unwrap();
    let todos = parse_content(b"// TODO: twice\n// TODO: again", &regexs);
    assert_eq!(todos.len(), 4);
    assert_eq!(todos[0].line, 1);
    assert_eq!(todos[1].line, 1);
    assert_eq!(todos[2].line, 2);
    assert_eq!(todos[3].line, 2);
    assert_eq!(todos[1].content, "twice");
}

#[test]
fn expressions_are_tried_in_the_order_of_the_comment_types() {
    let comment_types = CommentTypes::new().add_block("/*", "*/").add_single("/*");
    let regexs = build_parser_regexs(&comment_types, &["TODO".to_string()]).unwrap();
    let todos = parse_content(b"/* TODO: item */", &regexs);
    assert_eq!(todos.len(), 2);
    assert_eq!(todos[0].content, "item");
    assert_eq!(todos[1].content, "item */");
}

#[test]
fn scanning_twice_gives_the_same_todos() {
    let content = "// TODO: a\nlet x = 1; // not this\n/* FIXME(bob): b */\n# todo: c";
    let comment_types = comment_types_for("rs");
    let tags = vec!["TODO".to_string(), "FIXME".to_string()];
    let regexs = build_parser_regexs(&comment_types, &tags).unwrap();
    let first = parse_content(content.as_bytes(), &regexs);
    let second = parse_content(content.as_bytes(), &regexs);
    assert_eq!(first.len(), 2);
    assert_eq!(first.len(), second.len());
    for (a, b) in first.iter().zip(second.iter()) {
        assert_eq!((a.line, &a.tag, &a.content), (b.line, &b.tag, &b.content));
    }
    assert_eq!(first[1].tag, "FIXME");
    assert_eq!(first[1].content, "@bob b");
}

#[test]
fn filter_keeps_the_todos_that_satisfy_it() {
    let content = "// TODO: a @ann\n// TODO: b\n// TODO(ann): c\n// TODO: d @bob";
    let regexs =
        build_parser_regexs(&comment_types_for("rs"), &["TODO".to_string()]).unwrap();
    let todos = parse_content_with_filter(content.as_bytes(), &regexs, |t: &Todo| {
        t.tags_user("ann")
    });
    assert_eq!(todos.len(), 2);
    assert_eq!((todos[0].line, todos[0].content.as_str()), (1, "a @ann"));
    assert_eq!((todos[1].line, todos[1].content.as_str()), (3, "@ann c"));
    let none = parse_content_with_filter(content.as_bytes(), &regexs, |_t: &Todo| false);
    assert!(none.is_empty());
    let all = parse_content_with_filter(content.as_bytes(), &regexs, |_t: &Todo| true);
    assert_eq!(all.len(), 4);
}

#[test]
fn build_parser_regexs_gives_one_expression_for_each_comment_type() {
    let regexs =
        build_parser_regexs(&comment_types_for("py"), &["TODO".to_string()]).unwrap();
    assert_eq!(regexs.len(), 2);
    assert!(regexs[0].is_match("# todo: x"));
    assert!(!regexs[1].is_match("# todo: x"));
    assert!(regexs[1].is_match("\"\"\" todo: x \"\"\""));
    let none = build_parser_regexs(&CommentTypes::new(), &["TODO".to_string()]).unwrap();
    assert!(none.is_empty());
}

#[test]
fn build_parser_regexs_fails_on_a_tag_that_is_no_expression() {
    let r = build_parser_regexs(&comment_types_for("rs"), &["(".to_string()]);
    assert!(r.is_err());
}

#[test]
fn todo_from_captures_trims_the_content() {
    let groups = vec![
        Some("// todo:  item \t".to_string()),
        Some("todo".to_string()),
        None,
        Some("  item \t".to_string()),
        None,
    ];
    let todo = todo_from_captures(7, &groups).unwrap();
    assert_eq!(todo.line, 7);
    assert_eq!(todo.tag, "TODO");
    assert_eq!(todo.content, "item");
}

#[test]
fn todo_from_captures_puts_the_user_first() {
    let groups = vec![
        Some("// todo(u): item".to_string()),
        Some("todo".to_string()),
        Some("u".to_string()),
        Some("item ".to_string()),
        None,
    ];
    let todo = todo_from_captures(1, &groups).unwrap();
    assert_eq!(todo.content, "@u item");
}

#[test]
fn todo_from_captures_needs_tag_and_content() {
    let no_tag = vec![Some("x".to_string()), None, None, Some("item".to_string())];
    assert!(todo_from_captures(1, &no_tag).is_none());
    let no_content = vec![Some("x".to_string()), Some("todo".to_string()), None, None];
    assert!(todo_from_captures(1, &no_content).is_none());
    let short = vec![Some("x".to_string()), Some("todo".to_string()), None];
    assert!(todo_from_captures(1, &short).is_none());
    let none: Vec<Option<String>> = Vec::new();
    assert!(todo_from_captures(1, &none).is_none());
}
