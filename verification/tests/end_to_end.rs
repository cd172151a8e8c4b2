use todo_r::comments::CommentTypes;
use todo_r::maps::CommentRegexMultiMap;
use todo_r::parser::{build_parser_regexs, parse_content};
use todo_r::remover::{copy_except_line, remove_todo_by_index};
use todo_r::todo::{Todo, TodoFile};
use todo_r::TodoR;

fn rust_regexs() -> Vec<regex::Regex> {
    let types = CommentTypes::new().add_single("//").add_block("/*", "*/");
    build_parser_regexs(&types, &["TODO".to_string(), "FIXME".to_string()]).unwrap()
}

fn summary(todos: &[Todo]) -> Vec<(usize, String, String)> {
    todos
        .iter()
        .map(|t| (t.line, t.tag.clone(), t.content.clone()))
        .collect()
}

const SOURCE: &str = "// TODO: a\nfn f() {}\n/* FIXME(bob): b */ g();\n\n// todo: c @ann\nlast();\n// fixme: d";

#[test]
fn same_content_gives_the_same_todos() {
    let regexs = rust_regexs();
    let first = summary(&parse_content(SOURCE.as_bytes(), &regexs));
    let second = summary(&parse_content(SOURCE.as_bytes(), &regexs));
    let other_regexs = rust_regexs();
    let third = summary(&parse_content(SOURCE.as_bytes(), &other_regexs));
    assert_eq!(first.len(), 4);
    assert_eq!(first, second);
    assert_eq!(first, third);

    let mut todor = TodoR::new();
    todor.find_todos(SOURCE, "rs").unwrap();
    todor.find_todos(SOURCE, "rs").unwrap();
    let files = todor.todo_files();
    assert_eq!(summary(&files[0].todos), first);
    assert_eq!(summary(&files[0].todos), summary(&files[1].todos));
}

#[test]
fn removing_then_scanning_again_gives_the_renumbered_list() {
    let regexs = rust_regexs();
    let before = parse_content(SOURCE.as_bytes(), &regexs);
    for i in 0..before.len() {
        let mut file = TodoFile::new("source.rs");
        file.set_todos(parse_content(SOURCE.as_bytes(), &regexs));
        let content = remove_todo_by_index(&mut file, i, SOURCE.as_bytes());
        let again = parse_content(&content, &regexs);
        assert_eq!(summary(&file.todos), summary(&again));
        assert_eq!(again.len(), before.len() - 1);
        for (j, todo) in again.iter().enumerate() {
            if j < i {
                assert_eq!(todo.line, before[j].line);
                assert_eq!(todo.content, before[j].content);
            } else {
                assert_eq!(todo.line, before[j + 1].line - 1);
                assert_eq!(todo.content, before[j + 1].content);
            }
        }
    }
}

#[test]
fn removing_line_three_of_five_moves_line_five_to_four() {
    let content = "a();\nb();\n// TODO: three\nc();\n// TODO: five";
    let regexs = rust_regexs();
    let mut file = TodoFile::new("five.rs");
    file.set_todos(parse_content(content.as_bytes(), &regexs));
    assert_eq!(file.todos.iter().map(|t| t.line).collect::<Vec<_>>(), vec![3, 5]);
    let out = remove_todo_by_index(&mut file, 0, content.as_bytes());
    assert_eq!(out.split(|b| *b == b'\n').count(), 4);
    let again = parse_content(&out, &regexs);
    assert_eq!(summary(&again), vec![(4, "TODO".to_string(), "five".to_string())]);
    assert_eq!(summary(&file.todos), summary(&again));
}

#[test]
fn line_without_a_todo_leaves_the_content_byte_for_byte() {
    let content = "a();\n// TODO: two\nb();";
    let mut todor = TodoR::new();
    todor.open_todos("f.rs", Some("rs"), content.as_bytes()).unwrap();
    let r = todor.remove_todo_line("f.rs", 99, content.as_bytes());
    assert!(matches!(r, Err(todo_r::errors::TodoRError::TodoNotFound { line: 99 })));
    assert_eq!(todor.todo_files()[0].todos[0].line, 2);
    let mut copy = Vec::new();
    copy_except_line(content.as_bytes(), &mut copy, 99);
    assert_eq!(copy, content.as_bytes());
}

#[test]
fn unknown_extension_is_read_as_the_default_extension() {
    let mut todor = TodoR::new();
    let content = "# TODO: hash\n// TODO: slashes\n% TODO: percent";
    todor.find_todos(content, "no-such-ext").unwrap();
    todor.find_todos(content, "sh").unwrap();
    let files = todor.todo_files();
    assert_eq!(summary(&files[0].todos), vec![(1, "TODO".to_string(), "hash".to_string())]);
    assert_eq!(summary(&files[0].todos), summary(&files[1].todos));
}

#[test]
fn second_resolve_does_not_see_new_tags() {
    let mut map = CommentRegexMultiMap::new(CommentTypes::new().add_single("#"));
    map.insert("rs".to_string(), CommentTypes::new().add_single("//"));
    let first: Vec<String> = map
        .get("rs", &["TODO".to_string()])
        .unwrap()
        .iter()
        .map(|r| r.as_str().to_string())
        .collect();
    let second = map.get("rs", &["OTHER".to_string()]).unwrap();
    assert_eq!(second.len(), 1);
    assert_eq!(second[0].as_str(), first[0]);
    assert!(second[0].is_match("// TODO: x"));
    assert!(!second[0].is_match("// OTHER: x"));
}
