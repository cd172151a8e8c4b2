use todo_r::comments::CommentType;
use todo_r::configs::{
    default_config, CommentsConfig, ConfigFragment, StyleConfig, StylesConfig, TagStyle,
};
use todo_r::display::{Color, Style};
use todo_r::errors::TodoRError;
use todo_r::{TodoR, TodoRBuilder};

fn contents(todor: &TodoR) -> Vec<(usize, String, String)> {
    todor
        .iter()
        .iter()
        .map(|p| (p.todo.line, p.todo.tag.clone(), p.todo.content.clone()))
        .collect()
}

fn entry(line: usize, tag: &str, content: &str) -> (usize, String, String) {
    (line, tag.to_string(), content.to_string())
}

const TEST1: &str = "// regular comment\n// TODO: item\n// TAG: item tag\n// FOO: bar\n// ITEM: item2\n";

#[test]
fn built_in_configuration_looks_for_todo_and_fixme() {
    let todor = TodoRBuilder::new().build().unwrap();
    assert_eq!(todor.tags().to_vec(), vec!["TODO".to_string(), "FIXME".to_string()]);
    assert!(todor.ignore_paths().is_empty());
    let styles = todor.styles();
    let white = Style {
        foreground: Some(Color::White),
        is_bold: false,
        is_italic: false,
        is_underline: true,
    };
    assert_eq!(styles.filepath_style, white);
    assert_eq!(styles.user_style.foreground, Some(Color::Fixed(8)));
    assert_eq!(styles.line_number_style.foreground, Some(Color::Fixed(8)));
    assert_eq!(styles.content_style.foreground, Some(Color::Cyan));
    assert_eq!(styles.tag_style("TODO").foreground, Some(Color::Green));
    assert!(!styles.tag_style("TODO").is_bold);
}

#[test]
fn default_config_names_about_thirty_five_extensions() {
    let config = default_config();
    let n: usize = config
        .comments
        .iter()
        .map(|c| c.exts.as_ref().map_or(0, |e| e.len()) + c.ext.iter().count())
        .sum();
    assert_eq!(n, 37);
    assert_eq!(config.default_ext.as_deref(), Some("sh"));
}

#[test]
fn builder_without_configuration_has_no_default_extension() {
    match TodoRBuilder::with_no_config().build() {
        Err(TodoRError::InvalidDefaultExtension { ext }) => assert_eq!(ext, ""),
        other => panic!("unexpected result: {:?}", other),
    }
}

#[test]
fn unknown_default_extension_is_an_error() {
    let mut builder = TodoRBuilder::new();
    builder.set_default_ext("nope").unwrap();
    match builder.build() {
        Err(TodoRError::InvalidDefaultExtension { ext }) => assert_eq!(ext, "nope"),
        other => panic!("unexpected result: {:?}", other),
    }
}

#[test]
fn default_extension_of_a_fragment_is_checked_too() {
    let mut builder = TodoRBuilder::new();
    let mut fragment = ConfigFragment::new();
    fragment.default_ext = Some("zz".to_string());
    builder.add_config_file(fragment);
    let err = builder.build().unwrap_err();
    assert_eq!(err.to_string(), "'zz' is an invalid default extension");
}

#[test]
fn added_tag_stands_beside_the_tags_of_the_fragments() {
    let mut builder = TodoRBuilder::new();
    builder.add_tag("foo");
    let mut todor = builder.build().unwrap();
    assert_eq!(
        todor.tags().to_vec(),
        vec!["TODO".to_string(), "FIXME".to_string(), "FOO".to_string()]
    );
    todor.find_todos(TEST1, "rs").unwrap();
    assert_eq!(contents(&todor), vec![entry(2, "TODO", "item"), entry(4, "FOO", "bar")]);
}

#[test]
fn added_tags_keep_their_order() {
    let mut builder = TodoRBuilder::new();
    builder.add_tag("b").add_tags(&["c", "a"]).add_tag("d");
    let todor = builder.build().unwrap();
    let tags: Vec<&str> = todor.tags().iter().map(|s| s.as_str()).collect();
    assert_eq!(tags, vec!["TODO", "FIXME", "B", "C", "A", "D"]);
}

#[test]
fn override_tags_replace_all_other_tags() {
    let mut builder = TodoRBuilder::new();
    builder.add_tag("extra");
    builder.add_override_tag("foo");
    let mut todor = builder.build().unwrap();
    assert_eq!(todor.tags().to_vec(), vec!["FOO".to_string()]);
    todor.find_todos(TEST1, "rs").unwrap();
    assert_eq!(contents(&todor), vec![entry(4, "FOO", "bar")]);
}

#[test]
fn override_tags_add_up() {
    let mut builder = TodoRBuilder::new();
    builder.add_override_tags(&["todo", "foo"]).add_override_tag("tag");
    let mut todor = builder.build().unwrap();
    todor.find_todos(TEST1, "rs").unwrap();
    assert_eq!(
        contents(&todor),
        vec![entry(2, "TODO", "item"), entry(3, "TAG", "item tag"), entry(4, "FOO", "bar")]
    );
}

#[test]
fn tags_of_a_later_fragment_replace_those_before() {
    let mut builder = TodoRBuilder::new();
    let mut first = ConfigFragment::new();
    first.tags = Some(vec!["foo".to_string()]);
    let second = ConfigFragment::new();
    let mut third = ConfigFragment::new();
    third.tags = Some(vec!["foo".to_string(), "item".to_string()]);
    builder.add_config_file(first);
    builder.add_config_file(second);
    let mut mid = TodoRBuilder::new();
    let mut only_first = ConfigFragment::new();
    only_first.tags = Some(vec!["foo".to_string()]);
    mid.add_config_file(only_first).add_config_file(ConfigFragment::new());
    assert_eq!(mid.build().unwrap().tags().to_vec(), vec!["FOO".to_string()]);
    builder.add_config_file(third);
    let mut todor = builder.build().unwrap();
    assert_eq!(todor.tags().to_vec(), vec!["FOO".to_string(), "ITEM".to_string()]);
    todor.find_todos(TEST1, "rs").unwrap();
    assert_eq!(contents(&todor), vec![entry(4, "FOO", "bar"), entry(5, "ITEM", "item2")]);
}

fn rs_with_dashes() -> ConfigFragment {
    let mut fragment = ConfigFragment::new();
    fragment.comments.push(CommentsConfig {
        ext: Some("rs".to_string()),
        exts: None,
        types: vec![CommentType::new_single("--")],
    });
    fragment
}

#[test]
fn entry_of_a_fragment_replaces_the_built_in_entry_whole() {
    let mut builder = TodoRBuilder::new();
    builder.add_config_file(rs_with_dashes());
    builder.add_tag("foo");
    let mut todor = builder.build().unwrap();
    let content = "// TODO: slashes\n-- TODO: dashes\n/* TODO: block */\n-- foo: added";
    todor.find_todos(content, "rs").unwrap();
    assert_eq!(contents(&todor), vec![entry(2, "TODO", "dashes"), entry(4, "FOO", "added")]);
    todor.find_todos(content, "c").unwrap();
    assert_eq!(todor.todo_files()[1].len(), 2);
    assert_eq!(todor.todo_files()[1].todos[0].content, "slashes");
    assert_eq!(todor.todo_files()[1].todos[1].content, "block");
}

#[test]
fn extensions_of_an_entry_are_the_list_and_the_single_one() {
    let mut fragment = ConfigFragment::new();
    fragment.comments.push(CommentsConfig {
        ext: Some("one".to_string()),
        exts: Some(vec!["two".to_string(), "three".to_string()]),
        types: vec![CommentType::new_single("%%")],
    });
    let entry_copy = fragment.comments[0].clone();
    let (ext, exts, types) = entry_copy.break_apart();
    assert_eq!(ext.as_deref(), Some("one"));
    assert_eq!(exts.unwrap(), vec!["two".to_string(), "three".to_string()]);
    assert_eq!(types.as_slice()[0].prefix(), "%%");
    let (keys, _) = fragment.comments[0].clone().into_keys_and_types();
    assert_eq!(keys, vec!["two".to_string(), "three".to_string(), "one".to_string()]);

    let mut builder = TodoRBuilder::new();
    builder.add_config_file(fragment);
    let mut todor = builder.build().unwrap();
    for ext in ["one", "two", "three"] {
        todor.find_todos("%% TODO: here\n# TODO: not here", ext).unwrap();
    }
    assert_eq!(todor.num_files(), 3);
    assert_eq!(todor.num_todos(), 3);
}

#[test]
fn default_extension_answers_for_unknown_extensions() {
    let mut builder = TodoRBuilder::new();
    builder.set_default_ext("c").unwrap();
    let mut todor = builder.build().unwrap();
    let content = "// TODO: slashes\n# TODO: hash";
    todor.find_todos(content, "unknown").unwrap();
    todor.find_todos(content, "c").unwrap();
    todor.find_todos(content, "sh").unwrap();
    let files = todor.todo_files();
    assert_eq!(files[0].todos[0].content, "slashes");
    assert_eq!(files[0].len(), files[1].len());
    assert_eq!(files[0].todos[0].content, files[1].todos[0].content);
    assert_eq!(files[2].todos[0].content, "hash");
}

#[test]
fn override_of_the_default_extension_wins_over_the_fragments() {
    let mut builder = TodoRBuilder::new();
    let mut fragment = ConfigFragment::new();
    fragment.default_ext = Some("py".to_string());
    builder.add_config_file(fragment);
    let mut by_fragment = TodoRBuilder::new();
    let mut same = ConfigFragment::new();
    same.default_ext = Some("py".to_string());
    by_fragment.add_config_file(same);
    let mut todor = by_fragment.build().unwrap();
    todor.find_todos("\"\"\" TODO: doc \"\"\"", "unknown").unwrap();
    assert_eq!(todor.num_todos(), 1);

    builder.set_default_ext("tex").unwrap();
    let mut todor = builder.build().unwrap();
    todor.find_todos("\"\"\" TODO: doc \"\"\"\n% TODO: tex", "unknown").unwrap();
    assert_eq!(contents(&todor), vec![entry(2, "TODO", "tex")]);
}

#[test]
fn ignore_paths_come_from_the_last_fragment_or_the_override() {
    let mut fragment = ConfigFragment::new();
    fragment.ignore = Some(vec!["target/".to_string(), "*.min.js".to_string()]);
    let mut builder = TodoRBuilder::new();
    builder.add_config_file(fragment);
    let mut same = ConfigFragment::new();
    same.ignore = Some(vec!["target/".to_string(), "*.min.js".to_string()]);
    let mut plain = TodoRBuilder::new();
    plain.add_config_file(same);
    assert_eq!(
        plain.build().unwrap().ignore_paths().to_vec(),
        vec!["target/".to_string(), "*.min.js".to_string()]
    );
    builder.add_override_ignore_path("a").add_override_ignore_paths(&["b", "c"]);
    assert_eq!(
        builder.build().unwrap().ignore_paths().to_vec(),
        vec!["a".to_string(), "b".to_string(), "c".to_string()]
    );
}

fn fragment_with_styles(tag: &str, fixme: &str) -> ConfigFragment {
    let mut styles = StylesConfig::default();
    styles.tag = StyleConfig::Named(tag.to_string());
    styles.tags.push(TagStyle {
        tag: "fixme".to_string(),
        style: StyleConfig::Named(fixme.to_string()),
    });
    let mut fragment = ConfigFragment::new();
    fragment.styles = Some(styles);
    fragment
}

#[test]
fn styles_of_a_fragment_are_read_when_building() {
    let mut builder = TodoRBuilder::new();
    builder.add_config_file(fragment_with_styles("b_red", "u_9"));
    let todor = builder.build().unwrap();
    let styles = todor.styles();
    assert_eq!(styles.tag_style("TODO").foreground, Some(Color::Red));
    assert!(styles.tag_style("TODO").is_bold);
    assert_eq!(styles.tag_style("FIXME").foreground, Some(Color::Fixed(9)));
    assert!(styles.tag_style("FIXME").is_underline);
    assert_eq!(styles.content_style.foreground, Some(Color::Cyan));
    assert!(styles.filepath_style.is_underline);
}

#[test]
fn style_that_cannot_be_read_is_an_invalid_configuration() {
    let mut builder = TodoRBuilder::new();
    builder.add_config_file(fragment_with_styles("redd", "red"));
    assert_eq!(
        builder.build().unwrap_err().to_string(),
        "invalid config file: 'redd' is not a valid ANSI color."
    );
    let mut builder = TodoRBuilder::new();
    builder.add_config_file(fragment_with_styles("red", "x_red"));
    builder.set_no_style();
    builder.set_default_ext("nope").unwrap();
    match builder.build() {
        Err(TodoRError::InvalidConfigFile { message }) => assert_eq!(
            message,
            "'x' is not a valid ANSI style modifier. Try using 'b', 'i', or 'u'"
        ),
        other => panic!("unexpected result: {:?}", other),
    }
}

#[test]
fn no_style_gives_plain_styles() {
    let mut builder = TodoRBuilder::new();
    builder.add_config_file(fragment_with_styles("b_red", "u_9"));
    builder.set_no_style();
    let todor = builder.build().unwrap();
    let plain = Style { foreground: None, is_bold: false, is_italic: false, is_underline: false };
    let styles = todor.styles();
    assert_eq!(styles.filepath_style, plain);
    assert_eq!(styles.line_number_style, plain);
    assert_eq!(styles.user_style, plain);
    assert_eq!(styles.content_style, plain);
    assert_eq!(*styles.tag_style("TODO"), plain);
    assert_eq!(*styles.tag_style("FIXME"), plain);
}

#[test]
fn with_tags_looks_for_the_given_tags_only() {
    let mut todor = TodoR::with_tags(&["foo"]);
    todor.find_todos(TEST1, "rs").unwrap();
    assert_eq!(contents(&todor), vec![entry(4, "FOO", "bar")]);
    let mut none = TodoR::with_tags(&["none"]);
    none.find_todos(TEST1, "rs").unwrap();
    assert_eq!(none.num_todos(), 0);
}

#[test]
fn example_config_is_written_to_the_buffer() {
    let mut out = b"# ".to_vec();
    todo_r::write_example_config(&mut out);
    let text = String::from_utf8(out).unwrap();
    assert!(text.starts_with("# {\n"));
    assert!(text.contains("\"default_ext\": \"sh\""));
    assert_eq!(&text[2..], todo_r::example::EXAMPLE_CONFIG);
}
