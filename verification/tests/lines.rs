use todo_r::builder::all_to_uppercase;
use todo_r::comments::CommentTypes;
use todo_r::configs::to_strings;
use todo_r::custom_tags::join_tags;
use todo_r::lines::{line_end, without_cr, CR, LF};
use todo_r::TodoRBuilder;

#[test]
fn line_ends_at_the_next_line_feed() {
    let content = b"ab\n\ncd";
    assert_eq!(line_end(content, 0), 2);
    assert_eq!(line_end(content, 1), 2);
    assert_eq!(line_end(content, 2), 2);
    assert_eq!(line_end(content, 3), 3);
    assert_eq!(line_end(content, 4), 6);
    assert_eq!(line_end(content, 6), 6);
    assert_eq!(line_end(b"", 0), 0);
    assert_eq!((LF, CR), (b'\n', b'\r'));
}

#[test]
fn one_carriage_return_is_taken_from_the_end() {
    assert_eq!(without_cr(b"abc\r"), b"abc");
    assert_eq!(without_cr(b"abc\r\r"), b"abc\r");
    assert_eq!(without_cr(b"a\rbc"), b"a\rbc");
    assert_eq!(without_cr(b"\r"), b"");
    assert_eq!(without_cr(b""), b"");
}

#[test]
fn tags_are_joined_with_bars() {
    let none: Vec<String> = Vec::new();
    assert_eq!(join_tags(&none), "");
    assert_eq!(join_tags(&["TODO".to_string()]), "TODO");
    assert_eq!(
        join_tags(&["TODO".to_string(), "".to_string(), "FIX ME".to_string()]),
        "TODO||FIX ME"
    );
}

#[test]
fn strings_are_copied_in_order() {
    assert_eq!(to_strings(&["b", "", "a"]), vec!["b".to_string(), "".to_string(), "a".to_string()]);
    assert!(to_strings(&[]).is_empty());
}

#[test]
fn tags_are_put_into_upper_case() {
    let tags = vec!["todo".to_string(), "FixMe".to_string(), "straße".to_string(), "".to_string()];
    assert_eq!(
        all_to_uppercase(tags),
        vec!["TODO".to_string(), "FIXME".to_string(), "STRASSE".to_string(), "".to_string()]
    );
}

#[test]
fn default_builder_has_no_configuration() {
    assert!(TodoRBuilder::default().build().is_err());
    let mut builder = TodoRBuilder::default();
    builder.add_config_file(todo_r::configs::default_config());
    assert_eq!(builder.clone().build().unwrap().tags().len(), 2);
    assert_eq!(builder.build().unwrap().num_files(), 0);
    assert!(CommentTypes::default().as_slice().is_empty());
}
