use todo_r::comments::{unescape, BlockComment, CommentType, CommentTypes, SingleLineComment};

#[test]
fn single_comment_has_the_end_of_line_as_suffix() {
    let c = CommentType::new_single("//");
    assert_eq!(c.prefix(), "//");
    assert_eq!(c.suffix(), "$");
    assert!(matches!(c, CommentType::SingleLine(_)));
}

#[test]
fn block_comment_tokens_are_escaped() {
    let c = CommentType::new_block("/*", "*/");
    assert_eq!(c.prefix(), r"/\*");
    assert_eq!(c.suffix(), r"\*/");
    assert!(matches!(c, CommentType::Block(_)));
}

#[test]
fn every_meta_character_is_escaped() {
    let c = CommentType::new_single(r"\.+*?()|[]{}^$#&-~");
    assert_eq!(c.prefix(), r"\\\.\+\*\?\(\)\|\[\]\{\}\^\$\#\&\-\~");
    let plain = CommentType::new_single("<!-- %\"/ab é");
    assert_eq!(plain.prefix(), r#"<!\-\- %"/ab é"#);
    assert_eq!(CommentType::new_single("").prefix(), "");
}

#[test]
fn tokens_are_escaped_once() {
    let single = CommentType::SingleLine(SingleLineComment::new("#"));
    assert_eq!(single.prefix(), r"\#");
    assert_eq!(single.clone().prefix(), r"\#");
    let block = CommentType::Block(BlockComment::new("(*", "*)"));
    assert_eq!(block.prefix(), r"\(\*");
    assert_eq!(block.clone().suffix(), r"\*\)");
}

#[test]
fn comment_types_keep_their_order() {
    let types = CommentTypes::new()
        .add_single("//")
        .add_block("/*", "*/")
        .add_single("#");
    let prefixes: Vec<&str> = types.iter().map(|c| c.prefix()).collect();
    assert_eq!(prefixes, vec!["//", r"/\*", r"\#"]);
    let suffixes: Vec<&str> = types.as_slice().iter().map(|c| c.suffix()).collect();
    assert_eq!(suffixes, vec!["$", r"\*/", "$"]);
    assert_eq!(types.clone().as_slice().len(), 3);
    assert!(CommentTypes::new().as_slice().is_empty());
    assert_eq!(CommentTypes::new().iter().count(), 0);
}

#[test]
fn comment_types_from_a_vec() {
    let types = CommentTypes::from_vec(vec![
        CommentType::new_block("<!--", "-->"),
        CommentType::new_single("%"),
    ]);
    assert_eq!(types.as_slice().len(), 2);
    assert_eq!(types.as_slice()[0].suffix(), r"\-\->");
    assert_eq!(types.as_slice()[1].prefix(), "%");
}

#[test]
fn comments_turn_into_comment_types() {
    let single: CommentType = SingleLineComment::new("--").into();
    assert!(matches!(single, CommentType::SingleLine(_)));
    assert_eq!(single.prefix(), r"\-\-");
    let block = CommentType::from(BlockComment::new("{-", "-}"));
    assert!(matches!(block, CommentType::Block(_)));
    assert_eq!(block.suffix(), r"\-\}");
}

#[test]
fn unescape_takes_the_backslashes_out() {
    assert_eq!(unescape(r"/\*"), "/*");
    assert_eq!(unescape(r"\\\.\+"), r"\.+");
    assert_eq!(unescape("é<!"), "é<!");
    assert_eq!(unescape(""), "");
    assert_eq!(unescape(r"a\"), "a");
    assert_eq!(unescape(r"\é\\"), r"é\");
}

#[test]
fn unescape_undoes_the_escaping() {
    for raw in ["//", "/*", "*/", "#", "<!--", r"\.+*?()|[]{}^$#&-~", "\"\"\"", "", "(* é *)"] {
        let single = CommentType::new_single(raw);
        assert_eq!(unescape(single.prefix()), raw);
        let block = CommentType::new_block(raw, raw);
        assert_eq!(unescape(block.suffix()), raw);
    }
}
