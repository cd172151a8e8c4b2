use todo_r::comments::CommentTypes;
use todo_r::maps::{CommentRegexMultiMap, FallbackHashMap};

fn tags(list: &[&str]) -> Vec<String> {
    list.iter().map(|s| s.to_string()).collect()
}

fn patterns(regexs: &[regex::Regex]) -> Vec<String> {
    regexs.iter().map(|r| r.as_str().to_string()).collect()
}

#[test]
fn fallback_map_answers_with_the_fallback_for_a_missing_key() {
    let mut map = FallbackHashMap::new(7);
    assert_eq!(map.get("rs"), 7);
    assert_eq!(map.get_without_fallback("rs"), None);
    assert_eq!(map.insert("rs".to_string(), 1), None);
    assert_eq!(map.insert("py".to_string(), 2), None);
    assert_eq!(map.get("rs"), 1);
    assert_eq!(map.get("py"), 2);
    assert_eq!(map.get("RS"), 7);
    assert_eq!(map.get(""), 7);
    assert_eq!(map.get_without_fallback("py"), Some(2));
    assert_eq!(map.get_without_fallback("c"), None);
}

#[test]
fn fallback_map_insert_returns_what_was_there() {
    let mut map = FallbackHashMap::new(0);
    assert_eq!(map.insert("rs".to_string(), 1), None);
    assert_eq!(map.insert("rs".to_string(), 5), Some(1));
    assert_eq!(map.get("rs"), 5);
    assert_eq!(map.insert("rs".to_string(), 0), Some(5));
    assert_eq!(map.get_without_fallback("rs"), Some(0));
}

fn rust_and_python() -> CommentRegexMultiMap {
    let mut map = CommentRegexMultiMap::new(CommentTypes::new().add_single("#"));
    map.insert_keys(
        vec!["rs".to_string(), "c".to_string()],
        CommentTypes::new().add_single("//").add_block("/*", "*/"),
    );
    map.insert(
        "py".to_string(),
        CommentTypes::new().add_single("#").add_block("\"\"\"", "\"\"\""),
    );
    map
}

#[test]
fn keys_inserted_together_share_their_expressions() {
    let mut map = rust_and_python();
    let t = tags(&["TODO"]);
    let rs = patterns(map.get("rs", &t).unwrap());
    let c = patterns(map.get("c", &t).unwrap());
    assert_eq!(rs.len(), 2);
    assert_eq!(rs, c);
    assert!(rs[0].contains("//"));
    let py = patterns(map.get("py", &t).unwrap());
    assert_eq!(py.len(), 2);
    assert_ne!(py, rs);
}

#[test]
fn missing_key_gets_the_fallback() {
    let mut map = rust_and_python();
    let t = tags(&["TODO"]);
    let unknown = patterns(map.get("unknown", &t).unwrap());
    assert_eq!(unknown.len(), 1);
    assert!(unknown[0].contains(r"\#"));
    assert_eq!(patterns(map.get("", &t).unwrap()), unknown);
    assert!(map.get_without_fallback("unknown", &t).unwrap().is_none());
    let rs = patterns(map.get_without_fallback("rs", &t).unwrap().unwrap());
    assert_eq!(rs.len(), 2);
}

#[test]
fn expressions_are_built_once_for_a_slot() {
    let mut map = rust_and_python();
    let first = patterns(map.get("rs", &tags(&["TODO"])).unwrap());
    assert!(first[0].contains("(TODO)"));
    let second = patterns(map.get("rs", &tags(&["FIXME", "HACK"])).unwrap());
    assert_eq!(first, second);
    let shared = patterns(map.get("c", &tags(&["NOTE"])).unwrap());
    assert_eq!(first, shared);
    let other = patterns(map.get("py", &tags(&["FIXME", "HACK"])).unwrap());
    assert!(other[0].contains("(FIXME|HACK)"));
}

#[test]
fn failed_build_keeps_nothing() {
    let mut map = rust_and_python();
    assert!(map.get("rs", &tags(&["("])).is_err());
    assert!(map.get_without_fallback("rs", &tags(&["("])).is_err());
    let then = patterns(map.get("rs", &tags(&["TODO"])).unwrap());
    assert!(then[0].contains("(TODO)"));
}

#[test]
fn later_insert_of_a_key_wins() {
    let mut map = rust_and_python();
    map.insert("rs".to_string(), CommentTypes::new().add_single("--"));
    let t = tags(&["TODO"]);
    let rs = patterns(map.get("rs", &t).unwrap());
    assert_eq!(rs.len(), 1);
    assert!(rs[0].contains(r"\-\-"));
    let c = patterns(map.get("c", &t).unwrap());
    assert_eq!(c.len(), 2);
}

#[test]
fn reset_fallback_key_copies_the_types_of_the_key() {
    let mut map = rust_and_python();
    let t = tags(&["TODO"]);
    let before = patterns(map.get("unknown", &t).unwrap());
    assert_eq!(before.len(), 1);
    {
        let types = map.reset_fallback_key("rs").unwrap();
        assert_eq!(types.as_slice().len(), 2);
        assert_eq!(types.as_slice()[0].prefix(), "//");
    }
    let after = patterns(map.get("unknown", &tags(&["FIXME"])).unwrap());
    assert_eq!(after.len(), 2);
    assert!(after[0].contains("(FIXME)"));
    let rs = patterns(map.get("rs", &tags(&["FIXME"])).unwrap());
    assert_eq!(after, rs);
}

#[test]
fn reset_fallback_key_fails_on_a_missing_key() {
    let mut map = rust_and_python();
    let t = tags(&["TODO"]);
    let before = patterns(map.get("unknown", &t).unwrap());
    assert!(map.reset_fallback_key("unknown").is_none());
    assert!(map.reset_fallback_key("").is_none());
    let after = patterns(map.get("unknown", &tags(&["OTHER"])).unwrap());
    assert_eq!(before, after);
}

#[test]
fn reset_fallback_value_drops_the_expressions_of_the_fallback() {
    let mut map = rust_and_python();
    let before = patterns(map.get("unknown", &tags(&["TODO"])).unwrap());
    assert!(before[0].contains(r"\#"));
    map.reset_fallback_value(CommentTypes::new().add_single("%"));
    let after = patterns(map.get("unknown", &tags(&["NOTE"])).unwrap());
    assert_eq!(after.len(), 1);
    assert!(after[0].contains("%"));
    assert!(after[0].contains("(NOTE)"));
    let rs = patterns(map.get("rs", &tags(&["NOTE"])).unwrap());
    assert_eq!(rs.len(), 2);
}

#[test]
fn insert_keys_without_keys_adds_an_unreachable_slot() {
    let mut map = rust_and_python();
    map.insert_keys(Vec::new(), CommentTypes::new().add_single("%"));
    let t = tags(&["TODO"]);
    assert_eq!(map.get("rs", &t).unwrap().len(), 2);
    assert_eq!(map.get("%", &t).unwrap().len(), 1);
}
