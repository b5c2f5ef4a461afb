use path2regex::{Key, PathRegex, PathRegexBuilder};

const TEST_PATH: &str = "/user/:id";

fn group_texts(groups: Option<Vec<Option<String>>>) -> Option<Vec<String>> {
    groups.map(|gs| gs.into_iter().map(|g| g.unwrap_or_default()).collect())
}

#[test]
fn should_work_with_different_argument() {
    assert!(PathRegex::new("/test").is_ok());
    assert!(PathRegex::from_source("^/test").is_ok());
    assert!(PathRegex::from_patterns(&vec!["/a".to_owned(), "/b".to_owned()]).is_ok());
}

#[test]
fn should_get_keys() {
    let re = PathRegexBuilder::new(TEST_PATH).set_end(false).build().unwrap();
    assert_eq!(
        re.keys(),
        &vec![Key {
            name: "id".to_owned(),
            prefix: "/".to_owned(),
            suffix: "".to_owned(),
            modifier: "".to_owned(),
            pattern: "[^/\\#\\?]+?".to_owned(),
        }]
    );
    assert_eq!(
        group_texts(re.captures("/user/123/show")),
        Some(vec!["/user/123/".to_owned(), "123".to_owned(), "/".to_owned()])
    );
}

fn fail_with_message(pattern: &str) {
    if let Err(e) = PathRegex::new(pattern) {
        panic!("{}", e.message());
    }
}

#[test]
#[should_panic = "Pattern cannot start with \"?\" at 6"]
fn should_throw_on_non_capturing_pattern() {
    fail_with_message("/:foo(?:\\d+(\\.\\d+)?)");
}

#[test]
#[should_panic = "Capturing groups are not allowed at 9"]
fn should_throw_on_nested_capturing_group() {
    fail_with_message("/:foo(\\d+(\\.\\d+)?)");
}

#[test]
#[should_panic = "Unbalanced pattern at 5"]
fn should_throw_on_unbalanced_pattern() {
    fail_with_message("/:foo(abc");
}

#[test]
#[should_panic = "Missing pattern at 5"]
fn should_throw_on_missing_pattern() {
    fail_with_message("/:foo()");
}

#[test]
#[should_panic = "Missing parameter name at 1"]
fn should_throw_on_missing_name() {
    fail_with_message("/:(test)");
}

#[test]
#[should_panic = "Unexpected OPEN at 3, expected CLOSE"]
fn should_throw_on_nested_groups() {
    fail_with_message("/{a{b:foo}}");
}

#[test]
#[should_panic = "Unexpected MODIFIER at 4, expected END"]
fn should_throw_on_misplaced_modifier() {
    fail_with_message("/foo?");
}
