use path2regex::re::tokens_to_regex;
use path2regex::{Parser, PathRegex, PathRegexOptions};

#[test]
fn test_string_to_path_regex() {
    let re = PathRegex::new("/user/:id").unwrap();
    assert_eq!(re.as_str(), "^/user(?:/([^/\\#\\?]+?))[/\\#\\?]?$");
}

#[test]
fn test_compile_tokens_to_regexp() {
    let tokens = Parser::new().parse_str("/user/:id").unwrap();
    let re = PathRegex::from_tokens(&tokens, &PathRegexOptions::default()).unwrap();
    let (source, keys) = tokens_to_regex(&tokens, &PathRegexOptions::default());
    assert_eq!(source, re.as_str());
    assert_eq!(keys.len(), 1);
    let matches: Vec<String> = re
        .captures("/user/123")
        .unwrap()
        .into_iter()
        .map(|x| x.unwrap_or_default())
        .collect();
    assert_eq!(matches, vec!["/user/123", "123"]);
}
