use path2regex::lexer::lex;
use path2regex::{
    CompilerBuilder, Key, LexTokenKind, MatchResult, Matcher, MatcherBuilder, MatcherOptions, ParamValue, Parser,
    PathError, PathRegex, PathRegexBuilder, PathRegexOptions, Token,
};

fn text(name: &str, value: &str) -> (String, ParamValue) {
    (name.to_owned(), ParamValue::Text(value.to_owned()))
}

fn list(name: &str, values: &[&str]) -> (String, ParamValue) {
    (name.to_owned(), ParamValue::List(values.iter().map(|v| v.to_string()).collect()))
}

#[test]
fn plain_pattern_parses_to_one_static() {
    let tokens = Parser::new().parse_str("/test/abc.def-ghi").unwrap();
    assert_eq!(tokens, vec![Token::Static("/test/abc.def-ghi".to_owned())]);
}

#[test]
fn empty_pattern_parses_to_nothing() {
    assert_eq!(Parser::new().parse_str("").unwrap(), vec![]);
}

#[test]
fn root_pattern_matches_root_only() {
    assert_eq!(Parser::new().parse_str("/").unwrap(), vec![Token::Static("/".to_owned())]);
    let m = Matcher::new("/").unwrap();
    assert_eq!(m.find("/"), Some(MatchResult { path: "/".to_owned(), index: 0, params: vec![] }));
    assert_eq!(m.find("/route"), None);
}

#[test]
fn trailing_slash_pattern_needs_its_slash() {
    let re = PathRegex::new("/test/").unwrap();
    assert!(re.is_match("/test/"));
    assert!(re.is_match("/test//"));
    assert!(!re.is_match("/test"));
}

#[test]
fn render_then_find_gives_back_the_values() {
    let pattern = "/user/:id/:name";
    let values = vec![text("id", "123"), text("name", "bob")];
    let path = CompilerBuilder::new(pattern).build().unwrap().render(&values).unwrap();
    assert_eq!(path, "/user/123/bob");
    let found = Matcher::new(pattern).unwrap().find(&path).unwrap();
    assert_eq!(found.params, values);
}

#[test]
fn find_without_end_trims_the_boundary() {
    let mut options = MatcherOptions::default();
    options.end = false;
    let m = MatcherBuilder::new_with_options("/user/:id", options).build().unwrap();
    let found = m.find("/user/123/show").unwrap();
    assert_eq!(found.params, vec![text("id", "123")]);
    assert_eq!(found.path, "/user/123");
    assert_eq!(found.index, 0);
}

#[test]
fn malformed_patterns_report_kind_and_offset() {
    assert!(matches!(
        PathRegex::new("/:foo(?:\\d+(\\.\\d+)?)"),
        Err(PathError::PatternCannotStartWithQuestionMark { index: 6 })
    ));
    assert!(matches!(PathRegex::new("/:foo(abc"), Err(PathError::UnbalancedPattern { index: 5 })));
    assert!(matches!(PathRegex::new("/:foo()"), Err(PathError::MissingPattern { index: 5 })));
    assert!(matches!(PathRegex::new("/:(test)"), Err(PathError::MissingParameterName { index: 1 })));
    assert!(matches!(
        PathRegex::new("/foo?"),
        Err(PathError::UnexpectedToken { found: LexTokenKind::Modifier, index: 4, expected: LexTokenKind::End })
    ));
    assert!(matches!(
        PathRegex::new("/:foo(\\d+(\\.\\d+)?)"),
        Err(PathError::CapturingGroupNotAllowed { index: 9 })
    ));
    assert!(matches!(PathRegex::new("/a\\"), Err(PathError::UnexpectedEnd { index: 2 })));
}

#[test]
fn broken_regex_is_a_build_error() {
    assert!(matches!(PathRegex::new("/:id([)"), Err(PathError::RegexBuild(_))));
    assert_eq!(PathRegex::new("/:id([)").err().unwrap().message(), "Invalid regular expression");
}

#[test]
fn validation_can_be_switched_off() {
    let values = vec![text("id", "abc")];
    let strict = CompilerBuilder::new("/:id(\\d+)").build().unwrap();
    match strict.render(&values) {
        Err(PathError::PatternMismatch { name, pattern, got }) => {
            assert_eq!(name, "id");
            assert_eq!(pattern, "\\d+");
            assert_eq!(got, "abc");
        }
        other => panic!("unexpected {:?}", other),
    }
    let loose = CompilerBuilder::new("/:id(\\d+)").set_validate(false).build().unwrap();
    assert_eq!(loose.render(&values).unwrap(), "/abc");
    assert_eq!(strict.render(&vec![text("id", "42")]).unwrap(), "/42");
}

#[test]
fn render_errors_name_the_key() {
    let one = CompilerBuilder::new("/:id").build().unwrap();
    assert!(matches!(one.render(&vec![list("id", &["a"])]), Err(PathError::UnexpectedArray { .. })));
    let missing = one.render(&vec![]).err().unwrap();
    assert_eq!(missing.message(), "Expected \"id\" to be a string or a number");
    let many = CompilerBuilder::new("/:ids+").build().unwrap();
    assert!(matches!(many.render(&vec![text("ids", "a")]), Err(PathError::ExpectedArray { .. })));
    assert!(matches!(many.render(&vec![list("ids", &[])]), Err(PathError::EmptyRepeat { .. })));
    assert_eq!(many.render(&vec![list("ids", &["a", "b"])]).unwrap(), "/a/b");
    let some = CompilerBuilder::new("/x/:ids*").build().unwrap();
    assert_eq!(some.render(&vec![list("ids", &[])]).unwrap(), "/x");
    assert_eq!(some.render(&vec![]).unwrap(), "/x");
}

#[test]
fn repeated_key_is_split_on_its_prefix() {
    let m = Matcher::new("/:path+").unwrap();
    let found = m.find("/a/b/c").unwrap();
    assert_eq!(found.params, vec![list("path", &["a", "b", "c"])]);
}

#[test]
fn unnamed_keys_are_numbered() {
    let re = PathRegex::new("/(\\d+)/{x(\\w+)y}").unwrap();
    let names: Vec<String> = re.keys().iter().map(|k| k.name.clone()).collect();
    assert_eq!(names, vec!["0", "1"]);
    assert_eq!(re.keys()[1].prefix, "x");
    assert_eq!(re.keys()[1].suffix, "y");
}

#[test]
fn bracket_group_without_pattern_is_not_a_key() {
    let tokens = Parser::new().parse_str("/a{-b}?").unwrap();
    assert_eq!(
        tokens,
        vec![
            Token::Static("/a".to_owned()),
            Token::Key(Key {
                name: "".to_owned(),
                prefix: "-b".to_owned(),
                suffix: "".to_owned(),
                pattern: "".to_owned(),
                modifier: "?".to_owned(),
            }),
        ]
    );
    let re = PathRegex::new("/a{-b}?").unwrap();
    assert!(re.keys().is_empty());
    assert!(re.is_match("/a-b"));
    assert!(re.is_match("/a"));
}

#[test]
fn literal_text_is_escaped() {
    let re = PathRegex::new("/a.b").unwrap();
    assert_eq!(re.as_str(), "^/a\\.b[/\\#\\?]?$");
    assert!(re.is_match("/a.b"));
    assert!(!re.is_match("/aXb"));
}

#[test]
fn escaped_characters_are_literal() {
    let tokens = Parser::new().parse_str("/\\:id").unwrap();
    assert_eq!(tokens, vec![Token::Static("/:id".to_owned())]);
}

#[test]
fn case_follows_the_sensitive_flag() {
    assert!(PathRegex::new("/test").unwrap().is_match("/TEST"));
    let options = PathRegexOptions { sensitive: true, ..PathRegexOptions::default() };
    assert!(!PathRegex::new_with_options("/test", options).unwrap().is_match("/TEST"));
}

#[test]
fn ends_with_character_is_trimmed() {
    let options = MatcherOptions { ends_with: ".".to_owned(), ..MatcherOptions::default() };
    let m = Matcher::new_with_options("/test", options).unwrap();
    let found = m.find("/test.").unwrap();
    assert_eq!(found.path, "/test");
}

#[test]
fn patterns_can_be_alternatives() {
    let re = PathRegex::from_patterns(&vec!["/a".to_owned(), "/b/:id".to_owned()]).unwrap();
    assert_eq!(re.keys().len(), 1);
    assert!(re.is_match("/a"));
    let m = Matcher::from_path_regex(re);
    assert_eq!(m.find("/b/7").unwrap().params, vec![text("id", "7")]);
    assert!(matches!(
        PathRegex::from_patterns(&vec!["/a".to_owned(), "/:(x)".to_owned()]),
        Err(PathError::MissingParameterName { index: 1 })
    ));
}

#[test]
fn regex_text_keys_come_from_its_groups() {
    let re = PathRegex::from_source("^/(\\d+)/(?P<word>\\w+)(?:x)?").unwrap();
    let names: Vec<String> = re.keys().iter().map(|k| k.name.clone()).collect();
    assert_eq!(names, vec!["0", "word"]);
}

#[test]
fn lexer_reports_offsets() {
    let chars: Vec<char> = "/:id(\\d+)?".chars().collect();
    let tokens = lex(&chars).unwrap();
    let kinds: Vec<LexTokenKind> = tokens.iter().map(|t| t.kind).collect();
    assert_eq!(
        kinds,
        vec![LexTokenKind::Char, LexTokenKind::Name, LexTokenKind::Pattern, LexTokenKind::Modifier, LexTokenKind::End]
    );
    let indexes: Vec<usize> = tokens.iter().map(|t| t.index).collect();
    assert_eq!(indexes, vec![0, 1, 4, 9, 10]);
    assert_eq!(tokens[2].value.iter().collect::<String>(), "\\d+");
}

#[test]
fn builder_settings_reach_the_expression() {
    let re = PathRegexBuilder::new("/:id").set_strict(true).set_start(false).set_delimiter("/").build().unwrap();
    assert_eq!(re.as_str(), "(?:/([^/]+?))$");
}

#[test]
fn decode_is_applied_to_each_value() {
    let m = Matcher::new("/:id/:rest+").unwrap();
    let upper = |s: &String, _k: &Key| s.to_uppercase();
    let found = m.find_with("/abc/d/e", &upper).unwrap();
    assert_eq!(found.params, vec![text("id", "ABC"), list("rest", &["D", "E"])]);
    assert_eq!(found.path, "/abc/d/e");
}

#[test]
fn encode_is_applied_to_literal_text() {
    let tokens = Parser::new().parse_str("/a b/:id").unwrap();
    let spaces = |s: &String| s.replace(' ', "%20");
    let encoded = path2regex::re::encode_tokens(&tokens, &spaces);
    assert_eq!(encoded[0], Token::Static("/a%20b".to_owned()));
    let re = PathRegex::from_encoded_tokens(&tokens, &encoded, &PathRegexOptions::default()).unwrap();
    assert!(re.is_match("/a%20b/7"));
    assert!(!re.is_match("/a b/7"));
    assert_eq!(re.keys()[0].prefix, "/");
}

#[test]
fn encode_is_applied_to_rendered_values() {
    let compiler = CompilerBuilder::new("/:id").build().unwrap();
    let wrap = |s: &String, k: &Key| format!("{}-{}", k.name, s);
    let values = compiler.encode_values(&vec![text("id", "7"), text("other", "x")], &wrap);
    assert_eq!(values, vec![text("id", "id-7"), text("other", "x")]);
    assert_eq!(compiler.render(&values).unwrap(), "/id-7");
}
