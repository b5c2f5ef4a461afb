use path2regex::{
    CompilerBuilder, CompilerOptions, Key, MatchResult, MatcherBuilder, MatcherOptions, ParamValue,
    Parser, ParserOptions, PathRegex, PathRegexBuilder, PathRegexOptions, Token,
};

struct CompileCase<'a> {
    params: Vec<(String, ParamValue)>,
    result: &'a str,
}

struct MatchCase<'a> {
    path_name: &'a str,
    matches: Option<Vec<&'a str>>,
    params: Option<MatchResult>,
    options: MatcherOptions,
}

fn compile_case(result: &str) -> CompileCase<'_> {
    CompileCase { params: vec![], result }
}

fn match_case<'a>(path_name: &'a str, matches: Option<Vec<&'a str>>, params: Option<MatchResult>) -> MatchCase<'a> {
    MatchCase { path_name, matches, params, options: MatcherOptions::default() }
}

fn parser_options(ops: &PathRegexOptions) -> ParserOptions {
    ParserOptions { delimiter: ops.delimiter.clone(), prefixes: ops.prefixes.clone() }
}

fn assert_re(path: &str, tokens: &[Token], options: PathRegexOptions, should_parse_keys: bool) -> PathRegex {
    let re = PathRegexBuilder::new_with_options(path, options).build().unwrap();
    if should_parse_keys {
        let keys_in_tokens = tokens
            .iter()
            .map(|token| match token {
                Token::Key(key) => key.clone(),
                _ => Key::default(),
            })
            .filter(|x| !x.name.is_empty())
            .collect::<Vec<_>>();
        assert_eq!(re.keys(), &keys_in_tokens, "should parse keys");
    }
    re
}

fn assert_parse(path: &str, tokens: &Vec<Token>, options: ParserOptions) {
    let parser = Parser::new_with_options(options);
    assert_eq!(&parser.parse_str(path).unwrap(), tokens, "should parse");
}

fn assert_compile(path: &str, cases: &Vec<CompileCase<'_>>, options: CompilerOptions) {
    for case in cases {
        let compiler = CompilerBuilder::new_with_options(path, options.clone()).build().unwrap();
        if case.result.is_empty() {
            assert!(compiler.render(&case.params).is_err(), "should not compile");
        } else {
            assert_eq!(compiler.render(&case.params).unwrap(), case.result, "should compile");
        }
    }
}

fn assert_match(path: &str, re: &PathRegex, cases: &Vec<MatchCase<'_>>) {
    for case in cases {
        let matches = re
            .captures(case.path_name)
            .map(|groups| groups.into_iter().map(|g| g.unwrap_or_default()).collect::<Vec<_>>());
        let expected = case.matches.as_ref().map(|m| m.iter().map(|s| s.to_string()).collect::<Vec<_>>());
        assert_eq!(matches, expected, "should match {}", case.path_name);
        if case.params.is_some() {
            let matcher = MatcherBuilder::new_with_options(path, case.options.clone()).build().unwrap();
            assert_eq!(matcher.find(case.path_name), case.params, "params of {}", case.path_name);
        }
    }
}

fn found(path: &str) -> Option<MatchResult> {
    Some(MatchResult { path: path.to_owned(), index: 0, params: vec![] })
}

#[test]
fn test_rule_1() {
    let path = "/";
    let ops = PathRegexOptions::default();
    let tokens = vec![Token::Static("/".to_owned())];
    let re = assert_re(path, &tokens, ops.clone(), false);
    assert_parse(path, &tokens, parser_options(&ops));
    assert_compile(
        path,
        &vec![
            compile_case("/"),
            CompileCase { params: vec![("id".to_owned(), ParamValue::Text("123".to_owned()))], result: "/" },
        ],
        CompilerOptions::default(),
    );
    assert_match(
        path,
        &re,
        &vec![match_case("/", Some(vec!["/"]), found("/")), match_case("/route", None, None)],
    );
}

#[test]
fn test_rule_2() {
    let path = "/test";
    let ops = PathRegexOptions::default();
    let tokens = vec![Token::Static("/test".to_owned())];
    let re = assert_re(path, &tokens, ops.clone(), false);
    assert_parse(path, &tokens, parser_options(&ops));
    assert_compile(path, &vec![compile_case("/test")], CompilerOptions::default());
    assert_match(
        path,
        &re,
        &vec![
            match_case("/test", Some(vec!["/test"]), found("/test")),
            match_case("/route", None, None),
            match_case("/test/route", None, None),
            match_case("/test/", Some(vec!["/test/"]), found("/test/")),
        ],
    );
}

#[test]
fn test_rule_3() {
    let path = "/test/";
    let ops = PathRegexOptions::default();
    let tokens = vec![Token::Static("/test/".to_owned())];
    let re = assert_re(path, &tokens, ops.clone(), false);
    assert_parse(path, &tokens, parser_options(&ops));
    assert_compile(path, &vec![compile_case("/test/")], CompilerOptions::default());
    assert_match(
        path,
        &re,
        &vec![
            match_case("/test", None, None),
            match_case("/test/", Some(vec!["/test/"]), None),
            match_case("/test//", Some(vec!["/test//"]), None),
        ],
    );
}

#[test]
fn test_rule_4() {
    let path = "/test";
    let ops = PathRegexOptions { sensitive: true, ..PathRegexOptions::default() };
    let tokens = vec![Token::Static("/test".to_owned())];
    let re = assert_re(path, &tokens, ops.clone(), false);
    assert_parse(path, &tokens, parser_options(&ops));
    assert_match(
        path,
        &re,
        &vec![match_case("/test", Some(vec!["/test"]), None), match_case("/TEST", None, None)],
    );
    assert_compile(path, &vec![compile_case("/test")], CompilerOptions::default());
}

#[test]
fn test_rule_5() {
    let path = "/test";
    let ops = PathRegexOptions { strict: true, ..PathRegexOptions::default() };
    let tokens = vec![Token::Static("/test".to_owned())];
    let re = assert_re(path, &tokens, ops.clone(), false);
    assert_parse(path, &tokens, parser_options(&ops));
    assert_match(
        path,
        &re,
        &vec![
            match_case("/test", Some(vec!["/test"]), None),
            match_case("/test/", None, None),
            match_case("/TEST", Some(vec!["/TEST"]), None),
        ],
    );
    assert_compile(path, &vec![compile_case("/test")], CompilerOptions::default());
}

#[test]
fn test_rule_6() {
    let path = "/test/";
    let ops = PathRegexOptions { strict: true, ..PathRegexOptions::default() };
    let tokens = vec![Token::Static("/test/".to_owned())];
    let re = assert_re(path, &tokens, ops.clone(), false);
    assert_parse(path, &tokens, parser_options(&ops));
    assert_match(
        path,
        &re,
        &vec![
            match_case("/test", None, None),
            match_case("/test/", Some(vec!["/test/"]), None),
            match_case("/test//", None, None),
        ],
    );
    assert_compile(path, &vec![compile_case("/test/")], CompilerOptions::default());
}

#[test]
fn test_rule_7() {
    let path = "/test";
    let ops = PathRegexOptions { end: false, ..PathRegexOptions::default() };
    let tokens = vec![Token::Static("/test".to_owned())];
    let re = assert_re(path, &tokens, ops.clone(), false);
    assert_parse(path, &tokens, parser_options(&ops));
    assert_match(
        path,
        &re,
        &vec![
            match_case("/test", Some(vec!["/test", ""]), None),
            match_case("/test/", Some(vec!["/test/", ""]), None),
            match_case("/test/route", Some(vec!["/test/", "/"]), None),
            match_case("/route", None, None),
        ],
    );
    assert_compile(path, &vec![compile_case("/test")], CompilerOptions::default());
}
