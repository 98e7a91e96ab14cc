use rgrep::config::Config;
use rgrep::matcher::Matcher;
use rgrep::pattern::compose_pattern;
use rgrep::pattern::outcome_of_build;
use rgrep::pattern::CompileError;

fn composed(args: &[&str]) -> String {
    let mut all = vec!["rgrep".to_string()];
    for arg in args {
        all.push(arg.to_string());
    }
    compose_pattern(&Config::parse(&all, false).unwrap())
}

#[test]
fn a_plain_pattern_is_compiled_as_it_is() {
    assert_eq!(composed(&["a.b*"]), "a.b*");
    assert_eq!(composed(&["-i", "-n", "^x$"]), "^x$");
}

#[test]
fn a_fixed_string_has_every_meta_character_escaped() {
    assert_eq!(composed(&["-F", "a.b"]), "a\\.b");
    assert_eq!(
        composed(&["-F", "-e", "\\.+*?()|[]{}^$#&-~"]),
        "\\\\\\.\\+\\*\\?\\(\\)\\|\\[\\]\\{\\}\\^\\$\\#\\&\\-\\~"
    );
}

#[test]
fn a_fixed_string_keeps_every_other_character() {
    assert_eq!(composed(&["-F", "abc XYZ 019 _%/!\"'<>=,:;@ é"]), "abc XYZ 019 _%/!\"'<>=,:;@ é");
}

#[test]
fn whole_words_are_wrapped_in_boundaries() {
    assert_eq!(composed(&["-w", "cat"]), "\\bcat\\b");
}

#[test]
fn whole_lines_are_wrapped_in_anchors() {
    assert_eq!(composed(&["-x", "cat"]), "^cat$");
}

#[test]
fn the_modifiers_compose_in_order() {
    assert_eq!(composed(&["-x", "-w", "-F", "a.b"]), "^\\ba\\.b\\b$");
    assert_eq!(composed(&["-w", "-x", "a|b"]), "^\\ba|b\\b$");
    assert_eq!(composed(&["-F", "-x", "a|b"]), "^a\\|b$");
}

#[test]
fn a_compile_error_shows_its_reason() {
    let error = CompileError { reason: "unclosed group".to_string() };
    assert_eq!(error.message(), "Invalid regex: unclosed group");
    let empty = CompileError { reason: String::new() };
    assert_eq!(empty.message(), "Invalid regex: ");
}

#[test]
fn a_failed_build_becomes_its_reason() {
    for pattern in ["a(b", "[z-a]", "a{2,1}", "\\p{NoSuchClass}", "*"] {
        let built = regex::bytes::Regex::new(pattern);
        let expected = match &built {
            Ok(_) => panic!("{:?} must not compile", pattern),
            Err(error) => error.to_string(),
        };
        assert!(!expected.is_empty());
        match outcome_of_build(built) {
            Ok(_) => panic!("a failed build must stay a failure"),
            Err(failure) => {
                assert_eq!(failure.reason, expected);
                assert_eq!(failure.message(), format!("Invalid regex: {}", expected));
            }
        }
    }
}

#[test]
fn a_build_over_the_size_limit_becomes_its_reason() {
    let built = regex::bytes::RegexBuilder::new("\\w{100}").size_limit(1000).build();
    let expected = built.as_ref().err().expect("the limit is too small").to_string();
    assert_eq!(expected, "Compiled regex exceeds size limit of 1000 bytes.");
    match outcome_of_build(built) {
        Ok(_) => panic!("a failed build must stay a failure"),
        Err(failure) => assert_eq!(failure.reason, expected),
    }
}

#[test]
fn a_regex_that_was_built_is_handed_on() {
    let built = regex::bytes::Regex::new("ab+c");
    match outcome_of_build(built) {
        Ok(regex) => {
            assert_eq!(regex.as_str(), "ab+c");
            assert!(regex.is_match(b"xabbbc"));
            assert!(!regex.is_match(b"ac"));
        }
        Err(failure) => panic!("unexpected failure: {}", failure.reason),
    }
}

#[test]
fn a_matcher_fails_with_the_reason_of_the_engine() {
    let all: Vec<String> = ["rgrep", "-w", "-i", "a(b"].iter().map(|a| a.to_string()).collect();
    let config = Config::parse(&all, false).unwrap();
    let expected = regex::bytes::RegexBuilder::new("\\ba(b\\b")
        .case_insensitive(true)
        .multi_line(true)
        .build()
        .err()
        .expect("the pattern must not compile")
        .to_string();
    match Matcher::new(config) {
        Ok(_) => panic!("the pattern must not compile"),
        Err(failure) => assert_eq!(failure.reason, expected),
    }
}
