use rgrep::config::Config;
use rgrep::matcher::Matcher;
use rgrep::scan::SearchReport;
use rgrep::walk::exit_code;

fn arguments(args: &[&str]) -> Vec<String> {
    let mut all = vec!["rgrep".to_string()];
    for arg in args {
        all.push(arg.to_string());
    }
    all
}

fn search(args: &[&str], content: &[u8], name: &str) -> SearchReport {
    let config = Config::parse(&arguments(args), false).expect("the arguments are valid");
    let matcher = Matcher::new(config).expect("the pattern compiles");
    matcher.search_bytes(content, name)
}

fn text(report: &SearchReport) -> String {
    String::from_utf8(report.output.clone()).expect("the output is text")
}

#[test]
fn test_basic_match() {
    let report = search(&["Hello", "test.txt"], b"Hello, world!\nRust is great.\n", "test.txt");
    assert!(exit_code(report.found) == 0);
    let stdout = text(&report);
    assert!(stdout.contains("Hello, world!"));
    assert!(!stdout.contains("Rust is great."));
}

#[test]
fn test_ignore_case() {
    let report = search(&["-i", "hello", "test.txt"], b"HELLO world\n", "test.txt");
    assert!(exit_code(report.found) == 0);
    let stdout = text(&report);
    assert!(stdout.contains("HELLO world"));
}

#[test]
fn test_invert_match() {
    let report = search(&["-v", "exclude", "test.txt"], b"match this\nexclude this\n", "test.txt");
    assert!(exit_code(report.found) == 0);
    let stdout = text(&report);
    assert!(stdout.contains("match this"));
    assert!(!stdout.contains("exclude this"));
}

#[test]
fn test_line_number() {
    let report = search(&["-n", "second", "test.txt"], b"first line\nsecond line\n", "test.txt");
    assert!(exit_code(report.found) == 0);
    let stdout = text(&report);
    assert!(stdout.contains("2:second line"));
}

#[test]
fn test_count() {
    let report = search(&["-c", "rust", "test.txt"], b"rust\nrust\ncpp\n", "test.txt");
    assert!(exit_code(report.found) == 0);
    let stdout = text(&report);
    assert_eq!(stdout.trim(), "2");
}

#[test]
fn test_no_match() {
    let report = search(&["missing", "test.txt"], b"nothing here\n", "test.txt");
    assert!(exit_code(report.found) != 0);
}

#[test]
fn basic_match_reports_exactly_one_line() {
    let report = search(&["Hello", "test.txt"], b"Hello, world!\nRust is great.", "test.txt");
    assert_eq!(report.output, b"Hello, world!\n".to_vec());
    assert_eq!(report.matched, 1);
    assert!(report.found);
    assert_eq!(exit_code(report.found), 0);
}

#[test]
fn ignore_case_reports_the_line() {
    let report = search(&["-i", "hello", "test.txt"], b"HELLO world", "test.txt");
    assert_eq!(report.output, b"HELLO world\n".to_vec());
    assert_eq!(exit_code(report.found), 0);
    let sensitive = search(&["hello", "test.txt"], b"HELLO world", "test.txt");
    assert_eq!(sensitive.output, Vec::<u8>::new());
    assert_eq!(exit_code(sensitive.found), 1);
}

#[test]
fn invert_reports_only_the_other_line() {
    let report = search(&["-v", "exclude", "test.txt"], b"match this\nexclude this", "test.txt");
    assert_eq!(report.output, b"match this\n".to_vec());
    assert_eq!(report.matched, 1);
}

#[test]
fn line_number_is_written_in_front() {
    let report = search(&["-n", "second", "test.txt"], b"first line\nsecond line", "test.txt");
    assert_eq!(report.output, b"2:second line\n".to_vec());
}

#[test]
fn count_is_the_only_output() {
    let report = search(&["-c", "rust", "test.txt"], b"rust\nrust\ncpp", "test.txt");
    assert_eq!(report.output, b"2\n".to_vec());
    assert_eq!(report.matched, 2);
}

#[test]
fn no_match_reports_nothing() {
    let report = search(&["missing", "test.txt"], b"nothing here", "test.txt");
    assert_eq!(report.output, Vec::<u8>::new());
    assert_eq!(report.matched, 0);
    assert!(!report.found);
    assert_eq!(exit_code(report.found), 1);
}

#[test]
fn invert_flips_every_line() {
    let content = b"alpha\nbeta\ngamma\nalphabet";
    let plain = search(&["alpha", "f"], content, "f");
    let inverted = search(&["-v", "alpha", "f"], content, "f");
    assert_eq!(plain.output, b"alpha\nalphabet\n".to_vec());
    assert_eq!(inverted.output, b"beta\ngamma\n".to_vec());
    assert_eq!(plain.matched + inverted.matched, 4);
}

#[test]
fn max_count_reports_the_first_lines_and_stops() {
    let content = b"x1\ny\nx2\nx3\ny\nx4";
    let report = search(&["-m", "2", "x", "f"], content, "f");
    assert_eq!(report.output, b"x1\nx2\n".to_vec());
    assert_eq!(report.matched, 2);
    assert_eq!(report.evaluated, 3);
    let all = search(&["-m", "9", "x", "f"], content, "f");
    assert_eq!(all.matched, 4);
    assert_eq!(all.evaluated, 6);
}

#[test]
fn max_count_zero_evaluates_nothing() {
    let report = search(&["-m", "0", "x", "f"], b"x\nx", "f");
    assert_eq!(report.output, Vec::<u8>::new());
    assert_eq!(report.matched, 0);
    assert_eq!(report.evaluated, 0);
    assert!(!report.found);
}

#[test]
fn max_count_bounds_reported_lines_under_invert() {
    let report = search(&["-v", "-m", "1", "x", "f"], b"x\na\nb", "f");
    assert_eq!(report.output, b"a\n".to_vec());
    assert_eq!(report.evaluated, 2);
}

#[test]
fn count_with_several_sources_names_the_source() {
    let report = search(&["-c", "rust", "a.txt", "b.txt"], b"rust\ncpp", "a.txt");
    assert_eq!(report.output, b"a.txt:1\n".to_vec());
    let hidden = search(&["-c", "-h", "rust", "a.txt", "b.txt"], b"rust\ncpp", "a.txt");
    assert_eq!(hidden.output, b"1\n".to_vec());
}

#[test]
fn count_is_never_colored() {
    let report = search(&["-c", "-H", "--color", "rust", "a.txt"], b"rust", "a.txt");
    assert_eq!(report.output, b"a.txt:1\n".to_vec());
}

#[test]
fn count_of_no_match_is_zero() {
    let report = search(&["-c", "rust", "a.txt"], b"cpp", "a.txt");
    assert_eq!(report.output, b"0\n".to_vec());
    assert!(!report.found);
}

#[test]
fn files_with_matches_names_the_source_once() {
    let report = search(&["-l", "rust", "a.txt"], b"rust\nrust\nrust", "a.txt");
    assert_eq!(report.output, b"a.txt\n".to_vec());
    assert!(report.found);
    assert_eq!(report.matched, 1);
    assert_eq!(report.evaluated, 1);
    let none = search(&["-l", "rust", "a.txt"], b"cpp\ngo", "a.txt");
    assert_eq!(none.output, Vec::<u8>::new());
    assert!(!none.found);
    assert_eq!(none.evaluated, 2);
}

#[test]
fn files_without_match_names_only_sources_without() {
    let none = search(&["-L", "rust", "a.txt"], b"cpp\ngo", "a.txt");
    assert_eq!(none.output, b"a.txt\n".to_vec());
    assert!(!none.found);
    let some = search(&["-L", "rust", "a.txt"], b"cpp\nrust", "a.txt");
    assert_eq!(some.output, Vec::<u8>::new());
    assert!(some.found);
}

#[test]
fn quiet_writes_nothing_and_stops_at_the_first() {
    let report = search(&["-q", "-c", "-l", "-L", "rust", "a.txt"], b"cpp\nrust\nrust", "a.txt");
    assert_eq!(report.output, Vec::<u8>::new());
    assert!(report.found);
    assert_eq!(report.evaluated, 2);
    let none = search(&["-q", "-L", "rust", "a.txt"], b"cpp", "a.txt");
    assert_eq!(none.output, Vec::<u8>::new());
    assert!(!none.found);
}

#[test]
fn files_with_matches_wins_over_count() {
    let report = search(&["-l", "-c", "rust", "a.txt"], b"rust\nrust", "a.txt");
    assert_eq!(report.output, b"a.txt\n".to_vec());
}

#[test]
fn count_wins_over_files_without_match() {
    let report = search(&["-c", "-L", "rust", "a.txt"], b"cpp", "a.txt");
    assert_eq!(report.output, b"0\n".to_vec());
}

#[test]
fn only_matching_writes_one_record_per_span() {
    let report = search(&["-o", "a+", "f"], b"caab a xyz\nnone\nbaaad", "f");
    assert_eq!(report.output, b"aa\na\naaa\n".to_vec());
    assert_eq!(report.matched, 2);
}

#[test]
fn only_matching_gives_each_record_its_prefix() {
    let report = search(&["-o", "-n", "-b", "-H", "a+", "f"], b"zz\ncaab a", "f");
    assert_eq!(report.output, b"f:2:3:aa\nf:2:3:a\n".to_vec());
}

#[test]
fn only_matching_under_invert_writes_whole_lines() {
    let report = search(&["-o", "-v", "a", "f"], b"abc\nxyz", "f");
    assert_eq!(report.output, b"xyz\n".to_vec());
}

#[test]
fn byte_offset_is_where_the_line_starts() {
    let report = search(&["-b", "x", "f"], b"x\nabc\n\nxx\nlast x", "f");
    assert_eq!(report.output, b"0:x\n7:xx\n10:last x\n".to_vec());
}

#[test]
fn prefixes_come_in_order() {
    let report = search(&["-H", "-n", "-b", "b", "f"], b"a\nb", "f");
    assert_eq!(report.output, b"f:2:2:b\n".to_vec());
}

#[test]
fn color_highlights_every_span() {
    let report = search(&["--color", "a+", "f"], b"caab a xyz", "f");
    assert_eq!(report.output, b"c\x1b[1;31maa\x1b[0mb \x1b[1;31ma\x1b[0m xyz\n".to_vec());
}

#[test]
fn color_marks_name_and_number() {
    let report = search(&["--color", "-H", "-n", "-b", "b", "f"], b"a\nb", "f");
    assert_eq!(
        report.output,
        b"\x1b[35mf\x1b[0m:\x1b[32m2\x1b[0m:2:\x1b[1;31mb\x1b[0m\n".to_vec()
    );
}

#[test]
fn color_with_only_matching_wraps_each_span() {
    let report = search(&["--color", "-o", "b", "f"], b"abcb", "f");
    assert_eq!(report.output, b"\x1b[1;31mb\x1b[0m\n\x1b[1;31mb\x1b[0m\n".to_vec());
}

#[test]
fn color_under_invert_highlights_nothing() {
    let report = search(&["--color", "-v", "a", "f"], b"abc\nxyz", "f");
    assert_eq!(report.output, b"xyz\n".to_vec());
}

#[test]
fn fixed_string_matches_its_own_metacharacters() {
    let pattern = "a.b*(c)[d]{e}^$|?+\\#&-~";
    let mut content = b"axb\n".to_vec();
    content.extend_from_slice(b"see ");
    content.extend_from_slice(pattern.as_bytes());
    content.extend_from_slice(b" here");
    let report = search(&["-F", "-o", "-e", pattern, "f"], &content, "f");
    let mut expected = pattern.as_bytes().to_vec();
    expected.push(b'\n');
    assert_eq!(report.output, expected);
}

#[test]
fn fixed_string_does_not_match_as_a_regex() {
    let report = search(&["-F", "a.c", "f"], b"abc\na.c", "f");
    assert_eq!(report.output, b"a.c\n".to_vec());
    let regex = search(&["a.c", "f"], b"abc\na.c", "f");
    assert_eq!(regex.output, b"abc\na.c\n".to_vec());
}

#[test]
fn word_regexp_matches_whole_words() {
    let report = search(&["-w", "cat", "f"], b"concatenate\na cat sat\ncat", "f");
    assert_eq!(report.output, b"a cat sat\ncat\n".to_vec());
}

#[test]
fn line_regexp_matches_whole_lines() {
    let report = search(&["-x", "cat", "f"], b"a cat\ncat\ncats", "f");
    assert_eq!(report.output, b"cat\n".to_vec());
}

#[test]
fn anchors_match_at_line_boundaries() {
    let report = search(&["^b$", "f"], b"a\nb\nbb", "f");
    assert_eq!(report.output, b"b\n".to_vec());
}

#[test]
fn trailing_line_feed_gives_an_empty_last_line() {
    let report = search(&["-n", "-v", "x", "f"], b"a\n", "f");
    assert_eq!(report.output, b"1:a\n2:\n".to_vec());
    assert_eq!(report.evaluated, 2);
}

#[test]
fn empty_content_is_one_empty_line() {
    let report = search(&["-c", "^$", "f"], b"", "f");
    assert_eq!(report.output, b"1\n".to_vec());
}

#[test]
fn standard_input_is_reported_under_its_own_name() {
    let config = Config::parse(&arguments(&["-H", "-n", "b"]), false).expect("valid");
    assert_eq!(config.files, vec!["-".to_string()]);
    let matcher = Matcher::new(config).expect("compiles");
    let report = matcher.search_stdin(b"a\nb\n");
    assert_eq!(report.output, b"(standard input):2:b\n".to_vec());
    let listing = search(&["-l", "b"], b"a\nb\n", rgrep::matcher::STANDARD_INPUT);
    assert_eq!(listing.output, b"(standard input)\n".to_vec());
}

#[test]
fn print_match_uses_the_number_and_offset_given() {
    let config = Config::parse(&arguments(&["-n", "-b", "b", "f"]), false).expect("valid");
    let matcher = Matcher::new(config).expect("compiles");
    let mut out = b"kept|".to_vec();
    matcher.print_match(&mut out, b"abc", 12, "f", 3456);
    assert_eq!(out, b"kept|12:3456:abc\n".to_vec());
}

#[test]
fn print_colored_wraps_spans_and_keeps_the_rest() {
    let config = Config::parse(&arguments(&["b+", "f"]), false).expect("valid");
    let matcher = Matcher::new(config).expect("compiles");
    let mut out = Vec::new();
    matcher.print_colored(&mut out, b"abbcb");
    assert_eq!(out, b"a\x1b[1;31mbb\x1b[0mc\x1b[1;31mb\x1b[0m\n".to_vec());
    let mut plain = Vec::new();
    matcher.print_colored(&mut plain, b"xyz");
    assert_eq!(plain, b"xyz\n".to_vec());
}

#[test]
fn invalid_pattern_is_a_compile_error() {
    let config = Config::parse(&arguments(&["a(b", "f"]), false).expect("valid");
    match Matcher::new(config) {
        Ok(_) => panic!("the pattern must not compile"),
        Err(e) => {
            let message = e.message();
            assert!(message.starts_with("Invalid regex: "));
            assert!(message.len() > "Invalid regex: ".len());
            assert_eq!(message, format!("Invalid regex: {}", e.reason));
        }
    }
}

#[test]
fn invalid_pattern_compiles_as_a_fixed_string() {
    let report = search(&["-F", "a(b", "f"], b"xa(by", "f");
    assert_eq!(report.output, b"xa(by\n".to_vec());
}

#[test]
fn matcher_keeps_its_configuration() {
    let args = arguments(&["-i", "-m", "3", "abc", "f", "g"]);
    let config = Config::parse(&args, false).expect("valid");
    let matcher = Matcher::new(config).expect("compiles");
    assert_eq!(matcher.config().pattern, "abc");
    assert!(matcher.config().ignore_case);
    assert_eq!(matcher.config().max_count, Some(3));
    assert_eq!(matcher.config().files.len(), 2);
}

#[test]
fn standard_input_named_after_a_file_is_searched_under_its_name() {
    let args = arguments(&["-c", "b", "a.txt", "-"]);
    let config = Config::parse(&args, false).expect("valid");
    assert_eq!(config.files, vec!["a.txt".to_string(), "-".to_string()]);
    let matcher = Matcher::new(config).expect("compiles");
    assert_eq!(matcher.search_bytes(b"b\nb", "a.txt").output, b"a.txt:2\n".to_vec());
    assert_eq!(matcher.search_stdin(b"a\nb").output, b"(standard input):1\n".to_vec());
}
