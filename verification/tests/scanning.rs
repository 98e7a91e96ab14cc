use rgrep::config::Config;
use rgrep::scan::Scan;
use rgrep::segment::segment;
use rgrep::segment::LineRecord;

fn config(args: &[&str]) -> Config {
    let mut all = vec!["rgrep".to_string()];
    for arg in args {
        all.push(arg.to_string());
    }
    Config::parse(&all, false).unwrap()
}

/// Runs a scan over `content` with the given answer for each line, the way a search
/// does, and returns the report's fields.
fn scan(args: &[&str], content: &[u8], answers: &[bool]) -> (bool, usize, usize, Vec<u8>) {
    let config = config(args);
    let records = segment(content);
    assert_eq!(records.len(), answers.len());
    let mut scan = Scan::new();
    let mut output = Vec::new();
    let mut index = 0;
    while index < records.len() && scan.wants_more(&config) {
        let record = records[index];
        let line = &content[record.start..record.end];
        scan.take(&config, &mut output, "f", record, line, answers[index], &Vec::new());
        index += 1;
    }
    let report = scan.finish(&config, "f", output);
    (report.found, report.matched, report.evaluated, report.output)
}

#[test]
fn a_new_scan_has_seen_nothing() {
    let scan = Scan::new();
    assert_eq!(scan.matched(), 0);
    assert_eq!(scan.evaluated(), 0);
    let report = scan.finish(&config(&["p"]), "f", b"kept".to_vec());
    assert!(!report.found);
    assert_eq!(report.matched, 0);
    assert_eq!(report.evaluated, 0);
    assert_eq!(report.output, b"kept".to_vec());
}

#[test]
fn take_counts_reported_lines_and_writes_them() {
    let config = config(&["-n", "p"]);
    let mut scan = Scan::new();
    let mut out = Vec::new();
    let first = LineRecord { number: 1, start: 0, end: 3 };
    assert!(scan.take(&config, &mut out, "f", first, b"abc", true, &Vec::new()));
    assert_eq!((scan.matched(), scan.evaluated()), (1, 1));
    let second = LineRecord { number: 2, start: 4, end: 6 };
    assert!(!scan.take(&config, &mut out, "f", second, b"de", false, &Vec::new()));
    assert_eq!((scan.matched(), scan.evaluated()), (1, 2));
    let fifth = LineRecord { number: 5, start: 20, end: 21 };
    assert!(scan.take(&config, &mut out, "f", fifth, b"x", true, &Vec::new()));
    assert_eq!((scan.matched(), scan.evaluated()), (2, 5));
    assert_eq!(out, b"1:abc\n5:x\n".to_vec());
}

#[test]
fn take_inverts_the_answer() {
    let config = config(&["-v", "p"]);
    let mut scan = Scan::new();
    let mut out = Vec::new();
    let record = LineRecord { number: 1, start: 0, end: 1 };
    assert!(!scan.take(&config, &mut out, "f", record, b"a", true, &Vec::new()));
    let record = LineRecord { number: 2, start: 2, end: 3 };
    assert!(scan.take(&config, &mut out, "f", record, b"b", false, &Vec::new()));
    assert_eq!(scan.matched(), 1);
    assert_eq!(out, b"b\n".to_vec());
}

#[test]
fn take_writes_nothing_outside_the_per_line_mode() {
    for flag in ["-c", "-l", "-L", "-q"] {
        let config = config(&[flag, "p"]);
        let mut scan = Scan::new();
        let mut out = Vec::new();
        let record = LineRecord { number: 1, start: 0, end: 1 };
        assert!(scan.take(&config, &mut out, "f", record, b"a", true, &Vec::new()));
        assert_eq!(scan.matched(), 1);
        assert_eq!(out, Vec::<u8>::new());
    }
}

#[test]
fn take_uses_the_spans_it_is_given() {
    let config = config(&["-o", "-b", "p"]);
    let mut scan = Scan::new();
    let mut out = Vec::new();
    let record = LineRecord { number: 3, start: 10, end: 16 };
    scan.take(&config, &mut out, "f", record, b"abcdef", true, &vec![(0, 2), (3, 6)]);
    assert_eq!(out, b"10:ab\n10:def\n".to_vec());
}

#[test]
fn wants_more_follows_the_ceiling() {
    let limited = config(&["-m", "2", "p"]);
    let quiet = config(&["-q", "p"]);
    let free = config(&["p"]);
    let none = config(&["-m", "0", "p"]);
    let mut scan = Scan::new();
    let mut out = Vec::new();
    assert!(scan.wants_more(&limited));
    assert!(scan.wants_more(&quiet));
    assert!(scan.wants_more(&free));
    assert!(!scan.wants_more(&none));
    let first = LineRecord { number: 1, start: 0, end: 0 };
    scan.take(&free, &mut out, "f", first, b"", true, &Vec::new());
    assert!(scan.wants_more(&limited));
    assert!(!scan.wants_more(&quiet));
    assert!(scan.wants_more(&free));
    let second = LineRecord { number: 2, start: 1, end: 1 };
    scan.take(&free, &mut out, "f", second, b"", true, &Vec::new());
    assert!(!scan.wants_more(&limited));
    assert!(scan.wants_more(&free));
}

#[test]
fn the_ceiling_keeps_the_first_reported_lines() {
    let content = b"a\nb\nc\nd\ne";
    let answers = [false, true, true, false, true];
    assert_eq!(scan(&["p"], content, &answers), (true, 3, 5, b"b\nc\ne\n".to_vec()));
    assert_eq!(scan(&["-m", "3", "p"], content, &answers), (true, 3, 5, b"b\nc\ne\n".to_vec()));
    assert_eq!(scan(&["-m", "2", "p"], content, &answers), (true, 2, 3, b"b\nc\n".to_vec()));
    assert_eq!(scan(&["-m", "1", "p"], content, &answers), (true, 1, 2, b"b\n".to_vec()));
    assert_eq!(scan(&["-m", "0", "p"], content, &answers), (false, 0, 0, Vec::new()));
}

#[test]
fn the_ceiling_counts_reported_lines_under_invert() {
    let content = b"a\nb\nc\nd\ne";
    let answers = [false, true, true, false, true];
    assert_eq!(scan(&["-v", "-m", "2", "p"], content, &answers), (true, 2, 4, b"a\nd\n".to_vec()));
}

#[test]
fn every_mode_closes_the_report_in_its_way() {
    let content = b"a\nb\nc";
    let answers = [false, true, true];
    assert_eq!(scan(&["-c", "p"], content, &answers), (true, 2, 3, b"2\n".to_vec()));
    assert_eq!(scan(&["-c", "-m", "1", "p"], content, &answers), (true, 1, 2, b"1\n".to_vec()));
    assert_eq!(scan(&["-l", "p"], content, &answers), (true, 1, 2, b"f\n".to_vec()));
    assert_eq!(scan(&["-L", "p"], content, &answers), (true, 2, 3, Vec::new()));
    assert_eq!(scan(&["-q", "p"], content, &answers), (true, 1, 2, Vec::new()));
    let none = [false, false, false];
    assert_eq!(scan(&["-c", "p"], content, &none), (false, 0, 3, b"0\n".to_vec()));
    assert_eq!(scan(&["-l", "p"], content, &none), (false, 0, 3, Vec::new()));
    assert_eq!(scan(&["-L", "p"], content, &none), (false, 0, 3, b"f\n".to_vec()));
    assert_eq!(scan(&["-q", "p"], content, &none), (false, 0, 3, Vec::new()));
}
