//! The command line: which spelling means which option, and how a list of arguments
//! becomes a configuration or a usage error.

use crate::config::initial_options;
use crate::config::texts;
use crate::config::Config;
use crate::config::ConfigView;
use crate::config::UsageError;
use crate::config::UsageErrorView;
use crate::text::all_digits;
use crate::text::decimal;
use crate::text::digits_value;
use crate::text::is_digit;
use crate::text::lemma_decimal_denotes;
use crate::text::same_text;
use vstd::prelude::*;
use vstd::string::StrSliceExecFns;
use vstd::string::StringExecFns;
use vstd::string::StringSliceAdditionalSpecFns;
use vstd::utf8::encode_utf8;

verus! {

/// An option of the command line.
#[derive(Clone, Copy, Debug, PartialEq, Eq, Structural)]
pub enum Flag {
    IgnoreCase,
    InvertMatch,
    Count,
    LineNumber,
    FilesWithMatches,
    FilesWithoutMatch,
    NoFilename,
    WithFilename,
    OnlyMatching,
    Quiet,
    Recursive,
    FixedStrings,
    WordRegexp,
    LineRegexp,
    ByteOffset,
    Color,
    NoColor,
    /// Takes the next argument as the ceiling on reported lines.
    MaxCount,
    /// Takes the next argument as the pattern.
    Regexp,
}

/// The option that an argument spells, if any.
#[verifier::opaque]
pub open spec fn flag_of(arg: Seq<char>) -> Option<Flag> {
    if arg == "-i"@ || arg == "--ignore-case"@ {
        Some(Flag::IgnoreCase)
    } else if arg == "-v"@ || arg == "--invert-match"@ {
        Some(Flag::InvertMatch)
    } else if arg == "-c"@ || arg == "--count"@ {
        Some(Flag::Count)
    } else if arg == "-n"@ || arg == "--line-number"@ {
        Some(Flag::LineNumber)
    } else if arg == "-l"@ || arg == "--files-with-matches"@ {
        Some(Flag::FilesWithMatches)
    } else if arg == "-L"@ || arg == "--files-without-match"@ {
        Some(Flag::FilesWithoutMatch)
    } else if arg == "-h"@ || arg == "--no-filename"@ {
        Some(Flag::NoFilename)
    } else if arg == "-H"@ || arg == "--with-filename"@ {
        Some(Flag::WithFilename)
    } else if arg == "-o"@ || arg == "--only-matching"@ {
        Some(Flag::OnlyMatching)
    } else if arg == "-q"@ || arg == "--quiet"@ || arg == "--silent"@ {
        Some(Flag::Quiet)
    } else if arg == "-r"@ || arg == "-R"@ || arg == "--recursive"@ {
        Some(Flag::Recursive)
    } else if arg == "-F"@ || arg == "--fixed-strings"@ {
        Some(Flag::FixedStrings)
    } else if arg == "-w"@ || arg == "--word-regexp"@ {
        Some(Flag::WordRegexp)
    } else if arg == "-x"@ || arg == "--line-regexp"@ {
        Some(Flag::LineRegexp)
    } else if arg == "-b"@ || arg == "--byte-offset"@ {
        Some(Flag::ByteOffset)
    } else if arg == "--color"@ || arg == "--colour"@ {
        Some(Flag::Color)
    } else if arg == "--no-color"@ || arg == "--no-colour"@ {
        Some(Flag::NoColor)
    } else if arg == "-m"@ || arg == "--max-count"@ {
        Some(Flag::MaxCount)
    } else if arg == "-e"@ || arg == "--regexp"@ {
        Some(Flag::Regexp)
    } else {
        None
    }
}

/// The option that an argument spells, if any.
pub fn recognise(arg: &str) -> (r: Option<Flag>)
    ensures
        r == flag_of(arg@),
{
    reveal(flag_of);
    if same_text(arg, "-i") || same_text(arg, "--ignore-case") {
        Some(Flag::IgnoreCase)
    } else if same_text(arg, "-v") || same_text(arg, "--invert-match") {
        Some(Flag::InvertMatch)
    } else if same_text(arg, "-c") || same_text(arg, "--count") {
        Some(Flag::Count)
    } else if same_text(arg, "-n") || same_text(arg, "--line-number") {
        Some(Flag::LineNumber)
    } else if same_text(arg, "-l") || same_text(arg, "--files-with-matches") {
        Some(Flag::FilesWithMatches)
    } else if same_text(arg, "-L") || same_text(arg, "--files-without-match") {
        Some(Flag::FilesWithoutMatch)
    } else if same_text(arg, "-h") || same_text(arg, "--no-filename") {
        Some(Flag::NoFilename)
    } else if same_text(arg, "-H") || same_text(arg, "--with-filename") {
        Some(Flag::WithFilename)
    } else if same_text(arg, "-o") || same_text(arg, "--only-matching") {
        Some(Flag::OnlyMatching)
    } else if same_text(arg, "-q") || same_text(arg, "--quiet") || same_text(arg, "--silent") {
        Some(Flag::Quiet)
    } else if same_text(arg, "-r") || same_text(arg, "-R") || same_text(arg, "--recursive") {
        Some(Flag::Recursive)
    } else if same_text(arg, "-F") || same_text(arg, "--fixed-strings") {
        Some(Flag::FixedStrings)
    } else if same_text(arg, "-w") || same_text(arg, "--word-regexp") {
        Some(Flag::WordRegexp)
    } else if same_text(arg, "-x") || same_text(arg, "--line-regexp") {
        Some(Flag::LineRegexp)
    } else if same_text(arg, "-b") || same_text(arg, "--byte-offset") {
        Some(Flag::ByteOffset)
    } else if same_text(arg, "--color") || same_text(arg, "--colour") {
        Some(Flag::Color)
    } else if same_text(arg, "--no-color") || same_text(arg, "--no-colour") {
        Some(Flag::NoColor)
    } else if same_text(arg, "-m") || same_text(arg, "--max-count") {
        Some(Flag::MaxCount)
    } else if same_text(arg, "-e") || same_text(arg, "--regexp") {
        Some(Flag::Regexp)
    } else {
        None
    }
}

/// The configuration after an option that takes no argument: the option's flag is set,
/// and highlighting follows the later of `--color` and `--no-color`.
pub open spec fn with_switch(c: ConfigView, flag: Flag) -> ConfigView {
    ConfigView {
        ignore_case: c.ignore_case || flag == Flag::IgnoreCase,
        invert_match: c.invert_match || flag == Flag::InvertMatch,
        count: c.count || flag == Flag::Count,
        line_number: c.line_number || flag == Flag::LineNumber,
        files_with_matches: c.files_with_matches || flag == Flag::FilesWithMatches,
        files_without_match: c.files_without_match || flag == Flag::FilesWithoutMatch,
        no_filename: c.no_filename || flag == Flag::NoFilename,
        with_filename: c.with_filename || flag == Flag::WithFilename,
        only_matching: c.only_matching || flag == Flag::OnlyMatching,
        quiet: c.quiet || flag == Flag::Quiet,
        recursive: c.recursive || flag == Flag::Recursive,
        fixed_strings: c.fixed_strings || flag == Flag::FixedStrings,
        word_regexp: c.word_regexp || flag == Flag::WordRegexp,
        line_regexp: c.line_regexp || flag == Flag::LineRegexp,
        byte_offset: c.byte_offset || flag == Flag::ByteOffset,
        color: flag == Flag::Color || (c.color && flag != Flag::NoColor),
        ..c
    }
}

/// The digits of a count argument: the bytes without one leading plus sign.
pub open spec fn count_digits(bytes: Seq<u8>) -> Seq<u8> {
    if bytes.len() > 0 && bytes[0] == 43 {
        bytes.skip(1)
    } else {
        bytes
    }
}

/// The count that an argument denotes: an optional plus sign, then one or more decimal
/// digits whose value fits the machine word. Anything else denotes none.
pub open spec fn count_value(bytes: Seq<u8>) -> Option<usize> {
    let digits = count_digits(bytes);
    if digits.len() > 0 && all_digits(digits) && digits_value(digits) <= usize::MAX {
        Some(digits_value(digits) as usize)
    } else {
        None
    }
}

/// A number is at least the number that any of its leading digits denote.
pub proof fn lemma_digits_value_grows(digits: Seq<u8>, k: int)
    requires
        0 <= k <= digits.len(),
    ensures
        digits_value(digits.take(k)) <= digits_value(digits),
    decreases digits.len(),
{
    if k == digits.len() {
        assert(digits.take(k) =~= digits);
    } else {
        lemma_digits_value_grows(digits.drop_last(), k);
        assert(digits.drop_last().take(k) =~= digits.take(k));
    }
}

/// A count written in decimal reads back as itself.
pub proof fn lemma_count_reads_back(n: usize)
    ensures
        count_value(decimal(n as nat)) == Some(n),
{
    lemma_decimal_denotes(n as nat);
    assert(is_digit(decimal(n as nat)[0]));
}

/// Reads a count argument.
pub fn parse_count(text: &str) -> (r: Option<usize>)
    ensures
        r == count_value(text.spec_bytes()),
{
    let bytes = text.as_bytes();
    let start: usize = if bytes.len() > 0 && bytes[0] == 43u8 {
        1
    } else {
        0
    };
    let ghost digits = count_digits(bytes@);
    assert(digits =~= bytes@.skip(start as int));
    if start >= bytes.len() {
        return None;
    }
    let mut value: usize = 0;
    let mut i: usize = start;
    while i < bytes.len()
        invariant
            start <= i <= bytes@.len(),
            bytes@ == text.spec_bytes(),
            digits == count_digits(bytes@),
            digits == bytes@.skip(start as int),
            all_digits(digits.take(i - start)),
            value == digits_value(digits.take(i - start)),
        decreases bytes@.len() - i,
    {
        let b = bytes[i];
        assert(digits[i - start] == b);
        if b < 48u8 || b > 57u8 {
            assert(!is_digit(digits[i - start]));
            return None;
        }
        let d: usize = (b - 48u8) as usize;
        assert(digits.take(i - start + 1).drop_last() =~= digits.take(i - start));
        assert(digits_value(digits.take(i - start + 1)) == value * 10 + d);
        if value > (usize::MAX - d) / 10 {
            proof {
                lemma_digits_value_grows(digits, i - start + 1);
                assert(digits_value(digits) > usize::MAX);
            }
            return None;
        }
        value = value * 10 + d;
        i += 1;
    }
    assert(digits.take(i - start) =~= digits);
    Some(value)
}

/// Whether an argument looks like an option: it starts with a hyphen and has more
/// after it. A hyphen alone is the placeholder for standard input, which is a source.
pub open spec fn is_option_like(arg: Seq<char>) -> bool {
    arg.len() > 1 && arg[0] == '-'
}

/// What the arguments amount to once all are read: a pattern is required, and without
/// a source the standard-input placeholder is the only one.
pub open spec fn finished(c: ConfigView) -> Result<ConfigView, UsageErrorView> {
    if c.pattern.len() == 0 {
        Err(UsageErrorView::NoPattern)
    } else if c.files.len() == 0 {
        Ok(ConfigView { files: seq!["-"@], ..c })
    } else {
        Ok(c)
    }
}

/// What reading one argument leads to.
pub enum Step {
    /// Reading goes on with the given configuration.
    Next(ConfigView),
    /// The command line is turned down.
    Fail(UsageErrorView),
}

/// How many arguments the option at position `i` takes up, itself included.
pub open spec fn width_at(args: Seq<Seq<char>>, i: int) -> int {
    if flag_of(args[i]) == Some(Flag::MaxCount) || flag_of(args[i]) == Some(Flag::Regexp) {
        2
    } else {
        1
    }
}

/// What the argument at position `i` makes of the configuration `c`.
///
/// A switch sets its flag. `--max-count` and `--regexp` take the argument that follows.
/// Any other argument that looks like an option is an error. Any other argument, a
/// hyphen alone among them, is the pattern if no non-empty pattern is known yet, and a
/// source otherwise.
pub open spec fn step_at(args: Seq<Seq<char>>, i: int, c: ConfigView) -> Step {
    match flag_of(args[i]) {
        Some(Flag::MaxCount) => {
            if i + 1 >= args.len() {
                Step::Fail(UsageErrorView::MissingMaxCount)
            } else {
                match count_value(encode_utf8(args[i + 1])) {
                    Some(n) => Step::Next(ConfigView { max_count: Some(n), ..c }),
                    None => Step::Fail(UsageErrorView::InvalidMaxCount),
                }
            }
        },
        Some(Flag::Regexp) => {
            if i + 1 >= args.len() {
                Step::Fail(UsageErrorView::MissingRegexp)
            } else {
                Step::Next(ConfigView { pattern: args[i + 1], ..c })
            }
        },
        Some(flag) => Step::Next(with_switch(c, flag)),
        None => {
            if is_option_like(args[i]) {
                Step::Fail(UsageErrorView::UnknownOption(args[i]))
            } else if c.pattern.len() == 0 {
                Step::Next(ConfigView { pattern: args[i], ..c })
            } else {
                Step::Next(ConfigView { files: c.files.push(args[i]), ..c })
            }
        },
    }
}

/// What the arguments from position `i` on make of the configuration `c`.
pub open spec fn parsed_from(args: Seq<Seq<char>>, i: int, c: ConfigView) -> Result<
    ConfigView,
    UsageErrorView,
>
    decreases args.len() - i,
{
    if i < 0 || i >= args.len() {
        finished(c)
    } else {
        match step_at(args, i, c) {
            Step::Next(next) => parsed_from(args, i + width_at(args, i), next),
            Step::Fail(e) => Err(e),
        }
    }
}

/// Every spelling of an option looks like an option: it starts with a hyphen and has
/// more after it.
pub proof fn lemma_options_look_like_options(arg: Seq<char>)
    ensures
        flag_of(arg) is Some ==> is_option_like(arg),
{
    reveal(flag_of);
    reveal_strlit("-i");
    assert(is_option_like("-i"@));
    reveal_strlit("--ignore-case");
    assert(is_option_like("--ignore-case"@));
    reveal_strlit("-v");
    assert(is_option_like("-v"@));
    reveal_strlit("--invert-match");
    assert(is_option_like("--invert-match"@));
    reveal_strlit("-c");
    assert(is_option_like("-c"@));
    reveal_strlit("--count");
    assert(is_option_like("--count"@));
    reveal_strlit("-n");
    assert(is_option_like("-n"@));
    reveal_strlit("--line-number");
    assert(is_option_like("--line-number"@));
    reveal_strlit("-l");
    assert(is_option_like("-l"@));
    reveal_strlit("--files-with-matches");
    assert(is_option_like("--files-with-matches"@));
    reveal_strlit("-L");
    assert(is_option_like("-L"@));
    reveal_strlit("--files-without-match");
    assert(is_option_like("--files-without-match"@));
    reveal_strlit("-h");
    assert(is_option_like("-h"@));
    reveal_strlit("--no-filename");
    assert(is_option_like("--no-filename"@));
    reveal_strlit("-H");
    assert(is_option_like("-H"@));
    reveal_strlit("--with-filename");
    assert(is_option_like("--with-filename"@));
    reveal_strlit("-o");
    assert(is_option_like("-o"@));
    reveal_strlit("--only-matching");
    assert(is_option_like("--only-matching"@));
    reveal_strlit("-q");
    assert(is_option_like("-q"@));
    reveal_strlit("--quiet");
    assert(is_option_like("--quiet"@));
    reveal_strlit("--silent");
    assert(is_option_like("--silent"@));
    reveal_strlit("-r");
    assert(is_option_like("-r"@));
    reveal_strlit("-R");
    assert(is_option_like("-R"@));
    reveal_strlit("--recursive");
    assert(is_option_like("--recursive"@));
    reveal_strlit("-F");
    assert(is_option_like("-F"@));
    reveal_strlit("--fixed-strings");
    assert(is_option_like("--fixed-strings"@));
    reveal_strlit("-w");
    assert(is_option_like("-w"@));
    reveal_strlit("--word-regexp");
    assert(is_option_like("--word-regexp"@));
    reveal_strlit("-x");
    assert(is_option_like("-x"@));
    reveal_strlit("--line-regexp");
    assert(is_option_like("--line-regexp"@));
    reveal_strlit("-b");
    assert(is_option_like("-b"@));
    reveal_strlit("--byte-offset");
    assert(is_option_like("--byte-offset"@));
    reveal_strlit("--color");
    assert(is_option_like("--color"@));
    reveal_strlit("--colour");
    assert(is_option_like("--colour"@));
    reveal_strlit("--no-color");
    assert(is_option_like("--no-color"@));
    reveal_strlit("--no-colour");
    assert(is_option_like("--no-colour"@));
    reveal_strlit("-m");
    assert(is_option_like("-m"@));
    reveal_strlit("--max-count");
    assert(is_option_like("--max-count"@));
    reveal_strlit("-e");
    assert(is_option_like("-e"@));
    reveal_strlit("--regexp");
    assert(is_option_like("--regexp"@));
}

/// A hyphen alone spells no option and does not look like one: wherever it stands as an
/// argument of its own, it is the pattern if no non-empty pattern is known yet, and a
/// source otherwise.
pub proof fn lemma_lone_hyphen_is_positional(args: Seq<Seq<char>>, i: int, c: ConfigView)
    requires
        0 <= i < args.len(),
        args[i] == seq!['-'],
    ensures
        step_at(args, i, c) == Step::Next(
            if c.pattern.len() == 0 {
                ConfigView { pattern: args[i], ..c }
            } else {
                ConfigView { files: c.files.push(args[i]), ..c }
            },
        ),
        width_at(args, i) == 1,
{
    lemma_options_look_like_options(args[i]);
}

/// What a whole command line amounts to. The first argument is the program's name;
/// `color` is the highlighting in force when no argument says otherwise.
pub open spec fn parsed(args: Seq<Seq<char>>, color: bool) -> Result<ConfigView, UsageErrorView> {
    if args.len() < 2 {
        Err(UsageErrorView::MissingArguments)
    } else {
        parsed_from(args, 1, initial_options(color))
    }
}

/// The mathematical value of the outcome of reading a command line.
pub open spec fn outcome_view(r: Result<Config, UsageError>) -> Result<ConfigView, UsageErrorView> {
    match r {
        Ok(c) => Ok(c@),
        Err(e) => Err(e@),
    }
}

/// Sets the flag of an option that takes no argument.
pub fn set_switch(config: Config, flag: Flag) -> (r: Config)
    ensures
        r@ == with_switch(config@, flag),
{
    Config {
        ignore_case: config.ignore_case || flag == Flag::IgnoreCase,
        invert_match: config.invert_match || flag == Flag::InvertMatch,
        count: config.count || flag == Flag::Count,
        line_number: config.line_number || flag == Flag::LineNumber,
        files_with_matches: config.files_with_matches || flag == Flag::FilesWithMatches,
        files_without_match: config.files_without_match || flag == Flag::FilesWithoutMatch,
        no_filename: config.no_filename || flag == Flag::NoFilename,
        with_filename: config.with_filename || flag == Flag::WithFilename,
        only_matching: config.only_matching || flag == Flag::OnlyMatching,
        quiet: config.quiet || flag == Flag::Quiet,
        recursive: config.recursive || flag == Flag::Recursive,
        fixed_strings: config.fixed_strings || flag == Flag::FixedStrings,
        word_regexp: config.word_regexp || flag == Flag::WordRegexp,
        line_regexp: config.line_regexp || flag == Flag::LineRegexp,
        byte_offset: config.byte_offset || flag == Flag::ByteOffset,
        color: flag == Flag::Color || (config.color && flag != Flag::NoColor),
        ..config
    }
}

/// Whether an argument looks like an option: it starts with a hyphen and has more
/// after it. A hyphen alone is the placeholder for standard input, which is a source.
pub fn looks_like_option(arg: &str) -> (r: bool)
    ensures
        r == is_option_like(arg@),
{
    proof {
        reveal_strlit("-");
    }
    if arg.is_empty() || arg.get_char(0) != '-' {
        return false;
    }
    let alone = same_text(arg, "-");
    assert(arg@.len() == 1 ==> arg@ =~= "-"@);
    !alone
}

/// The configuration with `pattern` as its pattern.
pub fn with_pattern(config: Config, pattern: String) -> (r: Config)
    ensures
        r@ == (ConfigView { pattern: pattern@, ..config@ }),
{
    Config { pattern, ..config }
}

/// The configuration with `file` as one more source, after those it has.
pub fn with_file(config: Config, file: String) -> (r: Config)
    ensures
        r@ == (ConfigView { files: config@.files.push(file@), ..config@ }),
{
    let mut next = config;
    next.files.push(file);
    assert(next@.files =~= config@.files.push(file@));
    next
}

/// The configuration with `limit` as the ceiling on reported lines.
pub fn with_max_count(config: Config, limit: usize) -> (r: Config)
    ensures
        r@ == (ConfigView { max_count: Some(limit), ..config@ }),
{
    Config { max_count: Some(limit), ..config }
}

/// Reads the argument at position `i`: the position and configuration to go on with,
/// or the reason to stop.
pub fn read_argument(args: &Vec<String>, i: usize, config: Config) -> (r: Result<
    (usize, Config),
    UsageError,
>)
    requires
        i < args@.len(),
    ensures
        match r {
            Ok((j, next)) => step_at(texts(args@), i as int, config@) == Step::Next(next@) && j
                == i + width_at(texts(args@), i as int) && j <= args@.len(),
            Err(e) => step_at(texts(args@), i as int, config@) == Step::Fail(e@),
        },
{
    let count = args.len();
    let ghost all = texts(args@);
    let arg = args[i].as_str();
    assert(arg@ == all[i as int]);
    match recognise(arg) {
        Some(Flag::MaxCount) => {
            if i + 1 >= count {
                return Err(UsageError::MissingMaxCount);
            }
            assert(args@[i + 1]@ == all[i + 1]);
            match parse_count(args[i + 1].as_str()) {
                Some(limit) => Ok((i + 2, with_max_count(config, limit))),
                None => Err(UsageError::InvalidMaxCount),
            }
        },
        Some(Flag::Regexp) => {
            if i + 1 >= count {
                return Err(UsageError::MissingRegexp);
            }
            assert(args@[i + 1]@ == all[i + 1]);
            Ok((i + 2, with_pattern(config, args[i + 1].clone())))
        },
        Some(flag) => Ok((i + 1, set_switch(config, flag))),
        None => {
            if looks_like_option(arg) {
                Err(UsageError::UnknownOption(args[i].clone()))
            } else if config.pattern.as_str().is_empty() {
                Ok((i + 1, with_pattern(config, args[i].clone())))
            } else {
                Ok((i + 1, with_file(config, args[i].clone())))
            }
        },
    }
}

/// Calls `atty::is` on the standard output stream, which asks the system whether that
/// stream is an interactive terminal. The answer depends on how the process was
/// started, so nothing is claimed about it.
#[verifier::external_body]
fn stdout_is_terminal() -> bool {
    atty::is(atty::Stream::Stdout)
}

impl Config {
    /// Reads a command line, the program's name first, into a configuration.
    /// Highlighting is on by default exactly when standard output is an interactive
    /// terminal, so the outcome is that of [`Config::parse`] for one of the two defaults.
    pub fn from_args(args: &Vec<String>) -> (r: Result<Config, UsageError>)
        ensures
            outcome_view(r) == parsed(texts(args@), true) || outcome_view(r) == parsed(
                texts(args@),
                false,
            ),
    {
        let color = stdout_is_terminal();
        Config::parse(args, color)
    }

    /// Reads a command line, the program's name first, into a configuration. `color` is
    /// the highlighting in force when no argument says otherwise.
    pub fn parse(args: &Vec<String>, color: bool) -> (r: Result<Config, UsageError>)
        ensures
            outcome_view(r) == parsed(texts(args@), color),
    {
        if args.len() < 2 {
            return Err(UsageError::MissingArguments);
        }
        let ghost all = texts(args@);
        let mut config = Config::initial(color);
        let mut i: usize = 1;
        while i < args.len()
            invariant
                1 <= i <= args@.len(),
                all == texts(args@),
                parsed_from(all, i as int, config@) == parsed(all, color),
            decreases args@.len() - i,
        {
            match read_argument(args, i, config) {
                Ok((j, next)) => {
                    i = j;
                    config = next;
                },
                Err(e) => {
                    return Err(e);
                },
            }
        }
        if config.pattern.as_str().is_empty() {
            return Err(UsageError::NoPattern);
        }
        if config.files.len() == 0 {
            config.files.push(String::from_str("-"));
            assert(config@.files =~= seq!["-"@]);
        }
        Ok(config)
    }
}

/// Whether two configurations are the same but for highlighting.
#[verifier::opaque]
pub open spec fn same_but_color(c: ConfigView, d: ConfigView) -> bool {
    &&& c.pattern == d.pattern
    &&& c.files == d.files
    &&& c.ignore_case == d.ignore_case
    &&& c.invert_match == d.invert_match
    &&& c.count == d.count
    &&& c.line_number == d.line_number
    &&& c.files_with_matches == d.files_with_matches
    &&& c.files_without_match == d.files_without_match
    &&& c.no_filename == d.no_filename
    &&& c.with_filename == d.with_filename
    &&& c.only_matching == d.only_matching
    &&& c.quiet == d.quiet
    &&& c.recursive == d.recursive
    &&& c.max_count == d.max_count
    &&& c.fixed_strings == d.fixed_strings
    &&& c.word_regexp == d.word_regexp
    &&& c.line_regexp == d.line_regexp
    &&& c.byte_offset == d.byte_offset
}

/// Whether two outcomes are the same error, or configurations that are the same but
/// for highlighting.
pub open spec fn same_outcome_but_color(
    a: Result<ConfigView, UsageErrorView>,
    b: Result<ConfigView, UsageErrorView>,
) -> bool {
    match (a, b) {
        (Ok(c), Ok(d)) => same_but_color(c, d),
        (Err(e), Err(f)) => e == f,
        _ => false,
    }
}

/// Setting a switch on both sides keeps two configurations the same but for
/// highlighting.
proof fn lemma_switch_keeps_sameness(c: ConfigView, d: ConfigView, flag: Flag)
    requires
        same_but_color(c, d),
    ensures
        same_but_color(with_switch(c, flag), with_switch(d, flag)),
{
    reveal(same_but_color);
}

/// Two configurations that are the same but for highlighting have the same pattern,
/// and stay so when both take a new one.
proof fn lemma_pattern_keeps_sameness(c: ConfigView, d: ConfigView, text: Seq<char>)
    requires
        same_but_color(c, d),
    ensures
        c.pattern == d.pattern,
        same_but_color(ConfigView { pattern: text, ..c }, ConfigView { pattern: text, ..d }),
{
    reveal(same_but_color);
}

/// One more source on both sides keeps two configurations the same but for
/// highlighting.
proof fn lemma_file_keeps_sameness(c: ConfigView, d: ConfigView, text: Seq<char>)
    requires
        same_but_color(c, d),
    ensures
        same_but_color(
            ConfigView { files: c.files.push(text), ..c },
            ConfigView { files: d.files.push(text), ..d },
        ),
{
    reveal(same_but_color);
}

/// A new ceiling on both sides keeps two configurations the same but for highlighting.
proof fn lemma_limit_keeps_sameness(c: ConfigView, d: ConfigView, limit: usize)
    requires
        same_but_color(c, d),
    ensures
        same_but_color(
            ConfigView { max_count: Some(limit), ..c },
            ConfigView { max_count: Some(limit), ..d },
        ),
{
    reveal(same_but_color);
}

/// What the arguments amount to in the end is the same but for highlighting on both
/// sides.
proof fn lemma_finish_keeps_sameness(c: ConfigView, d: ConfigView)
    requires
        same_but_color(c, d),
    ensures
        same_outcome_but_color(finished(c), finished(d)),
{
    reveal(same_but_color);
}

/// Reading one argument on both sides fails the same way, or keeps the two
/// configurations the same but for highlighting.
proof fn lemma_step_keeps_sameness(args: Seq<Seq<char>>, i: int, c: ConfigView, d: ConfigView)
    requires
        0 <= i < args.len(),
        same_but_color(c, d),
    ensures
        match (step_at(args, i, c), step_at(args, i, d)) {
            (Step::Next(x), Step::Next(y)) => same_but_color(x, y),
            (Step::Fail(e), Step::Fail(f)) => e == f,
            _ => false,
        },
{
    lemma_pattern_keeps_sameness(c, d, args[i]);
    match flag_of(args[i]) {
        Some(Flag::MaxCount) => {
            if i + 1 < args.len() {
                match count_value(encode_utf8(args[i + 1])) {
                    Some(n) => {
                        lemma_limit_keeps_sameness(c, d, n);
                    },
                    None => {},
                }
            }
        },
        Some(Flag::Regexp) => {
            if i + 1 < args.len() {
                lemma_pattern_keeps_sameness(c, d, args[i + 1]);
            }
        },
        Some(flag) => {
            lemma_switch_keeps_sameness(c, d, flag);
        },
        None => {
            lemma_file_keeps_sameness(c, d, args[i]);
        },
    }
}

/// From any position on, two configurations that are the same but for highlighting
/// are read on to the same error, or to configurations that are the same but for
/// highlighting.
pub proof fn lemma_default_decides_only_color(
    args: Seq<Seq<char>>,
    i: int,
    c: ConfigView,
    d: ConfigView,
)
    requires
        same_but_color(c, d),
    ensures
        same_outcome_but_color(parsed_from(args, i, c), parsed_from(args, i, d)),
    decreases args.len() - i,
{
    if 0 <= i < args.len() {
        lemma_step_keeps_sameness(args, i, c, d);
        match (step_at(args, i, c), step_at(args, i, d)) {
            (Step::Next(x), Step::Next(y)) => {
                lemma_default_decides_only_color(args, i + width_at(args, i), x, y);
            },
            _ => {},
        }
    } else {
        lemma_finish_keeps_sameness(c, d);
    }
}

/// The highlighting in force by default decides nothing but the highlighting: with
/// either default a command line is turned down for the same reason, or read into
/// configurations that differ in `color` at most.
pub proof fn lemma_terminal_decides_only_color(args: Seq<Seq<char>>)
    ensures
        same_outcome_but_color(parsed(args, true), parsed(args, false)),
{
    reveal(same_but_color);
    assert(same_but_color(initial_options(true), initial_options(false)));
    if args.len() >= 2 {
        lemma_default_decides_only_color(args, 1, initial_options(true), initial_options(false));
    }
}

/// Two configurations that are the same but for highlighting, and have the same
/// highlighting, are the same.
proof fn lemma_same_with_same_color(c: ConfigView, d: ConfigView)
    requires
        same_but_color(c, d),
        c.color == d.color,
    ensures
        c == d,
{
    reveal(same_but_color);
}

/// A color option sets the highlighting whatever it was before.
proof fn lemma_color_switch_sets_color(c: ConfigView, d: ConfigView, flag: Flag)
    requires
        flag == Flag::Color || flag == Flag::NoColor,
    ensures
        with_switch(c, flag).color == with_switch(d, flag).color,
{
}

/// Reading a color option sets its switch.
proof fn lemma_step_on_color_switch(args: Seq<Seq<char>>, i: int, c: ConfigView, flag: Flag)
    requires
        0 <= i < args.len(),
        flag_of(args[i]) == Some(flag),
        flag == Flag::Color || flag == Flag::NoColor,
    ensures
        step_at(args, i, c) == Step::Next(with_switch(c, flag)),
{
}

/// Reading from a position on is reading the argument there and then the rest.
proof fn lemma_parse_follows_step(args: Seq<Seq<char>>, i: int, c: ConfigView)
    requires
        0 <= i < args.len(),
    ensures
        parsed_from(args, i, c) == match step_at(args, i, c) {
            Step::Next(next) => parsed_from(args, i + width_at(args, i), next),
            Step::Fail(e) => Err(e),
        },
{
}

/// A color option makes two configurations the same that were the same but for
/// highlighting.
proof fn lemma_color_switch_agrees(c: ConfigView, d: ConfigView, flag: Flag)
    requires
        same_but_color(c, d),
        flag == Flag::Color || flag == Flag::NoColor,
    ensures
        with_switch(c, flag) == with_switch(d, flag),
{
    lemma_switch_keeps_sameness(c, d, flag);
    lemma_color_switch_sets_color(c, d, flag);
    lemma_same_with_same_color(with_switch(c, flag), with_switch(d, flag));
}

/// Reading a color option leads two configurations that are the same but for
/// highlighting to the same configuration.
proof fn lemma_color_switch_steps_agree(args: Seq<Seq<char>>, i: int, c: ConfigView, d: ConfigView)
    requires
        0 <= i < args.len(),
        same_but_color(c, d),
        flag_of(args[i]) == Some(Flag::Color) || flag_of(args[i]) == Some(Flag::NoColor),
    ensures
        step_at(args, i, c) == step_at(args, i, d),
{
    let flag = flag_of(args[i]).unwrap();
    lemma_step_on_color_switch(args, i, c, flag);
    lemma_step_on_color_switch(args, i, d, flag);
    lemma_color_switch_agrees(c, d, flag);
}

/// A color option decides the highlighting: from the position of a color option on,
/// the highlighting that was in force before it makes no difference to the outcome.
pub proof fn lemma_color_option_settles_color(
    args: Seq<Seq<char>>,
    i: int,
    c: ConfigView,
    d: ConfigView,
)
    requires
        0 <= i < args.len(),
        same_but_color(c, d),
        flag_of(args[i]) == Some(Flag::Color) || flag_of(args[i]) == Some(Flag::NoColor),
    ensures
        parsed_from(args, i, c) == parsed_from(args, i, d),
{
    lemma_color_switch_steps_agree(args, i, c, d);
    lemma_parse_follows_step(args, i, c);
    lemma_parse_follows_step(args, i, d);
}

} // verus!
