//! The configuration record, the output mode it selects, and the errors of the command
//! line.

use vstd::prelude::*;
use vstd::string::StringExecFns;

verus! {

/// Everything that steers one run: the pattern, the sources and the flags.
#[derive(Debug)]
pub struct Config {
    pub pattern: String,
    pub files: Vec<String>,
    pub ignore_case: bool,
    pub invert_match: bool,
    pub count: bool,
    pub line_number: bool,
    pub files_with_matches: bool,
    pub files_without_match: bool,
    pub no_filename: bool,
    pub with_filename: bool,
    pub only_matching: bool,
    pub quiet: bool,
    pub recursive: bool,
    pub max_count: Option<usize>,
    pub fixed_strings: bool,
    pub word_regexp: bool,
    pub line_regexp: bool,
    pub color: bool,
    pub byte_offset: bool,
}

/// The mathematical value of a [`Config`]: texts as character sequences.
pub struct ConfigView {
    pub pattern: Seq<char>,
    pub files: Seq<Seq<char>>,
    pub ignore_case: bool,
    pub invert_match: bool,
    pub count: bool,
    pub line_number: bool,
    pub files_with_matches: bool,
    pub files_without_match: bool,
    pub no_filename: bool,
    pub with_filename: bool,
    pub only_matching: bool,
    pub quiet: bool,
    pub recursive: bool,
    pub max_count: Option<usize>,
    pub fixed_strings: bool,
    pub word_regexp: bool,
    pub line_regexp: bool,
    pub color: bool,
    pub byte_offset: bool,
}

/// The texts held by a sequence of strings.
pub open spec fn texts(strings: Seq<String>) -> Seq<Seq<char>> {
    Seq::new(strings.len(), |i: int| strings[i]@)
}

impl View for Config {
    type V = ConfigView;

    open spec fn view(&self) -> ConfigView {
        ConfigView {
            pattern: self.pattern@,
            files: texts(self.files@),
            ignore_case: self.ignore_case,
            invert_match: self.invert_match,
            count: self.count,
            line_number: self.line_number,
            files_with_matches: self.files_with_matches,
            files_without_match: self.files_without_match,
            no_filename: self.no_filename,
            with_filename: self.with_filename,
            only_matching: self.only_matching,
            quiet: self.quiet,
            recursive: self.recursive,
            max_count: self.max_count,
            fixed_strings: self.fixed_strings,
            word_regexp: self.word_regexp,
            line_regexp: self.line_regexp,
            color: self.color,
            byte_offset: self.byte_offset,
        }
    }
}

/// What a source's report consists of. Exactly one mode is in force for a run.
#[derive(Clone, Copy, Debug, PartialEq, Eq, Structural)]
pub enum OutputMode {
    /// Nothing is written; only the found signal counts.
    Quiet,
    /// The source's name, once, if it has a reported line.
    FilesWithMatches,
    /// The number of reported lines.
    Count,
    /// The source's name, if it has no reported line.
    FilesWithoutMatch,
    /// One or more records per reported line.
    Normal,
}

/// The mode that a configuration selects: quiet wins over files-with-matches, that over
/// count, that over files-without-match, and per-line output is what is left.
pub open spec fn mode_of(c: ConfigView) -> OutputMode {
    if c.quiet {
        OutputMode::Quiet
    } else if c.files_with_matches {
        OutputMode::FilesWithMatches
    } else if c.count {
        OutputMode::Count
    } else if c.files_without_match {
        OutputMode::FilesWithoutMatch
    } else {
        OutputMode::Normal
    }
}

/// Whether records carry the source's name in front.
pub open spec fn shows_filename(c: ConfigView) -> bool {
    c.with_filename || (!c.no_filename && c.files.len() > 1)
}

/// Why a command line was turned down.
#[derive(Debug)]
pub enum UsageError {
    /// No argument follows the program's name.
    MissingArguments,
    /// `--max-count` is the last argument.
    MissingMaxCount,
    /// The argument of `--max-count` is not a number that fits.
    InvalidMaxCount,
    /// `--regexp` is the last argument.
    MissingRegexp,
    /// An argument starts with a hyphen, has more after it, and is no known option.
    UnknownOption(String),
    /// The arguments name no pattern, or an empty one.
    NoPattern,
}

/// The mathematical value of a [`UsageError`].
pub enum UsageErrorView {
    MissingArguments,
    MissingMaxCount,
    InvalidMaxCount,
    MissingRegexp,
    UnknownOption(Seq<char>),
    NoPattern,
}

impl View for UsageError {
    type V = UsageErrorView;

    open spec fn view(&self) -> UsageErrorView {
        match self {
            UsageError::MissingArguments => UsageErrorView::MissingArguments,
            UsageError::MissingMaxCount => UsageErrorView::MissingMaxCount,
            UsageError::InvalidMaxCount => UsageErrorView::InvalidMaxCount,
            UsageError::MissingRegexp => UsageErrorView::MissingRegexp,
            UsageError::UnknownOption(arg) => UsageErrorView::UnknownOption(arg@),
            UsageError::NoPattern => UsageErrorView::NoPattern,
        }
    }
}

/// The text shown for a usage error.
pub open spec fn message_text(e: UsageErrorView) -> Seq<char> {
    match e {
        UsageErrorView::MissingArguments => "Usage: rgrep [OPTIONS] PATTERN [FILE...]"@,
        UsageErrorView::MissingMaxCount => "Option --max-count requires an argument"@,
        UsageErrorView::InvalidMaxCount => "Invalid max-count"@,
        UsageErrorView::MissingRegexp => "Option --regexp requires an argument"@,
        UsageErrorView::UnknownOption(arg) => "Unknown option: "@ + arg,
        UsageErrorView::NoPattern => "No pattern specified"@,
    }
}

impl UsageError {
    /// The text shown for this error.
    pub fn message(&self) -> (r: String)
        ensures
            r@ == message_text(self@),
    {
        match self {
            UsageError::MissingArguments => String::from_str(
                "Usage: rgrep [OPTIONS] PATTERN [FILE...]",
            ),
            UsageError::MissingMaxCount => String::from_str(
                "Option --max-count requires an argument",
            ),
            UsageError::InvalidMaxCount => String::from_str("Invalid max-count"),
            UsageError::MissingRegexp => String::from_str("Option --regexp requires an argument"),
            UsageError::UnknownOption(arg) => String::from_str("Unknown option: ").concat(
                arg.as_str(),
            ),
            UsageError::NoPattern => String::from_str("No pattern specified"),
        }
    }
}

impl Config {
    /// The configuration before any argument is read.
    pub fn initial(color: bool) -> (r: Config)
        ensures
            r@ == initial_options(color),
    {
        let r = Config {
            pattern: String::new(),
            files: Vec::new(),
            ignore_case: false,
            invert_match: false,
            count: false,
            line_number: false,
            files_with_matches: false,
            files_without_match: false,
            no_filename: false,
            with_filename: false,
            only_matching: false,
            quiet: false,
            recursive: false,
            max_count: None,
            fixed_strings: false,
            word_regexp: false,
            line_regexp: false,
            color,
            byte_offset: false,
        };
        assert(r@.files =~= Seq::empty());
        r
    }

    /// The output mode in force.
    pub fn mode(&self) -> (r: OutputMode)
        ensures
            r == mode_of(self@),
    {
        if self.quiet {
            OutputMode::Quiet
        } else if self.files_with_matches {
            OutputMode::FilesWithMatches
        } else if self.count {
            OutputMode::Count
        } else if self.files_without_match {
            OutputMode::FilesWithoutMatch
        } else {
            OutputMode::Normal
        }
    }

    /// Whether records carry the source's name in front.
    pub fn shows_filename(&self) -> (r: bool)
        ensures
            r == shows_filename(self@),
    {
        self.with_filename || (!self.no_filename && self.files.len() > 1)
    }
}

/// The configuration before any argument is read: every flag off but `color`.
pub open spec fn initial_options(color: bool) -> ConfigView {
    ConfigView {
        pattern: Seq::empty(),
        files: Seq::empty(),
        ignore_case: false,
        invert_match: false,
        count: false,
        line_number: false,
        files_with_matches: false,
        files_without_match: false,
        no_filename: false,
        with_filename: false,
        only_matching: false,
        quiet: false,
        recursive: false,
        max_count: None,
        fixed_strings: false,
        word_regexp: false,
        line_regexp: false,
        color,
        byte_offset: false,
    }
}

} // verus!
