//! The pattern compiler: composes the effective pattern from the raw pattern and its
//! modifiers, and hands it to the `regex` crate.

use crate::config::Config;
use crate::config::ConfigView;
use regex::bytes::Regex;
use regex::bytes::RegexBuilder;
use vstd::prelude::*;
use vstd::string::StringExecFns;

verus! {

/// `regex::bytes::Regex`, a compiled regular expression over bytes. Nothing inside it is
/// visible here.
#[verifier::external_type_specification]
#[verifier::external_body]
pub struct ExRegex(regex::bytes::Regex);

/// `regex::Error`, the reason why a pattern did not compile. Nothing inside it is
/// visible here.
#[verifier::external_type_specification]
#[verifier::external_body]
pub struct ExRegexError(regex::Error);

/// What `regex::bytes::RegexBuilder::build` built a regex from: the pattern text,
/// whether case is ignored, and whether multi-line mode is on.
pub uninterp spec fn regex_source(re: Regex) -> (Seq<char>, bool, bool);

/// What `regex::bytes::Regex::is_match` answers for a regex built from the pattern and
/// the two flags: whether it matches anywhere in `haystack`.
pub uninterp spec fn pattern_matches(
    pattern: Seq<char>,
    case_insensitive: bool,
    multi_line: bool,
    haystack: Seq<u8>,
) -> bool;

/// What `regex::bytes::Regex::find_iter` yields for a regex built from the pattern and
/// the two flags: its successive non-overlapping matches in `haystack`, each as the
/// byte offsets of its start and its end.
pub uninterp spec fn pattern_spans(
    pattern: Seq<char>,
    case_insensitive: bool,
    multi_line: bool,
    haystack: Seq<u8>,
) -> Seq<(usize, usize)>;

/// The characters that have a meaning of their own in a regular expression.
pub open spec fn is_meta_character(c: char) -> bool {
    c == '\\' || c == '.' || c == '+' || c == '*' || c == '?' || c == '(' || c == ')' || c == '|'
        || c == '[' || c == ']' || c == '{' || c == '}' || c == '^' || c == '$' || c == '#'
        || c == '&' || c == '-' || c == '~'
}

/// `text` with a backslash in front of every meta character.
pub open spec fn escaped(text: Seq<char>) -> Seq<char>
    decreases text.len(),
{
    if text.len() == 0 {
        Seq::empty()
    } else if is_meta_character(text.last()) {
        escaped(text.drop_last()).push('\\').push(text.last())
    } else {
        escaped(text.drop_last()).push(text.last())
    }
}

/// Spans lie inside a haystack of `len` bytes, and each starts where the one before it
/// ended or later.
pub open spec fn spans_in_order(spans: Seq<(usize, usize)>, len: nat) -> bool {
    &&& forall|i: int| 0 <= i < spans.len() ==> (#[trigger] spans[i]).0 <= spans[i].1 <= len
    &&& forall|i: int, j: int|
        0 <= i < j < spans.len() ==> (#[trigger] spans[i]).1 <= (#[trigger] spans[j]).0
}

/// Calls `regex::escape`, which goes through `pattern` character by character, puts a
/// backslash in front of each meta character and leaves every other character as it is.
#[verifier::external_body]
pub(crate) fn escape(pattern: &str) -> (r: String)
    ensures
        r@ == escaped(pattern@),
{
    regex::escape(pattern)
}

/// Calls `regex::bytes::RegexBuilder::new`, sets `case_insensitive` and `multi_line` on
/// the builder and calls its `build`. Nothing is claimed about which patterns compile; a
/// regex that comes back was built from exactly this pattern and these two flags.
#[verifier::external_body]
pub(crate) fn build_regex(pattern: &str, case_insensitive: bool, multi_line: bool) -> (r: Result<
    Regex,
    regex::Error,
>)
    ensures
        r matches Ok(re) ==> regex_source(re) == (pattern@, case_insensitive, multi_line),
{
    RegexBuilder::new(pattern).case_insensitive(case_insensitive).multi_line(multi_line).build()
}

/// `regex::bytes::Regex::is_match` tells whether the regex matches anywhere in the
/// haystack. The claim is that the answer depends only on what the regex was built from
/// and on the haystack.
pub assume_specification[ regex::bytes::Regex::is_match ](re: &Regex, haystack: &[u8]) -> (r: bool)
    ensures
        r == pattern_matches(
            regex_source(*re).0,
            regex_source(*re).1,
            regex_source(*re).2,
            haystack@,
        ),
;

/// Calls `regex::bytes::Regex::find_iter` and collects the start and end of each match
/// it yields. The claim is that the matches depend only on what the regex was built
/// from and on the haystack, that each lies inside the haystack with its start not
/// after its end, and that each starts where the one before it ended or later.
#[verifier::external_body]
pub(crate) fn find_spans(re: &Regex, haystack: &[u8]) -> (r: Vec<(usize, usize)>)
    ensures
        r@ == pattern_spans(
            regex_source(*re).0,
            regex_source(*re).1,
            regex_source(*re).2,
            haystack@,
        ),
        spans_in_order(r@, haystack@.len()),
{
    re.find_iter(haystack).map(|m| (m.start(), m.end())).collect()
}

/// What `to_string` gives for a `regex::Error`: the human-readable reason of a failed
/// build, in the words of the regular-expression engine. It is the message of a syntax
/// error, or a sentence that names the size limit that the compiled pattern went
/// over. The text depends on the error alone, and nothing is claimed about what it
/// says.
pub uninterp spec fn error_reason(error: regex::Error) -> Seq<char>;

/// The pattern between two word-boundary assertions.
pub open spec fn word_wrapped(pattern: Seq<char>) -> Seq<char> {
    seq!['\\', 'b'] + pattern + seq!['\\', 'b']
}

/// The pattern between the start-of-line and end-of-line anchors.
pub open spec fn line_wrapped(pattern: Seq<char>) -> Seq<char> {
    seq!['^'] + pattern + seq!['$']
}

/// The pattern that is compiled: the raw pattern, escaped if it is a fixed string,
/// then wrapped for whole words, then wrapped for whole lines.
pub open spec fn effective_pattern(c: ConfigView) -> Seq<char> {
    let literal = if c.fixed_strings {
        escaped(c.pattern)
    } else {
        c.pattern
    };
    let worded = if c.word_regexp {
        word_wrapped(literal)
    } else {
        literal
    };
    if c.line_regexp {
        line_wrapped(worded)
    } else {
        worded
    }
}

/// Whether `re` was built from the configuration's effective pattern, with its case
/// sensitivity and in multi-line mode.
pub open spec fn compiled_from(re: Regex, c: ConfigView) -> bool {
    regex_source(re) == (effective_pattern(c), c.ignore_case, true)
}

/// Whether the configuration's pattern matches anywhere in `line`.
pub open spec fn matches_line(c: ConfigView, line: Seq<u8>) -> bool {
    pattern_matches(effective_pattern(c), c.ignore_case, true, line)
}

/// The match spans of the configuration's pattern in `line`.
pub open spec fn spans_in_line(c: ConfigView, line: Seq<u8>) -> Seq<(usize, usize)> {
    pattern_spans(effective_pattern(c), c.ignore_case, true, line)
}

/// Builds the pattern that is compiled for a configuration.
pub fn compose_pattern(config: &Config) -> (r: String)
    ensures
        r@ == effective_pattern(config@),
{
    proof {
        reveal_strlit("\\b");
        reveal_strlit("^");
        reveal_strlit("$");
    }
    let literal = if config.fixed_strings {
        escape(config.pattern.as_str())
    } else {
        config.pattern.clone()
    };
    let worded = if config.word_regexp {
        let wrapped = String::from_str("\\b").concat(literal.as_str()).concat("\\b");
        assert(wrapped@ =~= word_wrapped(literal@));
        wrapped
    } else {
        literal
    };
    if config.line_regexp {
        let wrapped = String::from_str("^").concat(worded.as_str()).concat("$");
        assert(wrapped@ =~= line_wrapped(worded@));
        wrapped
    } else {
        worded
    }
}

/// Why a pattern could not be compiled.
#[derive(Debug)]
pub struct CompileError {
    /// The reason, in the words of the regular-expression engine.
    pub reason: String,
}

impl CompileError {
    /// The text shown for this error.
    pub fn message(&self) -> (r: String)
        ensures
            r@ == "Invalid regex: "@ + self.reason@,
    {
        String::from_str("Invalid regex: ").concat(self.reason.as_str())
    }
}

/// Compiles the effective pattern of a configuration, with its case sensitivity, in
/// multi-line mode. Which patterns compile is for the engine to say: a regex that comes
/// back was built from exactly that, and a failure carries the reason the engine gave.
pub(crate) fn compile(config: &Config) -> (r: Result<Regex, CompileError>)
    ensures
        r matches Ok(re) ==> compiled_from(re, config@),
        r matches Err(failure) ==> is_engine_reason(failure.reason@),
{
    let pattern = compose_pattern(config);
    let built = build_regex(pattern.as_str(), config.ignore_case, true);
    outcome_of_build(built)
}

/// Calls `to_string` on a `regex::Error`, which writes the error the way its `Display`
/// does. The claim is that the text depends on the error alone.
#[verifier::external_body]
pub(crate) fn error_text(error: &regex::Error) -> (r: String)
    ensures
        r@ == error_reason(*error),
{
    error.to_string()
}

/// Whether a text is the reason that the engine gives for one of its errors.
pub open spec fn is_engine_reason(text: Seq<char>) -> bool {
    exists|error: regex::Error| text == #[trigger] error_reason(error)
}

/// What the outcome of a build becomes for the callers of this library: a regex that
/// was built is handed on as it is, and an error of the engine is replaced by its
/// reason.
pub fn outcome_of_build(built: Result<Regex, regex::Error>) -> (r: Result<Regex, CompileError>)
    ensures
        match built {
            Ok(re) => r == Ok::<Regex, CompileError>(re),
            Err(error) => r matches Err(failure) && failure.reason@ == error_reason(error),
        },
{
    match built {
        Ok(re) => Ok(re),
        Err(error) => Err(CompileError { reason: error_text(&error) }),
    }
}

/// The text that a pattern made of literal atoms spells: each backslash is dropped and
/// the character after it is kept.
pub open spec fn unescaped(text: Seq<char>) -> Seq<char>
    decreases text.len(),
{
    if text.len() == 0 {
        Seq::empty()
    } else if text[0] == '\\' && text.len() >= 2 {
        seq![text[1]] + unescaped(text.skip(2))
    } else {
        seq![text[0]] + unescaped(text.skip(1))
    }
}

/// Whether a pattern is made of literal atoms only: characters without a meaning of
/// their own, and meta characters with a backslash in front.
pub open spec fn only_literals(text: Seq<char>) -> bool
    decreases text.len(),
{
    if text.len() == 0 {
        true
    } else if text[0] == '\\' {
        text.len() >= 2 && is_meta_character(text[1]) && only_literals(text.skip(2))
    } else {
        !is_meta_character(text[0]) && only_literals(text.skip(1))
    }
}

/// What escaping makes of one character.
pub open spec fn escaped_char(c: char) -> Seq<char> {
    if is_meta_character(c) {
        seq!['\\', c]
    } else {
        seq![c]
    }
}

/// Escaping works character by character, from the front as from the back.
pub proof fn lemma_escaped_from_the_front(c: char, rest: Seq<char>)
    ensures
        escaped(seq![c] + rest) == escaped_char(c) + escaped(rest),
    decreases rest.len(),
{
    let text = seq![c] + rest;
    if rest.len() == 0 {
        assert(rest =~= Seq::<char>::empty());
        assert(text.drop_last() =~= Seq::<char>::empty());
        assert(text.last() == c);
        assert(escaped(Seq::<char>::empty()) =~= Seq::<char>::empty());
        assert(escaped(text) =~= escaped_char(c) + escaped(rest));
    } else {
        lemma_escaped_from_the_front(c, rest.drop_last());
        assert(text.drop_last() =~= seq![c] + rest.drop_last());
        assert(text.last() == rest.last());
        assert(escaped(text) =~= escaped_char(c) + escaped(rest));
    }
}

/// An escaped pattern is made of literal atoms only, and the text they spell is the
/// text that was escaped: no character of a fixed string keeps a meaning of its own.
pub proof fn lemma_escaped_spells_the_text(text: Seq<char>)
    ensures
        only_literals(escaped(text)),
        unescaped(escaped(text)) == text,
    decreases text.len(),
{
    if text.len() > 0 {
        let c = text[0];
        let rest = text.skip(1);
        assert(text =~= seq![c] + rest);
        lemma_escaped_from_the_front(c, rest);
        lemma_escaped_spells_the_text(rest);
        let whole = escaped(text);
        if is_meta_character(c) {
            assert(whole.skip(2) =~= escaped(rest));
            assert(unescaped(whole) =~= text);
        } else {
            assert(whole.skip(1) =~= escaped(rest));
            assert(unescaped(whole) =~= text);
        }
    }
}

} // verus!
