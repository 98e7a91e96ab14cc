//! The matcher: a compiled pattern with its configuration, and the search of one
//! source from its bytes to its report.

use crate::config::mode_of;
use crate::config::Config;
use crate::config::ConfigView;
use crate::config::OutputMode;
use crate::pattern::compile;
use crate::pattern::compiled_from;
use crate::pattern::find_spans;
use crate::pattern::matches_line;
use crate::pattern::spans_in_line;
use crate::pattern::spans_in_order;
use crate::pattern::CompileError;
use crate::render::count_record;
use crate::render::highlighted;
use crate::render::lemma_only_matching_records;
use crate::render::name_record;
use crate::render::needs_spans;
use crate::render::render_highlighted;
use crate::render::render_match;
use crate::render::rendered;
use crate::render::span_records;
use crate::render::summary;
use crate::scan::Scan;
use crate::scan::SearchReport;
use crate::segment::line_at;
use crate::segment::line_count;
use crate::segment::line_start;
use crate::segment::lines_of;
use crate::segment::segment;
use crate::segment::LINE_FEED;
use crate::select::ceiling;
use crate::select::evaluated;
use crate::select::is_reported;
use crate::select::lemma_ceiling_keeps_the_first;
use crate::select::lemma_evaluation_stops_at_the_ceiling;
use crate::select::lemma_nothing_after_the_ceiling;
use crate::select::lemma_selected_are_reported;
use crate::select::lemma_selected_without_ceiling;
use crate::select::reports;
use crate::select::selected;
use crate::select::stops_at_first;
use crate::text::concat;
use crate::text::lemma_concat_push;
use regex::bytes::Regex;
use vstd::prelude::*;
use vstd::string::StringSliceAdditionalSpecFns;

verus! {

/// The name under which standard input is reported.
pub const STANDARD_INPUT: &'static str = "(standard input)";

/// A compiled pattern together with the configuration it was compiled for.
pub struct Matcher {
    regex: Regex,
    config: Config,
}

/// Whether `line` is reported under the configuration, a ceiling aside.
pub open spec fn reported_line(c: ConfigView, line: Seq<u8>) -> bool {
    reports(matches_line(c, line), c.invert_match)
}

/// For each line of `content`, whether it is reported, a ceiling aside.
pub open spec fn reported_flags(c: ConfigView, content: Seq<u8>) -> Seq<bool> {
    Seq::new(line_count(content), |i: int| reported_line(c, line_at(content, i)))
}

/// The indices (counted from zero) of the lines of `content` that are reported.
pub open spec fn reported_lines(c: ConfigView, content: Seq<u8>) -> Seq<int> {
    selected(reported_flags(c, content), ceiling(c), line_count(content) as int)
}

/// How many lines of `content` are evaluated.
pub open spec fn evaluated_lines(c: ConfigView, content: Seq<u8>) -> int {
    evaluated(reported_flags(c, content), ceiling(c), line_count(content) as int)
}

/// The match spans that rendering a line uses: those of the pattern where the
/// configuration shows or highlights spans, none otherwise.
pub open spec fn spans_for(c: ConfigView, line: Seq<u8>) -> Seq<(usize, usize)> {
    if needs_spans(c) {
        spans_in_line(c, line)
    } else {
        Seq::empty()
    }
}

/// What is written for line `i` (counted from zero) of `content` when it is reported:
/// its number is `i + 1` and its byte offset is where it starts in the content.
pub open spec fn line_output(c: ConfigView, name: Seq<u8>, content: Seq<u8>, i: int) -> Seq<u8> {
    rendered(
        c,
        name,
        (i + 1) as nat,
        line_start(content, i) as nat,
        line_at(content, i),
        spans_for(c, line_at(content, i)),
    )
}

/// What is written for the given lines of `content`, in the given order.
pub open spec fn lines_output(
    c: ConfigView,
    name: Seq<u8>,
    content: Seq<u8>,
    lines: Seq<int>,
) -> Seq<u8> {
    concat(Seq::new(lines.len(), |k: int| line_output(c, name, content, lines[k])))
}

/// The whole report of a source: the records of its reported lines in per-line mode,
/// and in every other mode only what closes the report.
pub open spec fn report_output(c: ConfigView, name: Seq<u8>, content: Seq<u8>) -> Seq<u8> {
    if mode_of(c) == OutputMode::Normal {
        lines_output(c, name, content, reported_lines(c, content))
    } else {
        summary(c, name, reported_lines(c, content).len())
    }
}

/// Writing one more line appends its output.
pub proof fn lemma_lines_output_push(
    c: ConfigView,
    name: Seq<u8>,
    content: Seq<u8>,
    lines: Seq<int>,
    i: int,
)
    ensures
        lines_output(c, name, content, lines.push(i)) == lines_output(c, name, content, lines)
            + line_output(c, name, content, i),
{
    let before = Seq::new(lines.len(), |k: int| line_output(c, name, content, lines[k]));
    let after = Seq::new(
        lines.push(i).len(),
        |k: int| line_output(c, name, content, lines.push(i)[k]),
    );
    assert(after =~= before.push(line_output(c, name, content, i)));
    lemma_concat_push(before, line_output(c, name, content, i));
}

impl View for Matcher {
    type V = ConfigView;

    closed spec fn view(&self) -> ConfigView {
        self.config@
    }
}

impl Matcher {
    #[verifier::type_invariant]
    spec fn well_formed(&self) -> bool {
        compiled_from(self.regex, self.config@)
    }

    /// Compiles the pattern of `config`. Whether it compiles is for the regular-expression
    /// engine to say; a failure carries the reason that the engine gave.
    pub fn new(config: Config) -> (r: Result<Matcher, CompileError>)
        ensures
            r matches Ok(m) ==> m@ == config@,
            r matches Err(failure) ==> crate::pattern::is_engine_reason(failure.reason@),
    {
        match compile(&config) {
            Ok(regex) => Ok(Matcher { regex, config }),
            Err(e) => Err(e),
        }
    }

    /// The configuration this matcher was compiled for.
    pub fn config(&self) -> (r: &Config)
        ensures
            r@ == self@,
    {
        &self.config
    }

    /// Appends `line` with its match spans highlighted, and a line feed.
    pub fn print_colored(&self, out: &mut Vec<u8>, line: &[u8])
        ensures
            final(out)@ == old(out)@ + highlighted(line@, spans_in_line(self@, line@)) + seq![
                LINE_FEED,
            ],
    {
        proof {
            use_type_invariant(self);
        }
        let spans = find_spans(&self.regex, line);
        render_highlighted(out, line, &spans);
    }

    /// The match spans that rendering `line` uses.
    fn line_spans(&self, line: &[u8]) -> (spans: Vec<(usize, usize)>)
        ensures
            spans@ == spans_for(self@, line@),
            needs_spans(self@) ==> spans_in_order(spans@, line@.len()),
    {
        proof {
            use_type_invariant(self);
        }
        if !self.config.invert_match && (self.config.only_matching || self.config.color) {
            find_spans(&self.regex, line)
        } else {
            Vec::new()
        }
    }

    /// Appends what is written for a reported line with the given number and byte
    /// offset.
    pub fn print_match(
        &self,
        out: &mut Vec<u8>,
        line: &[u8],
        line_num: usize,
        filename: &str,
        offset: usize,
    )
        ensures
            final(out)@ == old(out)@ + rendered(
                self@,
                filename.spec_bytes(),
                line_num as nat,
                offset as nat,
                line@,
                spans_for(self@, line@),
            ),
    {
        let spans = self.line_spans(line);
        render_match(&self.config, out, filename, line_num, offset, line, &spans);
    }

    /// Searches the bytes of one source and renders its report under the name
    /// `filename`.
    pub fn search_bytes(&self, content: &[u8], filename: &str) -> (report: SearchReport)
        ensures
            report.output@ == report_output(self@, filename.spec_bytes(), content@),
            report.matched == reported_lines(self@, content@).len(),
            report.found == (reported_lines(self@, content@).len() > 0),
            report.evaluated == evaluated_lines(self@, content@),
    {
        proof {
            use_type_invariant(self);
        }
        let ghost c = self@;
        let ghost name = filename.spec_bytes();
        let ghost flags = reported_flags(c, content@);
        let ghost limit = ceiling(c);
        let records = segment(content);
        let per_line = self.config.mode() == OutputMode::Normal;
        let mut scan = Scan::new();
        let mut output: Vec<u8> = Vec::new();
        let mut idx: usize = 0;
        assert(output@ =~= lines_output(c, name, content@, selected(flags, limit, 0)));
        while idx < records.len() && scan.wants_more(&self.config)
            invariant
                c == self@,
                c == self.config@,
                compiled_from(self.regex, c),
                name == filename.spec_bytes(),
                flags == reported_flags(c, content@),
                limit == ceiling(c),
                per_line == (mode_of(c) == OutputMode::Normal),
                idx <= records@.len() == line_count(content@),
                forall|i: int|
                    0 <= i < records@.len() ==> (#[trigger] records@[i]).start <= records@[i].end
                        <= content@.len() && content@.subrange(
                        records@[i].start as int,
                        records@[i].end as int,
                    ) == lines_of(content@)[i] && records@[i].number == i + 1 && records@[i].start
                        == line_start(content@, i),
                scan@.matched == selected(flags, limit, idx as int).len(),
                scan@.evaluated == idx,
                evaluated(flags, limit, idx as int) == idx,
                per_line ==> output@ == lines_output(
                    c,
                    name,
                    content@,
                    selected(flags, limit, idx as int),
                ),
                !per_line ==> output@ == Seq::<u8>::empty(),
            decreases records@.len() - idx,
        {
            let record = records[idx];
            let line = &content[record.start..record.end];
            assert(line@ == line_at(content@, idx as int));
            let is_match = self.regex.is_match(line);
            let spans = if per_line && is_reported(is_match, self.config.invert_match) {
                self.line_spans(line)
            } else {
                Vec::new()
            };
            scan.take(&self.config, &mut output, filename, record, line, is_match, &spans);
            proof {
                if per_line && reports(is_match, c.invert_match) {
                    lemma_lines_output_push(
                        c,
                        name,
                        content@,
                        selected(flags, limit, idx as int),
                        idx as int,
                    );
                }
            }
            idx += 1;
        }
        proof {
            if idx < records@.len() {
                lemma_nothing_after_the_ceiling(flags, limit, idx as int, records@.len() as int);
            }
        }
        scan.finish(&self.config, filename, output)
    }

    /// Searches the bytes read from standard input and renders the report under the
    /// name that stands for standard input.
    pub fn search_stdin(&self, content: &[u8]) -> (report: SearchReport)
        ensures
            report.output@ == report_output(self@, STANDARD_INPUT.spec_bytes(), content@),
            report.matched == reported_lines(self@, content@).len(),
            report.found == (reported_lines(self@, content@).len() > 0),
            report.evaluated == evaluated_lines(self@, content@),
    {
        self.search_bytes(content, STANDARD_INPUT)
    }
}

/// Inverting the match flips the decision for every line: a line is reported under one
/// of two configurations that differ only in `invert_match`, and not under the other.
pub proof fn lemma_invert_flips_the_report(c: ConfigView, line: Seq<u8>)
    ensures
        reported_line(c, line) == (matches_line(c, line) ^ c.invert_match),
        reported_line(ConfigView { invert_match: !c.invert_match, ..c }, line) == !reported_line(
            c,
            line,
        ),
{
}

/// Every line in the report is a line whose match, flipped if inverting, says so; and
/// without a ceiling those are all the lines in the report.
pub proof fn lemma_reported_lines_follow_the_match(c: ConfigView, content: Seq<u8>, i: int)
    requires
        0 <= i < line_count(content),
    ensures
        reported_lines(c, content).contains(i) ==> reported_line(c, line_at(content, i)),
        ceiling(c) is None ==> reported_lines(c, content).contains(i) == reported_line(
            c,
            line_at(content, i),
        ),
{
    let flags = reported_flags(c, content);
    let count = line_count(content) as int;
    lemma_selected_are_reported(flags, ceiling(c), count);
    if ceiling(c) is None {
        lemma_selected_without_ceiling(flags, count, i);
    }
}

/// With a ceiling of `n` lines on a source that has at least `n` lines to report, the
/// report holds exactly the first `n` of them, in the order of the source, and no line
/// after the last of them is evaluated.
pub proof fn lemma_max_count_reports_the_first(c: ConfigView, content: Seq<u8>, n: usize)
    requires
        c.max_count == Some(n),
        !stops_at_first(c),
        selected(reported_flags(c, content), None, line_count(content) as int).len() >= n,
    ensures
        reported_lines(c, content).len() == n,
        reported_lines(c, content) == selected(
            reported_flags(c, content),
            None,
            line_count(content) as int,
        ).take(n as int),
        evaluated_lines(c, content) == if n == 0 {
            0
        } else {
            reported_lines(c, content).last() + 1
        },
{
    let flags = reported_flags(c, content);
    let count = line_count(content) as int;
    lemma_ceiling_keeps_the_first(flags, n as nat, count);
    lemma_evaluation_stops_at_the_ceiling(flags, Some(n as nat), count);
}

/// In count mode the report of a source is one line: the count of its reported lines,
/// after the source's name where names are shown. Nothing is written per line.
pub proof fn lemma_count_mode_writes_the_count(c: ConfigView, name: Seq<u8>, content: Seq<u8>)
    requires
        c.count,
        !c.quiet,
        !c.files_with_matches,
    ensures
        report_output(c, name, content) == count_record(
            c,
            name,
            reported_lines(c, content).len(),
        ),
{
}

/// In files-with-matches mode the report of a source is its name, once, if the source
/// has a reported line, and nothing if it has none.
pub proof fn lemma_files_with_matches_writes_the_name(
    c: ConfigView,
    name: Seq<u8>,
    content: Seq<u8>,
)
    requires
        c.files_with_matches,
        !c.quiet,
    ensures
        report_output(c, name, content) == if reported_lines(c, content).len() > 0 {
            name_record(name)
        } else {
            Seq::empty()
        },
{
}

/// Where only the match spans are shown, what is written for a reported line is one
/// record for each match span of the pattern in that line, in order, and each record
/// holds the bytes of its span after its prefix and nothing else of the line.
pub proof fn lemma_only_matching_writes_the_spans(
    c: ConfigView,
    name: Seq<u8>,
    content: Seq<u8>,
    i: int,
)
    requires
        c.only_matching,
        !c.invert_match,
    ensures
        line_output(c, name, content, i) == concat(
            span_records(
                c,
                name,
                (i + 1) as nat,
                line_start(content, i) as nat,
                line_at(content, i),
                spans_in_line(c, line_at(content, i)),
            ),
        ),
        span_records(
            c,
            name,
            (i + 1) as nat,
            line_start(content, i) as nat,
            line_at(content, i),
            spans_in_line(c, line_at(content, i)),
        ).len() == spans_in_line(c, line_at(content, i)).len(),
{
    lemma_only_matching_records(
        c,
        name,
        (i + 1) as nat,
        line_start(content, i) as nat,
        line_at(content, i),
        spans_in_line(c, line_at(content, i)),
    );
}

/// In quiet mode nothing is written, whatever else is asked for.
pub proof fn lemma_quiet_writes_nothing(c: ConfigView, name: Seq<u8>, content: Seq<u8>)
    requires
        c.quiet,
    ensures
        report_output(c, name, content) == Seq::<u8>::empty(),
{
}

} // verus!
