//! The running state of the search of one source: how many lines were evaluated and
//! reported so far, and what each evaluated line adds to the report.

use crate::config::mode_of;
use crate::config::Config;
use crate::config::ConfigView;
use crate::config::OutputMode;
use crate::pattern::spans_in_order;
use crate::render::needs_spans;
use crate::render::render_match;
use crate::render::render_summary;
use crate::render::rendered;
use crate::render::summary;
use crate::segment::LineRecord;
use crate::select::ceiling;
use crate::select::ceiling_of;
use crate::select::ceiling_reached;
use crate::select::has_room;
use crate::select::is_reported;
use crate::select::reports;
use vstd::prelude::*;
use vstd::string::StringSliceAdditionalSpecFns;

verus! {

/// What the search of one source gives.
#[derive(Debug)]
pub struct SearchReport {
    /// Whether at least one line was reported.
    pub found: bool,
    /// How many lines were reported.
    pub matched: usize,
    /// How many lines were evaluated before the search ended.
    pub evaluated: usize,
    /// The bytes for the report stream.
    pub output: Vec<u8>,
}

/// The running state of the search of one source. It starts empty, takes the source's
/// lines in rising order with the matcher's answer for each, and ends in a report.
pub struct Scan {
    matched: usize,
    evaluated: usize,
}

/// The mathematical value of a [`Scan`].
pub struct ScanView {
    /// How many lines were reported so far.
    pub matched: nat,
    /// The number of the last line that was evaluated, zero before the first.
    pub evaluated: nat,
}

/// Whether a line with the given answer of the matcher gets records of its own: it is
/// reported, and the mode is the one that writes per line.
pub open spec fn writes_line(c: ConfigView, is_match: bool) -> bool {
    reports(is_match, c.invert_match) && mode_of(c) == OutputMode::Normal
}

/// The state after a line was evaluated: the line is counted if it is reported.
pub open spec fn counted(s: ScanView, record: LineRecord, reported: bool) -> ScanView {
    ScanView {
        matched: if reported {
            s.matched + 1
        } else {
            s.matched
        },
        evaluated: record.number as nat,
    }
}

/// What an evaluated line adds to the report: its records if it gets any, and nothing
/// otherwise.
pub open spec fn written(
    c: ConfigView,
    name: Seq<u8>,
    record: LineRecord,
    line: Seq<u8>,
    is_match: bool,
    spans: Seq<(usize, usize)>,
) -> Seq<u8> {
    if writes_line(c, is_match) {
        rendered(c, name, record.number as nat, record.start as nat, line, spans)
    } else {
        Seq::empty()
    }
}

impl View for Scan {
    type V = ScanView;

    closed spec fn view(&self) -> ScanView {
        ScanView { matched: self.matched as nat, evaluated: self.evaluated as nat }
    }
}

impl Scan {
    #[verifier::type_invariant]
    spec fn reported_lines_were_evaluated(&self) -> bool {
        self.matched <= self.evaluated
    }

    /// The state before the first line.
    pub fn new() -> (scan: Scan)
        ensures
            scan@ == (ScanView { matched: 0, evaluated: 0 }),
    {
        Scan { matched: 0, evaluated: 0 }
    }

    /// How many lines were reported so far.
    pub fn matched(&self) -> (r: usize)
        ensures
            r == self@.matched,
    {
        self.matched
    }

    /// The number of the last line that was evaluated, zero before the first.
    pub fn evaluated(&self) -> (r: usize)
        ensures
            r == self@.evaluated,
    {
        self.evaluated
    }

    /// Whether the next line is to be evaluated: it is, unless the ceiling on reported
    /// lines is reached.
    pub fn wants_more(&self, config: &Config) -> (r: bool)
        ensures
            r == has_room(ceiling(config@), self@.matched),
    {
        !ceiling_reached(ceiling_of(config), self.matched)
    }

    /// Takes in one evaluated line: its record, its bytes, whether the pattern matches
    /// it, and its match spans, and appends to `out` what the line adds to the report.
    /// Lines come in rising order. The spans are read only where the line gets records
    /// of its own and the configuration shows or highlights spans. Returns whether the
    /// line is reported.
    pub fn take(
        &mut self,
        config: &Config,
        out: &mut Vec<u8>,
        name: &str,
        record: LineRecord,
        line: &[u8],
        is_match: bool,
        spans: &Vec<(usize, usize)>,
    ) -> (reported: bool)
        requires
            old(self)@.evaluated < record.number,
            writes_line(config@, is_match) && needs_spans(config@) ==> spans_in_order(
                spans@,
                line@.len(),
            ),
        ensures
            reported == reports(is_match, config@.invert_match),
            final(self)@ == counted(old(self)@, record, reported),
            final(out)@ == old(out)@ + written(
                config@,
                name.spec_bytes(),
                record,
                line@,
                is_match,
                spans@,
            ),
    {
        proof {
            use_type_invariant(&*self);
        }
        let reported = is_reported(is_match, config.invert_match);
        let mut matched = self.matched;
        if reported {
            matched = matched + 1;
            if config.mode() == OutputMode::Normal {
                render_match(config, out, name, record.number, record.start, line, spans);
            }
        }
        *self = Scan { matched, evaluated: record.number };
        assert(out@ =~= old(out)@ + written(
            config@,
            name.spec_bytes(),
            record,
            line@,
            is_match,
            spans@,
        ));
        reported
    }

    /// Ends the search: what closes the report is written after `output`, which holds
    /// what was written per line, and the source is found if a line was reported.
    pub fn finish(self, config: &Config, name: &str, output: Vec<u8>) -> (report: SearchReport)
        ensures
            report.found == (self@.matched > 0),
            report.matched == self@.matched,
            report.evaluated == self@.evaluated,
            report.output@ == output@ + summary(config@, name.spec_bytes(), self@.matched),
    {
        let mut output = output;
        render_summary(config, &mut output, name, self.matched);
        SearchReport {
            found: self.matched > 0,
            matched: self.matched,
            evaluated: self.evaluated,
            output,
        }
    }
}

} // verus!
