//! The output formatter: what is written for a reported line, and what closes the
//! report of a source.

use crate::config::mode_of;
use crate::config::shows_filename;
use crate::config::Config;
use crate::config::ConfigView;
use crate::config::OutputMode;
use crate::pattern::spans_in_order;
use crate::segment::LINE_FEED;
use crate::text::concat;
use crate::text::decimal;
use crate::text::lemma_concat_push;
use crate::text::push_bytes;
use crate::text::push_decimal;
use vstd::prelude::*;
use vstd::string::StringSliceAdditionalSpecFns;

verus! {

/// The byte that ends every prefix field.
pub const COLON: u8 = 58;

/// The escape sequence that selects a graphic rendition: escape, an opening bracket,
/// the parameters, and the letter `m`.
pub open spec fn rendition(parameters: Seq<u8>) -> Seq<u8> {
    seq![27u8, 91u8] + parameters + seq![109u8]
}

/// The rendition of a source's name: magenta.
pub open spec fn name_color() -> Seq<u8> {
    rendition(seq![51u8, 53u8])
}

/// The rendition of a line number: green.
pub open spec fn number_color() -> Seq<u8> {
    rendition(seq![51u8, 50u8])
}

/// The rendition of matched text: bold red.
pub open spec fn match_color() -> Seq<u8> {
    rendition(seq![49u8, 59u8, 51u8, 49u8])
}

/// The rendition that ends any other.
pub open spec fn color_reset() -> Seq<u8> {
    rendition(seq![48u8])
}

/// The name field of a record: the source's name and a colon, where names are shown.
pub open spec fn name_prefix(c: ConfigView, name: Seq<u8>) -> Seq<u8> {
    if !shows_filename(c) {
        Seq::empty()
    } else if c.color {
        name_color() + name + color_reset() + seq![COLON]
    } else {
        name + seq![COLON]
    }
}

/// The line-number field of a record: the number and a colon, where numbers are shown.
pub open spec fn number_prefix(c: ConfigView, number: nat) -> Seq<u8> {
    if !c.line_number {
        Seq::empty()
    } else if c.color {
        number_color() + decimal(number) + color_reset() + seq![COLON]
    } else {
        decimal(number) + seq![COLON]
    }
}

/// The byte-offset field of a record: the offset and a colon, where offsets are shown.
pub open spec fn offset_prefix(c: ConfigView, offset: nat) -> Seq<u8> {
    if c.byte_offset {
        decimal(offset) + seq![COLON]
    } else {
        Seq::empty()
    }
}

/// What stands in front of a record's content: name, line number, byte offset.
pub open spec fn prefix(c: ConfigView, name: Seq<u8>, number: nat, offset: nat) -> Seq<u8> {
    name_prefix(c, name) + number_prefix(c, number) + offset_prefix(c, offset)
}

/// Whether a reported line is written as its match spans, one record each.
pub open spec fn shows_spans(c: ConfigView) -> bool {
    c.only_matching && !c.invert_match
}

/// Whether the match spans of a reported line are highlighted.
pub open spec fn highlights(c: ConfigView) -> bool {
    c.color && !c.invert_match
}

/// Whether rendering a reported line needs its match spans.
pub open spec fn needs_spans(c: ConfigView) -> bool {
    shows_spans(c) || highlights(c)
}

/// The bytes of one span of a line, highlighted where color is on.
pub open spec fn span_text(c: ConfigView, line: Seq<u8>, span: (usize, usize)) -> Seq<u8> {
    if c.color {
        match_color() + line.subrange(span.0 as int, span.1 as int) + color_reset()
    } else {
        line.subrange(span.0 as int, span.1 as int)
    }
}

/// The record of one match span: the prefix, the span's bytes, a line feed.
pub open spec fn span_record(
    c: ConfigView,
    name: Seq<u8>,
    number: nat,
    offset: nat,
    line: Seq<u8>,
    span: (usize, usize),
) -> Seq<u8> {
    prefix(c, name, number, offset) + span_text(c, line, span) + seq![LINE_FEED]
}

/// The records of a line's match spans, one per span, in order.
pub open spec fn span_records(
    c: ConfigView,
    name: Seq<u8>,
    number: nat,
    offset: nat,
    line: Seq<u8>,
    spans: Seq<(usize, usize)>,
) -> Seq<Seq<u8>> {
    Seq::new(spans.len(), |k: int| span_record(c, name, number, offset, line, spans[k]))
}

/// Where the text between span `k - 1` and span `k` starts.
pub open spec fn gap_start(spans: Seq<(usize, usize)>, k: int) -> int {
    if k <= 0 {
        0
    } else {
        spans[k - 1].1 as int
    }
}

/// The line up to the end of its first `k` spans, each span wrapped in the match color.
pub open spec fn highlighted_upto(line: Seq<u8>, spans: Seq<(usize, usize)>, k: int) -> Seq<u8>
    decreases k,
{
    if k <= 0 {
        Seq::empty()
    } else {
        highlighted_upto(line, spans, k - 1) + line.subrange(
            gap_start(spans, k - 1),
            spans[k - 1].0 as int,
        ) + match_color() + line.subrange(spans[k - 1].0 as int, spans[k - 1].1 as int)
            + color_reset()
    }
}

/// The whole line with each span wrapped in the match color.
pub open spec fn highlighted(line: Seq<u8>, spans: Seq<(usize, usize)>) -> Seq<u8> {
    highlighted_upto(line, spans, spans.len() as int) + line.subrange(
        gap_start(spans, spans.len() as int),
        line.len() as int,
    )
}

/// The record of a whole line: the prefix, the line, a line feed.
pub open spec fn line_record(
    c: ConfigView,
    name: Seq<u8>,
    number: nat,
    offset: nat,
    line: Seq<u8>,
    spans: Seq<(usize, usize)>,
) -> Seq<u8> {
    prefix(c, name, number, offset) + if highlights(c) {
        highlighted(line, spans)
    } else {
        line
    } + seq![LINE_FEED]
}

/// What is written for a reported line: its span records, or the record of the whole
/// line.
pub open spec fn rendered(
    c: ConfigView,
    name: Seq<u8>,
    number: nat,
    offset: nat,
    line: Seq<u8>,
    spans: Seq<(usize, usize)>,
) -> Seq<u8> {
    if shows_spans(c) {
        concat(span_records(c, name, number, offset, line, spans))
    } else {
        line_record(c, name, number, offset, line, spans)
    }
}

/// The line that reports a count: the name field, never colored, and the count.
pub open spec fn count_record(c: ConfigView, name: Seq<u8>, count: nat) -> Seq<u8> {
    if shows_filename(c) {
        name + seq![COLON] + decimal(count) + seq![LINE_FEED]
    } else {
        decimal(count) + seq![LINE_FEED]
    }
}

/// The line that reports a source by name.
pub open spec fn name_record(name: Seq<u8>) -> Seq<u8> {
    name + seq![LINE_FEED]
}

/// What closes the report of a source with `matched` reported lines.
pub open spec fn summary(c: ConfigView, name: Seq<u8>, matched: nat) -> Seq<u8> {
    match mode_of(c) {
        OutputMode::Quiet => Seq::empty(),
        OutputMode::FilesWithMatches => if matched > 0 {
            name_record(name)
        } else {
            Seq::empty()
        },
        OutputMode::Count => count_record(c, name, matched),
        OutputMode::FilesWithoutMatch => if matched == 0 {
            name_record(name)
        } else {
            Seq::empty()
        },
        OutputMode::Normal => Seq::empty(),
    }
}

/// Appends the rendition of a source's name.
fn push_name_color(out: &mut Vec<u8>)
    ensures
        final(out)@ == old(out)@ + name_color(),
{
    out.push(27);
    out.push(91);
    out.push(51);
    out.push(53);
    out.push(109);
    assert(out@ =~= old(out)@ + name_color());
}

/// Appends the rendition of a line number.
fn push_number_color(out: &mut Vec<u8>)
    ensures
        final(out)@ == old(out)@ + number_color(),
{
    out.push(27);
    out.push(91);
    out.push(51);
    out.push(50);
    out.push(109);
    assert(out@ =~= old(out)@ + number_color());
}

/// Appends the rendition of matched text.
fn push_match_color(out: &mut Vec<u8>)
    ensures
        final(out)@ == old(out)@ + match_color(),
{
    out.push(27);
    out.push(91);
    out.push(49);
    out.push(59);
    out.push(51);
    out.push(49);
    out.push(109);
    assert(out@ =~= old(out)@ + match_color());
}

/// Appends the rendition that ends any other.
fn push_color_reset(out: &mut Vec<u8>)
    ensures
        final(out)@ == old(out)@ + color_reset(),
{
    out.push(27);
    out.push(91);
    out.push(48);
    out.push(109);
    assert(out@ =~= old(out)@ + color_reset());
}

/// Appends what stands in front of a record's content.
pub fn render_prefix(config: &Config, out: &mut Vec<u8>, name: &str, number: usize, offset: usize)
    ensures
        final(out)@ == old(out)@ + prefix(
            config@,
            name.spec_bytes(),
            number as nat,
            offset as nat,
        ),
{
    let ghost c = config@;
    let ghost start = out@;
    if config.shows_filename() {
        if config.color {
            push_name_color(out);
            push_bytes(out, name.as_bytes());
            push_color_reset(out);
        } else {
            push_bytes(out, name.as_bytes());
        }
        out.push(COLON);
    }
    assert(out@ =~= start + name_prefix(c, name.spec_bytes()));
    let ghost named = out@;
    if config.line_number {
        if config.color {
            push_number_color(out);
            push_decimal(out, number);
            push_color_reset(out);
        } else {
            push_decimal(out, number);
        }
        out.push(COLON);
    }
    assert(out@ =~= named + number_prefix(c, number as nat));
    let ghost numbered = out@;
    if config.byte_offset {
        push_decimal(out, offset);
        out.push(COLON);
    }
    assert(out@ =~= numbered + offset_prefix(c, offset as nat));
    assert(out@ =~= start + prefix(c, name.spec_bytes(), number as nat, offset as nat));
}

/// Appends the line with each of its spans wrapped in the match color, and a line feed
/// after it.
pub fn render_highlighted(out: &mut Vec<u8>, line: &[u8], spans: &Vec<(usize, usize)>)
    requires
        spans_in_order(spans@, line@.len()),
    ensures
        final(out)@ == old(out)@ + highlighted(line@, spans@) + seq![LINE_FEED],
{
    let ghost start = out@;
    let mut last: usize = 0;
    let mut k: usize = 0;
    while k < spans.len()
        invariant
            k <= spans@.len(),
            spans_in_order(spans@, line@.len()),
            last == gap_start(spans@, k as int),
            last <= line@.len(),
            out@ == start + highlighted_upto(line@, spans@, k as int),
        decreases spans@.len() - k,
    {
        let span = spans[k];
        assert(k > 0 ==> spans@[k - 1].1 <= spans@[k as int].0);
        let ghost before = out@;
        push_bytes(out, &line[last..span.0]);
        push_match_color(out);
        push_bytes(out, &line[span.0..span.1]);
        push_color_reset(out);
        last = span.1;
        k += 1;
        assert(out@ =~= start + highlighted_upto(line@, spans@, k as int));
    }
    push_bytes(out, &line[last..line.len()]);
    out.push(LINE_FEED);
    assert(out@ =~= start + highlighted(line@, spans@) + seq![LINE_FEED]);
}

/// Appends what is written for a reported line. `spans` are the line's match spans;
/// they are read only where the configuration shows or highlights them.
pub fn render_match(
    config: &Config,
    out: &mut Vec<u8>,
    name: &str,
    number: usize,
    offset: usize,
    line: &[u8],
    spans: &Vec<(usize, usize)>,
)
    requires
        needs_spans(config@) ==> spans_in_order(spans@, line@.len()),
    ensures
        final(out)@ == old(out)@ + rendered(
            config@,
            name.spec_bytes(),
            number as nat,
            offset as nat,
            line@,
            spans@,
        ),
{
    let ghost c = config@;
    let ghost start = out@;
    let ghost label = name.spec_bytes();
    if config.only_matching && !config.invert_match {
        let ghost records = span_records(c, label, number as nat, offset as nat, line@, spans@);
        let mut k: usize = 0;
        while k < spans.len()
            invariant
                k <= spans@.len(),
                c == config@,
                label == name.spec_bytes(),
                spans_in_order(spans@, line@.len()),
                records == span_records(c, label, number as nat, offset as nat, line@, spans@),
                out@ == start + concat(records.take(k as int)),
            decreases spans@.len() - k,
        {
            let span = spans[k];
            let ghost before = out@;
            render_prefix(config, out, name, number, offset);
            if config.color {
                push_match_color(out);
                push_bytes(out, &line[span.0..span.1]);
                push_color_reset(out);
            } else {
                push_bytes(out, &line[span.0..span.1]);
            }
            out.push(LINE_FEED);
            proof {
                assert(out@ =~= before + records[k as int]);
                assert(records.take(k + 1) =~= records.take(k as int).push(records[k as int]));
                lemma_concat_push(records.take(k as int), records[k as int]);
            }
            k += 1;
        }
        assert(records.take(k as int) =~= records);
    } else {
        render_prefix(config, out, name, number, offset);
        if config.color && !config.invert_match {
            let ghost prefixed = out@;
            render_highlighted(out, line, spans);
            assert(out@ =~= start + line_record(
                c,
                label,
                number as nat,
                offset as nat,
                line@,
                spans@,
            ));
        } else {
            push_bytes(out, line);
            out.push(LINE_FEED);
            assert(out@ =~= start + line_record(
                c,
                label,
                number as nat,
                offset as nat,
                line@,
                spans@,
            ));
        }
    }
}

/// Appends what closes the report of a source with `matched` reported lines.
pub fn render_summary(config: &Config, out: &mut Vec<u8>, name: &str, matched: usize)
    ensures
        final(out)@ == old(out)@ + summary(config@, name.spec_bytes(), matched as nat),
{
    let ghost start = out@;
    match config.mode() {
        OutputMode::Quiet => {},
        OutputMode::FilesWithMatches => {
            if matched > 0 {
                push_bytes(out, name.as_bytes());
                out.push(LINE_FEED);
            }
        },
        OutputMode::Count => {
            if config.shows_filename() {
                push_bytes(out, name.as_bytes());
                out.push(COLON);
            }
            push_decimal(out, matched);
            out.push(LINE_FEED);
        },
        OutputMode::FilesWithoutMatch => {
            if matched == 0 {
                push_bytes(out, name.as_bytes());
                out.push(LINE_FEED);
            }
        },
        OutputMode::Normal => {},
    }
    assert(out@ =~= start + summary(config@, name.spec_bytes(), matched as nat));
}

/// Where only the match spans are shown, a line with `K` spans gives `K` records, and
/// each record holds its prefix, the bytes of its span and a line feed: nothing of the
/// line around the span.
pub proof fn lemma_only_matching_records(
    c: ConfigView,
    name: Seq<u8>,
    number: nat,
    offset: nat,
    line: Seq<u8>,
    spans: Seq<(usize, usize)>,
)
    requires
        c.only_matching,
        !c.invert_match,
    ensures
        rendered(c, name, number, offset, line, spans) == concat(
            span_records(c, name, number, offset, line, spans),
        ),
        span_records(c, name, number, offset, line, spans).len() == spans.len(),
        forall|k: int|
            0 <= k < spans.len() ==> #[trigger] span_records(
                c,
                name,
                number,
                offset,
                line,
                spans,
            )[k] == prefix(c, name, number, offset) + span_text(c, line, spans[k]) + seq![
                LINE_FEED,
            ],
        !c.color ==> forall|k: int|
            0 <= k < spans.len() ==> span_text(c, line, #[trigger] spans[k]) == line.subrange(
                spans[k].0 as int,
                spans[k].1 as int,
            ),
{
}

/// Color never changes what closes the report of a source: a count line and a name
/// line are the same bytes with and without it.
pub proof fn lemma_summary_ignores_color(c: ConfigView, name: Seq<u8>, matched: nat)
    ensures
        summary(ConfigView { color: !c.color, ..c }, name, matched) == summary(c, name, matched),
{
}

/// A line without match spans is highlighted as itself.
pub proof fn lemma_highlighted_without_spans(line: Seq<u8>)
    ensures
        highlighted(line, Seq::empty()) == line,
{
    assert(highlighted(line, Seq::empty()) =~= line);
}

} // verus!
