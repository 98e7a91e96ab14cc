//! The line segmenter: splits a source's bytes into lines at every line feed.

use vstd::prelude::*;

verus! {

/// The byte that ends a line.
pub const LINE_FEED: u8 = 10;

/// The positions of the line feeds in `content`, in rising order.
pub open spec fn breaks(content: Seq<u8>) -> Seq<int>
    decreases content.len(),
{
    if content.len() == 0 {
        Seq::empty()
    } else if content.last() == LINE_FEED {
        breaks(content.drop_last()).push(content.len() - 1)
    } else {
        breaks(content.drop_last())
    }
}

/// The number of lines: one more than the number of line feeds.
pub open spec fn line_count(content: Seq<u8>) -> nat {
    breaks(content).len() + 1
}

/// Where line `i` (counted from zero) starts: at the start of the content, or right
/// after the line feed that ends the line before it.
pub open spec fn line_start(content: Seq<u8>, i: int) -> int {
    if i <= 0 {
        0
    } else {
        breaks(content)[i - 1] + 1
    }
}

/// Where line `i` (counted from zero) ends: at its line feed, or at the end of the
/// content for the last line.
pub open spec fn line_end(content: Seq<u8>, i: int) -> int {
    if i < breaks(content).len() {
        breaks(content)[i]
    } else {
        content.len() as int
    }
}

/// The bytes of line `i` (counted from zero), without its line feed.
pub open spec fn line_at(content: Seq<u8>, i: int) -> Seq<u8> {
    content.subrange(line_start(content, i), line_end(content, i))
}

/// The lines of `content`, in order. Content that ends with a line feed has an empty
/// last line, and empty content is one empty line.
pub open spec fn lines_of(content: Seq<u8>) -> Seq<Seq<u8>> {
    Seq::new(line_count(content), |i: int| line_at(content, i))
}

/// One line of a source: its number, counted from one, and the span of its bytes in
/// the source, the line feed not included.
#[derive(Clone, Copy, Debug, PartialEq, Eq, Structural)]
pub struct LineRecord {
    pub number: usize,
    pub start: usize,
    pub end: usize,
}

/// The record of line `i` (counted from zero) of `content`.
pub open spec fn record_at(content: Seq<u8>, i: int) -> LineRecord {
    LineRecord {
        number: (i + 1) as usize,
        start: line_start(content, i) as usize,
        end: line_end(content, i) as usize,
    }
}

/// The breaks are exactly the positions of the line feeds, in rising order.
pub proof fn lemma_breaks(content: Seq<u8>)
    ensures
        breaks(content).len() <= content.len(),
        forall|k: int|
            0 <= k < breaks(content).len() ==> 0 <= #[trigger] breaks(content)[k] < content.len()
                && content[breaks(content)[k]] == LINE_FEED,
        forall|k: int, l: int|
            0 <= k < l < breaks(content).len() ==> #[trigger] breaks(content)[k]
                < #[trigger] breaks(content)[l],
        forall|p: int|
            0 <= p < content.len() && #[trigger] content[p] == LINE_FEED ==> breaks(
                content,
            ).contains(p),
    decreases content.len(),
{
    if content.len() > 0 {
        let head = content.drop_last();
        lemma_breaks(head);
        let all = breaks(content);
        assert forall|p: int|
            0 <= p < content.len() && #[trigger] content[p] == LINE_FEED implies all.contains(
            p,
        ) by {
            if p < head.len() {
                assert(head[p] == LINE_FEED);
                let k = choose|k: int| 0 <= k < breaks(head).len() && breaks(head)[k] == p;
                assert(all[k] == p);
            } else {
                assert(all[all.len() - 1] == p);
            }
        }
    }
}

/// Every line lies inside the content, and the lines follow one another with one line
/// feed between them.
pub proof fn lemma_line_bounds(content: Seq<u8>, i: int)
    requires
        0 <= i < line_count(content),
    ensures
        0 <= line_start(content, i) <= line_end(content, i) <= content.len(),
        i + 1 < line_count(content) ==> line_start(content, i + 1) == line_end(content, i) + 1,
        i + 1 < line_count(content) ==> content[line_end(content, i)] == LINE_FEED,
        i + 1 == line_count(content) ==> line_end(content, i) == content.len(),
        i <= line_start(content, i),
    decreases i,
{
    lemma_breaks(content);
    if i > 0 {
        lemma_line_bounds(content, i - 1);
    }
}

/// Whether no line holds a line feed.
pub open spec fn free_of_line_feeds(lines: Seq<Seq<u8>>) -> bool {
    forall|i: int, j: int|
        0 <= i < lines.len() && 0 <= j < lines[i].len() ==> #[trigger] lines[i][j] != LINE_FEED
}

/// The delimiter is in no line: the lines of a content hold no line feed.
pub proof fn lemma_lines_hold_no_line_feed(content: Seq<u8>)
    ensures
        free_of_line_feeds(lines_of(content)),
{
    let lines = lines_of(content);
    assert forall|i: int, j: int|
        0 <= i < lines.len() && 0 <= j < lines[i].len() implies #[trigger] lines[i][j]
        != LINE_FEED by {
        lemma_breaks(content);
        lemma_line_bounds(content, i);
        let p = line_start(content, i) + j;
        if content[p] == LINE_FEED {
            let k = choose|k: int| 0 <= k < breaks(content).len() && breaks(content)[k] == p;
            if k < i - 1 {
                assert(breaks(content)[k] < breaks(content)[i - 1]);
            }
            if k > i {
                assert(breaks(content)[i] < breaks(content)[k]);
            }
        }
    }
}

/// The lines put together again, with one line feed between neighbours.
pub open spec fn joined(lines: Seq<Seq<u8>>) -> Seq<u8>
    decreases lines.len(),
{
    if lines.len() == 0 {
        Seq::empty()
    } else if lines.len() == 1 {
        lines[0]
    } else {
        joined(lines.drop_last()) + seq![LINE_FEED] + lines.last()
    }
}

/// The first `k` lines, joined, are the content up to the end of line `k - 1`.
proof fn lemma_joined_prefix(content: Seq<u8>, k: int)
    requires
        1 <= k <= line_count(content),
    ensures
        joined(lines_of(content).take(k)) == content.take(line_end(content, k - 1)),
    decreases k,
{
    let lines = lines_of(content);
    lemma_line_bounds(content, k - 1);
    if k == 1 {
        assert(lines.take(1)[0] =~= content.take(line_end(content, 0)));
    } else {
        lemma_joined_prefix(content, k - 1);
        lemma_line_bounds(content, k - 2);
        assert(lines.take(k).drop_last() =~= lines.take(k - 1));
        assert(lines.take(k).last() == line_at(content, k - 1));
        assert(content.take(line_end(content, k - 2)) + seq![LINE_FEED] + line_at(content, k - 1)
            =~= content.take(line_end(content, k - 1)));
    }
}

/// Splitting loses nothing: the lines, joined by line feeds, are the content.
pub proof fn lemma_joined_lines_are_content(content: Seq<u8>)
    ensures
        joined(lines_of(content)) == content,
{
    let count = line_count(content) as int;
    lemma_joined_prefix(content, count);
    lemma_line_bounds(content, count - 1);
    assert(lines_of(content).take(count) =~= lines_of(content));
    assert(content.take(content.len() as int) =~= content);
}

/// Bytes without a line feed, put after a content, add no break to it.
proof fn lemma_breaks_ignore_a_tail(content: Seq<u8>, tail: Seq<u8>)
    requires
        forall|j: int| 0 <= j < tail.len() ==> tail[j] != LINE_FEED,
    ensures
        breaks(content + tail) == breaks(content),
    decreases tail.len(),
{
    if tail.len() == 0 {
        assert(content + tail =~= content);
    } else {
        lemma_breaks_ignore_a_tail(content, tail.drop_last());
        assert((content + tail).drop_last() =~= content + tail.drop_last());
    }
}

/// A line feed and a line after a content add one line to its lines.
proof fn lemma_lines_of_one_more(content: Seq<u8>, line: Seq<u8>)
    requires
        forall|j: int| 0 <= j < line.len() ==> line[j] != LINE_FEED,
    ensures
        lines_of(content + seq![LINE_FEED] + line) == lines_of(content).push(line),
{
    let ended = content + seq![LINE_FEED];
    let whole = ended + line;
    assert(ended.drop_last() =~= content);
    lemma_breaks_ignore_a_tail(ended, line);
    lemma_breaks(content);
    let count = line_count(content) as int;
    assert forall|i: int| 0 <= i < count + 1 implies line_at(whole, i) == lines_of(content).push(
        line,
    )[i] by {
        if i < count {
            lemma_line_bounds(content, i);
            assert(line_at(whole, i) =~= line_at(content, i));
        } else {
            assert(line_at(whole, i) =~= line);
        }
    }
    assert(lines_of(whole) =~= lines_of(content).push(line));
}

/// Splitting is the only way to cut a content at its line feeds: lines that hold no
/// line feed and that give the content when joined are the lines of the content.
pub proof fn lemma_lines_are_unique(content: Seq<u8>, lines: Seq<Seq<u8>>)
    requires
        lines.len() > 0,
        free_of_line_feeds(lines),
        joined(lines) == content,
    ensures
        lines == lines_of(content),
    decreases lines.len(),
{
    if lines.len() == 1 {
        assert forall|j: int| 0 <= j < content.len() implies content[j] != LINE_FEED by {
            assert(lines[0][j] != LINE_FEED);
        }
        lemma_breaks_ignore_a_tail(Seq::empty(), content);
        assert(Seq::<u8>::empty() + content =~= content);
        assert(line_at(content, 0) =~= content);
        assert(lines =~= lines_of(content));
    } else {
        let head = lines.drop_last();
        let last = lines.last();
        assert(free_of_line_feeds(head)) by {
            assert forall|i: int, j: int|
                0 <= i < head.len() && 0 <= j < head[i].len() implies #[trigger] head[i][j]
                != LINE_FEED by {
                assert(lines[i][j] != LINE_FEED);
            }
        }
        assert forall|j: int| 0 <= j < last.len() implies last[j] != LINE_FEED by {
            assert(lines[lines.len() - 1][j] != LINE_FEED);
        }
        lemma_lines_are_unique(joined(head), head);
        lemma_lines_of_one_more(joined(head), last);
        assert(lines =~= head.push(last));
    }
}

/// The bytes that stand before line `i` (counted from zero): every line before it, each
/// with its line feed.
pub open spec fn bytes_before(content: Seq<u8>, i: int) -> int
    decreases i,
{
    if i <= 0 {
        0
    } else {
        bytes_before(content, i - 1) + line_at(content, i - 1).len() + 1
    }
}

/// A line starts after all the bytes of the lines before it, their line feeds
/// included.
pub proof fn lemma_line_starts_after_the_lines_before(content: Seq<u8>, i: int)
    requires
        0 <= i < line_count(content),
    ensures
        line_start(content, i) == bytes_before(content, i),
    decreases i,
{
    if i > 0 {
        lemma_line_starts_after_the_lines_before(content, i - 1);
        lemma_line_bounds(content, i - 1);
    }
}

/// The end of every line of `content`, in order.
fn line_ends(content: &[u8]) -> (ends: Vec<usize>)
    ensures
        ends@.len() == line_count(content@),
        forall|k: int| 0 <= k < ends@.len() ==> ends@[k] == line_end(content@, k),
{
    let mut ends: Vec<usize> = Vec::new();
    let mut i: usize = 0;
    while i < content.len()
        invariant
            i <= content@.len(),
            ends@.len() == breaks(content@.take(i as int)).len(),
            forall|k: int|
                0 <= k < ends@.len() ==> ends@[k] == #[trigger] breaks(content@.take(i as int))[k],
        decreases content@.len() - i,
    {
        assert(content@.take(i + 1).drop_last() =~= content@.take(i as int));
        if content[i] == LINE_FEED {
            ends.push(i);
        }
        i += 1;
    }
    assert(content@.take(i as int) =~= content@);
    ends.push(content.len());
    ends
}

/// Splits `content` into its lines: one record per line, in order, numbered from one.
pub fn segment(content: &[u8]) -> (records: Vec<LineRecord>)
    ensures
        records@.len() == line_count(content@),
        forall|i: int| 0 <= i < records@.len() ==> #[trigger] records@[i] == record_at(content@, i),
        forall|i: int|
            0 <= i < records@.len() ==> (#[trigger] records@[i]).number == i + 1
                && records@[i].start == line_start(content@, i) && records@[i].end == line_end(
                content@,
                i,
            ),
        forall|i: int|
            0 <= i < records@.len() ==> (#[trigger] records@[i]).start <= records@[i].end
                <= content@.len() && content@.subrange(
                records@[i].start as int,
                records@[i].end as int,
            ) == lines_of(content@)[i],
{
    let ends = line_ends(content);
    let mut records: Vec<LineRecord> = Vec::new();
    let mut k: usize = 0;
    while k < ends.len()
        invariant
            k <= ends@.len(),
            ends@.len() == line_count(content@),
            forall|j: int| 0 <= j < ends@.len() ==> ends@[j] == line_end(content@, j),
            records@.len() == k,
            forall|j: int| 0 <= j < k ==> #[trigger] records@[j] == record_at(content@, j),
        decreases ends@.len() - k,
    {
        proof {
            lemma_line_bounds(content@, k as int);
            if k > 0 {
                lemma_line_bounds(content@, k - 1);
            }
        }
        let start: usize = if k == 0 {
            0
        } else {
            ends[k - 1] + 1
        };
        records.push(LineRecord { number: k + 1, start, end: ends[k] });
        k += 1;
    }
    proof {
        assert forall|i: int| 0 <= i < records@.len() implies (#[trigger] records@[i]).number == i
            + 1 && records@[i].start == line_start(content@, i) && records@[i].end == line_end(
            content@,
            i,
        ) && records@[i].start <= records@[i].end <= content@.len() && content@.subrange(
            records@[i].start as int,
            records@[i].end as int,
        ) == lines_of(content@)[i] by {
            lemma_line_bounds(content@, i);
        }
    }
    records
}

} // verus!
