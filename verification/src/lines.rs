//! The key list as a file: one key per line.
//!
//! A line ends at a line feed; a carriage return directly before that line
//! feed belongs to the terminator too. The last line needs no terminator,
//! and a line without one keeps every byte it has. Empty lines are keys
//! like any other.

use vstd::prelude::*;

verus! {

/// The byte that ends a line.
pub const LINE_FEED: u8 = 10;

/// The byte that may stand before a line feed as part of the line's end.
pub const CARRIAGE_RETURN: u8 = 13;

/// The number of bytes before the first line feed of `text`, or the length
/// of `text` where it holds none.
pub open spec fn first_line_len(text: Seq<u8>) -> nat
    decreases text.len(),
{
    if text.len() == 0 || text[0] == LINE_FEED {
        0
    } else {
        1 + first_line_len(text.drop_first())
    }
}

/// A line as it was cut off before its line feed, without the carriage
/// return that may end it.
pub open spec fn without_carriage_return(line: Seq<u8>) -> Seq<u8> {
    if line.len() > 0 && line.last() == CARRIAGE_RETURN {
        line.drop_last()
    } else {
        line
    }
}

/// The lines of `text`, in order.
pub open spec fn lines_of(text: Seq<u8>) -> Seq<Seq<u8>>
    decreases text.len(),
{
    let n = first_line_len(text) as int;
    if text.len() == 0 {
        seq![]
    } else if n >= text.len() {
        seq![text]
    } else {
        seq![without_carriage_return(text.take(n))] + lines_of(text.skip(n + 1))
    }
}

/// The bytes of each line of a list of lines.
pub open spec fn lines_view(lines: Seq<Vec<u8>>) -> Seq<Seq<u8>> {
    Seq::new(lines.len(), |i: int| lines[i]@)
}

/// `first_line_len` is the least index that holds a line feed.
pub proof fn lemma_first_line_len(text: Seq<u8>, n: int)
    requires
        0 <= n <= text.len(),
        forall|j: int| 0 <= j < n ==> text[j] != LINE_FEED,
        n < text.len() ==> text[n] == LINE_FEED,
    ensures
        first_line_len(text) == n,
    decreases n,
{
    if n > 0 {
        let rest = text.drop_first();
        assert forall|j: int| 0 <= j < n - 1 implies rest[j] != LINE_FEED by {
            assert(rest[j] == text[j + 1]);
        }
        lemma_first_line_len(rest, n - 1);
    }
}

/// The first line of a text never reaches past its end, and holds no line
/// feed.
pub proof fn lemma_first_line_bounds(text: Seq<u8>)
    ensures
        0 <= first_line_len(text) <= text.len(),
        forall|j: int| 0 <= j < first_line_len(text) ==> text[j] != LINE_FEED,
        first_line_len(text) < text.len() ==> text[first_line_len(text) as int] == LINE_FEED,
    decreases text.len(),
{
    if text.len() > 0 && text[0] != LINE_FEED {
        let rest = text.drop_first();
        lemma_first_line_bounds(rest);
        assert forall|j: int| 0 <= j < first_line_len(text) implies text[j] != LINE_FEED by {
            if j > 0 {
                assert(text[j] == rest[j - 1]);
            }
        }
    }
}

/// A key never holds a line feed: no line of a text does.
pub proof fn law_lines_hold_no_line_feed(text: Seq<u8>)
    ensures
        forall|i: int, j: int|
            0 <= i < lines_of(text).len() && 0 <= j < lines_of(text)[i].len()
                ==> lines_of(text)[i][j] != LINE_FEED,
    decreases text.len(),
{
    lemma_first_line_bounds(text);
    let n = first_line_len(text) as int;
    if text.len() == 0 {
    } else if n >= text.len() {
    } else {
        let rest = text.skip(n + 1);
        law_lines_hold_no_line_feed(rest);
        let head = without_carriage_return(text.take(n));
        assert forall|i: int, j: int|
            0 <= i < lines_of(text).len() && 0 <= j < lines_of(text)[i].len()
            implies lines_of(text)[i][j] != LINE_FEED by {
            if i == 0 {
                assert(lines_of(text)[0] == head);
                assert(head[j] == text[j]);
            } else {
                assert(lines_of(text)[i] == lines_of(rest)[i - 1]);
            }
        }
    }
}

/// Copies `text[from..to]` into a buffer of its own.
fn copy_range(text: &[u8], from: usize, to: usize) -> (line: Vec<u8>)
    requires
        from <= to <= text@.len(),
    ensures
        line@ == text@.subrange(from as int, to as int),
{
    let mut line: Vec<u8> = Vec::new();
    let mut i: usize = from;
    while i < to
        invariant
            from <= i <= to <= text@.len(),
            line@ == text@.subrange(from as int, i as int),
        decreases to - i,
    {
        line.push(text[i]);
        i += 1;
        assert(line@ =~= text@.subrange(from as int, i as int));
    }
    line
}

/// Splits the text of a key list into its lines.
pub fn split_lines(text: &[u8]) -> (lines: Vec<Vec<u8>>)
    ensures
        lines_view(lines@) == lines_of(text@),
{
    let mut lines: Vec<Vec<u8>> = Vec::new();
    let mut start: usize = 0;
    let len: usize = text.len();
    assert(text@.skip(0) =~= text@);
    assert(lines_view(lines@) =~= Seq::<Seq<u8>>::empty());
    while start < len
        invariant
            len == text@.len(),
            start <= len,
            lines_of(text@) == lines_view(lines@) + lines_of(text@.skip(start as int)),
        decreases len - start,
    {
        let ghost rest = text@.skip(start as int);
        let ghost done = lines_view(lines@);
        let mut end: usize = start;
        while end < len && text[end] != LINE_FEED
            invariant
                len == text@.len(),
                start <= end <= len,
                forall|j: int| start <= j < end ==> text@[j] != LINE_FEED,
            decreases len - end,
        {
            end += 1;
        }
        proof {
            assert forall|j: int| 0 <= j < end - start implies rest[j] != LINE_FEED by {
                assert(rest[j] == text@[start + j]);
            }
            lemma_first_line_len(rest, end - start);
        }
        if end == len {
            let line = copy_range(text, start, end);
            lines.push(line);
            proof {
                assert(line@ =~= rest);
                assert(lines_of(rest) =~= seq![rest]);
                assert(text@.skip(len as int).len() == 0);
                assert(lines_of(text@.skip(len as int)) =~= Seq::<Seq<u8>>::empty());
                assert(lines_view(lines@) =~= done + seq![rest]);
            }
            start = len;
        } else {
            let stop: usize = if end > start && text[end - 1] == CARRIAGE_RETURN {
                end - 1
            } else {
                end
            };
            let line = copy_range(text, start, stop);
            lines.push(line);
            proof {
                let cut = rest.take(end - start);
                assert(cut =~= text@.subrange(start as int, end as int));
                assert(line@ =~= without_carriage_return(cut));
                assert(rest.skip(end - start + 1) =~= text@.skip(end + 1));
                assert(lines_of(rest) == seq![without_carriage_return(cut)] + lines_of(
                    text@.skip(end + 1),
                ));
                assert(lines_view(lines@) =~= done + seq![line@]);
                assert(done + (seq![line@] + lines_of(text@.skip(end + 1))) =~= (done
                    + seq![line@]) + lines_of(text@.skip(end + 1)));
            }
            start = end + 1;
        }
    }
    proof {
        assert(text@.skip(start as int).len() == 0);
        assert(lines_view(lines@) + Seq::<Seq<u8>>::empty() =~= lines_view(lines@));
    }
    lines
}

} // verus!
