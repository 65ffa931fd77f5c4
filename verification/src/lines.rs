//! Splitting a text into the rows of a buffer.

use vstd::prelude::*;

verus! {

pub const LINE_FEED: u8 = 0x0a;

pub const CARRIAGE_RETURN: u8 = 0x0d;

/// A line without the carriage return that may precede its line feed.
pub open spec fn strip_carriage_return(line: Seq<u8>) -> Seq<u8> {
    if line.len() > 0 && line.last() == CARRIAGE_RETURN {
        line.drop_last()
    } else {
        line
    }
}

/// The state of a left-to-right scan for lines: the lines already ended by
/// a line feed, and the bytes read since the last line feed.
pub open spec fn line_scan(s: Seq<u8>) -> (Seq<Seq<u8>>, Seq<u8>)
    decreases s.len(),
{
    if s.len() == 0 {
        (Seq::empty(), Seq::empty())
    } else {
        let (done, open) = line_scan(s.drop_last());
        if s.last() == LINE_FEED {
            (done.push(strip_carriage_return(open)), Seq::empty())
        } else {
            (done, open.push(s.last()))
        }
    }
}

/// The lines of a text. A line ends at a line feed, or at a carriage return
/// directly followed by one; the terminator is not part of the line. A
/// carriage return that no line feed follows stays in its line. The last
/// line needs no terminator, and a text that ends with one has no further,
/// empty line after it.
pub open spec fn split_lines(s: Seq<u8>) -> Seq<Seq<u8>> {
    let (done, open) = line_scan(s);
    if open.len() > 0 {
        done.push(open)
    } else {
        done
    }
}

/// The contents of a vector of byte rows.
pub open spec fn rows_view(rows: Seq<Vec<u8>>) -> Seq<Seq<u8>> {
    Seq::new(rows.len(), |i: int| rows[i]@)
}

/// Splits a text into its lines.
pub fn lines_of(s: &[u8]) -> (lines: Vec<Vec<u8>>)
    ensures
        rows_view(lines@) == split_lines(s@),
{
    let mut lines: Vec<Vec<u8>> = Vec::new();
    let mut open: Vec<u8> = Vec::new();
    let mut i: usize = 0;
    while i < s.len()
        invariant
            i <= s.len(),
            rows_view(lines@) == line_scan(s@.take(i as int)).0,
            open@ == line_scan(s@.take(i as int)).1,
        decreases s.len() - i,
    {
        assert(s@.take(i + 1).drop_last() =~= s@.take(i as int));
        let b = s[i];
        if b == LINE_FEED {
            let n = open.len();
            if n > 0 && open[n - 1] == CARRIAGE_RETURN {
                open.pop();
            }
            lines.push(open);
            open = Vec::new();
        } else {
            open.push(b);
        }
        i += 1;
    }
    assert(s@.take(s@.len() as int) =~= s@);
    if open.len() > 0 {
        lines.push(open);
    }
    lines
}

} // verus!
