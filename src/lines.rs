//! Splitting a file's bytes into records: at newlines, or at null bytes.

use vstd::prelude::*;

verus! {

/// The pieces of `c` between `sep` bytes, scanning from byte `i` with the
/// current piece begun at `start`; every separator ends a piece, and the
/// bytes after the last one form the final piece.
pub open spec fn pieces(c: Seq<u8>, sep: u8, start: int, i: int) -> Seq<(usize, usize)>
    decreases c.len() - i,
{
    if i >= c.len() {
        seq![(start as usize, c.len() as usize)]
    } else if c[i] == sep {
        seq![(start as usize, i as usize)] + pieces(c, sep, i + 1, i + 1)
    } else {
        pieces(c, sep, start, i + 1)
    }
}

/// Text lines: the pieces between newlines, without an empty piece after a
/// final newline, and without the carriage return of a `\r\n` ending.
pub open spec fn text_lines(c: Seq<u8>) -> Seq<(usize, usize)> {
    let p = pieces(c, 10u8, 0, 0);
    let kept = if p.last().0 == c.len() {
        p.drop_last()
    } else {
        p
    };
    kept.map(|k: int, r: (usize, usize)| strip_cr(c, r))
}

/// A newline-ended range without its trailing carriage return, if any.
pub open spec fn strip_cr(c: Seq<u8>, r: (usize, usize)) -> (usize, usize) {
    if r.1 < c.len() && r.0 < r.1 && c[r.1 - 1] == 13u8 {
        (r.0, (r.1 - 1) as usize)
    } else {
        r
    }
}

/// The records of a file: null-separated pieces under `null_data`, else
/// text lines.
pub open spec fn line_ranges(c: Seq<u8>, null_data: bool) -> Seq<(usize, usize)> {
    if null_data {
        pieces(c, 0u8, 0, 0)
    } else {
        text_lines(c)
    }
}

/// Every range is well-ordered and lies inside a text of length `len`.
pub open spec fn ranges_within(r: Seq<(usize, usize)>, len: nat) -> bool {
    forall|k: int| 0 <= k < r.len() ==> #[trigger] r[k].0 <= r[k].1 <= len
}

fn split_pieces(c: &[u8], sep: u8) -> (r: Vec<(usize, usize)>)
    ensures
        r@ == pieces(c@, sep, 0, 0),
        ranges_within(r@, c@.len()),
        1 <= r@.len() <= c@.len() + 1,
{
    let n = c.len();
    let mut out: Vec<(usize, usize)> = Vec::new();
    let mut start: usize = 0;
    let mut i: usize = 0;
    while i < n
        invariant
            n == c@.len(),
            start <= i <= n,
            out@ + pieces(c@, sep, start as int, i as int) == pieces(c@, sep, 0, 0),
            ranges_within(out@, c@.len()),
            out@.len() <= i,
        decreases n - i,
    {
        if c[i] == sep {
            let ghost before = out@;
            out.push((start, i));
            proof {
                assert(out@ + pieces(c@, sep, i + 1, i + 1) =~= before + pieces(c@, sep, start as int, i as int));
            }
            start = i + 1;
        }
        i = i + 1;
    }
    let ghost before = out@;
    out.push((start, n));
    proof {
        assert(before + pieces(c@, sep, start as int, n as int) =~= out@);
    }
    out
}

fn strip_carriage_return(c: &[u8], r: (usize, usize)) -> (s: (usize, usize))
    requires
        r.0 <= r.1 <= c@.len(),
    ensures
        s == strip_cr(c@, r),
        s.0 <= s.1 <= c@.len(),
{
    if r.1 < c.len() && r.0 < r.1 && c[r.1 - 1] == 13u8 {
        (r.0, r.1 - 1)
    } else {
        r
    }
}

/// Splits `content` into its records, as (start, end) byte ranges: at null
/// bytes under `null_data`, else into text lines.
pub fn split_lines(content: &[u8], null_data: bool) -> (r: Vec<(usize, usize)>)
    ensures
        r@ == line_ranges(content@, null_data),
        ranges_within(r@, content@.len()),
        r@.len() <= content@.len() + 1,
{
    if null_data {
        return split_pieces(content, 0u8);
    }
    let p = split_pieces(content, 10u8);
    let mut kept = p.len();
    if p[kept - 1].0 == content.len() {
        kept = kept - 1;
    }
    let ghost kept_seq = if p@.last().0 == content@.len() {
        p@.drop_last()
    } else {
        p@
    };
    assert(kept_seq =~= p@.subrange(0, kept as int));
    let mut out: Vec<(usize, usize)> = Vec::new();
    let mut k: usize = 0;
    while k < kept
        invariant
            kept <= p@.len(),
            kept_seq =~= p@.subrange(0, kept as int),
            ranges_within(p@, content@.len()),
            k <= kept,
            out@ =~= kept_seq.subrange(0, k as int).map(|j: int, r: (usize, usize)| strip_cr(content@, r)),
            p@.len() <= content@.len() + 1,
            ranges_within(out@, content@.len()),
        decreases kept - k,
    {
        let s = strip_carriage_return(content, p[k]);
        out.push(s);
        k = k + 1;
    }
    assert(kept_seq.subrange(0, kept as int) =~= kept_seq);
    out
}

} // verus!
