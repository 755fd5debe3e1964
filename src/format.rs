//! Rendering of output records:
//! `[file ':'] [line number ':'] [byte offset ':'] body terminator`.

use vstd::prelude::*;
use crate::search::SearchConfig;
use crate::utils::spans_ordered;

verus! {

/// The ASCII decimal digits of `n`.
pub open spec fn decimal(n: nat) -> Seq<u8>
    decreases n,
{
    if n < 10 {
        seq![(n + 48) as u8]
    } else {
        decimal(n / 10) + seq![((n % 10) + 48) as u8]
    }
}

/// Colour of file names: ESC [35m.
pub open spec fn filename_color() -> Seq<u8> {
    seq![27u8, 91, 51, 53, 109]
}

/// Colour of line numbers: ESC [32m.
pub open spec fn line_number_color() -> Seq<u8> {
    seq![27u8, 91, 51, 50, 109]
}

/// Colour of matched text: ESC [1;31m.
pub open spec fn match_color() -> Seq<u8> {
    seq![27u8, 91, 49, 59, 51, 49, 109]
}

/// End of a coloured run: ESC [0m.
pub open spec fn color_reset() -> Seq<u8> {
    seq![27u8, 91, 48, 109]
}

/// The field separator `:`.
pub open spec fn colon() -> Seq<u8> {
    seq![58u8]
}

/// What ends every record: a null byte under `null`, else a newline.
pub open spec fn terminator(cfg: SearchConfig) -> Seq<u8> {
    if cfg.null {
        seq![0u8]
    } else {
        seq![10u8]
    }
}

/// The file-name field.
pub open spec fn filename_field(cfg: SearchConfig, path: Seq<u8>) -> Seq<u8> {
    if !cfg.shows_filename() {
        Seq::empty()
    } else if cfg.use_color {
        filename_color() + path + color_reset() + colon()
    } else {
        path + colon()
    }
}

/// The line-number field; lines are numbered from 1.
pub open spec fn line_number_field(cfg: SearchConfig, index: nat) -> Seq<u8> {
    if !cfg.line_number {
        Seq::empty()
    } else if cfg.use_color {
        line_number_color() + decimal(index + 1) + color_reset() + colon()
    } else {
        decimal(index + 1) + colon()
    }
}

/// The byte-offset field.
pub open spec fn offset_field(cfg: SearchConfig, offset: nat) -> Seq<u8> {
    if cfg.byte_offset {
        decimal(offset) + colon()
    } else {
        Seq::empty()
    }
}

/// Everything in a record before its body.
pub open spec fn prefix(cfg: SearchConfig, path: Seq<u8>, index: nat, offset: nat) -> Seq<u8> {
    filename_field(cfg, path) + line_number_field(cfg, index) + offset_field(cfg, offset)
}

/// `text` in the match colour.
pub open spec fn colored(text: Seq<u8>) -> Seq<u8> {
    match_color() + text + color_reset()
}

/// `line` from byte `pos` on, with each of `spans` in the match colour.
pub open spec fn highlight_from(line: Seq<u8>, spans: Seq<(usize, usize)>, pos: int) -> Seq<u8>
    decreases spans.len(),
{
    if spans.len() == 0 {
        line.subrange(pos, line.len() as int)
    } else {
        let s = spans[0].0 as int;
        let e = spans[0].1 as int;
        line.subrange(pos, s) + colored(line.subrange(s, e)) + highlight_from(line, spans.drop_first(), e)
    }
}

/// A record showing a whole line; under colour, `spans` are highlighted.
pub open spec fn line_record(
    cfg: SearchConfig,
    path: Seq<u8>,
    index: nat,
    offset: nat,
    line: Seq<u8>,
    spans: Seq<(usize, usize)>,
) -> Seq<u8> {
    prefix(cfg, path, index, offset) + (if cfg.use_color {
        highlight_from(line, spans, 0)
    } else {
        line
    }) + terminator(cfg)
}

/// One record for a single match span of a line at byte `offset`.
pub open spec fn span_record(
    cfg: SearchConfig,
    path: Seq<u8>,
    index: nat,
    offset: nat,
    line: Seq<u8>,
    span: (usize, usize),
) -> Seq<u8> {
    let text = line.subrange(span.0 as int, span.1 as int);
    prefix(cfg, path, index, (offset + span.0) as nat) + (if cfg.use_color {
        colored(text)
    } else {
        text
    }) + terminator(cfg)
}

/// One record per match span, left to right.
pub open spec fn span_records(
    cfg: SearchConfig,
    path: Seq<u8>,
    index: nat,
    offset: nat,
    line: Seq<u8>,
    spans: Seq<(usize, usize)>,
) -> Seq<u8>
    decreases spans.len(),
{
    if spans.len() == 0 {
        Seq::empty()
    } else {
        span_record(cfg, path, index, offset, line, spans[0]) + span_records(
            cfg,
            path,
            index,
            offset,
            line,
            spans.drop_first(),
        )
    }
}

fn push_bytes(out: &mut Vec<u8>, bytes: &[u8])
    ensures
        final(out)@ == old(out)@ + bytes@,
{
    out.extend_from_slice(bytes);
}

pub fn push_decimal(out: &mut Vec<u8>, n: usize)
    ensures
        final(out)@ == old(out)@ + decimal(n as nat),
    decreases n,
{
    if n >= 10 {
        push_decimal(out, n / 10);
    }
    let d: u8 = (n % 10) as u8;
    out.push(d + 48);
    proof {
        if n < 10 {
            assert(n % 10 == n);
        }
    }
}

fn push_filename_color(out: &mut Vec<u8>)
    ensures
        final(out)@ == old(out)@ + filename_color(),
{
    out.push(27);
    out.push(91);
    out.push(51);
    out.push(53);
    out.push(109);
    proof {
        assert(final(out)@ =~= old(out)@ + filename_color());
    }
}

fn push_line_number_color(out: &mut Vec<u8>)
    ensures
        final(out)@ == old(out)@ + line_number_color(),
{
    out.push(27);
    out.push(91);
    out.push(51);
    out.push(50);
    out.push(109);
    proof {
        assert(final(out)@ =~= old(out)@ + line_number_color());
    }
}

fn push_match_color(out: &mut Vec<u8>)
    ensures
        final(out)@ == old(out)@ + match_color(),
{
    out.push(27);
    out.push(91);
    out.push(49);
    out.push(59);
    out.push(51);
    out.push(49);
    out.push(109);
    proof {
        assert(final(out)@ =~= old(out)@ + match_color());
    }
}

fn push_color_reset(out: &mut Vec<u8>)
    ensures
        final(out)@ == old(out)@ + color_reset(),
{
    out.push(27);
    out.push(91);
    out.push(48);
    out.push(109);
    proof {
        assert(final(out)@ =~= old(out)@ + color_reset());
    }
}

pub(crate) fn push_terminator(out: &mut Vec<u8>, cfg: &SearchConfig)
    ensures
        final(out)@ == old(out)@ + terminator(*cfg),
{
    if cfg.null {
        out.push(0);
    } else {
        out.push(10);
    }
}

fn push_colored(out: &mut Vec<u8>, text: &[u8])
    ensures
        final(out)@ == old(out)@ + colored(text@),
{
    push_match_color(out);
    push_bytes(out, text);
    push_color_reset(out);
    proof {
        assert(final(out)@ =~= old(out)@ + colored(text@));
    }
}

fn push_filename_field(out: &mut Vec<u8>, cfg: &SearchConfig, path: &[u8])
    ensures
        final(out)@ == old(out)@ + filename_field(*cfg, path@),
{
    let ghost start = out@;
    if cfg.with_filename && !cfg.no_filename {
        if cfg.use_color {
            push_filename_color(out);
            push_bytes(out, path);
            push_color_reset(out);
        } else {
            push_bytes(out, path);
        }
        out.push(58);
    }
    assert(out@ =~= start + filename_field(*cfg, path@));
}

fn push_line_number_field(out: &mut Vec<u8>, cfg: &SearchConfig, index: usize)
    requires
        index < usize::MAX,
    ensures
        final(out)@ == old(out)@ + line_number_field(*cfg, index as nat),
{
    let ghost start = out@;
    if cfg.line_number {
        if cfg.use_color {
            push_line_number_color(out);
            push_decimal(out, index + 1);
            push_color_reset(out);
        } else {
            push_decimal(out, index + 1);
        }
        out.push(58);
    }
    assert(out@ =~= start + line_number_field(*cfg, index as nat));
}

fn push_offset_field(out: &mut Vec<u8>, cfg: &SearchConfig, offset: usize)
    ensures
        final(out)@ == old(out)@ + offset_field(*cfg, offset as nat),
{
    let ghost start = out@;
    if cfg.byte_offset {
        push_decimal(out, offset);
        out.push(58);
    }
    assert(out@ =~= start + offset_field(*cfg, offset as nat));
}

fn push_prefix(out: &mut Vec<u8>, cfg: &SearchConfig, path: &[u8], index: usize, offset: usize)
    requires
        index < usize::MAX,
    ensures
        final(out)@ == old(out)@ + prefix(*cfg, path@, index as nat, offset as nat),
{
    let ghost start = out@;
    push_filename_field(out, cfg, path);
    push_line_number_field(out, cfg, index);
    push_offset_field(out, cfg, offset);
    assert(out@ =~= start + prefix(*cfg, path@, index as nat, offset as nat));
}

fn push_highlighted(out: &mut Vec<u8>, line: &[u8], spans: &Vec<(usize, usize)>)
    requires
        spans_ordered(spans@, line@.len()),
    ensures
        final(out)@ == old(out)@ + highlight_from(line@, spans@, 0),
{
    let ghost start = out@;
    let n = line.len();
    let mut pos: usize = 0;
    let mut k: usize = 0;
    assert(spans@.subrange(0, spans@.len() as int) =~= spans@);
    while k < spans.len()
        invariant
            n == line@.len(),
            spans_ordered(spans@, line@.len()),
            k <= spans@.len(),
            pos <= n,
            k < spans@.len() ==> pos <= spans@[k as int].0,
            out@ + highlight_from(line@, spans@.subrange(k as int, spans@.len() as int), pos as int)
                == start + highlight_from(line@, spans@, 0),
        decreases spans@.len() - k,
    {
        let (s, e) = spans[k];
        let ghost rest = spans@.subrange(k as int, spans@.len() as int);
        assert(rest[0] == spans@[k as int]);
        assert(rest.drop_first() =~= spans@.subrange(k + 1, spans@.len() as int));
        push_bytes(out, &line[pos..s]);
        push_colored(out, &line[s..e]);
        pos = e;
        k = k + 1;
        proof {
            if k < spans@.len() {
                assert(spans@[k - 1].1 <= spans@[k as int].0);
            }
        }
    }
    push_bytes(out, &line[pos..n]);
    proof {
        assert(spans@.subrange(0, spans@.len() as int) =~= spans@);
    }
}

/// Appends the record that shows `line` whole; `spans` are its match spans,
/// highlighted under colour.
pub fn write_line_record(
    out: &mut Vec<u8>,
    cfg: &SearchConfig,
    path: &[u8],
    index: usize,
    offset: usize,
    line: &[u8],
    spans: &Vec<(usize, usize)>,
)
    requires
        index < usize::MAX,
        spans_ordered(spans@, line@.len()),
    ensures
        final(out)@ == old(out)@ + line_record(*cfg, path@, index as nat, offset as nat, line@, spans@),
{
    let ghost start = out@;
    push_prefix(out, cfg, path, index, offset);
    if cfg.use_color {
        push_highlighted(out, line, spans);
    } else {
        push_bytes(out, line);
    }
    push_terminator(out, cfg);
    assert(out@ =~= start + line_record(*cfg, path@, index as nat, offset as nat, line@, spans@));
}

/// Appends one record per match span of `line`, which starts at byte `offset`.
pub fn write_span_records(
    out: &mut Vec<u8>,
    cfg: &SearchConfig,
    path: &[u8],
    index: usize,
    offset: usize,
    line: &[u8],
    spans: &Vec<(usize, usize)>,
)
    requires
        index < usize::MAX,
        offset + line@.len() <= usize::MAX,
        spans_ordered(spans@, line@.len()),
    ensures
        final(out)@ == old(out)@ + span_records(*cfg, path@, index as nat, offset as nat, line@, spans@),
{
    let ghost start = out@;
    let mut k: usize = 0;
    assert(spans@.subrange(0, spans@.len() as int) =~= spans@);
    while k < spans.len()
        invariant
            index < usize::MAX,
            offset + line@.len() <= usize::MAX,
            spans_ordered(spans@, line@.len()),
            k <= spans@.len(),
            out@ + span_records(*cfg, path@, index as nat, offset as nat, line@, spans@.subrange(k as int, spans@.len() as int))
                == start + span_records(*cfg, path@, index as nat, offset as nat, line@, spans@),
        decreases spans@.len() - k,
    {
        let (s, e) = spans[k];
        let ghost rest = spans@.subrange(k as int, spans@.len() as int);
        assert(rest[0] == spans@[k as int]);
        assert(rest.drop_first() =~= spans@.subrange(k + 1, spans@.len() as int));
        let ghost before = out@;
        push_prefix(out, cfg, path, index, offset + s);
        if cfg.use_color {
            push_colored(out, &line[s..e]);
        } else {
            push_bytes(out, &line[s..e]);
        }
        push_terminator(out, cfg);
        assert(out@ =~= before + span_record(*cfg, path@, index as nat, offset as nat, line@, spans@[k as int]));
        k = k + 1;
    }
    proof {
        assert(spans@.subrange(0, spans@.len() as int) =~= spans@);
        assert(spans@.subrange(k as int, spans@.len() as int) =~= Seq::<(usize, usize)>::empty());
    }
}

} // verus!
