//! The per-file search engine: mode dispatch, the context window, max-count
//! truncation and byte-offset accounting.

use vstd::prelude::*;
use crate::filter::GlobPattern;
use crate::format::{
    colon, decimal, line_record, push_decimal, push_terminator, span_records, terminator, write_line_record,
    write_span_records,
};
use crate::lines::{line_ranges, ranges_within, split_lines};
use crate::utils::Matcher;
use crate::window::{written_upto, ContextWindow, LineDecision};

verus! {

/// Everything that shapes a search; built once and shared read-only.
#[derive(Debug)]
pub struct SearchConfig {
    pub invert_match: bool,
    pub line_number: bool,
    pub with_filename: bool,
    pub no_filename: bool,
    pub count: bool,
    pub files_with_matches: bool,
    pub files_without_match: bool,
    pub only_matching: bool,
    pub quiet: bool,
    pub max_count: Option<usize>,
    pub after_context: Option<usize>,
    pub before_context: Option<usize>,
    pub context: Option<usize>,
    pub byte_offset: bool,
    pub null_data: bool,
    pub null: bool,
    pub text: bool,
    pub ignore_binary: bool,
    pub no_messages: bool,
    pub exclude_patterns: Vec<GlobPattern>,
    pub include_patterns: Vec<GlobPattern>,
    pub use_color: bool,
}

impl Default for SearchConfig {
    fn default() -> (r: Self)
        ensures
            !r.invert_match && !r.line_number && !r.with_filename && !r.no_filename,
            !r.count && !r.files_with_matches && !r.files_without_match,
            !r.only_matching && !r.quiet,
            r.max_count is None && r.after_context is None && r.before_context is None,
            r.context is None,
            !r.byte_offset && !r.null_data && !r.null && !r.text && !r.ignore_binary,
            !r.no_messages && !r.use_color,
            r.exclude_patterns@.len() == 0 && r.include_patterns@.len() == 0,
    {
        SearchConfig {
            invert_match: false,
            line_number: false,
            with_filename: false,
            no_filename: false,
            count: false,
            files_with_matches: false,
            files_without_match: false,
            only_matching: false,
            quiet: false,
            max_count: None,
            after_context: None,
            before_context: None,
            context: None,
            byte_offset: false,
            null_data: false,
            null: false,
            text: false,
            ignore_binary: false,
            no_messages: false,
            exclude_patterns: Vec::new(),
            include_patterns: Vec::new(),
            use_color: false,
        }
    }
}

impl SearchConfig {
    /// Lines shown before each match: `context` when set, else `before_context`.
    pub open spec fn before_lines(&self) -> nat {
        match self.context {
            Some(n) => n as nat,
            None => match self.before_context {
                Some(n) => n as nat,
                None => 0,
            },
        }
    }

    /// Lines shown after each match: `context` when set, else `after_context`.
    pub open spec fn after_lines(&self) -> nat {
        match self.context {
            Some(n) => n as nat,
            None => match self.after_context {
                Some(n) => n as nat,
                None => 0,
            },
        }
    }

    /// Whether output records carry the file name.
    pub open spec fn shows_filename(&self) -> bool {
        self.with_filename && !self.no_filename
    }

    pub fn effective_before_context(&self) -> (r: usize)
        ensures
            r == self.before_lines(),
    {
        match self.context {
            Some(n) => n,
            None => match self.before_context {
                Some(n) => n,
                None => 0,
            },
        }
    }

    pub fn effective_after_context(&self) -> (r: usize)
        ensures
            r == self.after_lines(),
    {
        match self.context {
            Some(n) => n,
            None => match self.after_context {
                Some(n) => n,
                None => 0,
            },
        }
    }

    pub fn has_context(&self) -> (r: bool)
        ensures
            r == (self.before_lines() > 0 || self.after_lines() > 0),
    {
        self.effective_before_context() > 0 || self.effective_after_context() > 0
    }
}

/// The text of line `j`.
pub open spec fn line_text(text: Seq<u8>, lines: Seq<(usize, usize)>, j: int) -> Seq<u8> {
    text.subrange(lines[j].0 as int, lines[j].1 as int)
}

/// The match decision for line `j`: the matcher's verdict, flipped under
/// `invert_match`.
pub open spec fn selected(m: Matcher, cfg: SearchConfig, text: Seq<u8>, lines: Seq<(usize, usize)>, j: int) -> bool {
    m.matches_line(line_text(text, lines, j)) != cfg.invert_match
}

/// How many of the first `j` lines are selected.
pub open spec fn selected_before(m: Matcher, cfg: SearchConfig, text: Seq<u8>, lines: Seq<(usize, usize)>, j: int) -> nat
    decreases j,
{
    if j <= 0 {
        0
    } else {
        selected_before(m, cfg, text, lines, j - 1) + (if selected(m, cfg, text, lines, j - 1) {
            1nat
        } else {
            0nat
        })
    }
}

/// Whether `n` selected lines stay within `max_count`.
pub open spec fn within_max(cfg: SearchConfig, n: nat) -> bool {
    match cfg.max_count {
        Some(k) => n <= k,
        None => true,
    }
}

/// Line `j` comes before the search stops: with it, no more than
/// `max_count` lines have been selected.
pub open spec fn before_stop(m: Matcher, cfg: SearchConfig, text: Seq<u8>, lines: Seq<(usize, usize)>, j: int) -> bool {
    within_max(cfg, selected_before(m, cfg, text, lines, j + 1))
}

/// Line `j` is a match that is reported: selected, and within `max_count`.
pub open spec fn accepted(m: Matcher, cfg: SearchConfig, text: Seq<u8>, lines: Seq<(usize, usize)>, j: int) -> bool {
    &&& 0 <= j < lines.len()
    &&& selected(m, cfg, text, lines, j)
    &&& before_stop(m, cfg, text, lines, j)
}

/// Line `j` is shown in full output: it comes before the search stops and
/// lies within the context window of some reported match.
pub open spec fn emitted(m: Matcher, cfg: SearchConfig, text: Seq<u8>, lines: Seq<(usize, usize)>, j: int) -> bool {
    &&& 0 <= j < lines.len()
    &&& before_stop(m, cfg, text, lines, j)
    &&& exists|a: int|
        #[trigger] accepted(m, cfg, text, lines, a) && a - cfg.before_lines() <= j <= a + cfg.after_lines()
}

/// What full output shows for line `j`: a selected line whole (with its
/// matches highlighted under colour) or, under `only_matching`, one record
/// per match; a context line whole.
pub open spec fn line_output(
    m: Matcher,
    cfg: SearchConfig,
    path: Seq<u8>,
    text: Seq<u8>,
    lines: Seq<(usize, usize)>,
    j: int,
) -> Seq<u8> {
    let line = line_text(text, lines, j);
    let offset = lines[j].0 as nat;
    if selected(m, cfg, text, lines, j) {
        if cfg.only_matching {
            span_records(cfg, path, j as nat, offset, line, m.spans(line))
        } else {
            line_record(cfg, path, j as nat, offset, line, m.spans(line))
        }
    } else {
        line_record(cfg, path, j as nat, offset, line, Seq::empty())
    }
}

/// Full output for the lines before `b`, in order.
pub open spec fn records_upto(
    m: Matcher,
    cfg: SearchConfig,
    path: Seq<u8>,
    text: Seq<u8>,
    lines: Seq<(usize, usize)>,
    b: int,
) -> Seq<u8>
    decreases b,
{
    if b <= 0 {
        Seq::empty()
    } else {
        records_upto(m, cfg, path, text, lines, b - 1) + (if emitted(m, cfg, text, lines, b - 1) {
            line_output(m, cfg, path, text, lines, b - 1)
        } else {
            Seq::empty()
        })
    }
}

proof fn lemma_selected_before_monotone(
    m: Matcher,
    cfg: SearchConfig,
    text: Seq<u8>,
    lines: Seq<(usize, usize)>,
    a: int,
    b: int,
)
    requires
        a <= b,
    ensures
        selected_before(m, cfg, text, lines, a) <= selected_before(m, cfg, text, lines, b),
    decreases b - a,
{
    if a < b {
        lemma_selected_before_monotone(m, cfg, text, lines, a, b - 1);
    }
}

/// Lines in `[a, b)` that are not shown add nothing to full output.
proof fn lemma_records_skip(
    m: Matcher,
    cfg: SearchConfig,
    path: Seq<u8>,
    text: Seq<u8>,
    lines: Seq<(usize, usize)>,
    a: int,
    b: int,
)
    requires
        0 <= a <= b,
        forall|j: int| a <= j < b ==> !#[trigger] emitted(m, cfg, text, lines, j),
    ensures
        records_upto(m, cfg, path, text, lines, b) == records_upto(m, cfg, path, text, lines, a),
    decreases b - a,
{
    if a < b {
        lemma_records_skip(m, cfg, path, text, lines, a, b - 1);
    }
}

/// `last` is the last selected line before line `i`, if there is one.
spec fn last_selected(
    m: Matcher,
    c: SearchConfig,
    text: Seq<u8>,
    lines: Seq<(usize, usize)>,
    last: Option<usize>,
    i: int,
) -> bool {
    match last {
        None => forall|j: int| 0 <= j < i ==> !#[trigger] selected(m, c, text, lines, j),
        Some(r) => {
            &&& r < i
            &&& selected(m, c, text, lines, r as int)
            &&& forall|j: int| r < j < i ==> !#[trigger] selected(m, c, text, lines, j)
        },
    }
}

proof fn lemma_accepted_last(
    m: Matcher,
    c: SearchConfig,
    text: Seq<u8>,
    lines: Seq<(usize, usize)>,
    last: Option<usize>,
    i: int,
)
    requires
        0 <= i < lines.len(),
        last_selected(m, c, text, lines, last, i),
        within_max(c, selected_before(m, c, text, lines, i)),
    ensures
        last matches Some(r) ==> accepted(m, c, text, lines, r as int),
{
    if let Some(r) = last {
        lemma_selected_before_monotone(m, c, text, lines, r + 1, i);
    }
}

/// Once the line beyond `max_count` is reached, nothing not yet written is
/// shown.
proof fn lemma_nothing_after_stop(
    m: Matcher,
    c: SearchConfig,
    path: Seq<u8>,
    text: Seq<u8>,
    lines: Seq<(usize, usize)>,
    last: Option<usize>,
    i: int,
    after: nat,
)
    requires
        0 <= i < lines.len(),
        after == c.after_lines(),
        last_selected(m, c, text, lines, last, i),
        selected(m, c, text, lines, i),
        within_max(c, selected_before(m, c, text, lines, i)),
        !within_max(c, selected_before(m, c, text, lines, i) + 1),
    ensures
        records_upto(m, c, path, text, lines, lines.len() as int)
            == records_upto(m, c, path, text, lines, written_upto(last, i, after)),
{
    let u = written_upto(last, i, after);
    assert forall|j: int| u <= j < lines.len() implies !#[trigger] emitted(m, c, text, lines, j) by {
        if emitted(m, c, text, lines, j) {
            if j >= i {
                lemma_selected_before_monotone(m, c, text, lines, i + 1, j + 1);
            } else {
                let a = choose|a: int|
                    #[trigger] accepted(m, c, text, lines, a) && a - c.before_lines() <= j <= a + c.after_lines();
                if a >= i {
                    lemma_selected_before_monotone(m, c, text, lines, i + 1, a + 1);
                }
            }
        }
    }
    lemma_records_skip(m, c, path, text, lines, u, lines.len() as int);
}

/// After the last line, nothing not yet written is shown.
proof fn lemma_nothing_after_end(
    m: Matcher,
    c: SearchConfig,
    path: Seq<u8>,
    text: Seq<u8>,
    lines: Seq<(usize, usize)>,
    last: Option<usize>,
    n: int,
    after: nat,
)
    requires
        n == lines.len(),
        after == c.after_lines(),
        last_selected(m, c, text, lines, last, n),
    ensures
        records_upto(m, c, path, text, lines, n) == records_upto(m, c, path, text, lines, written_upto(last, n, after)),
{
    let u = written_upto(last, n, after);
    assert forall|j: int| u <= j < n implies !#[trigger] emitted(m, c, text, lines, j) by {
        if emitted(m, c, text, lines, j) {
            let a = choose|a: int|
                #[trigger] accepted(m, c, text, lines, a) && a - c.before_lines() <= j <= a + c.after_lines();
            assert(selected(m, c, text, lines, a));
        }
    }
    lemma_records_skip(m, c, path, text, lines, u, n);
}

/// At a reported match `i`, the lines from `lo` to `i` are shown, those from
/// `lo` on before `i` are context lines, and those between what was written
/// and `lo` are not shown.
proof fn lemma_window_opens(
    m: Matcher,
    c: SearchConfig,
    path: Seq<u8>,
    text: Seq<u8>,
    lines: Seq<(usize, usize)>,
    last: Option<usize>,
    i: int,
    upto: int,
    lo: int,
)
    requires
        0 <= i < lines.len(),
        last_selected(m, c, text, lines, last, i),
        selected(m, c, text, lines, i),
        within_max(c, selected_before(m, c, text, lines, i) + 1),
        upto == written_upto(last, i, c.after_lines()),
        lo == (if i - c.before_lines() > upto {
            i - c.before_lines()
        } else {
            upto
        }),
    ensures
        forall|t: int| lo <= t <= i ==> #[trigger] emitted(m, c, text, lines, t),
        forall|t: int| lo <= t < i ==> !#[trigger] selected(m, c, text, lines, t),
        records_upto(m, c, path, text, lines, lo) == records_upto(m, c, path, text, lines, upto),
{
    assert(accepted(m, c, text, lines, i));
    assert forall|t: int| lo <= t <= i implies #[trigger] emitted(m, c, text, lines, t) by {
        lemma_selected_before_monotone(m, c, text, lines, t + 1, i + 1);
    }
    assert forall|j: int| upto <= j < lo implies !#[trigger] emitted(m, c, text, lines, j) by {
        if emitted(m, c, text, lines, j) {
            let a = choose|a: int|
                #[trigger] accepted(m, c, text, lines, a) && a - c.before_lines() <= j <= a + c.after_lines();
            assert(a < i);
            assert(selected(m, c, text, lines, a));
        }
    }
    lemma_records_skip(m, c, path, text, lines, upto, lo);
}

/// A line inside the after-context of the last reported match is shown.
proof fn lemma_after_window(
    m: Matcher,
    c: SearchConfig,
    text: Seq<u8>,
    lines: Seq<(usize, usize)>,
    last: Option<usize>,
    i: int,
)
    requires
        0 <= i < lines.len(),
        last matches Some(r) && r < i && i - r <= c.after_lines() && accepted(m, c, text, lines, r as int),
        !selected(m, c, text, lines, i),
        within_max(c, selected_before(m, c, text, lines, i)),
    ensures
        emitted(m, c, text, lines, i),
{
    let r = last->0 as int;
    assert(accepted(m, c, text, lines, r));
}

/// Appends the output records of line `j`, which is shown in full output.
fn write_line_output(
    out: &mut Vec<u8>,
    matcher: &Matcher,
    cfg: &SearchConfig,
    path: &[u8],
    text: &[u8],
    lines: &Vec<(usize, usize)>,
    j: usize,
    sel: bool,
)
    requires
        ranges_within(lines@, text@.len()),
        j < lines@.len(),
        lines@.len() < usize::MAX,
        sel == selected(*matcher, *cfg, text@, lines@, j as int),
    ensures
        final(out)@ == old(out)@ + line_output(*matcher, *cfg, path@, text@, lines@, j as int),
{
    let (start, end) = lines[j];
    assert(lines@[j as int].0 <= lines@[j as int].1 <= text@.len());
    let line = &text[start..end];
    assert(line@ == line_text(text@, lines@, j as int));
    if sel {
        if cfg.only_matching {
            let spans = matcher.find_spans(line);
            write_span_records(out, cfg, path, j, start, line, &spans);
        } else if cfg.use_color {
            let spans = matcher.find_spans(line);
            write_line_record(out, cfg, path, j, start, line, &spans);
        } else {
            let spans: Vec<(usize, usize)> = Vec::new();
            write_line_record(out, cfg, path, j, start, line, &spans);
            assert(line_record(*cfg, path@, j as nat, start as nat, line@, spans@)
                =~= line_record(*cfg, path@, j as nat, start as nat, line@, matcher.spans(line@)));
        }
    } else {
        let spans: Vec<(usize, usize)> = Vec::new();
        write_line_record(out, cfg, path, j, start, line, &spans);
        assert(spans@ =~= Seq::<(usize, usize)>::empty());
    }
}

/// Writes lines `lo` to `i` of a window that opens at reported match `i`.
fn write_window(
    out: &mut Vec<u8>,
    matcher: &Matcher,
    cfg: &SearchConfig,
    path: &[u8],
    text: &[u8],
    lines: &Vec<(usize, usize)>,
    lo: usize,
    i: usize,
    base: Ghost<Seq<u8>>,
)
    requires
        ranges_within(lines@, text@.len()),
        lines@.len() < usize::MAX,
        lo <= i < lines@.len(),
        forall|t: int| lo <= t <= i ==> #[trigger] emitted(*matcher, *cfg, text@, lines@, t),
        forall|t: int| lo <= t < i ==> !#[trigger] selected(*matcher, *cfg, text@, lines@, t),
        selected(*matcher, *cfg, text@, lines@, i as int),
        old(out)@ == base@ + records_upto(*matcher, *cfg, path@, text@, lines@, lo as int),
    ensures
        final(out)@ == base@ + records_upto(*matcher, *cfg, path@, text@, lines@, i + 1),
{
    let ghost m = *matcher;
    let ghost c = *cfg;
    let mut j: usize = lo;
    while j < i
        invariant
            m == *matcher,
            c == *cfg,
            ranges_within(lines@, text@.len()),
            lines@.len() < usize::MAX,
            lo <= j <= i < lines@.len(),
            forall|t: int| lo <= t <= i ==> #[trigger] emitted(m, c, text@, lines@, t),
            forall|t: int| lo <= t < i ==> !#[trigger] selected(m, c, text@, lines@, t),
            out@ == base@ + records_upto(m, c, path@, text@, lines@, j as int),
        decreases i - j,
    {
        assert(emitted(m, c, text@, lines@, j as int));
        write_line_output(out, matcher, cfg, path, text, lines, j, false);
        j = j + 1;
    }
    assert(emitted(m, c, text@, lines@, i as int));
    write_line_output(out, matcher, cfg, path, text, lines, i, true);
}

/// Full output: every line within the context window of a reported match,
/// in order and once each, stopping at the first selected line beyond
/// `max_count`.
fn search_with_context(
    out: &mut Vec<u8>,
    matcher: &Matcher,
    cfg: &SearchConfig,
    path: &[u8],
    text: &[u8],
    lines: &Vec<(usize, usize)>,
)
    requires
        ranges_within(lines@, text@.len()),
        lines@.len() < usize::MAX,
    ensures
        final(out)@ == old(out)@ + records_upto(*matcher, *cfg, path@, text@, lines@, lines@.len() as int),
{
    let ghost m = *matcher;
    let ghost c = *cfg;
    let ghost start = out@;
    let n = lines.len();
    let mut window = ContextWindow::new(cfg.effective_before_context(), cfg.effective_after_context(), cfg.max_count);
    let mut i: usize = 0;
    while i < n
        invariant
            m == *matcher,
            c == *cfg,
            start == old(out)@,
            n == lines@.len(),
            n < usize::MAX,
            ranges_within(lines@, text@.len()),
            window.before == c.before_lines(),
            window.after == c.after_lines(),
            window.max_count == c.max_count,
            i <= n,
            window.count == selected_before(m, c, text@, lines@, i as int),
            window.count <= i,
            within_max(c, window.count as nat),
            last_selected(m, c, text@, lines@, window.last_match, i as int),
            out@ == start + records_upto(
                m,
                c,
                path@,
                text@,
                lines@,
                written_upto(window.last_match, i as int, c.after_lines()),
            ),
        decreases n - i,
    {
        let (ls, le) = lines[i];
        assert(lines@[i as int].0 <= lines@[i as int].1 <= text@.len());
        let line = &text[ls..le];
        assert(line@ == line_text(text@, lines@, i as int));
        let sel = matcher.is_match_bytes(line) != cfg.invert_match;
        let ghost prev = window;
        proof {
            lemma_accepted_last(m, c, text@, lines@, prev.last_match, i as int);
        }
        match window.advance(i, sel) {
            LineDecision::Stop => {
                proof {
                    lemma_nothing_after_stop(m, c, path@, text@, lines@, prev.last_match, i as int, c.after_lines());
                }
                return;
            },
            LineDecision::Window(lo) => {
                proof {
                    lemma_window_opens(
                        m,
                        c,
                        path@,
                        text@,
                        lines@,
                        prev.last_match,
                        i as int,
                        written_upto(prev.last_match, i as int, c.after_lines()),
                        lo as int,
                    );
                }
                write_window(out, matcher, cfg, path, text, lines, lo, i, Ghost(start));
            },
            LineDecision::Context => {
                proof {
                    lemma_after_window(m, c, text@, lines@, prev.last_match, i as int);
                    assert(written_upto(prev.last_match, i as int, c.after_lines()) == i);
                }
                write_line_output(out, matcher, cfg, path, text, lines, i, false);
            },
            LineDecision::Hide => {},
        }
        i = i + 1;
    }
    proof {
        lemma_nothing_after_end(m, c, path@, text@, lines@, window.last_match, n as int, c.after_lines());
    }
}

/// Every line beyond the one that exceeds `max_count` is left out.
proof fn lemma_past_stop(
    m: Matcher,
    c: SearchConfig,
    path: Seq<u8>,
    text: Seq<u8>,
    lines: Seq<(usize, usize)>,
    i: int,
)
    requires
        0 <= i < lines.len(),
        selected(m, c, text, lines, i),
        !within_max(c, selected_before(m, c, text, lines, i) + 1),
    ensures
        records_upto(m, c, path, text, lines, lines.len() as int) == records_upto(m, c, path, text, lines, i),
{
    assert forall|j: int| i <= j < lines.len() implies !#[trigger] emitted(m, c, text, lines, j) by {
        lemma_selected_before_monotone(m, c, text, lines, i + 1, j + 1);
    }
    lemma_records_skip(m, c, path, text, lines, i, lines.len() as int);
}

/// Full output without a context window: each reported match, in order.
fn search_without_context(
    out: &mut Vec<u8>,
    matcher: &Matcher,
    cfg: &SearchConfig,
    path: &[u8],
    text: &[u8],
    lines: &Vec<(usize, usize)>,
)
    requires
        ranges_within(lines@, text@.len()),
        lines@.len() < usize::MAX,
        cfg.before_lines() == 0,
        cfg.after_lines() == 0,
    ensures
        final(out)@ == old(out)@ + records_upto(*matcher, *cfg, path@, text@, lines@, lines@.len() as int),
{
    let ghost m = *matcher;
    let ghost c = *cfg;
    let ghost start = out@;
    let n = lines.len();
    let mut count: usize = 0;
    let mut i: usize = 0;
    while i < n
        invariant
            m == *matcher,
            c == *cfg,
            start == old(out)@,
            n == lines@.len(),
            n < usize::MAX,
            ranges_within(lines@, text@.len()),
            c.before_lines() == 0,
            c.after_lines() == 0,
            i <= n,
            count == selected_before(m, c, text@, lines@, i as int),
            count <= i,
            within_max(c, count as nat),
            out@ == start + records_upto(m, c, path@, text@, lines@, i as int),
        decreases n - i,
    {
        let (ls, le) = lines[i];
        assert(lines@[i as int].0 <= lines@[i as int].1 <= text@.len());
        let line = &text[ls..le];
        assert(line@ == line_text(text@, lines@, i as int));
        let sel = matcher.is_match_bytes(line) != cfg.invert_match;
        if sel {
            let stop = match cfg.max_count {
                Some(k) => count >= k,
                None => false,
            };
            if stop {
                proof {
                    lemma_past_stop(m, c, path@, text@, lines@, i as int);
                }
                return;
            }
            assert(accepted(m, c, text@, lines@, i as int));
            assert(emitted(m, c, text@, lines@, i as int));
            write_line_output(out, matcher, cfg, path, text, lines, i, true);
            count = count + 1;
        } else {
            assert(!emitted(m, c, text@, lines@, i as int)) by {
                if emitted(m, c, text@, lines@, i as int) {
                    let a = choose|a: int|
                        #[trigger] accepted(m, c, text@, lines@, a) && a - c.before_lines() <= i <= a + c.after_lines();
                    assert(a == i);
                }
            }
        }
        i = i + 1;
    }
}

/// Whether some line is selected.
pub open spec fn some_line_selected(m: Matcher, c: SearchConfig, text: Seq<u8>, lines: Seq<(usize, usize)>) -> bool {
    exists|j: int| 0 <= j < lines.len() && #[trigger] selected(m, c, text, lines, j)
}

/// The count that count mode reports: the selected lines, capped at
/// `max_count`.
pub open spec fn reported_count(m: Matcher, c: SearchConfig, text: Seq<u8>, lines: Seq<(usize, usize)>) -> nat {
    let total = selected_before(m, c, text, lines, lines.len() as int);
    match c.max_count {
        Some(k) => if total > k {
            k as nat
        } else {
            total
        },
        None => total,
    }
}

/// The record naming a file.
pub open spec fn path_record(c: SearchConfig, path: Seq<u8>) -> Seq<u8> {
    path + terminator(c)
}

/// The record of count mode.
pub open spec fn count_record(c: SearchConfig, path: Seq<u8>, n: nat) -> Seq<u8> {
    (if c.shows_filename() {
        path + colon()
    } else {
        Seq::empty()
    }) + decimal(n) + terminator(c)
}

/// What searching one file writes, by the first mode that applies: quiet,
/// files with matches, files without match, count, full output.
pub open spec fn search_output(
    m: Matcher,
    c: SearchConfig,
    path: Seq<u8>,
    text: Seq<u8>,
    lines: Seq<(usize, usize)>,
) -> Seq<u8> {
    if c.quiet {
        Seq::empty()
    } else if c.files_with_matches {
        if some_line_selected(m, c, text, lines) {
            path_record(c, path)
        } else {
            Seq::empty()
        }
    } else if c.files_without_match {
        if some_line_selected(m, c, text, lines) {
            Seq::empty()
        } else {
            path_record(c, path)
        }
    } else if c.count {
        count_record(c, path, reported_count(m, c, text, lines))
    } else {
        records_upto(m, c, path, text, lines, lines.len() as int)
    }
}

/// Scans until the first selected line.
fn any_line_selected(matcher: &Matcher, cfg: &SearchConfig, text: &[u8], lines: &Vec<(usize, usize)>) -> (r: bool)
    requires
        ranges_within(lines@, text@.len()),
    ensures
        r == some_line_selected(*matcher, *cfg, text@, lines@),
{
    let n = lines.len();
    let mut i: usize = 0;
    while i < n
        invariant
            n == lines@.len(),
            ranges_within(lines@, text@.len()),
            i <= n,
            forall|j: int| 0 <= j < i ==> !#[trigger] selected(*matcher, *cfg, text@, lines@, j),
        decreases n - i,
    {
        let (ls, le) = lines[i];
        assert(lines@[i as int].0 <= lines@[i as int].1 <= text@.len());
        let line = &text[ls..le];
        assert(line@ == line_text(text@, lines@, i as int));
        if matcher.is_match_bytes(line) != cfg.invert_match {
            assert(selected(*matcher, *cfg, text@, lines@, i as int));
            return true;
        }
        i = i + 1;
    }
    false
}

/// Counts selected lines, stopping once `max_count` is reached.
fn count_matches(matcher: &Matcher, cfg: &SearchConfig, text: &[u8], lines: &Vec<(usize, usize)>) -> (r: usize)
    requires
        ranges_within(lines@, text@.len()),
    ensures
        r == reported_count(*matcher, *cfg, text@, lines@),
{
    let ghost m = *matcher;
    let ghost c = *cfg;
    let n = lines.len();
    let mut count: usize = 0;
    let mut i: usize = 0;
    while i < n
        invariant
            m == *matcher,
            c == *cfg,
            n == lines@.len(),
            ranges_within(lines@, text@.len()),
            i <= n,
            count == selected_before(m, c, text@, lines@, i as int),
            count <= i,
            within_max(c, count as nat),
        decreases n - i,
    {
        let reached = match cfg.max_count {
            Some(k) => count >= k,
            None => false,
        };
        if reached {
            proof {
                lemma_selected_before_monotone(m, c, text@, lines@, i as int, n as int);
            }
            return count;
        }
        let (ls, le) = lines[i];
        assert(lines@[i as int].0 <= lines@[i as int].1 <= text@.len());
        let line = &text[ls..le];
        assert(line@ == line_text(text@, lines@, i as int));
        if matcher.is_match_bytes(line) != cfg.invert_match {
            count = count + 1;
        }
        i = i + 1;
    }
    count
}

/// Searches the lines of one file, whose bytes are `text` and whose lines are
/// the byte ranges `lines`; `path` is the file's name as shown in output.
pub fn search_lines(
    out: &mut Vec<u8>,
    matcher: &Matcher,
    path: &[u8],
    text: &[u8],
    lines: &Vec<(usize, usize)>,
    cfg: &SearchConfig,
)
    requires
        ranges_within(lines@, text@.len()),
        lines@.len() < usize::MAX,
    ensures
        final(out)@ == old(out)@ + search_output(*matcher, *cfg, path@, text@, lines@),
{
    let ghost start = out@;
    if cfg.quiet {
        assert(out@ =~= start + Seq::<u8>::empty());
        return;
    }
    if cfg.files_with_matches {
        if any_line_selected(matcher, cfg, text, lines) {
            out.extend_from_slice(path);
            push_terminator(out, cfg);
            assert(out@ =~= start + path_record(*cfg, path@));
        } else {
            assert(out@ =~= start + Seq::<u8>::empty());
        }
        return;
    }
    if cfg.files_without_match {
        if any_line_selected(matcher, cfg, text, lines) {
            assert(out@ =~= start + Seq::<u8>::empty());
        } else {
            out.extend_from_slice(path);
            push_terminator(out, cfg);
            assert(out@ =~= start + path_record(*cfg, path@));
        }
        return;
    }
    if cfg.count {
        let count = count_matches(matcher, cfg, text, lines);
        if cfg.with_filename && !cfg.no_filename {
            out.extend_from_slice(path);
            out.push(58);
        }
        push_decimal(out, count);
        push_terminator(out, cfg);
        assert(out@ =~= start + count_record(*cfg, path@, count as nat));
        return;
    }
    if cfg.has_context() {
        search_with_context(out, matcher, cfg, path, text, lines);
    } else {
        search_without_context(out, matcher, cfg, path, text, lines);
    }
}

/// Searches one file: `content` is its bytes, `path` its name as shown in
/// output. The records go to the end of `out`.
pub fn search_file(matcher: &Matcher, path: &[u8], content: &[u8], cfg: &SearchConfig, out: &mut Vec<u8>)
    requires
        content@.len() + 1 < usize::MAX,
    ensures
        final(out)@ == old(out)@ + search_output(
            *matcher,
            *cfg,
            path@,
            content@,
            line_ranges(content@, cfg.null_data),
        ),
{
    let lines = split_lines(content, cfg.null_data);
    search_lines(out, matcher, path, content, &lines, cfg);
}

/// Without a context window or a match limit, full output shows exactly the
/// lines on which the matcher's verdict differs from `invert_match`.
pub proof fn lemma_invert_selects(
    m: Matcher,
    c: SearchConfig,
    text: Seq<u8>,
    lines: Seq<(usize, usize)>,
    j: int,
)
    requires
        0 <= j < lines.len(),
        c.before_lines() == 0,
        c.after_lines() == 0,
        c.max_count is None,
    ensures
        emitted(m, c, text, lines, j) <==> (m.matches_line(line_text(text, lines, j)) != c.invert_match),
{
    if selected(m, c, text, lines, j) {
        assert(accepted(m, c, text, lines, j));
    }
    if emitted(m, c, text, lines, j) {
        let a = choose|a: int|
            #[trigger] accepted(m, c, text, lines, a) && a - c.before_lines() <= j <= a + c.after_lines();
        assert(a == j);
    }
}

/// Count mode with `max_count = k` reports the number of selected lines, or
/// `k` when there are more: never more than `k`.
pub proof fn lemma_count_capped(
    m: Matcher,
    c: SearchConfig,
    path: Seq<u8>,
    text: Seq<u8>,
    lines: Seq<(usize, usize)>,
    k: usize,
)
    requires
        c.count,
        !c.quiet,
        !c.files_with_matches,
        !c.files_without_match,
        c.max_count == Some(k),
    ensures
        search_output(m, c, path, text, lines) == count_record(c, path, reported_count(m, c, text, lines)),
        reported_count(m, c, text, lines) <= k,
        reported_count(m, c, text, lines) == (if selected_before(m, c, text, lines, lines.len() as int) < k {
            selected_before(m, c, text, lines, lines.len() as int)
        } else {
            k as nat
        }),
{
}

/// Files-without-match mode writes nothing for a file whose lines are all
/// selected, and exactly the file's record for one with no selected line.
pub proof fn lemma_files_without_match(
    m: Matcher,
    c: SearchConfig,
    path: Seq<u8>,
    text: Seq<u8>,
    lines: Seq<(usize, usize)>,
)
    requires
        c.files_without_match,
        !c.quiet,
        !c.files_with_matches,
    ensures
        lines.len() > 0 && (forall|j: int| 0 <= j < lines.len() ==> #[trigger] selected(m, c, text, lines, j))
            ==> search_output(m, c, path, text, lines) == Seq::<u8>::empty(),
        (forall|j: int| 0 <= j < lines.len() ==> !#[trigger] selected(m, c, text, lines, j))
            ==> search_output(m, c, path, text, lines) == path_record(c, path),
{
    if lines.len() > 0 && (forall|j: int| 0 <= j < lines.len() ==> #[trigger] selected(m, c, text, lines, j)) {
        assert(selected(m, c, text, lines, 0));
    }
}

/// Quiet mode writes nothing, whatever the file holds.
pub proof fn lemma_quiet_writes_nothing(
    m: Matcher,
    c: SearchConfig,
    path: Seq<u8>,
    text: Seq<u8>,
    lines: Seq<(usize, usize)>,
)
    requires
        c.quiet,
    ensures
        search_output(m, c, path, text, lines) == Seq::<u8>::empty(),
{
}

} // verus!
