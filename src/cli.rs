//! Command-line options and their translation into search settings.

use vstd::prelude::*;
use crate::filter::{glob_compiles, GlobPattern};
use crate::search::SearchConfig;
use crate::utils::RegexConfig;

verus! {

/// A filesystem path of std, carried opaquely.
#[verifier::external_type_specification]
#[verifier::external_body]
pub struct ExPathBuf(std::path::PathBuf);

/// When output is coloured.
#[derive(Clone, Copy, Debug, PartialEq, Eq, Structural)]
pub enum ColorOption {
    Auto,
    Always,
    Never,
}

impl ColorOption {
    /// Whether colour is used; `Auto` follows whether standard output is a
    /// terminal.
    pub fn enabled(&self, stdout_is_terminal: bool) -> (r: bool)
        ensures
            r == match *self {
                ColorOption::Always => true,
                ColorOption::Never => false,
                ColorOption::Auto => stdout_is_terminal,
            },
    {
        match self {
            ColorOption::Always => true,
            ColorOption::Never => false,
            ColorOption::Auto => stdout_is_terminal,
        }
    }
}

/// The parsed command line.
#[derive(Debug)]
pub struct CliArgs {
    pub help: Option<bool>,
    pub pattern: String,
    pub files: Vec<std::path::PathBuf>,
    pub ignore_case: bool,
    pub fixed_strings: bool,
    pub word_regexp: bool,
    pub line_regexp: bool,
    pub invert_match: bool,
    pub line_number: bool,
    pub count: bool,
    pub files_with_matches: bool,
    pub files_without_match: bool,
    pub no_filename: bool,
    pub with_filename: bool,
    pub recursive: bool,
    pub only_matching: bool,
    pub quiet: bool,
    pub max_count: Option<usize>,
    pub after_context: Option<usize>,
    pub before_context: Option<usize>,
    pub context: Option<usize>,
    pub color: ColorOption,
    pub exclude_globs: Vec<String>,
    pub include_globs: Vec<String>,
    pub dereference_recursive: bool,
    pub text: bool,
    pub ignore_binary: bool,
    pub byte_offset: bool,
    pub pattern_file: Option<std::path::PathBuf>,
    pub no_messages: bool,
    pub null_data: bool,
    pub null: bool,
}

/// The globs of `list` that compile, in order.
pub open spec fn valid_globs(list: Seq<Seq<char>>) -> Seq<Seq<char>>
    decreases list.len(),
{
    if list.len() == 0 {
        Seq::empty()
    } else {
        let head = valid_globs(list.drop_last());
        if glob_compiles(list.last()) {
            head.push(list.last())
        } else {
            head
        }
    }
}

/// The texts of a list of strings.
pub open spec fn texts(list: Seq<String>) -> Seq<Seq<char>> {
    list.map(|i: int, s: String| s@)
}

/// The sources of a list of compiled globs.
pub open spec fn sources(list: Seq<GlobPattern>) -> Seq<Seq<char>> {
    list.map(|i: int, g: GlobPattern| g.source())
}

/// Compiles each glob, leaving out those that are malformed.
pub fn compile_globs(list: &Vec<String>) -> (r: Vec<GlobPattern>)
    ensures
        sources(r@) == valid_globs(texts(list@)),
{
    let mut out: Vec<GlobPattern> = Vec::new();
    let mut k: usize = 0;
    while k < list.len()
        invariant
            k <= list@.len(),
            sources(out@) =~= valid_globs(texts(list@).subrange(0, k as int)),
        decreases list@.len() - k,
    {
        let ghost prefix = texts(list@).subrange(0, k + 1);
        assert(prefix.drop_last() =~= texts(list@).subrange(0, k as int));
        assert(prefix.last() == list@[k as int]@);
        match GlobPattern::new(list[k].as_str()) {
            Ok(g) => {
                out.push(g);
            },
            Err(_) => {},
        }
        k = k + 1;
    }
    assert(texts(list@).subrange(0, list@.len() as int) =~= texts(list@));
    out
}

/// Whether output names files: never under `no_filename`, always under
/// `with_filename`, otherwise when more than one path is given.
pub open spec fn shows_filenames(args: CliArgs) -> bool {
    if args.no_filename {
        false
    } else if args.with_filename {
        true
    } else {
        args.files@.len() > 1
    }
}

impl CliArgs {
    /// The pattern modifiers selected on the command line; patterns use
    /// basic syntax.
    pub fn regex_config(&self) -> (r: RegexConfig)
        ensures
            r.ignore_case == self.ignore_case,
            r.word_regexp == self.word_regexp,
            r.line_regexp == self.line_regexp,
            r.fixed_strings == self.fixed_strings,
            !r.extended_regexp,
    {
        RegexConfig {
            ignore_case: self.ignore_case,
            word_regexp: self.word_regexp,
            line_regexp: self.line_regexp,
            fixed_strings: self.fixed_strings,
            extended_regexp: false,
        }
    }

    /// The search settings selected on the command line. `context` sets both
    /// context widths; malformed globs are left out.
    pub fn search_config(&self, stdout_is_terminal: bool) -> (r: SearchConfig)
        ensures
            r.invert_match == self.invert_match,
            r.line_number == self.line_number,
            r.with_filename == shows_filenames(*self),
            r.no_filename == self.no_filename,
            r.count == self.count,
            r.files_with_matches == self.files_with_matches,
            r.files_without_match == self.files_without_match,
            r.only_matching == self.only_matching,
            r.quiet == self.quiet,
            r.max_count == self.max_count,
            r.before_context == (if self.context is Some {
                self.context
            } else {
                self.before_context
            }),
            r.after_context == (if self.context is Some {
                self.context
            } else {
                self.after_context
            }),
            r.context == self.context,
            r.byte_offset == self.byte_offset,
            r.null_data == self.null_data,
            r.null == self.null,
            r.text == self.text,
            r.ignore_binary == self.ignore_binary,
            r.no_messages == self.no_messages,
            sources(r.exclude_patterns@) == valid_globs(texts(self.exclude_globs@)),
            sources(r.include_patterns@) == valid_globs(texts(self.include_globs@)),
            r.use_color == match self.color {
                ColorOption::Always => true,
                ColorOption::Never => false,
                ColorOption::Auto => stdout_is_terminal,
            },
    {
        let (before_context, after_context) = match self.context {
            Some(n) => (Some(n), Some(n)),
            None => (self.before_context, self.after_context),
        };
        let with_filename = if self.no_filename {
            false
        } else if self.with_filename {
            true
        } else {
            self.files.len() > 1
        };
        SearchConfig {
            invert_match: self.invert_match,
            line_number: self.line_number,
            with_filename,
            no_filename: self.no_filename,
            count: self.count,
            files_with_matches: self.files_with_matches,
            files_without_match: self.files_without_match,
            only_matching: self.only_matching,
            quiet: self.quiet,
            max_count: self.max_count,
            before_context,
            after_context,
            context: self.context,
            byte_offset: self.byte_offset,
            null_data: self.null_data,
            null: self.null,
            text: self.text,
            ignore_binary: self.ignore_binary,
            no_messages: self.no_messages,
            exclude_patterns: compile_globs(&self.exclude_globs),
            include_patterns: compile_globs(&self.include_globs),
            use_color: self.color.enabled(stdout_is_terminal),
        }
    }
}

} // verus!
