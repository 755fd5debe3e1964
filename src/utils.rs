//! Pattern compilation: the grep-style modifiers that turn a user pattern
//! into a regular expression, and the compiled matcher the search engine uses.

use vstd::prelude::*;
use vstd::string::StringSliceAdditionalSpecFns;
use vstd::string::StrSliceExecFns;
use vstd::string::StringExecFns;

verus! {

/// A compiled regular expression of the regex crate, carried opaquely.
#[verifier::external_type_specification]
#[verifier::external_body]
pub struct ExRegex(regex::bytes::Regex);

/// The regex crate's error for a pattern it rejects, carried opaquely.
#[verifier::external_type_specification]
#[verifier::external_body]
pub struct ExRegexError(regex::Error);

/// Whether `pattern`, compiled with the given case-insensitivity, is accepted
/// by the regex engine.
pub uninterp spec fn regex_compiles(pattern: Seq<char>, ignore_case: bool) -> bool;

/// Whether the compiled `pattern` finds a match anywhere in `haystack`.
pub uninterp spec fn regex_is_match(pattern: Seq<char>, ignore_case: bool, haystack: Seq<u8>) -> bool;

/// The successive non-overlapping matches of `pattern` in `haystack`, as
/// (start, end) byte offsets, left to right.
pub uninterp spec fn regex_find_spans(pattern: Seq<char>, ignore_case: bool, haystack: Seq<u8>) -> Seq<(usize, usize)>;

/// A list of spans lies inside a haystack of length `len`, each span is
/// well-ordered, and each one ends no later than the next one starts.
pub open spec fn spans_ordered(spans: Seq<(usize, usize)>, len: nat) -> bool {
    &&& forall|i: int| 0 <= i < spans.len() ==> #[trigger] spans[i].0 <= spans[i].1 <= len
    &&& forall|i: int| 0 <= i < spans.len() - 1 ==> #[trigger] spans[i].1 <= spans[i + 1].0
}

/// `s` with a backslash put before every character for which `special` holds.
pub open spec fn escape_where(s: Seq<char>, special: spec_fn(char) -> bool) -> Seq<char>
    decreases s.len(),
{
    if s.len() == 0 {
        Seq::empty()
    } else {
        let c = s.last();
        let head = escape_where(s.drop_last(), special);
        if special(c) {
            head.push('\\').push(c)
        } else {
            head.push(c)
        }
    }
}

/// The characters the regex engine treats as syntax.
pub open spec fn is_regex_meta(c: char) -> bool {
    c == '\\' || c == '.' || c == '+' || c == '*' || c == '?' || c == '(' || c == ')' || c == '|'
        || c == '[' || c == ']' || c == '{' || c == '}' || c == '^' || c == '$' || c == '#'
        || c == '&' || c == '-' || c == '~'
}

/// The characters that are literal in basic (non-extended) syntax and must be
/// escaped before the pattern reaches the regex engine.
pub open spec fn is_basic_special(c: char) -> bool {
    c == '+' || c == '?' || c == '|' || c == '(' || c == ')' || c == '{' || c == '}'
}

/// Relies on regex::escape: a backslash before each regex meta character.
#[verifier::external_body]
fn regex_escape(text: &str) -> (r: String)
    ensures
        r@ == escape_where(text@, |c: char| is_regex_meta(c)),
{
    regex::escape(text)
}

/// A compiled pattern, together with the source text and case flag it was
/// compiled from.
#[derive(Debug)]
pub struct Matcher {
    regex: regex::bytes::Regex,
    source: String,
    ignore_case: bool,
}

/// Relies on regex::bytes::RegexBuilder: compiles `pattern` with the given
/// case-insensitivity; it fails exactly on the patterns the engine rejects.
#[verifier::external_body]
fn compile_regex(pattern: &str, ignore_case: bool) -> (r: Result<Matcher, regex::Error>)
    ensures
        r is Ok <==> regex_compiles(pattern@, ignore_case),
        r matches Ok(m) ==> m.source() == pattern@ && m.case_insensitive() == ignore_case,
{
    let regex = regex::bytes::RegexBuilder::new(pattern).case_insensitive(ignore_case).build()?;
    Ok(Matcher { regex, source: pattern.to_string(), ignore_case })
}

impl Matcher {
    /// The regular expression this matcher was compiled from.
    pub closed spec fn source(&self) -> Seq<char> {
        self.source@
    }

    /// Whether this matcher ignores case.
    pub closed spec fn case_insensitive(&self) -> bool {
        self.ignore_case
    }

    /// Whether this matcher finds a match in `line`.
    pub open spec fn matches_line(&self, line: Seq<u8>) -> bool {
        regex_is_match(self.source(), self.case_insensitive(), line)
    }

    /// The match spans this matcher finds in `line`.
    pub open spec fn spans(&self, line: Seq<u8>) -> Seq<(usize, usize)> {
        regex_find_spans(self.source(), self.case_insensitive(), line)
    }

    /// Relies on regex::bytes::Regex::is_match.
    #[verifier::external_body]
    pub(crate) fn is_match_bytes(&self, line: &[u8]) -> (r: bool)
        ensures
            r == regex_is_match(self.source(), self.case_insensitive(), line@),
    {
        self.regex.is_match(line)
    }

    /// Relies on regex::bytes::Regex::find_iter: the successive
    /// non-overlapping matches, left to right, inside the haystack.
    #[verifier::external_body]
    pub(crate) fn find_spans(&self, line: &[u8]) -> (r: Vec<(usize, usize)>)
        ensures
            r@ == regex_find_spans(self.source(), self.case_insensitive(), line@),
            spans_ordered(r@, line@.len()),
    {
        self.regex.find_iter(line).map(|m| (m.start(), m.end())).collect()
    }

    /// Whether this matcher finds a match in `text`.
    pub fn is_match(&self, text: &str) -> (r: bool)
        ensures
            r == self.matches_line(text.spec_bytes()),
    {
        self.is_match_bytes(text.as_bytes())
    }
}

/// The modifiers applied to a user pattern before it is compiled.
#[derive(Debug)]
pub struct RegexConfig {
    pub ignore_case: bool,
    pub word_regexp: bool,
    pub line_regexp: bool,
    pub fixed_strings: bool,
    pub extended_regexp: bool,
}

impl Default for RegexConfig {
    fn default() -> (r: Self)
        ensures
            !r.ignore_case && !r.word_regexp && !r.line_regexp && !r.fixed_strings && !r.extended_regexp,
    {
        RegexConfig {
            ignore_case: false,
            word_regexp: false,
            line_regexp: false,
            fixed_strings: false,
            extended_regexp: false,
        }
    }
}

/// The regular expression that a user pattern stands for under `config`:
/// a fixed string is escaped whole; otherwise basic syntax escapes its
/// literal operators, then whole-word and whole-line anchors are added.
pub open spec fn final_pattern(pattern: Seq<char>, config: RegexConfig) -> Seq<char> {
    if config.fixed_strings {
        escape_where(pattern, |c: char| is_regex_meta(c))
    } else {
        let p1 = if config.extended_regexp {
            pattern
        } else {
            escape_where(pattern, |c: char| is_basic_special(c))
        };
        let p2 = if config.word_regexp {
            seq!['\\', 'b'] + p1 + seq!['\\', 'b']
        } else {
            p1
        };
        if config.line_regexp {
            seq!['^'] + p2 + seq!['$']
        } else {
            p2
        }
    }
}

/// Puts a backslash before each of `+ ? | ( ) { }`, which basic syntax
/// treats as literal characters.
pub fn escape_basic_regex(pattern: &str) -> (r: String)
    ensures
        r@ == escape_where(pattern@, |c: char| is_basic_special(c)),
{
    let n = pattern.unicode_len();
    let mut result = String::new();
    let backslash = "\\";
    proof {
        reveal_strlit("\\");
    }
    let mut i: usize = 0;
    while i < n
        invariant
            n == pattern@.len(),
            i <= n,
            backslash@ == seq!['\\'],
            result@ == escape_where(pattern@.subrange(0, i as int), |c: char| is_basic_special(c)),
        decreases n - i,
    {
        let c = pattern.get_char(i);
        if c == '+' || c == '?' || c == '|' || c == '(' || c == ')' || c == '{' || c == '}' {
            result.append(backslash);
        }
        result.append(pattern.substring_char(i, i + 1));
        proof {
            let s = pattern@.subrange(0, i + 1);
            assert(s.drop_last() =~= pattern@.subrange(0, i as int));
            assert(s.last() == c);
        }
        i = i + 1;
    }
    proof {
        assert(pattern@.subrange(0, n as int) =~= pattern@);
    }
    result
}

/// Compiles `pattern` under the modifiers of `config`.
pub fn build_regex(pattern: &str, config: &RegexConfig) -> (r: Result<Matcher, regex::Error>)
    ensures
        r is Ok <==> regex_compiles(final_pattern(pattern@, *config), config.ignore_case),
        r matches Ok(m) ==> m.source() == final_pattern(pattern@, *config)
            && m.case_insensitive() == config.ignore_case,
{
    let mut pat: String;
    if config.fixed_strings {
        pat = regex_escape(pattern);
    } else {
        if !config.extended_regexp {
            pat = escape_basic_regex(pattern);
        } else {
            pat = pattern.to_owned();
        }
        if config.word_regexp {
            let mut w = String::from_str("\\b");
            w.append(pat.as_str());
            w.append("\\b");
            proof {
                reveal_strlit("\\b");
            }
            pat = w;
        }
        if config.line_regexp {
            let mut l = String::from_str("^");
            l.append(pat.as_str());
            l.append("$");
            proof {
                reveal_strlit("^");
                reveal_strlit("$");
            }
            pat = l;
        }
    }
    proof {
        assert(pat@ =~= final_pattern(pattern@, *config));
    }
    compile_regex(pat.as_str(), config.ignore_case)
}

} // verus!
