//! Deciding from a directory entry's name and kind whether it is searched.

use vstd::prelude::*;
use crate::search::SearchConfig;
use vstd::string::StringSliceAdditionalSpecFns;

verus! {

/// A compiled glob of the glob crate, carried opaquely.
#[verifier::external_type_specification]
#[verifier::external_body]
pub struct ExGlobPattern(glob::Pattern);

/// The glob crate's error for a malformed glob, carried opaquely.
#[verifier::external_type_specification]
#[verifier::external_body]
pub struct ExGlobPatternError(glob::PatternError);

/// Whether `pattern` is a well-formed glob.
pub uninterp spec fn glob_compiles(pattern: Seq<char>) -> bool;

/// Whether the glob `pattern` matches the whole of `name`.
pub uninterp spec fn glob_matches(pattern: Seq<char>, name: Seq<char>) -> bool;

/// A compiled glob, together with the text it was compiled from.
#[derive(Debug)]
pub struct GlobPattern {
    compiled: glob::Pattern,
    source: String,
}

/// Relies on glob::Pattern::new: it fails exactly on malformed globs.
#[verifier::external_body]
fn compile_glob(pattern: &str) -> (r: Result<GlobPattern, glob::PatternError>)
    ensures
        r is Ok <==> glob_compiles(pattern@),
        r matches Ok(g) ==> g.source() == pattern@,
{
    let compiled = glob::Pattern::new(pattern)?;
    Ok(GlobPattern { compiled, source: pattern.to_string() })
}

impl GlobPattern {
    /// The glob this pattern was compiled from.
    pub closed spec fn source(&self) -> Seq<char> {
        self.source@
    }

    /// Compiles a glob; fails on a malformed one.
    pub fn new(pattern: &str) -> (r: Result<GlobPattern, glob::PatternError>)
        ensures
            r is Ok <==> glob_compiles(pattern@),
            r matches Ok(g) ==> g.source() == pattern@,
    {
        compile_glob(pattern)
    }

    /// Relies on glob::Pattern::matches: whether the glob matches the name.
    #[verifier::external_body]
    pub(crate) fn matches(&self, name: &str) -> (r: bool)
        ensures
            r == glob_matches(self.source(), name@),
    {
        self.compiled.matches(name)
    }
}

/// Whether some pattern of `patterns` matches `name`.
pub open spec fn any_glob_matches(patterns: Seq<GlobPattern>, name: Seq<char>) -> bool {
    exists|i: int| 0 <= i < patterns.len() && glob_matches(#[trigger] patterns[i].source(), name)
}

fn any_matches(patterns: &Vec<GlobPattern>, name: &str) -> (r: bool)
    ensures
        r == any_glob_matches(patterns@, name@),
{
    let mut i: usize = 0;
    while i < patterns.len()
        invariant
            i <= patterns@.len(),
            forall|j: int| 0 <= j < i ==> !glob_matches(#[trigger] patterns@[j].source(), name@),
        decreases patterns@.len() - i,
    {
        if patterns[i].matches(name) {
            return true;
        }
        i = i + 1;
    }
    false
}

/// Index of the last `.` in `name`, or -1 when there is none.
pub open spec fn last_dot(name: Seq<u8>) -> int
    decreases name.len(),
{
    if name.len() == 0 {
        -1
    } else if name.last() == 46u8 {
        name.len() - 1
    } else {
        last_dot(name.drop_last())
    }
}

/// The extension of a file name: what follows its last `.`, unless that dot
/// starts the name or there is none.
pub open spec fn extension_of(name: Seq<u8>) -> Option<Seq<u8>> {
    let p = last_dot(name);
    if p <= 0 {
        None
    } else {
        Some(name.subrange(p + 1, name.len() as int))
    }
}

/// The extensions taken to mark binary files.
pub open spec fn binary_extensions() -> Seq<Seq<u8>> {
    seq![
        seq![98u8, 105, 110],  // bin
        seq![101u8, 120, 101],  // exe
        seq![100u8, 108, 108],  // dll
        seq![115u8, 111],  // so
        seq![100u8, 121, 108, 105, 98],  // dylib
        seq![111u8],  // o
        seq![97u8],  // a
        seq![108u8, 105, 98],  // lib
        seq![106u8, 112, 103],  // jpg
        seq![106u8, 112, 101, 103],  // jpeg
        seq![112u8, 110, 103],  // png
        seq![103u8, 105, 102],  // gif
        seq![112u8, 100, 102],  // pdf
        seq![122u8, 105, 112],  // zip
        seq![116u8, 97, 114],  // tar
        seq![103u8, 122],  // gz
    ]
}

/// Whether a file name carries one of the binary extensions.
pub open spec fn has_binary_extension(name: Seq<u8>) -> bool {
    match extension_of(name) {
        Some(e) => binary_extensions().contains(e),
        None => false,
    }
}

/// The decision made for a directory entry: it must be a regular file with a
/// readable name, match no exclude glob, match an include glob when any is
/// given, and, when binary files are skipped, not carry a binary extension.
pub open spec fn entry_selected(name: Option<Seq<char>>, name_bytes: Seq<u8>, is_file: bool, config: SearchConfig) -> bool {
    match name {
        None => false,
        Some(n) => {
            &&& is_file
            &&& !any_glob_matches(config.exclude_patterns@, n)
            &&& (config.include_patterns@.len() == 0 || any_glob_matches(config.include_patterns@, n))
            &&& !(config.ignore_binary && !config.text && has_binary_extension(name_bytes))
        },
    }
}

fn find_last_dot(name: &[u8]) -> (r: Option<usize>)
    ensures
        match r {
            Some(p) => last_dot(name@) == p as int && p < name@.len(),
            None => last_dot(name@) == -1,
        },
{
    let mut i: usize = name.len();
    assert(name@.subrange(0, i as int) =~= name@);
    while i > 0
        invariant
            i <= name@.len(),
            last_dot(name@) == last_dot(name@.subrange(0, i as int)),
        decreases i,
    {
        proof {
            assert(name@.subrange(0, i as int).drop_last() =~= name@.subrange(0, i - 1));
        }
        if name[i - 1] == 46u8 {
            return Some(i - 1);
        }
        i = i - 1;
    }
    None
}

fn bytes_equal(a: &[u8], b: &[u8]) -> (r: bool)
    ensures
        r == (a@ == b@),
{
    if a.len() != b.len() {
        return false;
    }
    let mut i: usize = 0;
    while i < a.len()
        invariant
            a@.len() == b@.len(),
            i <= a@.len(),
            forall|j: int| 0 <= j < i ==> a@[j] == b@[j],
        decreases a@.len() - i,
    {
        if a[i] != b[i] {
            return false;
        }
        i = i + 1;
    }
    proof {
        assert(a@ =~= b@);
    }
    true
}

fn is_binary_extension(ext: &[u8]) -> (r: bool)
    ensures
        r == binary_extensions().contains(ext@),
{
    let list: Vec<Vec<u8>> = vec![
        vec![98u8, 105, 110],
        vec![101u8, 120, 101],
        vec![100u8, 108, 108],
        vec![115u8, 111],
        vec![100u8, 121, 108, 105, 98],
        vec![111u8],
        vec![97u8],
        vec![108u8, 105, 98],
        vec![106u8, 112, 103],
        vec![106u8, 112, 101, 103],
        vec![112u8, 110, 103],
        vec![103u8, 105, 102],
        vec![112u8, 100, 102],
        vec![122u8, 105, 112],
        vec![116u8, 97, 114],
        vec![103u8, 122],
    ];
    let ghost expected: Seq<Seq<u8>> = binary_extensions();
    assert(list@.len() == expected.len());
    assert(forall|k: int| 0 <= k < list@.len() ==> (#[trigger] list@[k])@ == expected[k]);
    let mut i: usize = 0;
    while i < list.len()
        invariant
            expected == binary_extensions(),
            list@.len() == expected.len(),
            forall|k: int| 0 <= k < list@.len() ==> (#[trigger] list@[k])@ == expected[k],
            i <= list@.len(),
            forall|k: int| 0 <= k < i ==> expected[k] != ext@,
        decreases list@.len() - i,
    {
        if bytes_equal(ext, list[i].as_slice()) {
            proof {
                assert(list@[i as int]@ == expected[i as int]);
                assert(expected[i as int] == ext@);
                assert(expected.contains(ext@));
            }
            return true;
        }
        i = i + 1;
    }
    false
}

/// Whether a directory entry is searched; `file_name` is its base name when
/// that name is valid text.
pub fn should_process_file(file_name: Option<&str>, is_file: bool, config: &SearchConfig) -> (r: bool)
    ensures
        r == entry_selected(
            match file_name {
                Some(n) => Some(n@),
                None => None,
            },
            match file_name {
                Some(n) => n.spec_bytes(),
                None => Seq::empty(),
            },
            is_file,
            *config,
        ),
{
    if !is_file {
        return false;
    }
    let name = match file_name {
        Some(n) => n,
        None => return false,
    };
    if any_matches(&config.exclude_patterns, name) {
        return false;
    }
    if config.include_patterns.len() > 0 && !any_matches(&config.include_patterns, name) {
        return false;
    }
    if config.ignore_binary && !config.text {
        let bytes = name.as_bytes();
        let n = bytes.len();
        match find_last_dot(bytes) {
            Some(p) => {
                if p > 0 {
                    let ext = &bytes[p + 1..n];
                    if is_binary_extension(ext) {
                        return false;
                    }
                }
            },
            None => {},
        }
    }
    true
}

} // verus!
