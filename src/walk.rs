//! Directory traversal decisions and the ordered merge of per-entry output.
//!
//! The caller lists directories and reads files; this module decides what
//! happens to each entry, whether a directory's entries are searched in
//! parallel, and how their separate outputs join the sink.

use vstd::prelude::*;
use crate::filter::{entry_selected, should_process_file};
use crate::search::SearchConfig;
use vstd::string::StringSliceAdditionalSpecFns;

verus! {

/// Above this many entries, a directory's entries are searched in parallel.
pub const PARALLEL_THRESHOLD: usize = 20;

/// What happens to a filesystem entry.
#[derive(Debug, Clone, Copy, PartialEq, Eq, Structural)]
pub enum EntryAction {
    /// Left alone.
    Skip,
    /// Searched as a file.
    Search,
    /// Listed as a directory.
    Descend,
}

/// The name as the file filter sees it.
pub open spec fn name_view(file_name: Option<&str>) -> Option<Seq<char>> {
    match file_name {
        Some(n) => Some(n@),
        None => None,
    }
}

/// The bytes of the name, empty when there is none.
pub open spec fn name_bytes(file_name: Option<&str>) -> Seq<u8> {
    match file_name {
        Some(n) => n.spec_bytes(),
        None => Seq::empty(),
    }
}

/// A path named on the command line: a directory is always listed; anything
/// else is searched when the file filter selects it.
pub open spec fn root_action_spec(name: Option<Seq<char>>, bytes: Seq<u8>, is_file: bool, is_dir: bool, config: SearchConfig) -> EntryAction {
    if is_dir {
        EntryAction::Descend
    } else if entry_selected(name, bytes, is_file, config) {
        EntryAction::Search
    } else {
        EntryAction::Skip
    }
}

/// An entry found inside a listed directory: subdirectories are descended
/// into only when recursive; files are searched when the filter selects them.
pub open spec fn child_action_spec(
    name: Option<Seq<char>>,
    bytes: Seq<u8>,
    is_file: bool,
    is_dir: bool,
    recursive: bool,
    config: SearchConfig,
) -> EntryAction {
    if recursive && is_dir {
        EntryAction::Descend
    } else if entry_selected(name, bytes, is_file, config) {
        EntryAction::Search
    } else {
        EntryAction::Skip
    }
}

/// Decides what happens to a path named on the command line.
pub fn root_action(file_name: Option<&str>, is_file: bool, is_dir: bool, config: &SearchConfig) -> (r: EntryAction)
    ensures
        r == root_action_spec(name_view(file_name), name_bytes(file_name), is_file, is_dir, *config),
{
    if is_dir {
        EntryAction::Descend
    } else if should_process_file(file_name, is_file, config) {
        EntryAction::Search
    } else {
        EntryAction::Skip
    }
}

/// Decides what happens to an entry of a listed directory.
pub fn child_action(
    file_name: Option<&str>,
    is_file: bool,
    is_dir: bool,
    recursive: bool,
    config: &SearchConfig,
) -> (r: EntryAction)
    ensures
        r == child_action_spec(name_view(file_name), name_bytes(file_name), is_file, is_dir, recursive, *config),
{
    if recursive && is_dir {
        EntryAction::Descend
    } else if should_process_file(file_name, is_file, config) {
        EntryAction::Search
    } else {
        EntryAction::Skip
    }
}

/// Whether a directory with `entry_count` entries has them searched in
/// parallel: only when recursive and above the threshold.
pub fn use_parallel(entry_count: usize, recursive: bool) -> (r: bool)
    ensures
        r == (recursive && entry_count > PARALLEL_THRESHOLD),
{
    recursive && entry_count > PARALLEL_THRESHOLD
}

/// The outputs joined end to end, in order.
pub open spec fn concat_all(parts: Seq<Seq<u8>>) -> Seq<u8>
    decreases parts.len(),
{
    if parts.len() == 0 {
        Seq::empty()
    } else {
        concat_all(parts.drop_last()) + parts.last()
    }
}

/// The sink after each output is written to it directly, one after another.
pub open spec fn write_each(sink: Seq<u8>, parts: Seq<Seq<u8>>) -> Seq<u8>
    decreases parts.len(),
{
    if parts.len() == 0 {
        sink
    } else {
        write_each(sink + parts[0], parts.drop_first())
    }
}

/// The views of a list of buffers.
pub open spec fn views(parts: Seq<Vec<u8>>) -> Seq<Seq<u8>> {
    parts.map(|i: int, p: Vec<u8>| p@)
}

/// Appends the per-entry buffers to the sink in listing order.
pub fn merge_in_order(sink: &mut Vec<u8>, parts: Vec<Vec<u8>>)
    ensures
        final(sink)@ == old(sink)@ + concat_all(views(parts@)),
{
    let ghost start = sink@;
    let n = parts.len();
    let mut k: usize = 0;
    while k < n
        invariant
            n == parts@.len(),
            k <= n,
            sink@ == start + concat_all(views(parts@).subrange(0, k as int)),
        decreases n - k,
    {
        sink.extend_from_slice(parts[k].as_slice());
        proof {
            let v = views(parts@);
            assert(v.subrange(0, k + 1).drop_last() =~= v.subrange(0, k as int));
            assert(v.subrange(0, k + 1).last() == parts@[k as int]@);
        }
        k = k + 1;
    }
    proof {
        assert(views(parts@).subrange(0, n as int) =~= views(parts@));
    }
}

proof fn lemma_concat_first(parts: Seq<Seq<u8>>)
    requires
        parts.len() > 0,
    ensures
        concat_all(parts) == parts[0] + concat_all(parts.drop_first()),
    decreases parts.len(),
{
    if parts.len() == 1 {
        assert(parts.drop_last() =~= Seq::<Seq<u8>>::empty());
        assert(parts.drop_first() =~= Seq::<Seq<u8>>::empty());
        assert(parts[0] + Seq::<u8>::empty() =~= parts[0]);
        assert(Seq::<u8>::empty() + parts[0] =~= parts[0]);
    } else {
        lemma_concat_first(parts.drop_last());
        assert(parts.drop_last().drop_first() =~= parts.drop_first().drop_last());
        assert(parts.drop_first().last() == parts.last());
        assert(parts.drop_last()[0] == parts[0]);
        assert(parts[0] + concat_all(parts.drop_first().drop_last()) + parts.last()
            =~= parts[0] + (concat_all(parts.drop_first().drop_last()) + parts.last()));
    }
}

/// Searching entries in parallel, each into its own buffer, and merging the
/// buffers in listing order leaves the sink exactly as writing each entry's
/// output to it in turn would.
pub proof fn lemma_parallel_matches_sequential(sink: Seq<u8>, outputs: Seq<Seq<u8>>)
    ensures
        sink + concat_all(outputs) == write_each(sink, outputs),
    decreases outputs.len(),
{
    if outputs.len() == 0 {
        assert(sink + Seq::<u8>::empty() =~= sink);
    } else {
        lemma_concat_first(outputs);
        lemma_parallel_matches_sequential(sink + outputs[0], outputs.drop_first());
        assert(sink + (outputs[0] + concat_all(outputs.drop_first()))
            =~= (sink + outputs[0]) + concat_all(outputs.drop_first()));
    }
}

} // verus!
