use vstd::prelude::*;

use crate::config::{FINAL_PREFIX, TEMP_PREFIX};
use crate::text::starts_with;

verus! {

/// Whether a directory entry is hashed: it must be a regular file, and its
/// name must not start with the prefix of a finished checksum file nor with
/// that of the temporary file that is being written.
pub open spec fn spec_should_process(is_file: bool, name: Seq<char>) -> bool {
    &&& is_file
    &&& !FINAL_PREFIX@.is_prefix_of(name)
    &&& !TEMP_PREFIX@.is_prefix_of(name)
}

/// Decides whether the entry called `name` is hashed.
pub fn should_process(is_file: bool, name: &str) -> (r: bool)
    ensures
        r == spec_should_process(is_file, name@),
        r == (is_file && !FINAL_PREFIX@.is_prefix_of(name@) && !TEMP_PREFIX@.is_prefix_of(name@)),
{
    is_file && !starts_with(name, FINAL_PREFIX) && !starts_with(name, TEMP_PREFIX)
}

/// The name of the finished checksum file made at `timestamp`.
pub open spec fn spec_checksum_file_name(timestamp: Seq<char>) -> Seq<char> {
    FINAL_PREFIX@ + timestamp + ".txt"@
}

/// Builds the name of the finished checksum file: the final prefix, the
/// timestamp, and `.txt`.
pub fn checksum_file_name(timestamp: &str) -> (name: String)
    ensures
        name@ == spec_checksum_file_name(timestamp@),
        name@.len() == FINAL_PREFIX@.len() + timestamp@.len() + 4,
        name@.subrange(0, FINAL_PREFIX@.len() as int) == FINAL_PREFIX@,
        name@.subrange(FINAL_PREFIX@.len() as int, (FINAL_PREFIX@.len() + timestamp@.len()) as int) == timestamp@,
        name@.subrange((FINAL_PREFIX@.len() + timestamp@.len()) as int, name@.len() as int) == seq!['.', 't', 'x', 't'],
{
    proof {
        lemma_checksum_file_name_layout(timestamp@);
    }
    let mut name = String::from_str(FINAL_PREFIX);
    name.append(timestamp);
    name.append(".txt");
    name
}

/// The two prefixes, character by character.
pub proof fn lemma_prefixes()
    ensures
        FINAL_PREFIX@ == seq!['c', 'h', 'e', 'c', 'k', 's', 'u', 'm', 's', '_'],
        TEMP_PREFIX@ == seq!['.', 't', 'm', 'p', '-', 'c', 'h', 'e', 'c', 'k', 's', 'u', 'm', 's', '_'],
{
    reveal_strlit("checksums_");
    reveal_strlit(".tmp-checksums_");
    assert(FINAL_PREFIX@ =~= seq!['c', 'h', 'e', 'c', 'k', 's', 'u', 'm', 's', '_']);
    assert(TEMP_PREFIX@ =~= seq!['.', 't', 'm', 'p', '-', 'c', 'h', 'e', 'c', 'k', 's', 'u', 'm', 's', '_']);
}

/// An entry is hashed exactly when it is a regular file whose name starts
/// with neither `checksums_` nor `.tmp-checksums_`; any other regular file,
/// hidden files included, is hashed.
pub proof fn lemma_should_process_exactly(is_file: bool, name: Seq<char>)
    ensures
        spec_should_process(is_file, name) <==> (is_file
            && !seq!['c', 'h', 'e', 'c', 'k', 's', 'u', 'm', 's', '_'].is_prefix_of(name)
            && !seq!['.', 't', 'm', 'p', '-', 'c', 'h', 'e', 'c', 'k', 's', 'u', 'm', 's', '_'].is_prefix_of(name)),
{
    lemma_prefixes();
}

/// The checksum file's name is the final prefix, then the timestamp exactly
/// as given, then `.txt`.
pub proof fn lemma_checksum_file_name_layout(timestamp: Seq<char>)
    ensures
        ({
            let name = spec_checksum_file_name(timestamp);
            let p = FINAL_PREFIX@.len() as int;
            &&& name.len() == p + timestamp.len() + 4
            &&& name.subrange(0, p) == FINAL_PREFIX@
            &&& name.subrange(p, p + timestamp.len()) == timestamp
            &&& name.subrange(p + timestamp.len(), name.len() as int) == seq!['.', 't', 'x', 't']
        }),
{
    reveal_strlit(".txt");
    let name = spec_checksum_file_name(timestamp);
    let p = FINAL_PREFIX@.len() as int;
    assert(".txt"@ =~= seq!['.', 't', 'x', 't']);
    assert(name.subrange(0, p) =~= FINAL_PREFIX@);
    assert(name.subrange(p, p + timestamp.len()) =~= timestamp);
    assert(name.subrange(p + timestamp.len(), name.len() as int) =~= seq!['.', 't', 'x', 't']);
}

/// A finished checksum file is never itself hashed by a later run, whatever
/// its timestamp.
pub proof fn lemma_checksum_file_is_skipped(timestamp: Seq<char>, is_file: bool)
    ensures
        !spec_should_process(is_file, spec_checksum_file_name(timestamp)),
{
    let name = spec_checksum_file_name(timestamp);
    assert(name.subrange(0, FINAL_PREFIX@.len() as int) =~= FINAL_PREFIX@);
}

/// No file whose name starts with the temporary prefix is hashed, so the
/// checksum file under construction never lists itself.
pub proof fn lemma_temp_file_is_skipped(suffix: Seq<char>, is_file: bool)
    ensures
        !spec_should_process(is_file, TEMP_PREFIX@ + suffix),
{
    let name = TEMP_PREFIX@ + suffix;
    assert(name.subrange(0, TEMP_PREFIX@.len() as int) =~= TEMP_PREFIX@);
}

// ---------------------------------------------------------------------------
// Paths.
// ---------------------------------------------------------------------------

/// `Path::parent` of the path spelled by `path`, as text; `None` where the
/// path ends in a root or prefix, or is empty.
pub uninterp spec fn path_parent(path: Seq<char>) -> Option<Seq<char>>;

/// `Path::strip_prefix`: the path spelled by `file` with the leading
/// components that make up `base` removed, as text; `None` where `base` is
/// not a prefix of `file` component by component.
pub uninterp spec fn path_strip_prefix(file: Seq<char>, base: Seq<char>) -> Option<Seq<char>>;

/// `std::path::Path::parent` on a path given as text, with the parent turned
/// back into text. Its result is named by `path_parent`; nothing more is
/// stated of it.
#[verifier::external_body]
fn std_path_parent(path: &str) -> (parent: Option<String>)
    ensures
        match parent {
            Some(p) => path_parent(path@) == Some(p@),
            None => path_parent(path@) is None,
        },
{
    match std::path::Path::new(path).parent() {
        Some(p) => Some(p.to_string_lossy().into_owned()),
        None => None,
    }
}

/// `std::path::Path::strip_prefix` on paths given as text, with the rest
/// turned back into text. Its result is named by `path_strip_prefix`;
/// nothing more is stated of it.
#[verifier::external_body]
fn std_strip_prefix(file: &str, base: &str) -> (rest: Option<String>)
    ensures
        match rest {
            Some(r) => path_strip_prefix(file@, base@) == Some(r@),
            None => path_strip_prefix(file@, base@) is None,
        },
{
    match std::path::Path::new(file).strip_prefix(base) {
        Ok(r) => Some(r.to_string_lossy().into_owned()),
        Err(_) => None,
    }
}

/// The directory that receives the checksum file for `path`: the path
/// itself when it is a directory, its parent when it is a file (`None` if a
/// file path has no parent).
pub fn get_parent(is_file: bool, path: &str) -> (dir: Option<String>)
    ensures
        is_file ==> match dir {
            Some(d) => path_parent(path@) == Some(d@),
            None => path_parent(path@) is None,
        },
        !is_file ==> (dir matches Some(d) && d@ == path@),
{
    if is_file {
        std_path_parent(path)
    } else {
        Some(String::from_str(path))
    }
}

/// The path of `file` relative to the directory `base` that is being
/// checksummed, as it is written in the checksum line; `None` if `file` does
/// not lie under `base`.
pub fn relative_path(base: &str, file: &str) -> (rel: Option<String>)
    ensures
        match rel {
            Some(r) => path_strip_prefix(file@, base@) == Some(r@),
            None => path_strip_prefix(file@, base@) is None,
        },
{
    std_strip_prefix(file, base)
}

} // verus!
