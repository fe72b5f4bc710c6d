//! Candidate paths and the rule that admits them.
//!
//! All three sources judge a path by the same rule, so that a file is treated
//! alike however the request to open it arrived.

use vstd::prelude::*;
use vstd::string::*;

verus! {

/// The source that proposed a candidate path.
#[derive(Clone, Copy, Debug, PartialEq, Eq, Structural)]
pub enum Provenance {
    /// Found among the arguments the process was launched with.
    LaunchArgument,
    /// Received from the operating system while the process was running.
    NativeBridge,
    /// Dropped onto the window.
    DragDrop,
}

/// A path proposed by one of the sources, not yet accepted by the dispatcher.
#[derive(Clone, Debug)]
pub struct CandidatePath {
    pub path: String,
    pub source: Provenance,
}

/// The mathematical content of a [`CandidatePath`].
pub struct CandidateView {
    pub path: Seq<char>,
    pub source: Provenance,
}

impl View for CandidatePath {
    type V = CandidateView;

    open spec fn view(&self) -> CandidateView {
        CandidateView { path: self.path@, source: self.source }
    }
}

impl DeepView for CandidatePath {
    type V = CandidateView;

    open spec fn deep_view(&self) -> CandidateView {
        self@
    }
}

/// The character that marks a command-line flag.
pub open spec fn flag_marker() -> char {
    '-'
}

/// The one extension that the viewer opens, dot included. The comparison is
/// exact: upper-case spellings are not recognised.
pub open spec fn supported_extension() -> Seq<char> {
    seq!['.', 'p', 'd', 'f']
}

/// `text` begins with the flag marker.
pub open spec fn starts_with_flag_marker(text: Seq<char>) -> bool {
    text.len() > 0 && text[0] == flag_marker()
}

/// The last characters of `text` are exactly `suffix`.
pub open spec fn ends_with(text: Seq<char>, suffix: Seq<char>) -> bool {
    text.len() >= suffix.len() && text.subrange(text.len() - suffix.len(), text.len() as int)
        == suffix
}

/// `text` ends with the supported extension.
pub open spec fn ends_with_supported_extension(text: Seq<char>) -> bool {
    ends_with(text, supported_extension())
}

/// `text` names a file system entry, given what a probe of the file system
/// said about it. The empty text names nothing.
pub open spec fn names_existing_entry(text: Seq<char>, exists: bool) -> bool {
    text.len() > 0 && exists
}

/// The admission rule: a path is admitted when it is not a flag and either
/// carries the supported extension or names an existing entry. Every admitted
/// path is non-empty.
pub open spec fn admissible(text: Seq<char>, exists: bool) -> bool {
    !starts_with_flag_marker(text) && (ends_with_supported_extension(text) || names_existing_entry(
        text,
        exists,
    ))
}

/// What every admitted path is, whatever the file system holds: not empty and
/// not a flag.
pub open spec fn proper_path(text: Seq<char>) -> bool {
    text.len() > 0 && !starts_with_flag_marker(text)
}

/// Whether the admission of `text` depends on the file system: it does for a
/// non-empty text that is no flag and lacks the supported extension.
pub open spec fn admission_needs_probe(text: Seq<char>) -> bool {
    text.len() > 0 && !starts_with_flag_marker(text) && !ends_with_supported_extension(text)
}

/// Tells whether `token` begins with the flag marker.
pub fn is_flag_token(token: &str) -> (flag: bool)
    ensures
        flag == starts_with_flag_marker(token@),
{
    let n: usize = token.unicode_len();
    n > 0 && token.get_char(0) == '-'
}

/// Tells whether `path` ends with the supported extension.
pub fn has_supported_extension(path: &str) -> (found: bool)
    ensures
        found == ends_with_supported_extension(path@),
{
    let n: usize = path.unicode_len();
    if n < 4 {
        return false;
    }
    let found = path.get_char(n - 4) == '.' && path.get_char(n - 3) == 'p' && path.get_char(n - 2)
        == 'd' && path.get_char(n - 1) == 'f';
    proof {
        let tail = path@.subrange(n - 4, n as int);
        if found {
            assert(tail =~= supported_extension());
        } else {
            assert(tail[0] == path@[n - 4]);
            assert(tail[1] == path@[n - 3]);
            assert(tail[2] == path@[n - 2]);
            assert(tail[3] == path@[n - 1]);
        }
    }
    found
}

/// Applies the admission rule to `path`, given what a probe of the file system
/// said about it.
pub fn is_admissible(path: &str, exists: bool) -> (admitted: bool)
    ensures
        admitted == admissible(path@, exists),
{
    if is_flag_token(path) {
        return false;
    }
    if has_supported_extension(path) {
        return true;
    }
    exists && path.unicode_len() > 0
}

/// Tells whether the admission of `path` depends on the file system.
pub fn needs_probe(path: &str) -> (needed: bool)
    ensures
        needed == admission_needs_probe(path@),
{
    path.unicode_len() > 0 && !is_flag_token(path) && !has_supported_extension(path)
}

/// Asks the file system whether `path` names an entry, through
/// `std::path::Path::exists`. The answer belongs to the moment of the call, so
/// nothing is promised about it.
#[verifier::external_body]
pub(crate) fn path_exists(path: &str) -> (exists: bool) {
    std::path::Path::new(path).exists()
}

/// Probes the file system for `path` if its admission depends on the answer
/// and reports `false` without a probe otherwise. Whatever the file system
/// says, the report can stand for the probe in the admission rule.
pub fn probe(path: &str) -> (exists: bool)
    ensures
        !admission_needs_probe(path@) ==> !exists,
{
    if needs_probe(path) {
        path_exists(path)
    } else {
        false
    }
}

impl CandidatePath {
    /// A candidate for `path`, proposed by `source`.
    pub fn new(path: String, source: Provenance) -> (candidate: CandidatePath)
        ensures
            candidate@ == (CandidateView { path: path@, source }),
    {
        CandidatePath { path, source }
    }

    /// Applies the admission rule to this candidate, given what a probe of the
    /// file system said about its path.
    pub fn is_valid(&self, exists: bool) -> (valid: bool)
        ensures
            valid == admissible(self@.path, exists),
    {
        is_admissible(self.path.as_str(), exists)
    }
}

/// A path with the supported extension is admitted unless it is a flag,
/// whatever the file system holds.
pub proof fn law_extension_needs_no_probe(text: Seq<char>, exists: bool)
    requires
        ends_with_supported_extension(text),
    ensures
        admissible(text, exists) == !starts_with_flag_marker(text),
        !admission_needs_probe(text),
{
}

/// Where the admission of a path does not depend on the file system, the
/// answer of a probe does not change it.
pub proof fn law_probe_matters_only_where_needed(text: Seq<char>, exists: bool)
    requires
        !admission_needs_probe(text),
    ensures
        admissible(text, exists) == admissible(text, false),
{
}

/// No admitted path is empty, and none is a flag.
pub proof fn law_admitted_paths_are_proper(text: Seq<char>, exists: bool)
    requires
        admissible(text, exists),
    ensures
        proper_path(text),
{
}

} // verus!
