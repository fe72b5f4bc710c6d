//! The launch argument scanner.
//!
//! The first argument is the program path. Only the token right after it is
//! examined: it is the candidate if the admission rule accepts it, and nothing
//! that follows is ever considered.

use vstd::prelude::*;
use crate::candidate::{
    admissible, admission_needs_probe, ends_with_supported_extension, is_admissible,
    names_existing_entry, probe, starts_with_flag_marker, CandidatePath, CandidateView, Provenance,
};

verus! {

/// The candidate that a list of launch arguments yields, given what a probe of
/// the file system said about the token after the program path.
pub open spec fn launch_candidate(args: Seq<Seq<char>>, first_exists: bool) -> Option<
    CandidateView,
> {
    if args.len() > 1 && admissible(args[1], first_exists) {
        Some(CandidateView { path: args[1], source: Provenance::LaunchArgument })
    } else {
        None
    }
}

/// Whether the outcome of the scan depends on the file system.
pub open spec fn launch_scan_needs_probe(args: Seq<Seq<char>>) -> bool {
    args.len() > 1 && admission_needs_probe(args[1])
}

/// Scans the launch arguments, given what a probe of the file system said
/// about the token after the program path.
pub fn scan_launch_arguments_with(args: &Vec<String>, first_exists: bool) -> (found: Option<
    CandidatePath,
>)
    ensures
        found.deep_view() == launch_candidate(args.deep_view(), first_exists),
{
    if args.len() <= 1 {
        return None;
    }
    let token: &String = &args[1];
    assert(args.deep_view()[1] == token@);
    if is_admissible(token.as_str(), first_exists) {
        Some(CandidatePath::new(token.clone(), Provenance::LaunchArgument))
    } else {
        None
    }
}

/// Scans the launch arguments, probing the file system where the outcome
/// depends on it.
pub fn scan_launch_arguments(args: &Vec<String>) -> (found: Option<CandidatePath>)
    ensures
        found.deep_view() == launch_candidate(args.deep_view(), true) || found.deep_view()
            == launch_candidate(args.deep_view(), false),
        !launch_scan_needs_probe(args.deep_view()) ==> found.deep_view() == launch_candidate(
            args.deep_view(),
            false,
        ),
{
    if args.len() <= 1 {
        return None;
    }
    assert(args.deep_view()[1] == args[1]@);
    let first_exists = probe(args[1].as_str());
    scan_launch_arguments_with(args, first_exists)
}

/// An argument list in which every token after the program path is a flag
/// yields no candidate.
pub proof fn law_flags_alone_yield_nothing(args: Seq<Seq<char>>, first_exists: bool)
    requires
        forall|i: int| 1 <= i < args.len() ==> starts_with_flag_marker(#[trigger] args[i]),
    ensures
        launch_candidate(args, first_exists) is None,
{
}

/// When the token after the program path is no flag, and so is the first
/// token that is none, and it carries the supported extension or names an
/// existing entry, the scan yields exactly this token.
pub proof fn law_leading_path_is_the_candidate(args: Seq<Seq<char>>, first_exists: bool)
    requires
        args.len() > 1,
        !starts_with_flag_marker(args[1]),
        ends_with_supported_extension(args[1]) || names_existing_entry(args[1], first_exists),
    ensures
        launch_candidate(args, first_exists) == Some(
            CandidateView { path: args[1], source: Provenance::LaunchArgument },
        ),
{
}

/// Tokens after the examined one never change the outcome: two argument lists
/// that agree on the token after the program path yield the same candidate.
pub proof fn law_later_tokens_are_ignored(
    a: Seq<Seq<char>>,
    b: Seq<Seq<char>>,
    first_exists: bool,
)
    requires
        a.len() > 1,
        b.len() > 1,
        a[1] == b[1],
    ensures
        launch_candidate(a, first_exists) == launch_candidate(b, first_exists),
{
}

} // verus!
