//! The drag-and-drop listener.
//!
//! The display layer reports three things: a drop, a hover and a cancelled
//! drag. A drop carries the dropped paths as a payload. Of those paths the
//! first one with the supported extension becomes the candidate and the rest
//! of the batch is ignored. A hover and a cancelled drag are received and
//! yield nothing.

use vstd::prelude::*;
use crate::candidate::{
    ends_with_supported_extension, has_supported_extension, CandidatePath, CandidateView,
    Provenance,
};
use crate::payload::{decode_path_list, decoded_paths};

verus! {

/// A notification of the display layer about a drag.
#[derive(Clone, Debug)]
pub enum DropNotification {
    /// Paths were dropped; the payload lists them.
    Drop(String),
    /// A drag hovers over the window.
    Hover,
    /// The drag left without a drop.
    Cancelled,
}

/// The mathematical content of a [`DropNotification`].
pub enum DropNotificationView {
    Drop(Seq<char>),
    Hover,
    Cancelled,
}

impl View for DropNotification {
    type V = DropNotificationView;

    open spec fn view(&self) -> DropNotificationView {
        match self {
            DropNotification::Drop(payload) => DropNotificationView::Drop(payload@),
            DropNotification::Hover => DropNotificationView::Hover,
            DropNotification::Cancelled => DropNotificationView::Cancelled,
        }
    }
}

impl DeepView for DropNotification {
    type V = DropNotificationView;

    open spec fn deep_view(&self) -> DropNotificationView {
        self@
    }
}

/// The first of `paths`, in list order, that ends with the supported
/// extension.
pub open spec fn first_supported(paths: Seq<Seq<char>>) -> Option<Seq<char>>
    decreases paths.len(),
{
    if paths.len() == 0 {
        None
    } else if ends_with_supported_extension(paths[0]) {
        Some(paths[0])
    } else {
        first_supported(paths.drop_first())
    }
}

/// The candidate that a batch of dropped paths yields.
pub open spec fn dropped_candidate(paths: Seq<Seq<char>>) -> Option<CandidateView> {
    match first_supported(paths) {
        Some(path) => Some(CandidateView { path, source: Provenance::DragDrop }),
        None => None,
    }
}

/// The candidate that a notification yields: that of the decoded batch for a
/// drop with a well-formed payload, and none otherwise.
pub open spec fn drop_candidate(notification: DropNotificationView) -> Option<CandidateView> {
    match notification {
        DropNotificationView::Drop(payload) => match decoded_paths(payload) {
            Some(paths) => dropped_candidate(paths),
            None => None,
        },
        DropNotificationView::Hover => None,
        DropNotificationView::Cancelled => None,
    }
}

/// Chooses the candidate among a batch of dropped paths.
pub fn select_dropped(paths: &Vec<String>) -> (found: Option<CandidatePath>)
    ensures
        found.deep_view() == dropped_candidate(paths.deep_view()),
{
    let ghost all = paths.deep_view();
    let mut i: usize = 0;
    assert(all.skip(0) == all);
    while i < paths.len()
        invariant
            i <= paths.len(),
            all == paths.deep_view(),
            first_supported(all) == first_supported(all.skip(i as int)),
        decreases paths.len() - i,
    {
        assert(all.skip(i as int)[0] == paths[i as int]@);
        if has_supported_extension(paths[i].as_str()) {
            return Some(CandidatePath::new(paths[i].clone(), Provenance::DragDrop));
        }
        assert(all.skip(i as int).drop_first() == all.skip(i + 1));
        i += 1;
    }
    None
}

/// Receives a notification of the display layer and yields its candidate. A
/// payload that cannot be decoded yields none.
pub fn on_drop_notification(notification: &DropNotification) -> (found: Option<CandidatePath>)
    ensures
        found.deep_view() == drop_candidate(notification@),
{
    match notification {
        DropNotification::Drop(payload) => match decode_path_list(payload.as_str()) {
            Some(paths) => select_dropped(&paths),
            None => None,
        },
        DropNotification::Hover => None,
        DropNotification::Cancelled => None,
    }
}

/// Of the dropped paths with the supported extension only the first one, in
/// list order, is chosen, however many follow it.
pub proof fn law_first_supported_path_is_chosen(paths: Seq<Seq<char>>, i: int)
    requires
        0 <= i < paths.len(),
        ends_with_supported_extension(paths[i]),
        forall|j: int| 0 <= j < i ==> !ends_with_supported_extension(#[trigger] paths[j]),
    ensures
        first_supported(paths) == Some(paths[i]),
        dropped_candidate(paths) == Some(
            CandidateView { path: paths[i], source: Provenance::DragDrop },
        ),
    decreases i,
{
    if i > 0 {
        let rest = paths.drop_first();
        assert(rest[i - 1] == paths[i]);
        assert forall|j: int| 0 <= j < i - 1 implies !ends_with_supported_extension(
            #[trigger] rest[j],
        ) by {
            assert(rest[j] == paths[j + 1]);
        }
        law_first_supported_path_is_chosen(rest, i - 1);
    }
}

/// A drop whose payload lists several paths with the supported extension
/// yields the first of them, in list order, and nothing else.
pub proof fn law_drop_yields_the_first_supported_path(
    payload: Seq<char>,
    paths: Seq<Seq<char>>,
    i: int,
)
    requires
        decoded_paths(payload) == Some(paths),
        0 <= i < paths.len(),
        ends_with_supported_extension(paths[i]),
        forall|j: int| 0 <= j < i ==> !ends_with_supported_extension(#[trigger] paths[j]),
    ensures
        drop_candidate(DropNotificationView::Drop(payload)) == Some(
            CandidateView { path: paths[i], source: Provenance::DragDrop },
        ),
{
    law_first_supported_path_is_chosen(paths, i);
}

/// A batch yields no candidate exactly when none of its paths has the
/// supported extension.
pub proof fn law_unsupported_batch_yields_nothing(paths: Seq<Seq<char>>)
    ensures
        first_supported(paths) is None <==> forall|i: int|
            0 <= i < paths.len() ==> !ends_with_supported_extension(#[trigger] paths[i]),
    decreases paths.len(),
{
    if paths.len() > 0 {
        let rest = paths.drop_first();
        law_unsupported_batch_yields_nothing(rest);
        if first_supported(paths) is None {
            assert forall|i: int| 0 <= i < paths.len() implies !ends_with_supported_extension(
                #[trigger] paths[i],
            ) by {
                if i > 0 {
                    assert(rest[i - 1] == paths[i]);
                }
            }
        } else if !ends_with_supported_extension(paths[0]) {
            let k = choose|k: int|
                0 <= k < rest.len() && ends_with_supported_extension(#[trigger] rest[k]);
            assert(rest[k] == paths[k + 1]);
        }
    }
}

} // verus!
