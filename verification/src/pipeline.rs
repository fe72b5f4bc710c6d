//! The pipeline from the three sources to the dispatcher.
//!
//! Whatever a source yields is held against the admission rule before the
//! dispatcher sees it, so that only admitted paths ever become requests. The
//! signals are applied in the order in which the caller hands them over; the
//! caller keeps them apart, for instance by holding the pipeline behind one
//! lock.

use vstd::prelude::*;
use crate::bridge::{native_candidate, NativeBridge};
use crate::candidate::{
    admissible, admission_needs_probe, probe, proper_path, CandidatePath, CandidateView,
};
use crate::dispatcher::{
    admitted_request, DispatchEventView, Dispatcher, DispatcherView, Notification,
    NotificationView, PendingOpenRequest, RequestView,
};
use crate::drop_listener::{
    drop_candidate, on_drop_notification, DropNotification, DropNotificationView,
};
use crate::scanner::{launch_candidate, launch_scan_needs_probe, scan_launch_arguments_with};

verus! {

/// The pipeline as a mathematical value.
pub struct PipelineView {
    pub bridge: NativeBridge,
    pub dispatcher: DispatcherView,
}

impl PipelineView {
    /// The pipeline at start-up.
    pub open spec fn initial(bridge: NativeBridge) -> PipelineView {
        PipelineView { bridge, dispatcher: DispatcherView::initial() }
    }

    /// What a source yielded is offered to the dispatcher: an admitted
    /// candidate becomes a request observed at `observed_at`, anything else
    /// is dropped without a trace.
    pub open spec fn offer(
        self,
        candidate: Option<CandidateView>,
        exists: bool,
        observed_at: u64,
    ) -> (PipelineView, Option<NotificationView>) {
        match candidate {
            Some(c) => match admitted_request(c, exists, observed_at) {
                Some(request) => {
                    let (dispatcher, notification) = self.dispatcher.submit(request);
                    (PipelineView { dispatcher, ..self }, notification)
                },
                None => (self, None),
            },
            None => (self, None),
        }
    }

    /// The process was launched with `args`.
    pub open spec fn launched(self, args: Seq<Seq<char>>, first_exists: bool, observed_at: u64) -> (
        PipelineView,
        Option<NotificationView>,
    ) {
        self.offer(launch_candidate(args, first_exists), first_exists, observed_at)
    }

    /// The host asked the running process to open `payload`.
    pub open spec fn open_requested(self, payload: Seq<char>, exists: bool, observed_at: u64) -> (
        PipelineView,
        Option<NotificationView>,
    ) {
        self.offer(native_candidate(self.bridge, payload, exists), exists, observed_at)
    }

    /// The display layer reported a drag. The candidate of a drop carries the
    /// supported extension, so no probe of the file system bears on it.
    pub open spec fn dragged(self, notification: DropNotificationView, observed_at: u64) -> (
        PipelineView,
        Option<NotificationView>,
    ) {
        self.offer(drop_candidate(notification), false, observed_at)
    }

    /// The display surface reported that it is ready.
    pub open spec fn surface_ready(self) -> (PipelineView, Option<NotificationView>) {
        let (dispatcher, notification) = self.dispatcher.mark_ready();
        (PipelineView { dispatcher, ..self }, notification)
    }
}

/// The three sources, the admission rule and the dispatcher, put together.
#[derive(Debug)]
pub struct OpenPipeline {
    bridge: NativeBridge,
    dispatcher: Dispatcher,
}

impl View for OpenPipeline {
    type V = PipelineView;

    closed spec fn view(&self) -> PipelineView {
        PipelineView { bridge: self.bridge, dispatcher: self.dispatcher@ }
    }
}

impl OpenPipeline {
    /// A pipeline at start-up, with the bridge that the host allows.
    pub fn new(bridge: NativeBridge) -> (pipeline: OpenPipeline)
        ensures
            pipeline@ == PipelineView::initial(bridge),
    {
        OpenPipeline { bridge, dispatcher: Dispatcher::new() }
    }

    /// Offers what a source yielded, given what a probe of the file system
    /// said about its path, and returns the notification to send, if any.
    pub fn offer_with(
        &mut self,
        candidate: Option<CandidatePath>,
        exists: bool,
        observed_at: u64,
    ) -> (notification: Option<Notification>)
        ensures
            old(self)@.dispatcher.settled(),
            final(self)@.dispatcher.settled(),
            (final(self)@, notification.deep_view()) == old(self)@.offer(
                candidate.deep_view(),
                exists,
                observed_at,
            ),
            notification is Some ==> old(self)@.dispatcher.surface is Ready,
            notification matches Some(n) ==> proper_path(n@.payload),
    {
        proof {
            use_type_invariant(&self.dispatcher);
        }
        match candidate {
            Some(candidate) => match PendingOpenRequest::from_candidate(
                candidate,
                exists,
                observed_at,
            ) {
                Some(request) => self.dispatcher.submit(request),
                None => None,
            },
            None => None,
        }
    }

    /// Offers what a source yielded, probing the file system where the
    /// admission depends on it.
    pub fn offer(&mut self, candidate: Option<CandidatePath>, observed_at: u64) -> (notification:
        Option<Notification>)
        ensures
            old(self)@.dispatcher.settled(),
            final(self)@.dispatcher.settled(),
            (final(self)@, notification.deep_view()) == old(self)@.offer(
                candidate.deep_view(),
                true,
                observed_at,
            ) || (final(self)@, notification.deep_view()) == old(self)@.offer(
                candidate.deep_view(),
                false,
                observed_at,
            ),
            candidate matches Some(c) && !admission_needs_probe(c@.path) ==> (
                final(self)@,
                notification.deep_view(),
            ) == old(self)@.offer(candidate.deep_view(), false, observed_at),
            notification is Some ==> old(self)@.dispatcher.surface is Ready,
            notification matches Some(n) ==> proper_path(n@.payload),
    {
        let exists = match &candidate {
            Some(c) => probe(c.path.as_str()),
            None => false,
        };
        self.offer_with(candidate, exists, observed_at)
    }

    /// Takes the launch arguments of the process, given what a probe of the
    /// file system said about the token after the program path.
    pub fn launched_with(&mut self, args: &Vec<String>, first_exists: bool, observed_at: u64) -> (
        notification: Option<Notification>)
        ensures
            old(self)@.dispatcher.settled(),
            final(self)@.dispatcher.settled(),
            (final(self)@, notification.deep_view()) == old(self)@.launched(
                args.deep_view(),
                first_exists,
                observed_at,
            ),
            notification is Some ==> old(self)@.dispatcher.surface is Ready,
            notification matches Some(n) ==> proper_path(n@.payload),
    {
        let candidate = scan_launch_arguments_with(args, first_exists);
        self.offer_with(candidate, first_exists, observed_at)
    }

    /// Takes the launch arguments of the process, probing the file system
    /// where the outcome depends on it.
    pub fn launched(&mut self, args: &Vec<String>, observed_at: u64) -> (notification: Option<
        Notification,
    >)
        ensures
            old(self)@.dispatcher.settled(),
            final(self)@.dispatcher.settled(),
            (final(self)@, notification.deep_view()) == old(self)@.launched(
                args.deep_view(),
                true,
                observed_at,
            ) || (final(self)@, notification.deep_view()) == old(self)@.launched(
                args.deep_view(),
                false,
                observed_at,
            ),
            !launch_scan_needs_probe(args.deep_view()) ==> (final(self)@, notification.deep_view())
                == old(self)@.launched(args.deep_view(), false, observed_at),
            notification is Some ==> old(self)@.dispatcher.surface is Ready,
            notification matches Some(n) ==> proper_path(n@.payload),
    {
        let first_exists = if args.len() > 1 {
            assert(args.deep_view()[1] == args[1]@);
            probe(args[1].as_str())
        } else {
            false
        };
        self.launched_with(args, first_exists, observed_at)
    }

    /// Takes an open-document request of the host, given what a probe of the
    /// file system said about its payload.
    pub fn open_requested_with(&mut self, payload: &str, exists: bool, observed_at: u64) -> (
        notification: Option<Notification>)
        ensures
            old(self)@.dispatcher.settled(),
            final(self)@.dispatcher.settled(),
            (final(self)@, notification.deep_view()) == old(self)@.open_requested(
                payload@,
                exists,
                observed_at,
            ),
            notification is Some ==> old(self)@.dispatcher.surface is Ready,
            notification matches Some(n) ==> proper_path(n@.payload),
    {
        let candidate = self.bridge.open_request_with(payload, exists);
        self.offer_with(candidate, exists, observed_at)
    }

    /// Takes an open-document request of the host, probing the file system
    /// where the outcome depends on it.
    pub fn open_requested(&mut self, payload: &str, observed_at: u64) -> (notification: Option<
        Notification,
    >)
        ensures
            old(self)@.dispatcher.settled(),
            final(self)@.dispatcher.settled(),
            (final(self)@, notification.deep_view()) == old(self)@.open_requested(
                payload@,
                true,
                observed_at,
            ) || (final(self)@, notification.deep_view()) == old(self)@.open_requested(
                payload@,
                false,
                observed_at,
            ),
            !admission_needs_probe(payload@) ==> (final(self)@, notification.deep_view()) == old(
                self,
            )@.open_requested(payload@, false, observed_at),
            notification is Some ==> old(self)@.dispatcher.surface is Ready,
            notification matches Some(n) ==> proper_path(n@.payload),
    {
        let exists = probe(payload);
        self.open_requested_with(payload, exists, observed_at)
    }

    /// Takes a notification of the display layer about a drag.
    pub fn dragged(&mut self, notification: &DropNotification, observed_at: u64) -> (sent: Option<
        Notification,
    >)
        ensures
            old(self)@.dispatcher.settled(),
            final(self)@.dispatcher.settled(),
            (final(self)@, sent.deep_view()) == old(self)@.dragged(notification@, observed_at),
            !(notification is Drop) ==> final(self)@ == old(self)@ && sent is None,
            sent is Some ==> old(self)@.dispatcher.surface is Ready,
            sent matches Some(n) ==> proper_path(n@.payload),
    {
        let candidate = on_drop_notification(notification);
        self.offer_with(candidate, false, observed_at)
    }

    /// Takes the readiness signal of the display surface.
    pub fn surface_ready(&mut self) -> (notification: Option<Notification>)
        ensures
            old(self)@.dispatcher.settled(),
            final(self)@.dispatcher.settled(),
            (final(self)@, notification.deep_view()) == old(self)@.surface_ready(),
            notification matches Some(n) ==> proper_path(n@.payload),
            final(self)@.dispatcher.surface is Ready,
    {
        self.dispatcher.mark_ready()
    }

    /// The dispatcher of this pipeline.
    pub fn dispatcher(&self) -> (dispatcher: &Dispatcher)
        ensures
            dispatcher@ == self@.dispatcher,
    {
        &self.dispatcher
    }

    /// The bridge of this pipeline.
    pub fn bridge(&self) -> (bridge: NativeBridge)
        ensures
            bridge == self@.bridge,
    {
        self.bridge
    }
}

/// The command by which the display layer may ask for a path to be opened.
/// It is acknowledged for every path and does nothing yet.
pub fn open_file_path(_file_path: String) -> (outcome: Result<(), String>)
    ensures
        outcome is Ok,
{
    Ok(())
}

/// What the scanner and the bridge yield has passed the admission rule, with
/// the same answer of the file system, so the pipeline turns it into a
/// request.
pub proof fn law_sources_yield_admitted_paths(
    bridge: NativeBridge,
    args: Seq<Seq<char>>,
    payload: Seq<char>,
    exists: bool,
)
    ensures
        launch_candidate(args, exists) matches Some(c) ==> admissible(c.path, exists),
        native_candidate(bridge, payload, exists) matches Some(c) ==> admissible(c.path, exists),
{
}

/// To the dispatcher the offer of an admitted candidate is the arrival of a
/// request for its path, and the offer of any other candidate is no event at
/// all. So what holds of the dispatcher over sequences of requests holds of
/// the pipeline over sequences of admitted candidates.
pub proof fn law_offers_are_dispatcher_events(
    pipeline: PipelineView,
    candidate: CandidateView,
    exists: bool,
    observed_at: u64,
)
    ensures
        admissible(candidate.path, exists) ==> ({
            let arrival = DispatchEventView::Request(
                RequestView { path: candidate.path, observed_at },
            );
            pipeline.offer(Some(candidate), exists, observed_at) == (
                PipelineView { dispatcher: pipeline.dispatcher.step(arrival).0, ..pipeline },
                pipeline.dispatcher.step(arrival).1,
            )
        }),
        !admissible(candidate.path, exists) ==> pipeline.offer(
            Some(candidate),
            exists,
            observed_at,
        ) == (pipeline, None::<NotificationView>),
{
}

/// While the display surface is not ready no signal of any source makes the
/// pipeline send a notification.
pub proof fn law_sources_are_silent_until_ready(
    pipeline: PipelineView,
    args: Seq<Seq<char>>,
    payload: Seq<char>,
    notification: DropNotificationView,
    exists: bool,
    observed_at: u64,
)
    requires
        pipeline.dispatcher.settled(),
        pipeline.dispatcher.surface is NotReady,
    ensures
        pipeline.launched(args, exists, observed_at).1 is None,
        pipeline.open_requested(payload, exists, observed_at).1 is None,
        pipeline.dragged(notification, observed_at).1 is None,
        pipeline.launched(args, exists, observed_at).0.dispatcher.surface is NotReady,
        pipeline.open_requested(payload, exists, observed_at).0.dispatcher.surface is NotReady,
        pipeline.dragged(notification, observed_at).0.dispatcher.surface is NotReady,
{
}

/// No source has priority over another: what becomes of a candidate depends
/// on its path and on the order of arrival, never on where it came from.
pub proof fn law_sources_have_no_priority(
    pipeline: PipelineView,
    first: CandidateView,
    second: CandidateView,
    exists: bool,
    observed_at: u64,
)
    requires
        first.path == second.path,
    ensures
        pipeline.offer(Some(first), exists, observed_at) == pipeline.offer(
            Some(second),
            exists,
            observed_at,
        ),
{
}

/// A hover and a cancelled drag are received and change nothing.
pub proof fn law_hover_and_cancel_change_nothing(pipeline: PipelineView, observed_at: u64)
    ensures
        pipeline.dragged(DropNotificationView::Hover, observed_at) == (
            pipeline,
            None::<NotificationView>,
        ),
        pipeline.dragged(DropNotificationView::Cancelled, observed_at) == (
            pipeline,
            None::<NotificationView>,
        ),
{
}

} // verus!
