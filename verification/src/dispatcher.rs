//! The readiness-gated dispatcher.
//!
//! The dispatcher owns the two pieces of state that every source writes to:
//! the pending open request, of which there is at most one, and the readiness
//! of the display surface. A request that arrives before the surface is ready
//! is held, and a later one takes its place. Once the surface is ready each
//! request leaves as exactly one notification.
//!
//! ```text
//!   Idle ──request──▶ Pending ──surface ready──▶ Delivered ──▶ Idle
//!                      ▲   │
//!                      └───┘ request (the newer one replaces the held one)
//! ```
//!
//! `Delivered` is passed through within one operation: the operation returns
//! the notification and leaves the dispatcher in `Idle`.

use vstd::prelude::*;
use crate::candidate::{admissible, proper_path, CandidatePath, CandidateView};

verus! {

/// Whether the display surface can receive a notification.
#[derive(Clone, Copy, Debug, PartialEq, Eq, Structural)]
pub enum DisplaySurfaceState {
    NotReady,
    Ready,
}

/// The states of the dispatcher with respect to the current request.
#[derive(Clone, Copy, Debug, PartialEq, Eq, Structural)]
pub enum DispatchState {
    /// No request is held.
    Idle,
    /// A request is held until the display surface is ready.
    Pending,
    /// The notification for the current request has been handed out.
    Delivered,
}

/// An accepted request to open a file. A request is made only by admitting a
/// candidate, so the path of every request is a proper one.
#[derive(Debug)]
pub struct PendingOpenRequest {
    path: String,
    observed_at: u64,
}

/// The mathematical content of a [`PendingOpenRequest`].
pub struct RequestView {
    pub path: Seq<char>,
    pub observed_at: u64,
}

impl View for PendingOpenRequest {
    type V = RequestView;

    closed spec fn view(&self) -> RequestView {
        RequestView { path: self.path@, observed_at: self.observed_at }
    }
}

impl DeepView for PendingOpenRequest {
    type V = RequestView;

    open spec fn deep_view(&self) -> RequestView {
        self@
    }
}

impl Clone for PendingOpenRequest {
    fn clone(&self) -> (copy: PendingOpenRequest)
        ensures
            copy@ == self@,
    {
        proof {
            use_type_invariant(self);
        }
        PendingOpenRequest { path: self.path.clone(), observed_at: self.observed_at }
    }
}

/// The request that a candidate becomes when it is observed at `observed_at`,
/// given what a probe of the file system said about its path: a candidate
/// that the admission rule rejects becomes none.
pub open spec fn admitted_request(candidate: CandidateView, exists: bool, observed_at: u64) -> Option<
    RequestView,
> {
    if admissible(candidate.path, exists) {
        Some(RequestView { path: candidate.path, observed_at })
    } else {
        None
    }
}

impl PendingOpenRequest {
    /// The invariant of every request: its path is a proper one.
    #[verifier::type_invariant]
    pub open spec fn inv(self) -> bool {
        proper_path(self@.path)
    }

    /// Holds a candidate against the admission rule, given what a probe of
    /// the file system said about its path, and makes the request for it if
    /// it passes.
    pub fn from_candidate(candidate: CandidatePath, exists: bool, observed_at: u64) -> (request: Option<
        PendingOpenRequest,
    >)
        ensures
            request.deep_view() == admitted_request(candidate@, exists, observed_at),
    {
        if candidate.is_valid(exists) {
            Some(PendingOpenRequest { path: candidate.path, observed_at })
        } else {
            None
        }
    }

    /// The path to open.
    pub fn path(&self) -> (path: &String)
        ensures
            path@ == self@.path,
            proper_path(path@),
    {
        proof {
            use_type_invariant(self);
        }
        &self.path
    }

    /// When the request was observed, on the caller's clock.
    pub fn observed_at(&self) -> (observed_at: u64)
        ensures
            observed_at == self@.observed_at,
    {
        self.observed_at
    }
}

/// The signal sent to the display layer: a named event that carries a path.
#[derive(Clone, Debug)]
pub struct Notification {
    pub event: &'static str,
    pub payload: String,
}

/// The mathematical content of a [`Notification`].
pub struct NotificationView {
    pub event: Seq<char>,
    pub payload: Seq<char>,
}

impl View for Notification {
    type V = NotificationView;

    open spec fn view(&self) -> NotificationView {
        NotificationView { event: self.event@, payload: self.payload@ }
    }
}

impl DeepView for Notification {
    type V = NotificationView;

    open spec fn deep_view(&self) -> NotificationView {
        self@
    }
}

/// The name of the event that asks the display layer to open a file.
pub const OPEN_FILE_EVENT: &'static str = "open-pdf-file";

/// The notification that delivers `path`.
pub open spec fn notification_for(path: Seq<char>) -> NotificationView {
    NotificationView { event: OPEN_FILE_EVENT@, payload: path }
}

impl Notification {
    /// The notification that delivers `path`.
    pub fn for_path(path: String) -> (notification: Notification)
        ensures
            notification@ == notification_for(path@),
    {
        Notification { event: OPEN_FILE_EVENT, payload: path }
    }
}

/// What can happen to the dispatcher.
#[derive(Clone, Debug)]
pub enum DispatchEvent {
    /// An accepted request arrived.
    Request(PendingOpenRequest),
    /// The display surface reported that it is ready.
    SurfaceReady,
}

/// The mathematical content of a [`DispatchEvent`].
pub enum DispatchEventView {
    Request(RequestView),
    SurfaceReady,
}

impl View for DispatchEvent {
    type V = DispatchEventView;

    open spec fn view(&self) -> DispatchEventView {
        match self {
            DispatchEvent::Request(request) => DispatchEventView::Request(request@),
            DispatchEvent::SurfaceReady => DispatchEventView::SurfaceReady,
        }
    }
}

impl DeepView for DispatchEvent {
    type V = DispatchEventView;

    open spec fn deep_view(&self) -> DispatchEventView {
        self@
    }
}

/// The dispatcher as a mathematical state machine.
pub struct DispatcherView {
    pub surface: DisplaySurfaceState,
    pub state: DispatchState,
    pub request: Option<RequestView>,
}

impl DispatcherView {
    /// The dispatcher at start-up: nothing held, surface not ready.
    pub open spec fn initial() -> DispatcherView {
        DispatcherView {
            surface: DisplaySurfaceState::NotReady,
            state: DispatchState::Idle,
            request: None,
        }
    }

    /// What holds between two operations: a request is held exactly in
    /// `Pending`, nothing waits once the surface is ready, and `Delivered` has
    /// been left.
    pub open spec fn settled(self) -> bool {
        match self.state {
            DispatchState::Idle => self.request is None,
            DispatchState::Pending => self.request is Some && self.surface
                is NotReady,
            DispatchState::Delivered => false,
        }
    }

    /// `Idle` or `Pending` to `Pending`: the request is held, in place of any
    /// that was held before.
    pub open spec fn accept(self, request: RequestView) -> DispatcherView {
        DispatcherView { state: DispatchState::Pending, request: Some(request), ..self }
    }

    /// `Pending` to `Delivered`, with the one notification that carries the
    /// path of the held request.
    pub open spec fn deliver(self) -> (DispatcherView, NotificationView)
        recommends
            self.state is Pending,
            self.request is Some,
            self.surface is Ready,
    {
        (
            DispatcherView { state: DispatchState::Delivered, ..self },
            notification_for(self.request->0.path),
        )
    }

    /// `Delivered` to `Idle`: the delivered request is let go.
    pub open spec fn rearm(self) -> DispatcherView
        recommends
            self.state is Delivered,
    {
        DispatcherView { state: DispatchState::Idle, request: None, ..self }
    }

    /// Where a request is held and the surface is ready, the request passes
    /// through `Delivered` to `Idle` and its notification is sent. Otherwise
    /// nothing changes.
    pub open spec fn deliver_if_ready(self) -> (DispatcherView, Option<NotificationView>) {
        if self.state is Pending && self.surface is Ready {
            let (delivered, notification) = self.deliver();
            (delivered.rearm(), Some(notification))
        } else {
            (self, None)
        }
    }

    /// The arrival of an accepted request.
    pub open spec fn submit(self, request: RequestView) -> (
        DispatcherView,
        Option<NotificationView>,
    ) {
        self.accept(request).deliver_if_ready()
    }

    /// The readiness signal of the display surface.
    pub open spec fn mark_ready(self) -> (DispatcherView, Option<NotificationView>) {
        DispatcherView { surface: DisplaySurfaceState::Ready, ..self }.deliver_if_ready()
    }

    /// One event: the next state and the notification to send, if any.
    pub open spec fn step(self, event: DispatchEventView) -> (
        DispatcherView,
        Option<NotificationView>,
    ) {
        match event {
            DispatchEventView::Request(request) => self.submit(request),
            DispatchEventView::SurfaceReady => self.mark_ready(),
        }
    }

    /// A sequence of events in the order of their arrival: the state after the
    /// last one and the notifications sent, in order.
    pub open spec fn run(self, events: Seq<DispatchEventView>) -> (
        DispatcherView,
        Seq<NotificationView>,
    )
        decreases events.len(),
    {
        if events.len() == 0 {
            (self, Seq::empty())
        } else {
            let (before, sent) = self.run(events.drop_last());
            let (after, notification) = before.step(events.last());
            match notification {
                Some(n) => (after, sent.push(n)),
                None => (after, sent),
            }
        }
    }
}

/// The coordination core: the pending request and the readiness of the
/// display surface, reached only through the operations below.
#[derive(Debug)]
pub struct Dispatcher {
    surface: DisplaySurfaceState,
    pending: Option<PendingOpenRequest>,
}

impl View for Dispatcher {
    type V = DispatcherView;

    closed spec fn view(&self) -> DispatcherView {
        DispatcherView {
            surface: self.surface,
            state: if self.pending is Some {
                DispatchState::Pending
            } else {
                DispatchState::Idle
            },
            request: match self.pending {
                Some(request) => Some(request@),
                None => None,
            },
        }
    }
}

impl Dispatcher {
    /// The invariant of every dispatcher: its state is settled.
    #[verifier::type_invariant]
    pub open spec fn inv(self) -> bool {
        self@.settled()
    }

    /// A dispatcher that holds nothing and whose surface is not ready.
    pub fn new() -> (dispatcher: Dispatcher)
        ensures
            dispatcher@ == DispatcherView::initial(),
    {
        Dispatcher { surface: DisplaySurfaceState::NotReady, pending: None }
    }

    /// Takes an accepted request. Before the surface is ready the request is
    /// held, replacing any held before, and nothing is returned. Once the
    /// surface is ready the notification for the request is returned at once.
    pub fn submit(&mut self, request: PendingOpenRequest) -> (notification: Option<Notification>)
        ensures
            old(self)@.settled(),
            final(self)@.settled(),
            (final(self)@, notification.deep_view()) == old(self)@.submit(request@),
            notification is Some <==> old(self)@.surface is Ready,
            notification matches Some(n) ==> proper_path(n@.payload),
    {
        proof {
            use_type_invariant(&*self);
            use_type_invariant(&request);
        }
        match self.surface {
            DisplaySurfaceState::Ready => Some(Notification::for_path(request.path)),
            DisplaySurfaceState::NotReady => {
                self.pending = Some(request);
                None
            },
        }
    }

    /// Records that the display surface is ready and returns the notification
    /// for the held request, if there is one. A second call changes nothing
    /// and returns nothing.
    pub fn mark_ready(&mut self) -> (notification: Option<Notification>)
        ensures
            old(self)@.settled(),
            final(self)@.settled(),
            (final(self)@, notification.deep_view()) == old(self)@.mark_ready(),
            notification is Some <==> old(self)@.state is Pending,
            notification matches Some(n) ==> proper_path(n@.payload),
            final(self)@.surface is Ready,
    {
        proof {
            use_type_invariant(&*self);
        }
        let mut previous = Dispatcher { surface: DisplaySurfaceState::Ready, pending: None };
        std::mem::swap(self, &mut previous);
        match previous.pending {
            Some(request) => {
                proof {
                    use_type_invariant(&request);
                }
                Some(Notification::for_path(request.path))
            },
            None => None,
        }
    }

    /// Handles one event and returns the notification to send, if any.
    pub fn handle(&mut self, event: DispatchEvent) -> (notification: Option<Notification>)
        ensures
            old(self)@.settled(),
            final(self)@.settled(),
            (final(self)@, notification.deep_view()) == old(self)@.step(event@),
            notification matches Some(n) ==> proper_path(n@.payload),
    {
        match event {
            DispatchEvent::Request(request) => self.submit(request),
            DispatchEvent::SurfaceReady => self.mark_ready(),
        }
    }

    /// The state between operations: `Idle` or `Pending`, never `Delivered`.
    pub fn state(&self) -> (state: DispatchState)
        ensures
            self@.settled(),
            state == self@.state,
            state !is Delivered,
    {
        proof {
            use_type_invariant(self);
        }
        if self.pending.is_some() {
            DispatchState::Pending
        } else {
            DispatchState::Idle
        }
    }

    /// The readiness of the display surface as last recorded.
    pub fn surface(&self) -> (surface: DisplaySurfaceState)
        ensures
            surface == self@.surface,
    {
        self.surface
    }

    /// The held request, if any.
    pub fn pending(&self) -> (held: Option<&PendingOpenRequest>)
        ensures
            held.deep_view() == self@.request,
    {
        self.pending.as_ref()
    }
}

/// The events that a sequence of requests makes when nothing else happens
/// in between.
pub open spec fn arrivals(requests: Seq<RequestView>) -> Seq<DispatchEventView> {
    Seq::new(requests.len(), |i: int| DispatchEventView::Request(requests[i]))
}

/// The number of requests among `events`.
pub open spec fn request_count(events: Seq<DispatchEventView>) -> nat
    decreases events.len(),
{
    if events.len() == 0 {
        0
    } else {
        request_count(events.drop_last()) + if events.last() is Request {
            1nat
        } else {
            0nat
        }
    }
}

/// Every operation takes a settled dispatcher to a settled one, and every
/// notification names the event that opens a file.
pub proof fn law_steps_keep_the_dispatcher_settled(
    dispatcher: DispatcherView,
    event: DispatchEventView,
)
    requires
        dispatcher.settled(),
    ensures
        dispatcher.step(event).0.settled(),
        dispatcher.step(event).1 matches Some(n) ==> n.event == OPEN_FILE_EVENT@,
{
}

/// A settled dispatcher stays settled over any sequence of events.
pub proof fn law_runs_keep_the_dispatcher_settled(
    start: DispatcherView,
    events: Seq<DispatchEventView>,
)
    requires
        start.settled(),
    ensures
        start.run(events).0.settled(),
    decreases events.len(),
{
    if events.len() > 0 {
        law_runs_keep_the_dispatcher_settled(start, events.drop_last());
        law_steps_keep_the_dispatcher_settled(start.run(events.drop_last()).0, events.last());
    }
}

/// No notification is sent while the display surface is not ready: as long
/// as no readiness signal is among the events, however many requests arrive,
/// nothing is sent, and the last request to arrive is the one that is held.
pub proof fn law_silent_until_ready(start: DispatcherView, events: Seq<DispatchEventView>)
    requires
        start.settled(),
        start.surface is NotReady,
        forall|i: int| 0 <= i < events.len() ==> events[i] is Request,
    ensures
        start.run(events).1 == Seq::<NotificationView>::empty(),
        start.run(events).0.surface is NotReady,
        events.len() == 0 ==> start.run(events).0 == start,
        events.len() > 0 ==> start.run(events).0.state is Pending && start.run(events).0.request
            == Some(events.last()->Request_0),
    decreases events.len(),
{
    if events.len() > 0 {
        law_silent_until_ready(start, events.drop_last());
    }
}

/// A notification is sent only to a ready surface: whenever an operation
/// sends one, the surface is ready after it, and if it was not ready before,
/// the operation is the readiness signal itself.
pub proof fn law_notifications_need_a_ready_surface(
    dispatcher: DispatcherView,
    event: DispatchEventView,
)
    requires
        dispatcher.settled(),
        dispatcher.step(event).1 is Some,
    ensures
        dispatcher.step(event).0.surface is Ready,
        dispatcher.surface is NotReady ==> event is SurfaceReady,
{
}

/// However requests and readiness signals are interleaved, nothing is sent
/// by the events that come before the first readiness signal: every
/// notification of the whole sequence is sent at that signal or after it.
pub proof fn law_nothing_is_sent_before_readiness(
    start: DispatcherView,
    events: Seq<DispatchEventView>,
    k: int,
)
    requires
        start.settled(),
        start.surface is NotReady,
        0 <= k <= events.len(),
        forall|i: int| 0 <= i < k ==> events[i] is Request,
    ensures
        start.run(events.take(k)).1 == Seq::<NotificationView>::empty(),
        start.run(events).1 == start.run(events.take(k)).0.run(events.skip(k)).1,
{
    law_silent_until_ready(start, events.take(k));
    law_runs_compose(start, events.take(k), events.skip(k));
    assert(events.take(k) + events.skip(k) == events);
    assert(Seq::<NotificationView>::empty() + start.run(events.take(k)).0.run(events.skip(k)).1
        == start.run(events.take(k)).0.run(events.skip(k)).1);
}

/// Of the requests that arrive before the display surface is ready, exactly
/// the last one is delivered when readiness occurs, by exactly one
/// notification.
pub proof fn law_last_request_wins(start: DispatcherView, requests: Seq<RequestView>)
    requires
        start.settled(),
        start.surface is NotReady,
        requests.len() > 0,
    ensures
        start.run(arrivals(requests).push(DispatchEventView::SurfaceReady)).1 == seq![
            notification_for(requests.last().path),
        ],
        start.run(arrivals(requests).push(DispatchEventView::SurfaceReady)).0.state is Idle,
        start.run(arrivals(requests).push(DispatchEventView::SurfaceReady)).0.surface is Ready,
{
    let waiting = arrivals(requests);
    let events = waiting.push(DispatchEventView::SurfaceReady);
    law_silent_until_ready(start, waiting);
    assert(events.drop_last() == waiting);
    assert(events.last() == DispatchEventView::SurfaceReady);
    assert(waiting.last() == DispatchEventView::Request(requests.last()));
    assert(Seq::<NotificationView>::empty().push(notification_for(requests.last().path)) == seq![
        notification_for(requests.last().path),
    ]);
}

/// After a delivery the dispatcher is armed again: the next request is
/// delivered at once by exactly one further notification, and a repeated
/// readiness signal adds none.
pub proof fn law_rearmed_after_delivery(
    dispatcher: DispatcherView,
    event: DispatchEventView,
    next: RequestView,
)
    requires
        dispatcher.settled(),
        dispatcher.step(event).1 is Some,
    ensures
        ({
            let delivered = dispatcher.step(event).0;
            &&& delivered.state is Idle
            &&& delivered.submit(next) == (delivered, Some(notification_for(next.path)))
            &&& delivered.mark_ready() == (delivered, None::<NotificationView>)
            &&& delivered.run(
                seq![DispatchEventView::Request(next), DispatchEventView::SurfaceReady],
            ).1 == seq![notification_for(next.path)]
        }),
{
    let delivered = dispatcher.step(event).0;
    let events = seq![DispatchEventView::Request(next), DispatchEventView::SurfaceReady];
    let first = events.drop_last();
    assert(first.drop_last() == Seq::<DispatchEventView>::empty());
    assert(first.last() == DispatchEventView::Request(next));
    assert(delivered.run(first.drop_last()) == (delivered, Seq::<NotificationView>::empty()));
    assert(delivered.run(first).1 == seq![notification_for(next.path)]);
    assert(delivered.run(first).0 == delivered);
}

/// Readiness is never withdrawn: once the display surface is ready it stays
/// ready over any sequence of events.
pub proof fn law_readiness_is_never_withdrawn(
    start: DispatcherView,
    events: Seq<DispatchEventView>,
)
    requires
        start.surface is Ready,
    ensures
        start.run(events).0.surface is Ready,
    decreases events.len(),
{
    if events.len() > 0 {
        law_readiness_is_never_withdrawn(start, events.drop_last());
    }
}

/// The readiness of the display surface is recorded once: on a dispatcher
/// whose surface is ready a further readiness signal changes nothing and
/// sends nothing.
pub proof fn law_readiness_is_recorded_once(dispatcher: DispatcherView)
    requires
        dispatcher.settled(),
        dispatcher.surface is Ready,
    ensures
        dispatcher.mark_ready() == (dispatcher, None::<NotificationView>),
{
}

/// No request is delivered twice: over any sequence of events at most one
/// notification is sent for each request, the one held at the start included.
pub proof fn law_at_most_one_notification_per_request(
    start: DispatcherView,
    events: Seq<DispatchEventView>,
)
    requires
        start.settled(),
    ensures
        start.run(events).1.len() + (if start.run(events).0.state is Pending {
            1nat
        } else {
            0nat
        }) <= request_count(events) + (if start.state is Pending {
            1nat
        } else {
            0nat
        }),
    decreases events.len(),
{
    if events.len() > 0 {
        law_at_most_one_notification_per_request(start, events.drop_last());
        law_runs_keep_the_dispatcher_settled(start, events.drop_last());
    }
}

/// The notifications for the requests among `events`, in the order of their
/// arrival.
pub open spec fn announcements(events: Seq<DispatchEventView>) -> Seq<NotificationView>
    decreases events.len(),
{
    if events.len() == 0 {
        Seq::empty()
    } else {
        match events.last() {
            DispatchEventView::Request(request) => announcements(events.drop_last()).push(
                notification_for(request.path),
            ),
            DispatchEventView::SurfaceReady => announcements(events.drop_last()),
        }
    }
}

/// Once the display surface is ready no request is kept waiting: each request
/// is delivered by the operation that takes it, so that over any sequence of
/// events the notifications sent are exactly those of its requests, in the
/// order of arrival, and the dispatcher is left as it was.
pub proof fn law_ready_surface_delivers_in_order(
    start: DispatcherView,
    events: Seq<DispatchEventView>,
)
    requires
        start.settled(),
        start.surface is Ready,
    ensures
        start.run(events) == (start, announcements(events)),
    decreases events.len(),
{
    if events.len() > 0 {
        law_ready_surface_delivers_in_order(start, events.drop_last());
    }
}

/// Events take effect one after the other: a sequence of events does what
/// its first part does, followed by what the rest does from there.
pub proof fn law_runs_compose(
    start: DispatcherView,
    first: Seq<DispatchEventView>,
    second: Seq<DispatchEventView>,
)
    ensures
        start.run(first + second).0 == start.run(first).0.run(second).0,
        start.run(first + second).1 == start.run(first).1 + start.run(first).0.run(second).1,
    decreases second.len(),
{
    let middle = start.run(first).0;
    if second.len() == 0 {
        assert(first + second == first);
        assert(start.run(first).1 + Seq::<NotificationView>::empty() == start.run(first).1);
    } else {
        let all = first + second;
        assert(all.drop_last() == first + second.drop_last());
        assert(all.last() == second.last());
        law_runs_compose(start, first, second.drop_last());
        let before = middle.run(second.drop_last());
        if let Some(n) = before.0.step(second.last()).1 {
            assert((start.run(first).1 + before.1).push(n) == start.run(first).1 + before.1.push(
                n,
            ));
        }
    }
}

} // verus!
