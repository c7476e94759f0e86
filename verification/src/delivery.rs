//! The relay of one serialized trap to a list of destinations: which requests
//! are to be made, and what is to be reported once each has been answered or
//! has failed.
//!
//! Nothing here talks to a network. The caller sends each planned request and
//! hands back what happened, in the order of the destinations; a destination
//! that fails never stands in the way of another.

use vstd::prelude::*;

verus! {

/// The content type under which the body of a request is sent.
pub const CONTENT_TYPE: &'static str = "application/json";

/// For how many seconds the answer to one request is waited for. A request
/// that is not answered in that time counts as unreachable.
pub const REQUEST_TIMEOUT_SECONDS: u64 = 30;

/// The lowest status code that counts as a delivery.
pub const SUCCESS_FIRST: u16 = 200;

/// The highest status code that counts as a delivery.
pub const SUCCESS_LAST: u16 = 299;

/// One request to be made: the body is to be posted to the destination.
#[derive(Debug, PartialEq, Eq)]
pub struct DeliveryRequest {
    pub destination: String,
    pub body: String,
}

/// A request as plain sequences of characters.
pub struct DeliveryRequestView {
    pub destination: Seq<char>,
    pub body: Seq<char>,
}

impl View for DeliveryRequest {
    type V = DeliveryRequestView;

    open spec fn view(&self) -> DeliveryRequestView {
        DeliveryRequestView { destination: self.destination@, body: self.body@ }
    }
}

impl DeepView for DeliveryRequest {
    type V = DeliveryRequestView;

    open spec fn deep_view(&self) -> DeliveryRequestView {
        self@
    }
}

impl Clone for DeliveryRequest {
    fn clone(&self) -> (r: Self)
        ensures
            r@ == self@,
    {
        DeliveryRequest { destination: self.destination.clone(), body: self.body.clone() }
    }
}

/// What became of one request.
#[derive(Debug, PartialEq, Eq)]
pub enum DeliveryEvent {
    /// The destination answered with this status code.
    Answered(u16),
    /// No answer came: the connection, the name lookup, the handshake or the
    /// wait for the answer failed, for the reason held here.
    Unreachable(String),
}

/// What became of one request, as plain values.
pub enum DeliveryEventView {
    Answered(u16),
    Unreachable(Seq<char>),
}

impl View for DeliveryEvent {
    type V = DeliveryEventView;

    open spec fn view(&self) -> DeliveryEventView {
        match self {
            DeliveryEvent::Answered(status) => DeliveryEventView::Answered(*status),
            DeliveryEvent::Unreachable(cause) => DeliveryEventView::Unreachable(cause@),
        }
    }
}

impl DeepView for DeliveryEvent {
    type V = DeliveryEventView;

    open spec fn deep_view(&self) -> DeliveryEventView {
        self@
    }
}

impl Clone for DeliveryEvent {
    fn clone(&self) -> (r: Self)
        ensures
            r@ == self@,
    {
        match self {
            DeliveryEvent::Answered(status) => DeliveryEvent::Answered(*status),
            DeliveryEvent::Unreachable(cause) => DeliveryEvent::Unreachable(cause.clone()),
        }
    }
}

/// Why a delivery failed.
#[derive(Debug, PartialEq, Eq)]
pub enum DeliveryFailure {
    /// The destination answered with this status code, which is no success.
    Status(u16),
    /// No answer came, for the reason held here.
    Transport(String),
}

/// Why a delivery failed, as plain values.
pub enum DeliveryFailureView {
    Status(u16),
    Transport(Seq<char>),
}

impl View for DeliveryFailure {
    type V = DeliveryFailureView;

    open spec fn view(&self) -> DeliveryFailureView {
        match self {
            DeliveryFailure::Status(status) => DeliveryFailureView::Status(*status),
            DeliveryFailure::Transport(cause) => DeliveryFailureView::Transport(cause@),
        }
    }
}

impl DeepView for DeliveryFailure {
    type V = DeliveryFailureView;

    open spec fn deep_view(&self) -> DeliveryFailureView {
        self@
    }
}

impl Clone for DeliveryFailure {
    fn clone(&self) -> (r: Self)
        ensures
            r@ == self@,
    {
        match self {
            DeliveryFailure::Status(status) => DeliveryFailure::Status(*status),
            DeliveryFailure::Transport(cause) => DeliveryFailure::Transport(cause.clone()),
        }
    }
}

/// What is reported of one destination: `failure` is `None` where the trap
/// was delivered.
#[derive(Debug, PartialEq, Eq)]
pub struct DeliveryReport {
    pub destination: String,
    pub failure: Option<DeliveryFailure>,
}

/// A report as plain values.
pub struct DeliveryReportView {
    pub destination: Seq<char>,
    pub failure: Option<DeliveryFailureView>,
}

impl View for DeliveryReport {
    type V = DeliveryReportView;

    open spec fn view(&self) -> DeliveryReportView {
        DeliveryReportView {
            destination: self.destination@,
            failure: self.failure.deep_view(),
        }
    }
}

impl DeepView for DeliveryReport {
    type V = DeliveryReportView;

    open spec fn deep_view(&self) -> DeliveryReportView {
        self@
    }
}

impl Clone for DeliveryReport {
    fn clone(&self) -> (r: Self)
        ensures
            r@ == self@,
    {
        DeliveryReport {
            destination: self.destination.clone(),
            failure: match &self.failure {
                Some(failure) => Some(failure.clone()),
                None => None,
            },
        }
    }
}

/// What is reported of a whole relay: one report for each destination, in the
/// order of the destinations.
#[derive(Debug, PartialEq, Eq)]
pub struct DeliveryOutcome {
    pub reports: Vec<DeliveryReport>,
}

impl View for DeliveryOutcome {
    type V = Seq<DeliveryReportView>;

    open spec fn view(&self) -> Seq<DeliveryReportView> {
        self.reports.deep_view()
    }
}

impl Clone for DeliveryOutcome {
    fn clone(&self) -> (r: Self)
        ensures
            r@ == self@,
    {
        let mut reports: Vec<DeliveryReport> = Vec::new();
        let mut at: usize = 0;
        while at < self.reports.len()
            invariant
                at <= self.reports.len(),
                reports.deep_view() == self.reports.deep_view().take(at as int),
            decreases self.reports.len() - at,
        {
            let report = self.reports[at].clone();
            let ghost earlier = reports.deep_view();
            reports.push(report);
            assert(reports.deep_view() =~= earlier.push(self.reports[at as int]@));
            at = at + 1;
        }
        assert(self.reports.deep_view().take(at as int) =~= self.reports.deep_view());
        DeliveryOutcome { reports }
    }
}

/// Whether a status code counts as a delivery: the codes from 200 to 299 do.
pub open spec fn success_status(status: u16) -> bool {
    SUCCESS_FIRST <= status <= SUCCESS_LAST
}

/// Whether an event is a delivery: an answer with a status of success.
pub open spec fn delivered(event: DeliveryEventView) -> bool {
    event matches DeliveryEventView::Answered(status) && success_status(status)
}

/// The failure that an event amounts to, `None` where it is a delivery.
pub open spec fn failure_of(event: DeliveryEventView) -> Option<DeliveryFailureView> {
    match event {
        DeliveryEventView::Answered(status) => if success_status(status) {
            None
        } else {
            Some(DeliveryFailureView::Status(status))
        },
        DeliveryEventView::Unreachable(cause) => Some(DeliveryFailureView::Transport(cause)),
    }
}

/// The report on a destination whose request ended in `event`.
pub open spec fn report_of(destination: Seq<char>, event: DeliveryEventView) -> DeliveryReportView {
    DeliveryReportView { destination, failure: failure_of(event) }
}

/// The requests of a relay: one for each destination, in their order, each
/// with the same body.
pub open spec fn requests_of(body: Seq<char>, destinations: Seq<Seq<char>>) -> Seq<
    DeliveryRequestView,
> {
    Seq::new(
        destinations.len(),
        |i: int| DeliveryRequestView { destination: destinations[i], body },
    )
}

/// The reports of a relay whose requests ended in `events`, the event at each
/// position being that of the destination at the same position.
pub open spec fn reports_of(destinations: Seq<Seq<char>>, events: Seq<DeliveryEventView>) -> Seq<
    DeliveryReportView,
> {
    Seq::new(destinations.len(), |i: int| report_of(destinations[i], events[i]))
}

/// Whether every report is one of delivery.
pub open spec fn all_delivered(reports: Seq<DeliveryReportView>) -> bool {
    forall|i: int| 0 <= i < reports.len() ==> (#[trigger] reports[i]).failure is None
}

/// The reports of failure among `reports`, in their order.
pub open spec fn failures_of(reports: Seq<DeliveryReportView>) -> Seq<DeliveryReportView> {
    reports.filter(|report: DeliveryReportView| report.failure is Some)
}

/// For any list of destinations and any event for each of them: there is one
/// request for each destination, in their order, to that destination and with
/// the one body; there is one report for each destination, in their order,
/// which names it; a report is one of failure exactly where the event was no
/// answer or an answer with a status outside 200 to 299, and then holds that
/// status or that cause; and the relay as a whole has delivered exactly where
/// every event was an answer with a status from 200 to 299.
pub proof fn lemma_relay_reports_each_destination(
    body: Seq<char>,
    destinations: Seq<Seq<char>>,
    events: Seq<DeliveryEventView>,
)
    requires
        events.len() == destinations.len(),
    ensures
        requests_of(body, destinations).len() == destinations.len(),
        reports_of(destinations, events).len() == destinations.len(),
        forall|i: int|
            0 <= i < destinations.len() ==> {
                &&& (#[trigger] requests_of(body, destinations)[i]).destination == destinations[i]
                &&& requests_of(body, destinations)[i].body == body
            },
        forall|i: int|
            0 <= i < destinations.len() ==> {
                &&& (#[trigger] reports_of(destinations, events)[i]).destination == destinations[i]
                &&& reports_of(destinations, events)[i].failure is None <==> delivered(events[i])
                &&& match events[i] {
                    DeliveryEventView::Answered(status) => success_status(status) || reports_of(
                        destinations,
                        events,
                    )[i].failure == Some(DeliveryFailureView::Status(status)),
                    DeliveryEventView::Unreachable(cause) => reports_of(
                        destinations,
                        events,
                    )[i].failure == Some(DeliveryFailureView::Transport(cause)),
                }
            },
        all_delivered(reports_of(destinations, events)) <==> forall|i: int|
            0 <= i < events.len() ==> delivered(#[trigger] events[i]),
{
    let reports = reports_of(destinations, events);
    if all_delivered(reports) {
        assert forall|i: int| 0 <= i < events.len() implies delivered(#[trigger] events[i]) by {
            assert(reports[i].failure is None);
        }
    }
    if forall|i: int| 0 <= i < events.len() ==> delivered(#[trigger] events[i]) {
        assert forall|i: int| 0 <= i < reports.len() implies (#[trigger] reports[i]).failure
            is None by {
            assert(delivered(events[i]));
        }
    }
}

/// Whether a status code counts as a delivery.
pub fn is_success(status: u16) -> (r: bool)
    ensures
        r == success_status(status),
{
    SUCCESS_FIRST <= status && status <= SUCCESS_LAST
}

/// The requests to be made for one serialized trap: one for each destination,
/// in their order, each with a copy of the body.
pub fn plan_requests(body: &str, destinations: &[String]) -> (r: Vec<DeliveryRequest>)
    ensures
        r.len() == destinations.len(),
        r.deep_view() == requests_of(body@, destinations.deep_view()),
{
    let mut requests: Vec<DeliveryRequest> = Vec::new();
    let mut at: usize = 0;
    while at < destinations.len()
        invariant
            at <= destinations.len(),
            requests.len() == at,
            forall|i: int|
                0 <= i < at ==> (#[trigger] requests@[i])@ == (DeliveryRequestView {
                    destination: destinations@[i]@,
                    body: body@,
                }),
        decreases destinations.len() - at,
    {
        requests.push(
            DeliveryRequest { destination: destinations[at].clone(), body: body.to_owned() },
        );
        at = at + 1;
    }
    requests
}

impl DeliveryReport {
    /// The report on a destination whose request ended in `event`.
    pub fn new(destination: &str, event: &DeliveryEvent) -> (r: DeliveryReport)
        ensures
            r@ == report_of(destination@, event@),
    {
        let failure = match event {
            DeliveryEvent::Answered(status) => if is_success(*status) {
                None
            } else {
                Some(DeliveryFailure::Status(*status))
            },
            DeliveryEvent::Unreachable(cause) => Some(DeliveryFailure::Transport(cause.clone())),
        };
        DeliveryReport { destination: destination.to_owned(), failure }
    }

    /// Whether the trap reached this destination.
    pub fn is_delivered(&self) -> (r: bool)
        ensures
            r == (self@.failure is None),
    {
        self.failure.is_none()
    }
}

impl DeliveryOutcome {
    /// The outcome of a relay of which nothing is known yet.
    pub fn new() -> (r: DeliveryOutcome)
        ensures
            r.reports.len() == 0,
            r@ == Seq::<DeliveryReportView>::empty(),
    {
        DeliveryOutcome { reports: Vec::new() }
    }

    /// Adds the report on one more destination, whose request ended in
    /// `event`. The reports made before stay as they are.
    pub fn record(&mut self, destination: &str, event: &DeliveryEvent)
        ensures
            final(self).reports.len() == old(self).reports.len() + 1,
            final(self)@ == old(self)@.push(report_of(destination@, event@)),
    {
        let report = DeliveryReport::new(destination, event);
        self.reports.push(report);
    }

    /// Whether the trap reached every destination reported on.
    pub fn all_delivered(&self) -> (r: bool)
        ensures
            r == all_delivered(self@),
    {
        let mut at: usize = 0;
        while at < self.reports.len()
            invariant
                at <= self.reports.len(),
                forall|i: int| 0 <= i < at ==> (#[trigger] self@[i]).failure is None,
            decreases self.reports.len() - at,
        {
            if !self.reports[at].is_delivered() {
                assert(self@[at as int].failure is Some);
                return false;
            }
            at = at + 1;
        }
        true
    }

    /// The reports of failure, in the order of the destinations.
    pub fn failures(&self) -> (r: Vec<DeliveryReport>)
        ensures
            r.deep_view() == failures_of(self@),
    {
        let mut failed: Vec<DeliveryReport> = Vec::new();
        let mut at: usize = 0;
        let ghost is_failure = |report: DeliveryReportView| report.failure is Some;
        assert(self@.take(0).filter(is_failure) =~= Seq::<DeliveryReportView>::empty());
        while at < self.reports.len()
            invariant
                at <= self.reports.len(),
                is_failure == |report: DeliveryReportView| report.failure is Some,
                failed.deep_view() == self@.take(at as int).filter(is_failure),
            decreases self.reports.len() - at,
        {
            proof {
                assert(self@.take(at + 1).drop_last() =~= self@.take(at as int));
                reveal(Seq::filter);
            }
            if !self.reports[at].is_delivered() {
                failed.push(self.reports[at].clone());
            }
            at = at + 1;
        }
        assert(self@.take(at as int) =~= self@);
        failed
    }
}

/// The outcome of a relay whose requests ended in `events`, the event at each
/// position being that of the destination at the same position.
pub fn collect(destinations: &[String], events: &[DeliveryEvent]) -> (r: DeliveryOutcome)
    requires
        events.len() == destinations.len(),
    ensures
        r.reports.len() == destinations.len(),
        r@ == reports_of(destinations.deep_view(), events.deep_view()),
{
    let mut outcome = DeliveryOutcome::new();
    let mut at: usize = 0;
    while at < destinations.len()
        invariant
            at <= destinations.len(),
            events.len() == destinations.len(),
            outcome.reports.len() == at,
            outcome@ == reports_of(destinations.deep_view(), events.deep_view()).take(at as int),
        decreases destinations.len() - at,
    {
        outcome.record(destinations[at].as_str(), &events[at]);
        at = at + 1;
    }
    outcome
}

} // verus!
