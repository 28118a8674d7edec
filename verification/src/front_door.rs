//! The HTTP front door: routing, and the scrape as a sequence of steps.
//!
//! The front door never touches the network. [`Exporter::begin`] answers a
//! request with the first [`Step`] to take; for a scrape that is a probe,
//! whose outcome the caller hands to [`Exporter::advance`] to get the next
//! step, until the step is the response to send.

use crate::config::TargetView;
use crate::probe::{address_of, failure_of, probe_address, probe_failure, ProbeFailure};
use crate::registry::{exposition, targets_of, EncodingError, EntryView, TargetRegistry};
use crate::text::same_text;
use vstd::prelude::*;
use vstd::string::*;
use vstd::utf8::*;

verus! {

/// Status of a request that was served.
pub const STATUS_OK: u16 = 200;

/// Status of a request for a path the exporter does not serve.
pub const STATUS_NOT_FOUND: u16 = 404;

/// Status of a scrape whose exposition could not be encoded.
pub const STATUS_INTERNAL_ERROR: u16 = 500;

/// Host part of the listen address, colon included: the exporter listens
/// on all interfaces.
pub const LISTEN_HOST: &'static str = "0.0.0.0:";

/// The socket address to listen on for the port given on the command
/// line.
pub fn listen_address(port: &str) -> (address: String)
    ensures
        address@ == LISTEN_HOST@ + port@,
{
    LISTEN_HOST.to_owned().concat(port)
}

/// Path of the landing page.
pub const LANDING_PATH: &'static str = "/";

/// Path of the metrics endpoint.
pub const METRICS_PATH: &'static str = "/metrics";

/// Body of the landing page.
pub const LANDING_PAGE: &'static str =
    "<html>\n             <head><title>Marathon Exporter</title></head>\n             <body>\n             <h1>Marathon Exporter</h1>\n             <p><a href='9099'>Metrics</a></p>\n             </body>\n             </html>`";

/// The request method, as far as routing tells methods apart.
#[derive(Clone, Copy, Debug, PartialEq, Eq, Structural)]
pub enum Method {
    /// `GET`.
    Get,
    /// Any other method.
    Other,
}

/// Where a request goes.
#[derive(Clone, Copy, Debug, PartialEq, Eq, Structural)]
pub enum Route {
    /// The fixed landing page.
    Landing,
    /// A scrape: probe every target, then render.
    Metrics,
    /// Nothing is served here.
    NotFound,
}

/// The routing table: `GET /` is the landing page, `GET /metrics` a scrape,
/// anything else is not found.
pub open spec fn route_of(method: Method, path: Seq<char>) -> Route {
    if method == Method::Get && path == LANDING_PATH@ {
        Route::Landing
    } else if method == Method::Get && path == METRICS_PATH@ {
        Route::Metrics
    } else {
        Route::NotFound
    }
}

/// Routes a request by its method and path.
pub fn route(method: Method, path: &str) -> (route: Route)
    ensures
        route == route_of(method, path@),
{
    match method {
        Method::Get => {
            if same_text(path, LANDING_PATH) {
                Route::Landing
            } else if same_text(path, METRICS_PATH) {
                Route::Metrics
            } else {
                Route::NotFound
            }
        },
        Method::Other => Route::NotFound,
    }
}

/// An HTTP response: the status code and the body. The `Content-Length`
/// header is the length of the body.
#[derive(Debug)]
pub struct Response {
    /// Status code.
    pub status: u16,
    /// Body, possibly empty.
    pub body: Vec<u8>,
}

/// What a [`Response`] stands for in contracts.
pub ghost struct ResponseView {
    pub status: int,
    pub body: Seq<u8>,
}

impl View for Response {
    type V = ResponseView;

    open spec fn view(&self) -> ResponseView {
        ResponseView { status: self.status as int, body: self.body@ }
    }
}

impl Response {
    /// Value of the `Content-Length` header: the number of bytes in the
    /// body.
    pub fn content_length(&self) -> (length: usize)
        ensures
            length == self@.body.len(),
    {
        self.body.len()
    }
}

/// The response to `GET /`.
pub open spec fn landing_response() -> ResponseView {
    ResponseView { status: 200, body: encode_utf8(LANDING_PAGE@) }
}

/// The response to a request that is not routed anywhere.
pub open spec fn not_found_response() -> ResponseView {
    ResponseView { status: 404, body: Seq::empty() }
}

/// The response to a scrape that was rendered.
pub open spec fn metrics_response(entries: Seq<EntryView>) -> ResponseView {
    ResponseView { status: 200, body: encode_utf8(exposition(entries)) }
}

/// The response to a scrape whose exposition could not be encoded.
pub open spec fn fault_response() -> ResponseView {
    ResponseView { status: 500, body: Seq::empty() }
}

/// The response that carries the landing page.
pub fn respond_landing() -> (response: Response)
    ensures
        response@ == landing_response(),
{
    Response { status: STATUS_OK, body: LANDING_PAGE.as_bytes_vec() }
}

/// The response for a path that is not served.
pub fn respond_not_found() -> (response: Response)
    ensures
        response@ == not_found_response(),
{
    Response { status: STATUS_NOT_FOUND, body: Vec::new() }
}

/// The response for the outcome of rendering: the body with status 200,
/// or an empty body with status 500 when encoding failed.
pub fn respond_metrics(rendered: Result<Vec<u8>, EncodingError>) -> (response: Response)
    ensures
        match rendered {
            Ok(body) => response@ == (ResponseView { status: 200, body: body@ }),
            Err(_) => response@ == fault_response(),
        },
{
    match rendered {
        Ok(body) => Response { status: STATUS_OK, body },
        Err(_) => Response { status: STATUS_INTERNAL_ERROR, body: Vec::new() },
    }
}

/// What the caller does next for a request.
#[derive(Debug)]
pub enum Step {
    /// Try to connect to `address`, then report to [`Exporter::advance`]
    /// whether the connection was established.
    Probe {
        /// Position of the probed target in the registry.
        index: usize,
        /// Socket address to connect to.
        address: String,
    },
    /// Send this response; the request is finished.
    Respond(Response),
}

/// What a [`Step`] stands for in contracts.
pub ghost enum StepView {
    Probe { index: nat, address: Seq<char> },
    Respond(ResponseView),
}

impl View for Step {
    type V = StepView;

    open spec fn view(&self) -> StepView {
        match self {
            Step::Probe { index, address } => StepView::Probe {
                index: *index as nat,
                address: address@,
            },
            Step::Respond(response) => StepView::Respond(response@),
        }
    }
}

/// The step that probes the target at `index`.
pub open spec fn probe_step(entries: Seq<EntryView>, index: int) -> StepView {
    StepView::Probe { index: index as nat, address: address_of(entries[index].target) }
}

/// The step that ends a scrape of `entries`: its response.
pub open spec fn respond_step(entries: Seq<EntryView>) -> StepView {
    StepView::Respond(metrics_response(entries))
}

/// The entries once the first `count` targets have been probed with the
/// given outcomes: those entries show their outcome, the others are
/// untouched.
pub open spec fn probed(entries: Seq<EntryView>, outcomes: Seq<bool>, count: int) -> Seq<
    EntryView,
> {
    Seq::new(
        entries.len(),
        |i: int|
            if i < count {
                EntryView { target: entries[i].target, up: outcomes[i] }
            } else {
                entries[i]
            },
    )
}

/// The entries after a whole scrape with the given outcomes.
pub open spec fn scraped(entries: Seq<EntryView>, outcomes: Seq<bool>) -> Seq<EntryView> {
    probed(entries, outcomes, entries.len() as int)
}

/// The targets among the first `count` whose probe failed, in order.
pub open spec fn failures(entries: Seq<EntryView>, outcomes: Seq<bool>, count: int) -> Seq<
    TargetView,
>
    decreases count,
{
    if count <= 0 {
        Seq::empty()
    } else if outcomes[count - 1] {
        failures(entries, outcomes, count - 1)
    } else {
        failures(entries, outcomes, count - 1).push(entries[count - 1].target)
    }
}

/// The log records as the targets they name.
pub open spec fn named(records: Seq<ProbeFailure>) -> Seq<TargetView> {
    Seq::new(records.len(), |i: int| records[i]@)
}

/// The exporter: the registry behind the front door.
pub struct Exporter {
    registry: TargetRegistry,
}

impl View for Exporter {
    type V = Seq<EntryView>;

    closed spec fn view(&self) -> Seq<EntryView> {
        self.registry@
    }
}

impl Exporter {
    /// The registry is well formed.
    pub closed spec fn wf(&self) -> bool {
        self.registry.wf()
    }

    /// Puts a registry behind the front door.
    pub fn new(registry: TargetRegistry) -> (exporter: Exporter)
        requires
            registry.wf(),
        ensures
            exporter.wf(),
            exporter@ == registry@,
    {
        Exporter { registry }
    }

    /// The registry, to read.
    pub fn registry(&self) -> (registry: &TargetRegistry)
        ensures
            registry@ == self@,
            registry.wf() == self.wf(),
    {
        &self.registry
    }

    /// The step that probes the target at `index`.
    fn probe_at(&self, index: usize) -> (step: Step)
        requires
            index < self@.len(),
        ensures
            step@ == probe_step(self@, index as int),
    {
        let address = probe_address(self.registry.entries()[index].target());
        Step::Probe { index, address }
    }

    /// The step that ends a scrape: the response with the exposition of
    /// the registry as it stands.
    fn finish(&self) -> (step: Step)
        requires
            self.wf(),
        ensures
            step@ == respond_step(self@),
    {
        Step::Respond(respond_metrics(self.registry.render()))
    }

    /// The first step for a request.
    ///
    /// The landing page and the not-found response are sent at once. A
    /// scrape starts with the probe of the first target; with no target to
    /// probe its response, an empty body, is sent at once.
    pub fn begin(&self, method: Method, path: &str) -> (step: Step)
        requires
            self.wf(),
        ensures
            match route_of(method, path@) {
                Route::Landing => step@ == StepView::Respond(landing_response()),
                Route::NotFound => step@ == StepView::Respond(not_found_response()),
                Route::Metrics => if self@.len() > 0 {
                    step@ == probe_step(self@, 0)
                } else {
                    step@ == respond_step(self@)
                },
            },
    {
        match route(method, path) {
            Route::Landing => Step::Respond(respond_landing()),
            Route::NotFound => Step::Respond(respond_not_found()),
            Route::Metrics => if self.registry.len() > 0 {
                self.probe_at(0)
            } else {
                self.finish()
            },
        }
    }

    /// Records the outcome of the probe of the target at `index` and says
    /// what comes next: the probe of the following target, or after the
    /// last one the response of the scrape, with status 200 and the
    /// exposition of the registry. A target found down also yields the log
    /// record of its failure.
    pub fn advance(&mut self, index: usize, up: bool) -> (next: (Step, Option<ProbeFailure>))
        requires
            old(self).wf(),
            index < old(self)@.len(),
        ensures
            final(self).wf(),
            final(self)@ == old(self)@.update(
                index as int,
                EntryView { target: old(self)@[index as int].target, up },
            ),
            targets_of(final(self)@) == targets_of(old(self)@),
            index + 1 < old(self)@.len() ==> next.0@ == probe_step(old(self)@, index + 1),
            index + 1 == old(self)@.len() ==> next.0@ == respond_step(final(self)@),
            failure_of(old(self)@[index as int].target, up) == match next.1 {
                Some(record) => Some(record@),
                None => None,
            },
    {
        self.registry.set_status(index, up);
        let failure = probe_failure(self.registry.entries()[index].target(), up);
        let last = self.registry.len() - 1;
        let step = if index < last {
            self.probe_at(index + 1)
        } else {
            self.finish()
        };
        (step, failure)
    }

    /// A whole scrape, for a caller that has the outcome of every probe at
    /// hand: takes the steps of `GET /metrics` one after the other, with
    /// `outcomes[i]` as the outcome of the probe of target `i`. Returns the
    /// response, with status 200 and the exposition of the registry after
    /// the last probe, and the log records of the failed probes, in order.
    pub fn scrape(&mut self, outcomes: &Vec<bool>) -> (done: (Response, Vec<ProbeFailure>))
        requires
            old(self).wf(),
            outcomes@.len() == old(self)@.len(),
        ensures
            final(self).wf(),
            final(self)@ == scraped(old(self)@, outcomes@),
            targets_of(final(self)@) == targets_of(old(self)@),
            done.0@ == metrics_response(final(self)@),
            named(done.1@) == failures(old(self)@, outcomes@, outcomes@.len() as int),
    {
        let n = outcomes.len();
        let mut records: Vec<ProbeFailure> = Vec::new();
        assert(route_of(Method::Get, METRICS_PATH@) == Route::Metrics) by {
            reveal_strlit("/");
            reveal_strlit("/metrics");
            assert(LANDING_PATH@.len() != METRICS_PATH@.len());
        }
        let mut step = self.begin(Method::Get, METRICS_PATH);
        let mut i: usize = 0;
        assert(self@ =~= probed(old(self)@, outcomes@, 0));
        assert(named(records@) =~= failures(old(self)@, outcomes@, 0));
        loop
            invariant
                self.wf(),
                n == outcomes@.len(),
                n == old(self)@.len(),
                i <= n,
                self@ == probed(old(self)@, outcomes@, i as int),
                i < n ==> step@ == probe_step(self@, i as int),
                i == n ==> step@ == respond_step(self@),
                named(records@) == failures(old(self)@, outcomes@, i as int),
            decreases n - i,
        {
            match step {
                Step::Respond(response) => {
                    assert(self@ =~= scraped(old(self)@, outcomes@));
                    assert(targets_of(self@) =~= targets_of(old(self)@));
                    return (response, records);
                },
                Step::Probe { index, address: _ } => {
                    let ghost before = self@;
                    let (next, failure) = self.advance(index, outcomes[index]);
                    if let Some(record) = failure {
                        records.push(record);
                    }
                    step = next;
                    i += 1;
                    proof {
                        assert(self@ =~= probed(old(self)@, outcomes@, i as int));
                        if i < n {
                            assert(before[i as int] == self@[i as int]);
                        }
                        assert(named(records@) =~= failures(old(self)@, outcomes@, i as int));
                    }
                },
            }
        }
    }
}

/// After a scrape every entry shows the outcome of its probe, whatever it
/// showed before: entries over the same targets end up the same.
pub proof fn lemma_scrape_overwrites(a: Seq<EntryView>, b: Seq<EntryView>, outcomes: Seq<bool>)
    requires
        targets_of(a) == targets_of(b),
    ensures
        scraped(a, outcomes) == scraped(b, outcomes),
{
    assert(a.len() == targets_of(a).len());
    assert(b.len() == targets_of(b).len());
    assert forall|i: int| 0 <= i < a.len() implies a[i].target == b[i].target by {
        assert(targets_of(a)[i] == a[i].target);
        assert(targets_of(b)[i] == b[i].target);
    }
    assert(scraped(a, outcomes) =~= scraped(b, outcomes));
}

/// A scrape leaves the targets and their order as they were.
pub proof fn lemma_scrape_keeps_targets(entries: Seq<EntryView>, outcomes: Seq<bool>)
    ensures
        targets_of(scraped(entries, outcomes)) == targets_of(entries),
{
    assert(targets_of(scraped(entries, outcomes)) =~= targets_of(entries));
}

/// Scraping again with the same outcomes changes nothing: the entries, the
/// response and the log records of the second scrape are those of the
/// first.
pub proof fn lemma_scrape_is_idempotent(entries: Seq<EntryView>, outcomes: Seq<bool>)
    ensures
        scraped(scraped(entries, outcomes), outcomes) == scraped(entries, outcomes),
        metrics_response(scraped(scraped(entries, outcomes), outcomes)) == metrics_response(
            scraped(entries, outcomes),
        ),
        forall|count: int|
            0 <= count <= entries.len() ==> #[trigger] failures(
                scraped(entries, outcomes),
                outcomes,
                count,
            ) == failures(entries, outcomes, count),
{
    let once = scraped(entries, outcomes);
    lemma_scrape_keeps_targets(entries, outcomes);
    lemma_scrape_overwrites(once, entries, outcomes);
    assert forall|count: int| 0 <= count <= entries.len() implies #[trigger] failures(
        once,
        outcomes,
        count,
    ) == failures(entries, outcomes, count) by {
        lemma_failures_follow_targets(once, entries, outcomes, count);
    }
}

/// The log records of a scrape depend on the targets and the outcomes
/// only.
pub proof fn lemma_failures_follow_targets(
    a: Seq<EntryView>,
    b: Seq<EntryView>,
    outcomes: Seq<bool>,
    count: int,
)
    requires
        targets_of(a) == targets_of(b),
        0 <= count <= a.len(),
    ensures
        failures(a, outcomes, count) == failures(b, outcomes, count),
    decreases count,
{
    if count > 0 {
        lemma_failures_follow_targets(a, b, outcomes, count - 1);
        assert(a.len() == targets_of(a).len());
        assert(b.len() == targets_of(b).len());
        assert(targets_of(a)[count - 1] == a[count - 1].target);
        assert(targets_of(b)[count - 1] == b[count - 1].target);
    }
}

} // verus!
