//! The path of one request through the balancer: name the caller, count it
//! against its quota, pick the backend, and say what is sent where.

use crate::client::{caller_of, identify_caller, ClientKey};
use crate::events::{LogEvent, LogRecord};
use crate::limiter::{
    count_of, lemma_counts_are_independent, next_count, occurrences, recorded, replayed, within,
    RateLimiter,
};
use crate::pool::{
    lemma_full_cycles_restore_order, lemma_rotations_compose, rotated, selection, ServerPool,
};
use vstd::prelude::*;

verus! {

/// The status of the answer to a caller whose quota is used up.
pub const TOO_MANY_REQUESTS: u16 = 429;

/// The status of the answer to a caller whose backend took too long.
pub const GATEWAY_TIMEOUT: u16 = 504;

/// The seconds a backend has to answer a forwarded request.
pub const FORWARD_TIMEOUT_SECS: u64 = 30;

/// The body of the answer to a caller whose quota is used up.
pub open spec fn rejection_body() -> Seq<char> {
    "Too Many Requests\n"@
}

/// The body of the answer to a caller whose backend took too long.
pub open spec fn timeout_body() -> Seq<char> {
    "Gateway Timeout\n"@
}

/// The address a request is forwarded to: the backend's address followed by
/// the path and query of the request as they came in, if it has any.
pub open spec fn forward_target(backend: Seq<char>, path_and_query: Option<String>) -> Seq<char> {
    match path_and_query {
        Some(tail) => backend + tail@,
        None => backend,
    }
}

/// Whether `hyper::Uri` (the `Uri` of the `http` crate, which `hyper` hands
/// on) takes `text` for a URI. A request can only be sent to a target that it
/// takes.
pub uninterp spec fn uri_accepted(text: Seq<char>) -> bool;

/// Asks `hyper::Uri`'s `FromStr` implementation, which `str::parse` calls,
/// whether `text` parses as a URI. Trusted: the answer is a function of the
/// text alone, and the parser returns an error for every text it does not
/// take; nothing else is claimed of it.
#[verifier::external_body]
fn accepts_uri(text: &str) -> (accepted: bool)
    ensures
        accepted == uri_accepted(text@),
{
    text.parse::<hyper::Uri>().is_ok()
}

/// What the balancer reads of a request. The method and the body are carried
/// through untouched, whatever their types.
#[derive(Debug, PartialEq, Eq)]
pub struct InboundRequest<M, B> {
    /// The peer address of the connection, where it is known.
    pub peer: Option<ClientKey>,
    pub method: M,
    /// The path and query of the request target, where it has them.
    pub path_and_query: Option<String>,
    pub body: B,
}

/// The request to send to a backend.
#[derive(Debug, PartialEq, Eq)]
pub struct ForwardRequest<M, B> {
    /// The backend that was selected.
    pub backend: String,
    /// The full address of the request at that backend.
    pub uri: String,
    pub method: M,
    pub body: B,
    /// The seconds the backend has to answer.
    pub timeout_secs: u64,
}

/// An answer made here, in place of a backend's: a status and a plain-text
/// body.
#[derive(Debug, PartialEq, Eq)]
pub struct LocalAnswer {
    pub status: u16,
    pub body: String,
}

/// What came of sending a request to its backend.
#[derive(Debug, PartialEq, Eq)]
pub enum BackendOutcome<R, E> {
    /// The backend answered.
    Answered(R),
    /// The connection could not be made, or broke.
    Failed(E),
    /// The backend did not answer in time.
    TimedOut,
}

/// What the caller gets for a forwarded request.
#[derive(Debug, PartialEq, Eq)]
pub enum ClientReply<R, E> {
    /// The backend's answer as it came: status, headers and body.
    Verbatim(R),
    /// The failure of the backend, handed on as a failure of this request.
    Failure(E),
    /// An answer made here.
    Local(LocalAnswer),
}

/// What to do with a request.
#[derive(Debug, PartialEq, Eq)]
pub enum ProxyAction<M, B> {
    /// Answer at once; no backend is contacted.
    Reject(LocalAnswer),
    /// Send this request and hand the backend's answer back as it comes.
    Forward(ForwardRequest<M, B>),
    /// The selected backend's address and the request's path do not make a
    /// URI: there is nothing that can be sent.
    Unroutable { backend: String, uri: String },
}

/// A [`ProxyAction`] with its texts as sequences of characters.
pub enum ProxyPlan<M, B> {
    Reject { status: u16, body: Seq<char> },
    Forward { backend: Seq<char>, uri: Seq<char>, method: M, body: B, timeout_secs: u64 },
    Unroutable { backend: Seq<char>, uri: Seq<char> },
}

impl<M, B> View for ProxyAction<M, B> {
    type V = ProxyPlan<M, B>;

    open spec fn view(&self) -> ProxyPlan<M, B> {
        match self {
            ProxyAction::Reject(rejection) => ProxyPlan::Reject {
                status: rejection.status,
                body: rejection.body@,
            },
            ProxyAction::Forward(forward) => ProxyPlan::Forward {
                backend: forward.backend@,
                uri: forward.uri@,
                method: forward.method,
                body: forward.body,
                timeout_secs: forward.timeout_secs,
            },
            ProxyAction::Unroutable { backend, uri } => ProxyPlan::Unroutable {
                backend: backend@,
                uri: uri@,
            },
        }
    }
}

/// The refusal of a request over quota: status 429 and a plain-text body.
pub open spec fn refusal<M, B>() -> ProxyPlan<M, B> {
    ProxyPlan::Reject { status: TOO_MANY_REQUESTS, body: rejection_body() }
}

/// What becomes of `request` once `backend` is selected for it, given whether
/// the target it makes is a URI: it is forwarded with its method, path, query
/// and body as they came in and a bound on the backend's time to answer, or it
/// cannot be sent.
pub open spec fn routed<M, B>(request: InboundRequest<M, B>, backend: Seq<char>, accepted: bool)
    -> ProxyPlan<M, B> {
    let uri = forward_target(backend, request.path_and_query);
    if accepted {
        ProxyPlan::Forward {
            backend,
            uri,
            method: request.method,
            body: request.body,
            timeout_secs: FORWARD_TIMEOUT_SECS,
        }
    } else {
        ProxyPlan::Unroutable { backend, uri }
    }
}

/// What becomes of `request` when it meets the table `table` of counters under
/// `threshold` and a pool in the order `order`.
pub open spec fn planned<M, B>(
    table: Map<ClientKey, u64>,
    threshold: u64,
    order: Seq<Seq<char>>,
    request: InboundRequest<M, B>,
) -> ProxyPlan<M, B> {
    if within(next_count(table, caller_of(request.peer)), threshold) {
        let target = forward_target(order[0], request.path_and_query);
        routed(request, order[0], uri_accepted(target))
    } else {
        refusal()
    }
}

/// The order of the pool after a request from `peer`: a served request moves
/// the pool on by one, a refused one leaves it alone.
pub open spec fn pool_after(
    table: Map<ClientKey, u64>,
    threshold: u64,
    order: Seq<Seq<char>>,
    peer: Option<ClientKey>,
) -> Seq<Seq<char>> {
    if within(next_count(table, caller_of(peer)), threshold) {
        rotated(order, 1)
    } else {
        order
    }
}

/// The callers of requests that came from `peers`.
pub open spec fn callers_of(peers: Seq<Option<ClientKey>>) -> Seq<ClientKey> {
    peers.map_values(|peer: Option<ClientKey>| caller_of(peer))
}

/// How many of the requests that came from `peers`, in that order, are served.
pub open spec fn served(table: Map<ClientKey, u64>, threshold: u64, peers: Seq<Option<ClientKey>>)
    -> nat
    decreases peers.len(),
{
    if peers.len() == 0 {
        0
    } else {
        let earlier = peers.drop_last();
        let seen = replayed(table, callers_of(earlier));
        if within(next_count(seen, caller_of(peers.last())), threshold) {
            served(table, threshold, earlier) + 1
        } else {
            served(table, threshold, earlier)
        }
    }
}

/// The order of the pool after the requests that came from `peers`.
pub open spec fn pool_after_all(
    table: Map<ClientKey, u64>,
    threshold: u64,
    order: Seq<Seq<char>>,
    peers: Seq<Option<ClientKey>>,
) -> Seq<Seq<char>>
    decreases peers.len(),
{
    if peers.len() == 0 {
        order
    } else {
        let earlier = peers.drop_last();
        pool_after(
            replayed(table, callers_of(earlier)),
            threshold,
            pool_after_all(table, threshold, order, earlier),
            peers.last(),
        )
    }
}

/// The lines to log for a request of `caller` that ended in `plan`: one
/// warning for a refusal; for an accepted request its caller and its backend.
pub open spec fn records_of<M, B>(caller: ClientKey, plan: ProxyPlan<M, B>) -> Seq<LogRecord> {
    match plan {
        ProxyPlan::Reject { .. } => seq![LogRecord::RateLimited { caller }],
        ProxyPlan::Forward { backend, .. } => seq![
            LogRecord::RequestReceived { caller },
            LogRecord::RequestSent { backend },
        ],
        ProxyPlan::Unroutable { backend, .. } => seq![
            LogRecord::RequestReceived { caller },
            LogRecord::RequestSent { backend },
        ],
    }
}

impl LocalAnswer {
    /// The answer to a caller whose quota is used up.
    pub fn too_many_requests() -> (answer: LocalAnswer)
        ensures
            answer.status == TOO_MANY_REQUESTS,
            answer.body@ == rejection_body(),
    {
        LocalAnswer { status: TOO_MANY_REQUESTS, body: "Too Many Requests\n".to_owned() }
    }

    /// The answer to a caller whose backend took too long.
    pub fn gateway_timeout() -> (answer: LocalAnswer)
        ensures
            answer.status == GATEWAY_TIMEOUT,
            answer.body@ == timeout_body(),
    {
        LocalAnswer { status: GATEWAY_TIMEOUT, body: "Gateway Timeout\n".to_owned() }
    }
}

/// Builds the request that goes to `backend` for `request`: same method, same
/// body, the backend's address with the request's path and query behind it,
/// and the bound on the backend's time to answer.
pub fn plan_forward<M, B>(request: InboundRequest<M, B>, backend: String) -> (forward:
    ForwardRequest<M, B>)
    ensures
        forward.backend@ == backend@,
        forward.uri@ == forward_target(backend@, request.path_and_query),
        forward.method == request.method,
        forward.body == request.body,
        forward.timeout_secs == FORWARD_TIMEOUT_SECS,
{
    let mut uri = backend.clone();
    match &request.path_and_query {
        Some(tail) => {
            uri.append(tail.as_str());
        },
        None => {},
    }
    ForwardRequest {
        backend,
        uri,
        method: request.method,
        body: request.body,
        timeout_secs: FORWARD_TIMEOUT_SECS,
    }
}

/// Decides on a built request, given whether its target is a URI: it is
/// sent as it is, or reported as impossible to send.
pub fn admit_target<M, B>(forward: ForwardRequest<M, B>, accepted: bool) -> (action: ProxyAction<
    M,
    B,
>)
    ensures
        accepted ==> action@ == (ProxyPlan::Forward {
            backend: forward.backend@,
            uri: forward.uri@,
            method: forward.method,
            body: forward.body,
            timeout_secs: forward.timeout_secs,
        }),
        !accepted ==> action@ == (ProxyPlan::<M, B>::Unroutable {
            backend: forward.backend@,
            uri: forward.uri@,
        }),
{
    if accepted {
        ProxyAction::Forward(forward)
    } else {
        ProxyAction::Unroutable { backend: forward.backend, uri: forward.uri }
    }
}

/// Prepares `request` for `backend`: builds the outgoing request and checks
/// that its target is a URI.
pub fn forward_to<M, B>(request: InboundRequest<M, B>, backend: String) -> (action: ProxyAction<
    M,
    B,
>)
    ensures
        action@ == routed(
            request,
            backend@,
            uri_accepted(forward_target(backend@, request.path_and_query)),
        ),
{
    let forward = plan_forward(request, backend);
    let accepted = accepts_uri(forward.uri.as_str());
    admit_target(forward, accepted)
}

/// Decides what the caller gets once the backend has been tried. An answer
/// goes back as it came. A failure goes back as a failure, and a backend that
/// took too long is answered for with status 504; no other backend is tried.
pub fn relay<R, E>(outcome: BackendOutcome<R, E>) -> (reply: ClientReply<R, E>)
    ensures
        match outcome {
            BackendOutcome::Answered(response) => reply == ClientReply::<R, E>::Verbatim(response),
            BackendOutcome::Failed(error) => reply == ClientReply::<R, E>::Failure(error),
            BackendOutcome::TimedOut => reply matches ClientReply::Local(answer) && answer.status
                == GATEWAY_TIMEOUT && answer.body@ == timeout_body(),
        },
{
    match outcome {
        BackendOutcome::Answered(response) => ClientReply::Verbatim(response),
        BackendOutcome::Failed(error) => ClientReply::Failure(error),
        BackendOutcome::TimedOut => ClientReply::Local(LocalAnswer::gateway_timeout()),
    }
}

/// The outcome of one request.
#[derive(Debug, PartialEq, Eq)]
pub struct ProxyDecision<M, B> {
    /// The identity under which the request was counted.
    pub caller: ClientKey,
    /// The caller's count, this request included.
    pub count: u64,
    pub action: ProxyAction<M, B>,
}

impl<M, B> ProxyDecision<M, B> {
    /// The lines to log for this request.
    pub fn events(&self) -> (events: Vec<LogEvent>)
        ensures
            events@.map_values(|e: LogEvent| e@) == records_of(self.caller, self.action@),
    {
        let mut events: Vec<LogEvent> = Vec::new();
        match &self.action {
            ProxyAction::Reject(_) => {
                events.push(LogEvent::RateLimited { caller: self.caller });
            },
            ProxyAction::Forward(forward) => {
                events.push(LogEvent::RequestReceived { caller: self.caller });
                events.push(LogEvent::RequestSent { backend: forward.backend.clone() });
            },
            ProxyAction::Unroutable { backend, .. } => {
                events.push(LogEvent::RequestReceived { caller: self.caller });
                events.push(LogEvent::RequestSent { backend: backend.clone() });
            },
        }
        assert(events@.map_values(|e: LogEvent| e@) =~= records_of(self.caller, self.action@));
        events
    }
}

/// Handles one request. The caller is named by its peer address, or by the
/// loopback address without one, and counted. Over its quota it is refused
/// with status 429 and the pool is left alone. Otherwise the pool hands out
/// its next backend and the request is prepared for it.
pub fn proxy_request<M, B>(
    req: InboundRequest<M, B>,
    backend_servers: &mut ServerPool,
    request_limits: &mut RateLimiter,
) -> (decision: ProxyDecision<M, B>)
    requires
        old(backend_servers).wf(),
    ensures
        decision.caller == caller_of(req.peer),
        decision.count == next_count(old(request_limits)@, decision.caller),
        final(request_limits)@ == recorded(old(request_limits)@, decision.caller),
        final(request_limits).threshold() == old(request_limits).threshold(),
        final(backend_servers).wf(),
        final(backend_servers)@ == pool_after(
            old(request_limits)@,
            old(request_limits).threshold(),
            old(backend_servers)@,
            req.peer,
        ),
        decision.action@ == planned(
            old(request_limits)@,
            old(request_limits).threshold(),
            old(backend_servers)@,
            req,
        ),
{
    let caller = identify_caller(req.peer);
    let (count, allowed) = request_limits.record_and_check(caller);
    let action = if allowed {
        let backend = backend_servers.select_next();
        forward_to(req, backend)
    } else {
        ProxyAction::Reject(LocalAnswer::too_many_requests())
    };
    ProxyDecision { caller, count, action }
}

/// The quota at the door: after any traffic, a request is answered with the
/// 429 refusal exactly when its caller's count, this request included, is
/// over the threshold; what other callers sent does not matter. (The
/// threshold is below the largest 64-bit number, where counters stop.)
pub proof fn lemma_refused_exactly_over_quota<M, B>(
    table: Map<ClientKey, u64>,
    threshold: u64,
    order: Seq<Seq<char>>,
    peers: Seq<Option<ClientKey>>,
    request: InboundRequest<M, B>,
)
    requires
        threshold < u64::MAX,
    ensures
        planned(replayed(table, callers_of(peers)), threshold, order, request) == refusal::<M, B>()
            <==> count_of(table, caller_of(request.peer)) + occurrences(
            callers_of(peers),
            caller_of(request.peer),
        ) + 1 > threshold,
{
    lemma_counts_are_independent(table, callers_of(peers), caller_of(request.peer));
}

/// Served requests go round the pool and refused ones do not disturb them:
/// after any traffic the pool has moved on by the number of requests served,
/// so the next request served goes to the backend that follows, in the
/// configured order, the one that the last request served went to.
pub proof fn lemma_served_requests_go_round(
    table: Map<ClientKey, u64>,
    threshold: u64,
    order: Seq<Seq<char>>,
    peers: Seq<Option<ClientKey>>,
)
    requires
        order.len() > 0,
    ensures
        pool_after_all(table, threshold, order, peers) == rotated(
            order,
            served(table, threshold, peers),
        ),
        pool_after_all(table, threshold, order, peers)[0] == selection(
            order,
            served(table, threshold, peers),
        ),
    decreases peers.len(),
{
    if peers.len() == 0 {
        lemma_full_cycles_restore_order(order, 0);
    } else {
        let earlier = peers.drop_last();
        lemma_served_requests_go_round(table, threshold, order, earlier);
        lemma_rotations_compose(order, served(table, threshold, earlier), 1);
    }
}

} // verus!
