//! Serving requests: each is answered at once and forwarded, and the first may end the server.

use vstd::prelude::*;
use vstd::utf8::*;

use crate::config::text_of;
use crate::forwarder::{step_after, Forwarder, Forwarding, ForwardingView, Step};
use crate::headers::{collect_headers, collected, header_fields, lower_case, Headers};
use crate::json::{json_read, Json};
use crate::passthrough::Passthrough;
use crate::payload::{body_mode_forwards_the_body_alone, carries, payload};
use crate::settings::{value_or, Settings};
use crate::text::lossy_text;

verus! {

/// The HTTP status of every answer.
pub const OK_STATUS: u16 = 200;

/// A request whose body has not been read.
pub struct Request {
    /// The HTTP method.
    pub method: String,
    /// The path, with the query.
    pub path: String,
    /// The headers.
    pub headers: Headers,
}

/// What a [`Request`] holds.
pub struct RequestView {
    /// The HTTP method.
    pub method: Seq<char>,
    /// The path, with the query.
    pub path: Seq<char>,
    /// The headers.
    pub headers: Map<Seq<char>, Seq<char>>,
}

impl View for Request {
    type V = RequestView;

    open spec fn view(&self) -> RequestView {
        RequestView { method: self.method@, path: self.path@, headers: self.headers@ }
    }
}

/// The answer to a request. It has no body.
#[derive(Clone, Copy, Debug, PartialEq, Eq, Structural)]
pub struct Reply {
    /// The HTTP status.
    pub status: u16,
}

/// How far a request has been served.
pub enum Exchange {
    /// Its body is to be read.
    Reading(Request),
    /// The answer is given at once. Beside it the request is forwarded.
    Answered(Reply, Forwarding),
    /// The forwarding has ended. The flag tells whether the server is to shut down.
    Closed(Reply, bool),
}

/// What an [`Exchange`] holds.
pub enum ExchangeView {
    /// The body is to be read.
    Reading(RequestView),
    /// The answer is given, and the request is being forwarded.
    Answered(Reply, ForwardingView),
    /// The forwarding has ended. The flag tells whether the server is to shut down.
    Closed(Reply, bool),
}

impl View for Exchange {
    type V = ExchangeView;

    open spec fn view(&self) -> ExchangeView {
        match *self {
            Exchange::Reading(request) => ExchangeView::Reading(request@),
            Exchange::Answered(reply, forwarding) => ExchangeView::Answered(reply, forwarding@),
            Exchange::Closed(reply, shut_down) => ExchangeView::Closed(reply, shut_down),
        }
    }
}

/// What has happened to a request.
pub enum Event {
    /// Its body was read; `None` when that failed.
    Body(Option<Vec<u8>>),
    /// The operation that was due in forwarding it has succeeded or failed.
    Io(bool),
}

/// What an [`Event`] holds.
pub enum EventView {
    /// The body was read; `None` when that failed.
    Body(Option<Seq<u8>>),
    /// The operation that was due has succeeded or failed.
    Io(bool),
}

impl View for Event {
    type V = EventView;

    open spec fn view(&self) -> EventView {
        match *self {
            Event::Body(Some(body)) => EventView::Body(Some(body@)),
            Event::Body(None) => EventView::Body(None),
            Event::Io(succeeded) => EventView::Io(succeeded),
        }
    }
}

/// The server: where and how it forwards, and whether the next request to be done ends it.
#[derive(Clone, Copy, Debug, PartialEq, Eq, Structural)]
pub struct Server {
    /// Where requests go.
    pub forwarder: Forwarder,
    /// What of them is forwarded.
    pub passthrough: Passthrough,
    /// Whether the server shuts down when the next forwarding has ended.
    pub last_call: bool,
}

/// The bytes of a body; one that could not be read counts as empty.
pub open spec fn body_or_empty(body: Option<Seq<u8>>) -> Seq<u8> {
    value_or(body, seq![])
}

/// The forwarding of a request with its body: the payload is to be written.
pub open spec fn forwarding_of(server: Server, request: RequestView, body: Seq<u8>) -> ForwardingView {
    ForwardingView {
        to: server.forwarder,
        payload: payload(server.passthrough, request.method, request.path, request.headers, body),
        step: Step::Write,
    }
}

/// The answer to every request.
pub open spec fn ok_reply() -> Reply {
    Reply { status: OK_STATUS }
}

/// The exchange after an event. An event that is not due changes nothing.
pub open spec fn exchange_after(
    server: Server,
    exchange: ExchangeView,
    event: EventView,
) -> ExchangeView {
    match (exchange, event) {
        (ExchangeView::Reading(request), EventView::Body(body)) => ExchangeView::Answered(
            ok_reply(),
            forwarding_of(server, request, body_or_empty(body)),
        ),
        (ExchangeView::Answered(reply, forwarding), EventView::Io(succeeded)) => {
            let step = step_after(forwarding.step, succeeded);
            if step == Step::Done || step == Step::Failed {
                ExchangeView::Closed(reply, server.last_call)
            } else {
                ExchangeView::Answered(reply, ForwardingView { step, ..forwarding })
            }
        },
        _ => exchange,
    }
}

/// The event ends the forwarding of the request.
pub open spec fn closes(server: Server, exchange: ExchangeView, event: EventView) -> bool {
    exchange is Answered && exchange_after(server, exchange, event) is Closed
}

/// The server after an event: the end of a forwarding takes back the last call.
pub open spec fn server_after(server: Server, exchange: ExchangeView, event: EventView) -> Server {
    if closes(server, exchange, event) {
        Server { last_call: false, ..server }
    } else {
        server
    }
}

/// Takes up a request: the path is `/` when it has none. The names of the headers are in lower
/// case.
pub fn receive(
    method: String,
    path_and_query: Option<String>,
    fields: &axum::http::HeaderMap,
) -> (res: Exchange)
    ensures
        res@ == ExchangeView::Reading(
            (RequestView {
                method: method@,
                path: value_or(text_of(path_and_query), "/"@),
                headers: collected(header_fields(*fields)),
            }),
        ),
        forall|name: Seq<char>| #[trigger]
            res@->Reading_0.headers.dom().contains(name) ==> lower_case(name),
        res matches Exchange::Reading(request) && request.method@ == method@ && request.headers@
            == collected(header_fields(*fields)) && (path_and_query matches Some(path)
            ==> request.path@ == path@) && (path_and_query is None ==> request.path@ == "/"@),
{
    let path: String = match path_and_query {
        Some(path) => path,
        None => "/".to_owned(),
    };
    Exchange::Reading(Request { method, path, headers: collect_headers(fields) })
}

impl Server {
    /// The server under the given options: it ends with the first request unless it is
    /// persistent.
    pub fn new(settings: &Settings) -> (res: Server)
        ensures
            res.forwarder == (if settings.command is Some {
                Forwarder::Subprocess
            } else {
                Forwarder::Stdout
            }),
            res.passthrough == settings.passthrough,
            res.last_call == !settings.persistent,
    {
        Server {
            forwarder: Forwarder::for_command(&settings.command),
            passthrough: settings.passthrough,
            last_call: !settings.persistent,
        }
    }

    /// Serves a request a step further, after an event.
    pub fn handler(&mut self, exchange: Exchange, event: Event) -> (res: Exchange)
        ensures
            res@ == exchange_after(*old(self), exchange@, event@),
            *final(self) == server_after(*old(self), exchange@, event@),
            exchange@ matches ExchangeView::Reading(request) ==> (event@ matches EventView::Body(
                body,
            ) ==> res@ matches ExchangeView::Answered(_, forwarding) && carries(
                forwarding.payload,
                old(self).passthrough,
                request.method,
                request.path,
                request.headers,
                body_or_empty(body),
            )),
            // A request whose body was read, or could not be, is answered and to be written.
            exchange matches Exchange::Reading(request) ==> (event matches Event::Body(_) ==> (
            *final(self) == *old(self) && (res matches Exchange::Answered(reply, forwarding)
                && reply.status == 200 && forwarding.to == old(self).forwarder && forwarding.step
                == Step::Write))),
            // In body mode the body is written and a newline.
            exchange matches Exchange::Reading(request) ==> (event matches Event::Body(Some(body))
                ==> (old(self).passthrough == Passthrough::Body ==> (
            res matches Exchange::Answered(_, forwarding) && forwarding.payload@ == body@
                + seq![10u8]))),
            exchange matches Exchange::Reading(request) ==> (event matches Event::Body(None)
                ==> (old(self).passthrough == Passthrough::Body ==> (
            res matches Exchange::Answered(_, forwarding) && forwarding.payload@ == seq![10u8]))),
            // In full mode the request is written as one line of JSON, member by member.
            exchange matches Exchange::Reading(request) ==> (event matches Event::Body(_)
                ==> (old(self).passthrough == Passthrough::Full ==> (
            res matches Exchange::Answered(_, forwarding) && forwarding.payload@.len() > 0
                && forwarding.payload@.last() == 10 && forall|i: int|
                0 <= i < forwarding.payload@.len() - 1
                    ==> #[trigger] forwarding.payload@[i] >= 32))),
            exchange matches Exchange::Reading(request) ==> (event matches Event::Body(Some(body))
                ==> (old(self).passthrough == Passthrough::Full ==> (
            res matches Exchange::Answered(_, forwarding)
                && (json_read(forwarding.payload@.drop_last()) matches Some(Json::Object(members)) && members.dom() == set![
                "method"@,
                "path"@,
                "headers"@,
                "body"@,
            ] && members["method"@] == Json::Text(request.method@)
                && members["path"@] == Json::Text(request.path@)
                && members["body"@] == Json::Text(lossy_text(body@)) && (valid_utf8(body@)
                ==> members["body"@] == Json::Text(decode_utf8(body@))) && (
            members["headers"@] matches Json::Object(fields)
                && fields.dom() == request.headers@.dom() && forall|
                name: Seq<char>,
            | #[trigger] request.headers@.dom().contains(name)
                ==> fields[name] == Json::Text(request.headers@[name])))))),
            exchange matches Exchange::Reading(request) ==> (event matches Event::Body(None)
                ==> (old(self).passthrough == Passthrough::Full ==> (
            res matches Exchange::Answered(_, forwarding)
                && (json_read(forwarding.payload@.drop_last()) matches Some(Json::Object(members)) && members.dom() == set![
                "method"@,
                "path"@,
                "headers"@,
                "body"@,
            ] && members["method"@] == Json::Text(request.method@)
                && members["path"@] == Json::Text(request.path@)
                && members["body"@] == Json::Text(lossy_text(Seq::empty()))
                    && (valid_utf8(Seq::empty())
                ==> members["body"@] == Json::Text(decode_utf8(Seq::empty()))) && (
            members["headers"@] matches Json::Object(fields)
                && fields.dom() == request.headers@.dom() && forall|
                name: Seq<char>,
            | #[trigger] request.headers@.dom().contains(name)
                ==> fields[name] == Json::Text(request.headers@[name])))))),
            // What was written is flushed. Nothing else of the exchange changes.
            exchange matches Exchange::Answered(reply, before)
                ==> (event matches Event::Io(succeeded)
                ==> (succeeded && before.step == Step::Write ==> *final(self) == *old(self) && (
            res matches Exchange::Answered(same, after) && same == reply && after.to == before.to
                && after.payload@ == before.payload@ && after.step == Step::Flush))),
            // After the flush, or a failure, the request is closed with the last call if it was
            // still due, which it is then no more.
            exchange matches Exchange::Answered(reply, before)
                ==> (event matches Event::Io(succeeded)
                ==> (!succeeded || before.step != Step::Write ==> final(self).forwarder == old(
                self,
            ).forwarder && final(self).passthrough == old(self).passthrough
                && !final(self).last_call
                && (res matches Exchange::Closed(same, shut_down) && same == reply && shut_down
                == old(self).last_call))),
            // No other event changes anything.
            exchange is Reading && event is Io ==> *final(self) == *old(self) && res == exchange,
            exchange is Answered && event is Body ==> *final(self) == *old(self) && res == exchange,
            exchange is Closed ==> *final(self) == *old(self) && res == exchange,
    {
        match (exchange, event) {
            (Exchange::Reading(request), Event::Body(body)) => {
                let bytes: Vec<u8> = match body {
                    Some(bytes) => bytes,
                    None => Vec::new(),
                };
                assert(bytes@.len() == 0 ==> bytes@ + seq![10u8] =~= seq![10u8]);
                assert(bytes@.len() == 0 ==> bytes@ =~= Seq::empty());
                let forwarding: Forwarding = self.forwarder.forward(
                    &self.passthrough,
                    request.method.as_str(),
                    request.path.as_str(),
                    request.headers,
                    bytes,
                );
                Exchange::Answered(Reply { status: OK_STATUS }, forwarding)
            },
            (Exchange::Answered(reply, forwarding), Event::Io(succeeded)) => {
                let mut forwarding: Forwarding = forwarding;
                forwarding.advance(succeeded);
                match forwarding.step {
                    Step::Done | Step::Failed => {
                        let shut_down: bool = self.last_call;
                        self.last_call = false;
                        Exchange::Closed(reply, shut_down)
                    },
                    Step::Write | Step::Flush => Exchange::Answered(reply, forwarding),
                }
            },
            (exchange, _) => exchange,
        }
    }
}

/// The answer that has been given, if any has.
pub open spec fn reply_in(exchange: ExchangeView) -> Option<Reply> {
    match exchange {
        ExchangeView::Reading(_) => None,
        ExchangeView::Answered(reply, _) => Some(reply),
        ExchangeView::Closed(reply, _) => Some(reply),
    }
}

/// The exchange after a series of events, each with the server at that time: other requests may
/// have been served in between.
pub open spec fn exchange_after_all(
    exchange: ExchangeView,
    events: Seq<(Server, EventView)>,
) -> ExchangeView
    decreases events.len(),
{
    if events.len() == 0 {
        exchange
    } else {
        let before = exchange_after_all(exchange, events.drop_last());
        exchange_after(events.last().0, before, events.last().1)
    }
}

/// An answer that has been given stays as it is.
proof fn lemma_reply_stays(exchange: ExchangeView, events: Seq<(Server, EventView)>)
    requires
        reply_in(exchange) is Some,
    ensures
        reply_in(exchange_after_all(exchange, events)) == reply_in(exchange),
    decreases events.len(),
{
    if events.len() > 0 {
        lemma_reply_stays(exchange, events.drop_last());
    }
}

/// Every request is answered with status 200 as soon as its body has been read, or could not be.
/// The answer waits for no operation of the forwarding, and nothing that they come to changes it.
pub proof fn every_request_is_answered_ok_at_once(
    server: Server,
    request: RequestView,
    body: Option<Seq<u8>>,
    later: Seq<(Server, EventView)>,
)
    ensures
        ({
            let read = exchange_after(
                server,
                ExchangeView::Reading(request),
                EventView::Body(body),
            );
            &&& reply_in(read) == Some(Reply { status: 200 })
            &&& reply_in(exchange_after_all(read, later)) == Some(Reply { status: 200 })
        }),
{
    let read = exchange_after(server, ExchangeView::Reading(request), EventView::Body(body));
    lemma_reply_stays(read, later);
}

/// A request is closed when its payload has been written and flushed, or when one of these has
/// failed, and not before. Whether the server shuts down is decided at that time.
pub proof fn request_is_closed_when_forwarded(
    request: RequestView,
    body: Option<Seq<u8>>,
    at_body: Server,
    at_write: Server,
    at_flush: Server,
    written: bool,
    flushed: bool,
)
    ensures
        ({
            let read = exchange_after(
                at_body,
                ExchangeView::Reading(request),
                EventView::Body(body),
            );
            let wrote = exchange_after(at_write, read, EventView::Io(written));
            let ended = exchange_after(at_flush, wrote, EventView::Io(flushed));
            let due = forwarding_of(at_body, request, body_or_empty(body));
            &&& read == ExchangeView::Answered(ok_reply(), due)
            &&& !written ==> wrote == ExchangeView::Closed(ok_reply(), at_write.last_call)
            &&& written ==> wrote == ExchangeView::Answered(
                ok_reply(),
                ForwardingView { step: Step::Flush, ..due },
            )
            &&& written ==> ended == ExchangeView::Closed(ok_reply(), at_flush.last_call)
        }),
{
}

/// The server after a series of events, each of them that of some request.
pub open spec fn server_after_all(server: Server, events: Seq<(ExchangeView, EventView)>) -> Server
    decreases events.len(),
{
    if events.len() == 0 {
        server
    } else {
        let before = server_after_all(server, events.drop_last());
        server_after(before, events.last().0, events.last().1)
    }
}

/// How many of the requests that are closed in a series of events shut the server down.
pub open spec fn shutdowns(server: Server, events: Seq<(ExchangeView, EventView)>) -> nat
    decreases events.len(),
{
    if events.len() == 0 {
        0
    } else {
        let before = server_after_all(server, events.drop_last());
        let last: nat = if closes(before, events.last().0, events.last().1) && before.last_call {
            1
        } else {
            0
        };
        shutdowns(server, events.drop_last()) + last
    }
}

/// A server that is to end after one request is shut down by the first request that is closed and
/// by no other, however the requests interleave.
pub proof fn first_closed_request_shuts_down_once(server: Server, events: Seq<(ExchangeView, EventView)>)
    ensures
        shutdowns(server, events) <= 1,
        shutdowns(server, events) == 1 <==> server.last_call && exists|i: int|
            0 <= i < events.len() && #[trigger] closes(server, events[i].0, events[i].1),
        server_after_all(server, events).last_call <==> server.last_call
            && shutdowns(server, events)
            == 0,
        server_after_all(server, events).forwarder == server.forwarder,
        server_after_all(server, events).passthrough == server.passthrough,
    decreases events.len(),
{
    if events.len() > 0 {
        let earlier = events.drop_last();
        first_closed_request_shuts_down_once(server, earlier);
        let before = server_after_all(server, earlier);
        let last = events.last();
        assert(closes(before, last.0, last.1) == closes(server, last.0, last.1));
        if closes(server, last.0, last.1) {
            assert(closes(server, events[events.len() - 1].0, events[events.len() - 1].1));
        }
        assert forall|i: int| 0 <= i < earlier.len() && #[trigger] closes(
            server,
            earlier[i].0,
            earlier[i].1,
        ) implies closes(server, events[i].0, events[i].1) by {}
        if exists|i: int|
            0 <= i < earlier.len() && #[trigger] closes(server, earlier[i].0, earlier[i].1) {
            let i = choose|i: int|
                0 <= i < earlier.len() && #[trigger] closes(server, earlier[i].0, earlier[i].1);
            assert(closes(server, events[i].0, events[i].1));
        }
        if exists|i: int|
            0 <= i < events.len() && #[trigger] closes(server, events[i].0, events[i].1) {
            let i = choose|i: int|
                0 <= i < events.len() && #[trigger] closes(server, events[i].0, events[i].1);
            if i < earlier.len() {
                assert(closes(server, earlier[i].0, earlier[i].1));
            }
        }
    }
}

/// A persistent server is never shut down.
pub proof fn persistent_server_runs_on(server: Server, events: Seq<(ExchangeView, EventView)>)
    requires
        !server.last_call,
    ensures
        shutdowns(server, events) == 0,
        server_after_all(server, events) == server,
{
    first_closed_request_shuts_down_once(server, events);
}

/// In body mode the payload of a request is its body and a newline, whatever its method, path and
/// headers are. A body that could not be read counts as empty.
pub proof fn body_is_forwarded_whatever_the_request_is(
    server: Server,
    request: RequestView,
    body: Option<Seq<u8>>,
)
    requires
        server.passthrough == Passthrough::Body,
    ensures
        exchange_after(server, ExchangeView::Reading(request), EventView::Body(body)) matches
            ExchangeView::Answered(_, forwarding) && forwarding.to == server.forwarder
            && forwarding.step == Step::Write && (body matches Some(bytes) ==> forwarding.payload
            == bytes + seq![10u8]) && (body is None ==> forwarding.payload == seq![10u8]),
{
    let bytes = body_or_empty(body);
    body_mode_forwards_the_body_alone(request.method, request.path, request.headers, bytes);
    assert(body is None ==> bytes + seq![10u8] =~= seq![10u8]);
}

/// In full mode the payload of a request is that of its own method, path, headers and body.
pub proof fn envelope_is_forwarded_with_the_request_in_it(
    server: Server,
    request: RequestView,
    body: Seq<u8>,
)
    requires
        server.passthrough == Passthrough::Full,
    ensures
        exchange_after(server, ExchangeView::Reading(request), EventView::Body(Some(body))) matches
            ExchangeView::Answered(_, forwarding) && forwarding.payload == payload(
            Passthrough::Full,
            request.method,
            request.path,
            request.headers,
            body,
        ),
        exchange_after(server, ExchangeView::Reading(request), EventView::Body(None)) == exchange_after(
            server,
            ExchangeView::Reading(request),
            EventView::Body(Some(seq![])),
        ),
{
}

/// The views of exchanges, requests and events show all that these hold.
pub proof fn views_show_all(request: Request, forwarding: Forwarding, body: Vec<u8>, reply: Reply)
    ensures
        request@.method == request.method@,
        request@.path == request.path@,
        request@.headers == request.headers@,
        forwarding@.to == forwarding.to,
        forwarding@.payload == forwarding.payload@,
        forwarding@.step == forwarding.step,
        Exchange::Reading(request)@ == ExchangeView::Reading(request@),
        Exchange::Answered(reply, forwarding)@ == ExchangeView::Answered(reply, forwarding@),
        Exchange::Closed(reply, true)@ == ExchangeView::Closed(reply, true),
        Exchange::Closed(reply, false)@ == ExchangeView::Closed(reply, false),
        Event::Body(Some(body))@ == EventView::Body(Some(body@)),
        Event::Body(None)@ == EventView::Body(None),
        Event::Io(true)@ == EventView::Io(true),
        Event::Io(false)@ == EventView::Io(false),
{
}

} // verus!
