//! The transport: one end of an MSMQ queue, which posts messages and takes them in.
use std::time::Duration;

use vstd::prelude::*;
use vstd::utf8::encode_utf8;

use crate::codec::{Reader, ReaderModel, Writer, WriterModel};
use crate::envelope;
use crate::envelope::{envelope_for, envelope_text, Envelope};
use crate::error::{protocol_error, refusal, seen, Refusal, TransportError};
use crate::message::{
    header, Arrived, ArrivedView, Header, HttpTarget, Request, RequestView, Response, ResponseView,
};
use crate::mime;
use crate::mime::{content_type_of, parts_seen, srmp_part, Part, PartView};
use crate::number::{decimal, write_number};
use crate::receive::{take, taken};
use crate::target::{queue_url, queue_url_of};

verus! {

/// The boundary every message this transport composes travels under.
pub const BOUNDARY: &'static str = "MSMQ - SOAP boundary, 12345";

/// The most one MSMQ message carries: four mebibytes.
pub fn ceiling() -> (most: usize)
    ensures
        most == 4 * 1024 * 1024,
{
    4 * 1024 * 1024
}

/// One end of a queue.
pub struct MsmqTransport {
    bind: String,
    host: String,
    next: u64,
    timeout: Option<Duration>,
}

/// What an [`MsmqTransport`] is set to, and how far it has counted.
#[verifier::ext_equal]
pub struct TransportView {
    /// The address it listens at.
    pub bind: Seq<char>,
    /// The host it signs messages as.
    pub host: Seq<char>,
    /// The number the next message gets.
    pub next: u64,
    /// How long it waits for a peer that stops mid-message; for ever where this is not said.
    pub timeout: Option<Duration>,
}

impl View for MsmqTransport {
    type V = TransportView;

    closed spec fn view(&self) -> TransportView {
        TransportView {
            bind: self.bind@,
            host: self.host@,
            next: self.next,
            timeout: self.timeout,
        }
    }
}

/// The transport that listens at `bind`, signs as `host` and has sent nothing yet.
pub open spec fn fresh(
    bind: Seq<char>,
    host: Seq<char>,
    timeout: Option<Duration>,
) -> TransportView {
    TransportView { bind, host, next: 1, timeout }
}

/// The transport once it has given out a number: the next one is one higher, and the last one that 64
/// bits count is followed by the first.
pub open spec fn counted(transport: TransportView) -> TransportView {
    TransportView {
        next: if transport.next == u64::MAX {
            0
        } else {
            (transport.next + 1) as u64
        },
        ..transport
    }
}

/// `kind`, the number `n` and the host, as MSMQ forms an id.
pub open spec fn numbered(kind: Seq<char>, n: u64, host: Seq<char>) -> Seq<char> {
    kind + decimal(n as nat) + "@"@ + host
}

/// The id of the message with the number `n` from `host`.
pub open spec fn message_id(n: u64, host: Seq<char>) -> Seq<char> {
    numbered("uuid:"@, n, host)
}

/// The id of the attachment of the message with the number `n` from `host`.
pub open spec fn body_id(n: u64, host: Seq<char>) -> Seq<char> {
    numbered("body"@, n, host)
}

/// The id of the envelope of the message with the number `n` from `host`.
pub open spec fn envelope_id(n: u64, host: Seq<char>) -> Seq<char> {
    numbered("envelope"@, n, host)
}

/// The parts of the message with the number `n` that carries `bytes` from `host` to `url`.
pub open spec fn message_parts(
    n: u64,
    host: Seq<char>,
    url: Seq<char>,
    bytes: Seq<u8>,
    sent_at: u64,
    escape: spec_fn(Seq<char>) -> Seq<char>,
) -> Seq<PartView> {
    let envelope = envelope_for(message_id(n, host), url, body_id(n, host), sent_at);
    seq![
        srmp_part(
            "text/xml"@,
            envelope_id(n, host),
            encode_utf8(envelope_text(envelope, escape)),
        ),
        srmp_part("application/octet-stream"@, body_id(n, host), bytes),
    ]
}

/// Why a Stream of `len` bytes is refused.
pub open spec fn too_large(len: nat) -> Refusal {
    refusal(
        decimal(len) + " bytes is over the "@ + decimal(4 * 1024 * 1024)
            + " one MSMQ message carries"@,
    )
}

/// The POST that carries `bytes` to the queue at `url`, or why there is none.
pub open spec fn composed(
    transport: TransportView,
    url: Seq<char>,
    bytes: Seq<u8>,
    sent_at: u64,
    model: WriterModel,
) -> Result<RequestView, Refusal> {
    if bytes.len() > 4 * 1024 * 1024 {
        Err(too_large(bytes.len()))
    } else {
        match (model.target)(url) {
            Err(error) => Err(error),
            Ok(target) => Ok(
                RequestView {
                    method: "POST"@,
                    path: target.path,
                    headers: seq![
                        ("Host"@, target.authority),
                        ("Content-Type"@, content_type_of(BOUNDARY@)),
                        ("SOAPAction"@, "\"MSMQMessage\""@),
                        ("Proxy-Accept"@, "NonInteractiveClient"@),
                    ],
                    body: (model.write)(
                        BOUNDARY@,
                        message_parts(
                            transport.next,
                            transport.host,
                            url,
                            bytes,
                            sent_at,
                            model.escape,
                        ),
                    ),
                },
            ),
        }
    }
}

/// A request, and the URL of the queue it is for.
#[derive(Clone, Debug, PartialEq, Eq)]
pub struct Posting {
    pub url: String,
    pub request: Request,
}

/// What a [`Posting`] says.
#[verifier::ext_equal]
pub struct PostingView {
    pub url: Seq<char>,
    pub request: RequestView,
}

impl View for Posting {
    type V = PostingView;

    open spec fn view(&self) -> PostingView {
        PostingView { url: self.url@, request: self.request@ }
    }
}

/// What is posted, and where, to carry `bytes` to the queue that `target` names; or why nothing is.
pub open spec fn posted(
    transport: TransportView,
    target: Seq<char>,
    bytes: Seq<u8>,
    sent_at: u64,
    model: WriterModel,
) -> Result<PostingView, Refusal> {
    match queue_url_of(target) {
        Err(error) => Err(error),
        Ok(url) => match composed(transport, url, bytes, sent_at, model) {
            Err(error) => Err(error),
            Ok(request) => Ok(PostingView { url, request }),
        },
    }
}

/// How a request is dealt with: what is answered, and what is handed on.
pub struct Accepted {
    /// The answer; none where there was nothing to answer.
    pub response: Option<Response>,
    /// The Stream, or why there is none.
    pub outcome: Result<Arrived, TransportError>,
}

/// What an [`Accepted`] says.
#[verifier::ext_equal]
pub struct AcceptedView {
    pub response: Option<ResponseView>,
    pub outcome: Result<ArrivedView, Refusal>,
}

impl View for Accepted {
    type V = AcceptedView;

    open spec fn view(&self) -> AcceptedView {
        AcceptedView {
            response: match self.response {
                Some(response) => Some(response@),
                None => None,
            },
            outcome: seen(self.outcome),
        }
    }
}

/// The answer to what was made of a request: `200` where a Stream was taken from it, and `400` with
/// the reason where it was refused.
pub open spec fn answer_to(outcome: Result<ArrivedView, Refusal>) -> ResponseView {
    match outcome {
        Ok(_) => ResponseView { status: 200, body: Seq::empty() },
        Err(error) => ResponseView { status: 400, body: encode_utf8(error.message) },
    }
}

/// How a connection is dealt with that sent `request`, or sent none.
pub open spec fn accepted(request: Option<RequestView>, model: ReaderModel) -> AcceptedView {
    match request {
        None => AcceptedView {
            response: None,
            outcome: Err(refusal("a connection that sent no request"@)),
        },
        Some(request) => AcceptedView {
            response: Some(answer_to(taken(request, model))),
            outcome: taken(request, model),
        },
    }
}

/// The time a message is sent at, in seconds since 1970, by a clock that shows `since_1970` seconds;
/// zero where it shows a time before that.
pub fn now(since_1970: Option<u64>) -> (sent_at: u64)
    ensures
        sent_at == (match since_1970 {
            Some(seconds) => seconds,
            None => 0,
        }),
{
    match since_1970 {
        Some(seconds) => seconds,
        None => 0,
    }
}

/// `kind`, the number `n` and `host`, as MSMQ forms an id.
fn number_id(kind: &str, n: u64, host: &str) -> (id: String)
    ensures
        id@ == numbered(kind@, n, host@),
{
    let mut id = kind.to_owned();
    id.append(write_number(n).as_str());
    id.append("@");
    id.append(host);
    id
}

/// A queue that answers `status` has taken the message.
pub open spec fn is_delivered(status: u16) -> bool {
    200 <= status < 300
}

/// What the queue's answer to a POST means: delivered where the status is from 200 to 299, and
/// otherwise refused for good, with the status and what the queue said.
pub fn receipt(status: u16, text: &str) -> (delivered: Result<(), TransportError>)
    ensures
        delivered is Ok <==> is_delivered(status),
        delivered is Ok <==> 200 <= status && status < 300,
        delivered matches Err(error) ==> error@ == refusal(
            "the queue answered "@ + decimal(status as nat) + ": "@ + text@,
        ),
        delivered matches Err(error) ==> !error.retryable && error.message@
            == "the queue answered "@ + decimal(status as nat) + ": "@ + text@,
{
    if 200 <= status && status < 300 {
        Ok(())
    } else {
        let mut message = "the queue answered ".to_owned();
        message.append(write_number(status as u64).as_str());
        message.append(": ");
        message.append(text);
        Err(TransportError::permanent(message))
    }
}

/// The answer to what was made of a request.
pub fn answer(outcome: &Result<Arrived, TransportError>) -> (response: Response)
    ensures
        response@ == answer_to(seen(*outcome)),
        outcome is Ok ==> response.status == 200 && response.body@.len() == 0,
        outcome matches Err(error) ==> response.status == 400 && response.body@ == encode_utf8(
            error.message@,
        ),
{
    match outcome {
        Ok(_) => {
            let body: Vec<u8> = Vec::new();
            assert(body@ =~= Seq::<u8>::empty());
            Response { status: 200, body }
        },
        Err(error) => Response { status: 400, body: error.message.as_str().as_bytes_vec() },
    }
}

/// The target that a loopback round is sent to at `address`.
pub open spec fn round_target(address: Seq<char>) -> Seq<char> {
    "msmq://"@ + address + "/round-trip"@
}

impl MsmqTransport {
    /// Listen at `bind` as the queue's HTTP end, and sign messages as `host`.
    pub fn new(bind: &str, host: &str) -> (transport: Self)
        ensures
            transport@ == fresh(bind@, host@, None),
    {
        MsmqTransport { bind: bind.to_owned(), host: host.to_owned(), next: 1, timeout: None }
    }

    /// Give up on a peer that stops mid-message.
    pub fn timing_out_after(self, timeout: Duration) -> (transport: Self)
        ensures
            transport@ == (TransportView { timeout: Some(timeout), ..self@ }),
    {
        MsmqTransport {
            bind: self.bind,
            host: self.host,
            next: self.next,
            timeout: Some(timeout),
        }
    }

    /// Both ends on this machine: the queue's HTTP end on an ephemeral local port, and `timeout` on
    /// both sides.
    pub fn loopback(timeout: Duration) -> (transport: Self)
        ensures
            transport@ == fresh("127.0.0.1:0"@, "far"@, Some(timeout)),
    {
        MsmqTransport::new("127.0.0.1:0", "far").timing_out_after(timeout)
    }

    /// This transport's configuration in a fresh instance signing as `host`: its own message
    /// counter, as another node has.
    pub fn sibling(&self, host: &str) -> (transport: Self)
        ensures
            transport@ == fresh(self@.bind, host@, self@.timeout),
    {
        let sibling = MsmqTransport::new(self.bind.as_str(), host);
        match self.timeout {
            Some(timeout) => sibling.timing_out_after(timeout),
            None => sibling,
        }
    }

    /// The address to listen at.
    pub fn bind(&self) -> (address: &str)
        ensures
            address@ == self@.bind,
    {
        self.bind.as_str()
    }

    /// The host that messages are signed as.
    pub fn host(&self) -> (host: &str)
        ensures
            host@ == self@.host,
    {
        self.host.as_str()
    }

    /// How long to wait for a peer that stops mid-message.
    pub fn timeout(&self) -> (timeout: Option<Duration>)
        ensures
            timeout == self@.timeout,
    {
        self.timeout
    }

    /// What the transport is called.
    pub fn name(&self) -> (name: &'static str)
        ensures
            name@ == "msmq"@,
    {
        "msmq"
    }

    /// The POST that carries `bytes` to the queue at `url`, sent at `sent_at` seconds since 1970.
    /// Refused where the Stream is over the [`ceiling`], before a number is given out, and where
    /// `url` is not one.
    pub fn compose<E, T, W>(
        &mut self,
        url: &str,
        bytes: &[u8],
        sent_at: u64,
        writer: &Writer<E, T, W>,
    ) -> (request: Result<Request, TransportError>) where
        E: Fn(&str) -> String,
        T: Fn(&str) -> Result<HttpTarget, TransportError>,
        W: Fn(&str, &[Part]) -> Vec<u8>,

        requires
            writer.total(),
        ensures
            bytes@.len() > 4 * 1024 * 1024 ==> {
                &&& final(self)@ == old(self)@
                &&& seen(request) == Err::<RequestView, Refusal>(too_large(bytes@.len()))
            },
            bytes@.len() <= 4 * 1024 * 1024 ==> final(self)@ == counted(old(self)@),
            forall|model: WriterModel| #[trigger]
                writer.follows(model) ==> seen(request) == composed(
                    old(self)@,
                    url@,
                    bytes@,
                    sent_at,
                    model,
                ),
    {
        if bytes.len() > ceiling() {
            let mut message = write_number(bytes.len() as u64);
            message.append(" bytes is over the ");
            message.append(write_number(ceiling() as u64).as_str());
            message.append(" one MSMQ message carries");
            return Err(TransportError::permanent(message));
        }
        let n: u64 = self.next;
        self.next = self.next.wrapping_add(1);
        let id = number_id("uuid:", n, self.host.as_str());
        let body_id = number_id("body", n, self.host.as_str());
        let envelope_id = number_id("envelope", n, self.host.as_str());
        let envelope = Envelope::new(id.as_str(), url, body_id.as_str(), sent_at);
        let xml = envelope::compose(&envelope, &writer.escape);
        let mut parts: Vec<Part> = Vec::new();
        parts.push(mime::part("text/xml", envelope_id.as_str(), xml.as_str().as_bytes()));
        parts.push(mime::part("application/octet-stream", body_id.as_str(), bytes));
        let parse = &writer.target;
        let target = match parse(url) {
            Ok(target) => target,
            Err(error) => {
                return Err(error);
            },
        };
        let mut headers: Vec<Header> = Vec::new();
        headers.push(header("Host", target.authority.as_str()));
        headers.push(header("Content-Type", mime::content_type(BOUNDARY).as_str()));
        headers.push(header("SOAPAction", "\"MSMQMessage\""));
        headers.push(header("Proxy-Accept", "NonInteractiveClient"));
        let write = &writer.write;
        let body = write(BOUNDARY, parts.as_slice());
        let request = Request { method: "POST".to_owned(), path: target.path, headers, body };
        proof {
            assert forall|model: WriterModel| #[trigger] writer.follows(model) implies seen(
                Ok::<Request, TransportError>(request),
            ) == composed(old(self)@, url@, bytes@, sent_at, model) by {
                let expected = composed(old(self)@, url@, bytes@, sent_at, model)->Ok_0;
                assert(request@.headers =~= expected.headers);
                assert(parts_seen(parts@) =~= message_parts(
                    n,
                    old(self)@.host,
                    url@,
                    bytes@,
                    sent_at,
                    model.escape,
                ));
            }
        }
        Ok(request)
    }

    /// What to post, and where, so that `bytes` reach the queue that `target` names. Refused where
    /// the target names no queue, and where [`MsmqTransport::compose`] refuses.
    pub fn post<E, T, W>(
        &mut self,
        target: &str,
        bytes: &[u8],
        sent_at: u64,
        writer: &Writer<E, T, W>,
    ) -> (posting: Result<Posting, TransportError>) where
        E: Fn(&str) -> String,
        T: Fn(&str) -> Result<HttpTarget, TransportError>,
        W: Fn(&str, &[Part]) -> Vec<u8>,

        requires
            writer.total(),
        ensures
            queue_url_of(target@) matches Err(error) ==> {
                &&& final(self)@ == old(self)@
                &&& seen(posting) == Err::<PostingView, Refusal>(error)
            },
            queue_url_of(target@) is Ok && bytes@.len() > 4 * 1024 * 1024 ==> {
                &&& final(self)@ == old(self)@
                &&& seen(posting) == Err::<PostingView, Refusal>(too_large(bytes@.len()))
            },
            queue_url_of(target@) is Ok && bytes@.len() <= 4 * 1024 * 1024 ==> final(self)@
                == counted(old(self)@),
            forall|model: WriterModel| #[trigger]
                writer.follows(model) ==> seen(posting) == posted(
                    old(self)@,
                    target@,
                    bytes@,
                    sent_at,
                    model,
                ),
    {
        let url = match queue_url(target) {
            Ok(url) => url,
            Err(error) => {
                return Err(error);
            },
        };
        match self.compose(url.as_str(), bytes, sent_at, writer) {
            Ok(request) => Ok(Posting { url, request }),
            Err(error) => Err(error),
        }
    }

    /// Deal with what one connection sent: take the message, and answer. Refused, and answered `400`,
    /// where the request is not an SRMP message; refused without an answer where there is none.
    pub fn accept_one<M, P, R, F, U>(
        &self,
        request: Option<&Request>,
        reader: &Reader<M, P, R, F, U>,
    ) -> (dealt: Accepted) where
        M: Fn(&str) -> String,
        P: for <'a, 'b>Fn(&'a str, &'b str) -> Option<&'a str>,
        R: Fn(&[u8], &str) -> Result<Vec<Part>, String>,
        F: Fn(&str, &str) -> Result<Option<String>, TransportError>,
        U: Fn(&str) -> Result<String, TransportError>,

        requires
            reader.total(),
        ensures
            request is None ==> dealt@.response is None && dealt@.outcome == Err::<
                ArrivedView,
                Refusal,
            >(refusal("a connection that sent no request"@)),
            request is Some ==> dealt@.response == Some(answer_to(dealt@.outcome)),
            request is Some ==> (dealt.response matches Some(response) && response.status == (
            if dealt.outcome is Ok {
                200u16
            } else {
                400u16
            })),
            forall|model: ReaderModel| #[trigger]
                reader.follows(model) ==> dealt@ == accepted(
                    match request {
                        Some(r) => Some(r@),
                        None => None,
                    },
                    model,
                ),
    {
        match request {
            Some(request) => {
                let outcome = take(request, reader);
                Accepted { response: Some(answer(&outcome)), outcome }
            },
            None => Accepted {
                response: None,
                outcome: Err(protocol_error("a connection that sent no request".to_owned())),
            },
        }
    }

    /// What to post, and where, so that `payload` goes through a loopback round to the far end at
    /// `address`: the first message of a fresh near end, which leaves this transport's own counter
    /// where it is.
    pub fn send_to<E, T, W>(
        &self,
        address: &str,
        payload: &[u8],
        sent_at: u64,
        writer: &Writer<E, T, W>,
    ) -> (posting: Result<Posting, TransportError>) where
        E: Fn(&str) -> String,
        T: Fn(&str) -> Result<HttpTarget, TransportError>,
        W: Fn(&str, &[Part]) -> Vec<u8>,

        requires
            writer.total(),
        ensures
            queue_url_of(round_target(address@)) matches Err(error) ==> seen(posting) == Err::<
                PostingView,
                Refusal,
            >(error),
            queue_url_of(round_target(address@)) is Ok && payload@.len() > 4 * 1024 * 1024 ==> seen(
                posting,
            ) == Err::<PostingView, Refusal>(too_large(payload@.len())),
            forall|model: WriterModel| #[trigger]
                writer.follows(model) ==> seen(posting) == posted(
                    fresh(self@.bind, "near"@, self@.timeout),
                    round_target(address@),
                    payload@,
                    sent_at,
                    model,
                ),
    {
        let mut target = "msmq://".to_owned();
        target.append(address);
        target.append("/round-trip");
        let mut near = self.sibling("near");
        near.post(target.as_str(), payload, sent_at, writer)
    }
}

} // verus!
