//! Taking a message in: the request that carries it, the Stream in it, and the answer.
use vstd::prelude::*;
use vstd::slice::slice_to_vec;

use crate::codec::{Reader, ReaderModel};
use crate::envelope;
use crate::envelope::{envelope_in, EnvelopeView};
use crate::error::{protocol_error, refusal, seen, Refusal, TransportError};
use crate::message::{value_under, Arrived, ArrivedView, Request, RequestView};
use crate::mime;
use crate::mime::{boundary_named, parts_of, parts_seen, Part, PartView};
use crate::target::or_empty;
use crate::text::{begins, from_utf8_lossy, quoted, quoted_text, same, strip_prefix, text_of};

verus! {

/// The queue that a request's path names, or why it names none.
pub open spec fn queue_at(path: Seq<char>) -> Result<Seq<char>, Refusal> {
    if begins(path, "/msmq/"@) && path.len() > 6 {
        Ok(path.skip(6))
    } else {
        Err(refusal(quoted_text(path) + " is not /msmq/<queue>"@))
    }
}

/// The queue that a request posts to, or why it posts to none.
pub open spec fn posted_to(request: RequestView) -> Result<Seq<char>, Refusal> {
    if request.method != "POST"@ {
        Err(refusal("a "@ + request.method + " where MSMQ POSTs"@))
    } else {
        queue_at(request.path)
    }
}

/// The parts of the body that a request carries, or why it carries none.
pub open spec fn carried(request: RequestView, model: ReaderModel) -> Result<
    Seq<PartView>,
    Refusal,
> {
    match boundary_named(
        or_empty(value_under(request.headers, "Content-Type"@)),
        model.media_type,
        model.parameter,
    ) {
        Err(error) => Err(error),
        Ok(boundary) => parts_of(boundary, request.body, model.read),
    }
}

/// The envelope that the first of `parts` carries, or why it carries none.
pub open spec fn enveloped(parts: Seq<PartView>, model: ReaderModel) -> Result<
    EnvelopeView,
    Refusal,
> {
    if parts.len() == 0 {
        Err(refusal("a message with no envelope"@))
    } else {
        envelope_in(text_of(parts[0].bytes), model.first, model.unescape)
    }
}

/// The bytes of the first of `parts` that goes by `id`.
pub open spec fn attachment(parts: Seq<PartView>, id: Seq<char>) -> Option<Seq<u8>>
    decreases parts.len(),
{
    if parts.len() == 0 {
        None
    } else if parts[0].content_id == Some(id) {
        Some(parts[0].bytes)
    } else {
        attachment(parts.drop_first(), id)
    }
}

/// Where a message that arrived at `queue` under `id` came from; `host` is the host that the request
/// names, if it names one.
pub open spec fn origin(host: Option<Seq<char>>, queue: Seq<char>, id: Seq<char>) -> Seq<char> {
    let host = match host {
        Some(host) => host,
        None => "localhost"@,
    };
    "msmq://"@ + host + "/"@ + queue + "#"@ + id
}

/// The Stream that a request carries, or the first reason it carries none.
pub open spec fn taken(request: RequestView, model: ReaderModel) -> Result<ArrivedView, Refusal> {
    match posted_to(request) {
        Err(error) => Err(error),
        Ok(queue) => match carried(request, model) {
            Err(error) => Err(error),
            Ok(parts) => match enveloped(parts, model) {
                Err(error) => Err(error),
                Ok(envelope) => match attachment(parts, envelope.body_id) {
                    None => Err(refusal("no attachment "@ + quoted_text(envelope.body_id))),
                    Some(bytes) => Ok(
                        ArrivedView {
                            origin_uri: origin(
                                value_under(request.headers, "Host"@),
                                queue,
                                envelope.id,
                            ),
                            bytes,
                        },
                    ),
                },
            },
        },
    }
}

/// The queue that a request posts to.
fn queue_of(request: &Request) -> (queue: Result<&str, TransportError>)
    ensures
        seen(queue) == posted_to(request@),
{
    if !same(request.method.as_str(), "POST") {
        let mut message = "a ".to_owned();
        message.append(request.method.as_str());
        message.append(" where MSMQ POSTs");
        return Err(protocol_error(message));
    }
    proof {
        reveal_strlit("/msmq/");
    }
    if let Some(queue) = strip_prefix(request.path.as_str(), "/msmq/") {
        if !queue.is_empty() {
            return Ok(queue);
        }
    }
    let mut message = quoted(request.path.as_str());
    message.append(" is not /msmq/<queue>");
    Err(protocol_error(message))
}

/// The bytes of the first of `parts` that goes by `id`.
fn find_attachment(parts: &Vec<Part>, id: &str) -> (bytes: Option<Vec<u8>>)
    ensures
        match bytes {
            Some(b) => attachment(parts_seen(parts@), id@) == Some(b@),
            None => attachment(parts_seen(parts@), id@) is None,
        },
{
    let ghost all = parts_seen(parts@);
    let mut i: usize = 0;
    assert(all.skip(0) =~= all);
    while i < parts.len()
        invariant
            i <= parts@.len(),
            all == parts_seen(parts@),
            attachment(all, id@) == attachment(all.skip(i as int), id@),
        decreases parts@.len() - i,
    {
        assert(all.skip(i as int)[0] == parts@[i as int]@);
        assert(all.skip(i as int).drop_first() =~= all.skip(i + 1));
        if let Some(own) = parts[i].content_id() {
            if same(own, id) {
                return Some(slice_to_vec(parts[i].bytes.as_slice()));
            }
        }
        i = i + 1;
    }
    None
}

/// The Stream a request carries, with the queue and id it carries it under; or the refusal where the
/// request is not a POST to `/msmq/<queue>`, not `multipart/related`, carries no SRMP envelope, or
/// names an attachment that is not there.
pub fn take<M, P, R, F, U>(request: &Request, reader: &Reader<M, P, R, F, U>) -> (arrived: Result<
    Arrived,
    TransportError,
>) where
    M: Fn(&str) -> String,
    P: for <'a, 'b>Fn(&'a str, &'b str) -> Option<&'a str>,
    R: Fn(&[u8], &str) -> Result<Vec<Part>, String>,
    F: Fn(&str, &str) -> Result<Option<String>, TransportError>,
    U: Fn(&str) -> Result<String, TransportError>,

    requires
        reader.total(),
    ensures
        posted_to(request@) matches Err(error) ==> seen(arrived) == Err::<ArrivedView, Refusal>(
            error,
        ),
        forall|model: ReaderModel| #[trigger]
            reader.follows(model) ==> seen(arrived) == taken(request@, model),
{
    let queue = match queue_of(request) {
        Ok(queue) => queue,
        Err(error) => {
            return Err(error);
        },
    };
    let content_type = match request.header_value("Content-Type") {
        Some(value) => value,
        None => {
            proof {
                reveal_strlit("");
            }
            assert(""@ =~= Seq::<char>::empty());
            ""
        },
    };
    let boundary = match mime::boundary_of(content_type, &reader.media_type, &reader.parameter) {
        Ok(boundary) => boundary,
        Err(error) => {
            return Err(error);
        },
    };
    let parts = match mime::parts(boundary, request.body.as_slice(), &reader.read) {
        Ok(parts) => parts,
        Err(error) => {
            return Err(error);
        },
    };
    if parts.len() == 0 {
        return Err(protocol_error("a message with no envelope".to_owned()));
    }
    let xml = from_utf8_lossy(parts[0].bytes.as_slice());
    assert(parts_seen(parts@)[0].bytes == parts@[0].bytes@);
    let envelope = match envelope::parse(xml.as_str(), &reader.first, &reader.unescape) {
        Ok(envelope) => envelope,
        Err(error) => {
            return Err(error);
        },
    };
    let bytes = match find_attachment(&parts, envelope.body_id.as_str()) {
        Some(bytes) => bytes,
        None => {
            let mut message = "no attachment ".to_owned();
            message.append(quoted(envelope.body_id.as_str()).as_str());
            return Err(protocol_error(message));
        },
    };
    let host = match request.header_value("Host") {
        Some(host) => host,
        None => "localhost",
    };
    let mut origin_uri = "msmq://".to_owned();
    origin_uri.append(host);
    origin_uri.append("/");
    origin_uri.append(queue);
    origin_uri.append("#");
    origin_uri.append(envelope.id.as_str());
    Ok(Arrived { origin_uri, bytes })
}

} // verus!
