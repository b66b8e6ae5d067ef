//! What is seen of a value is what it holds, and the functions handed in are taken at their word.
use vstd::prelude::*;

use crate::codec::{targets_as, writes_as, Reader, ReaderModel, Writer, WriterModel};
use crate::envelope::{element_seen, envelope_for, escapes_as, finds_as, unescapes_as, Envelope};
use crate::error::{refusal, seen, Refusal, TransportError};
use crate::message::{
    lines, optional, Arrived, ArrivedView, Header, HttpTarget, HttpTargetView, Request, Response,
};
use crate::mime::{
    optional_string, parameters_as, parts_or_reason, parts_result, parts_seen, reads_as, types_as,
    Part, PartView,
};
use crate::target::or_empty;
use crate::transport::{counted, fresh, Accepted, Posting, TransportView};

verus! {

/// Header lines are seen one for one, each with its name and its value.
pub proof fn law_headers_are_seen_whole(headers: Seq<Header>)
    ensures
        lines(headers).len() == headers.len(),
        forall|i: int|
            0 <= i < headers.len() ==> {
                &&& (#[trigger] lines(headers)[i]).0 == headers[i].name@
                &&& lines(headers)[i].1 == headers[i].value@
            },
{
}

/// A request is seen with all it holds.
pub proof fn law_request_is_seen_whole(request: Request)
    ensures
        request@.method == request.method@,
        request@.path == request.path@,
        request@.headers == lines(request.headers@),
        request@.body == request.body@,
{
}

/// An answer, a Stream with its origin, and the two halves of a URL are seen with all they hold.
pub proof fn law_messages_are_seen_whole(response: Response, arrived: Arrived, target: HttpTarget)
    ensures
        response@.status == response.status,
        response@.body == response.body@,
        arrived@.origin_uri == arrived.origin_uri@,
        arrived@.bytes == arrived.bytes@,
        target@.authority == target.authority@,
        target@.path == target.path@,
{
}

/// A part is seen with all it holds, and parts one for one.
pub proof fn law_parts_are_seen_whole(part: Part, parts: Seq<Part>)
    ensures
        part@.headers == lines(part.headers@),
        part@.content_id is Some <==> part.content_id is Some,
        part.content_id matches Some(id) ==> part@.content_id == Some(id@),
        part@.bytes == part.bytes@,
        parts_seen(parts).len() == parts.len(),
        forall|i: int| 0 <= i < parts.len() ==> #[trigger] parts_seen(parts)[i] == parts[i]@,
{
}

/// An envelope is seen with all it holds.
pub proof fn law_envelope_is_seen_whole(envelope: Envelope)
    ensures
        envelope@.id == envelope.id@,
        envelope@.to == envelope.to@,
        envelope@.body_id == envelope.body_id@,
        envelope@.sent_at == envelope.sent_at,
        envelope@.expires_at == envelope.expires_at,
{
}

/// What is posted, and how a request is dealt with, are seen with all they hold.
pub proof fn law_postings_are_seen_whole(posting: Posting, dealt: Accepted)
    ensures
        posting@.url == posting.url@,
        posting@.request == posting.request@,
        dealt@.response is Some <==> dealt.response is Some,
        dealt.response matches Some(response) ==> dealt@.response == Some(response@),
        dealt.outcome matches Ok(arrived) ==> dealt@.outcome == Ok::<ArrivedView, Refusal>(arrived@),
        dealt.outcome matches Err(error) ==> dealt@.outcome == Err::<ArrivedView, Refusal>(error@),
{
}

/// A refusal is seen with its reason and with whether to try again; the library's own refusals carry
/// the reason they are given, and never invite another attempt.
pub proof fn law_refusal_is_seen_whole(error: TransportError, message: Seq<char>)
    ensures
        error@.message == error.message@,
        error@.retryable == error.retryable,
        refusal(message).message == message,
        refusal(message).retryable == false,
{
}

/// Of a result the side is seen that it has.
pub proof fn law_result_is_seen_by_its_side<T: View, E: View>(value: T, error: E)
    ensures
        seen(Ok::<T, E>(value)) == Ok::<T::V, E::V>(value@),
        seen(Err::<T, E>(error)) == Err::<T::V, E::V>(error@),
{
}

/// A text that may be missing is seen as the text it is, or as missing.
pub proof fn law_optional_text_is_seen(text: &str, string: String, value: Seq<char>)
    ensures
        optional(Some(text)) == Some(text@),
        optional(None) is None,
        optional_string(Some(string)) == Some(string@),
        optional_string(None) is None,
        or_empty(Some(value)) == value,
        or_empty(None).len() == 0,
        element_seen(Ok(Some(string))) == Ok::<Option<Seq<char>>, Refusal>(Some(string@)),
        element_seen(Ok(None)) == Ok::<Option<Seq<char>>, Refusal>(None),
{
}

/// What a search or a multipart reader refuses is seen as the refusal it is, and parts as the parts.
pub proof fn law_answers_are_seen(parts: Vec<Part>, reason: String, error: TransportError)
    ensures
        element_seen(Err(error)) == Err::<Option<Seq<char>>, Refusal>(error@),
        parts_or_reason(Ok(parts)) == Ok::<Seq<PartView>, Seq<char>>(parts_seen(parts@)),
        parts_or_reason(Err(reason)) == Err::<Seq<PartView>, Seq<char>>(reason@),
        parts_result(Ok(parts)) == Ok::<Seq<PartView>, Refusal>(parts_seen(parts@)),
        parts_result(Err(error)) == Err::<Seq<PartView>, Refusal>(error@),
{
}

/// A new transport has sent nothing, so that its first message has the number 1, and listens, signs
/// and waits as it is told.
pub proof fn law_new_transport_begins_at_one(
    bind: Seq<char>,
    host: Seq<char>,
    timeout: Option<std::time::Duration>,
)
    ensures
        fresh(bind, host, timeout).bind == bind,
        fresh(bind, host, timeout).host == host,
        fresh(bind, host, timeout).next == 1,
        fresh(bind, host, timeout).timeout == timeout,
{
}

/// Each message counts the transport up by one, round 64 bits, and changes nothing else.
pub proof fn law_each_message_counts_one(transport: TransportView)
    ensures
        counted(transport).next == (transport.next + 1) % 18446744073709551616,
        counted(transport).bind == transport.bind,
        counted(transport).host == transport.host,
        counted(transport).timeout == transport.timeout,
{
}

/// An envelope is made of what it is given, and expires 2^32 - 1 seconds after it was sent, or at the
/// last second that 64 bits count where that comes first.
pub proof fn law_envelope_is_made_of_what_it_is_given(
    id: Seq<char>,
    to: Seq<char>,
    body_id: Seq<char>,
    sent_at: u64,
)
    ensures
        ({
            let envelope = envelope_for(id, to, body_id, sent_at);
            &&& envelope.id == id
            &&& envelope.to == to
            &&& envelope.body_id == body_id
            &&& envelope.sent_at == sent_at
            &&& envelope.expires_at - sent_at == 4294967295 || (envelope.expires_at
                == 18446744073709551615 && envelope.expires_at - sent_at < 4294967295)
        }),
{
}

/// A model says what an XML library's functions answer exactly where every answer they can give is
/// the one it says.
pub proof fn law_xml_functions_are_taken_at_their_word<E, F, U>(
    escape: E,
    first: F,
    unescape: U,
    e: spec_fn(Seq<char>) -> Seq<char>,
    f: spec_fn(Seq<char>, Seq<char>) -> Result<Option<Seq<char>>, Refusal>,
    u: spec_fn(Seq<char>) -> Result<Seq<char>, Refusal>,
) where
    E: Fn(&str) -> String,
    F: Fn(&str, &str) -> Result<Option<String>, TransportError>,
    U: Fn(&str) -> Result<String, TransportError>,

    ensures
        escapes_as(escape, e) <==> forall|text: &str, answer: String| #[trigger]
            call_ensures(escape, (text,), answer) ==> e(text@) == answer@,
        finds_as(first, f) <==> forall|
            xml: &str,
            name: &str,
            answer: Result<Option<String>, TransportError>,
        | #[trigger]
            call_ensures(first, (xml, name), answer) ==> match answer {
                Ok(Some(text)) => f(xml@, name@) == Ok::<Option<Seq<char>>, Refusal>(Some(text@)),
                Ok(None) => f(xml@, name@) == Ok::<Option<Seq<char>>, Refusal>(None),
                Err(error) => f(xml@, name@) == Err::<Option<Seq<char>>, Refusal>(
                    Refusal { message: error.message@, retryable: error.retryable },
                ),
            },
        unescapes_as(unescape, u) <==> forall|
            text: &str,
            answer: Result<String, TransportError>,
        | #[trigger]
            call_ensures(unescape, (text,), answer) ==> match answer {
                Ok(plain) => u(text@) == Ok::<Seq<char>, Refusal>(plain@),
                Err(error) => u(text@) == Err::<Seq<char>, Refusal>(
                    Refusal { message: error.message@, retryable: error.retryable },
                ),
            },
{
}

/// A model says what a MIME library's functions answer exactly where every answer they can give is
/// the one it says.
pub proof fn law_mime_functions_are_taken_at_their_word<M, P, R, W>(
    media_type: M,
    parameter: P,
    read: R,
    write: W,
    m: spec_fn(Seq<char>) -> Seq<char>,
    p: spec_fn(Seq<char>, Seq<char>) -> Option<Seq<char>>,
    r: spec_fn(Seq<u8>, Seq<char>) -> Result<Seq<PartView>, Seq<char>>,
    w: spec_fn(Seq<char>, Seq<PartView>) -> Seq<u8>,
) where
    M: Fn(&str) -> String,
    P: for <'a, 'b>Fn(&'a str, &'b str) -> Option<&'a str>,
    R: Fn(&[u8], &str) -> Result<Vec<Part>, String>,
    W: Fn(&str, &[Part]) -> Vec<u8>,

    ensures
        types_as(media_type, m) <==> forall|text: &str, answer: String| #[trigger]
            call_ensures(media_type, (text,), answer) ==> m(text@) == answer@,
        parameters_as(parameter, p) <==> forall|text: &str, name: &str, answer: Option<&str>|
         #[trigger]
            call_ensures(parameter, (text, name), answer) ==> match answer {
                Some(value) => p(text@, name@) == Some(value@),
                None => p(text@, name@) is None,
            },
        reads_as(read, r) <==> forall|
            body: &[u8],
            boundary: &str,
            answer: Result<Vec<Part>, String>,
        | #[trigger]
            call_ensures(read, (body, boundary), answer) ==> match answer {
                Ok(parts) => r(body@, boundary@) == Ok::<Seq<PartView>, Seq<char>>(
                    parts_seen(parts@),
                ),
                Err(reason) => r(body@, boundary@) == Err::<Seq<PartView>, Seq<char>>(reason@),
            },
        writes_as(write, w) <==> forall|boundary: &str, parts: &[Part], answer: Vec<u8>| #[trigger]
            call_ensures(write, (boundary, parts), answer) ==> w(boundary@, parts_seen(parts@))
                == answer@,
{
}

/// A model says what an HTTP library's function answers exactly where every answer it can give is the
/// one it says.
pub proof fn law_http_function_is_taken_at_its_word<T>(
    target: T,
    t: spec_fn(Seq<char>) -> Result<HttpTargetView, Refusal>,
) where T: Fn(&str) -> Result<HttpTarget, TransportError>
    ensures
        targets_as(target, t) <==> forall|url: &str, answer: Result<HttpTarget, TransportError>|
         #[trigger]
            call_ensures(target, (url,), answer) ==> match answer {
                Ok(parts) => t(url@) == Ok::<HttpTargetView, Refusal>(parts@),
                Err(error) => t(url@) == Err::<HttpTargetView, Refusal>(error@),
            },
{
}

/// A reader takes whatever its functions take, and follows a model where each of them does.
pub proof fn law_reader_is_its_functions<M, P, R, F, U>(
    reader: Reader<M, P, R, F, U>,
    model: ReaderModel,
) where
    M: Fn(&str) -> String,
    P: for <'a, 'b>Fn(&'a str, &'b str) -> Option<&'a str>,
    R: Fn(&[u8], &str) -> Result<Vec<Part>, String>,
    F: Fn(&str, &str) -> Result<Option<String>, TransportError>,
    U: Fn(&str) -> Result<String, TransportError>,

    ensures
        (forall|c: &str| #[trigger] call_requires(reader.media_type, (c,))) && (forall|
            c: &str,
            name: &str,
        | #[trigger] call_requires(reader.parameter, (c, name))) && (forall|
            body: &[u8],
            boundary: &str,
        | #[trigger] call_requires(reader.read, (body, boundary))) && (forall|xml: &str, name: &str|
         #[trigger] call_requires(reader.first, (xml, name))) && (forall|text: &str| #[trigger]
            call_requires(reader.unescape, (text,))) ==> reader.total(),
        types_as(reader.media_type, model.media_type) && parameters_as(
            reader.parameter,
            model.parameter,
        ) && reads_as(reader.read, model.read) && finds_as(reader.first, model.first)
            && unescapes_as(reader.unescape, model.unescape) ==> reader.follows(model),
{
}

/// A writer takes whatever its functions take, and follows a model where each of them does.
pub proof fn law_writer_is_its_functions<E, T, W>(writer: Writer<E, T, W>, model: WriterModel) where
    E: Fn(&str) -> String,
    T: Fn(&str) -> Result<HttpTarget, TransportError>,
    W: Fn(&str, &[Part]) -> Vec<u8>,

    ensures
        (forall|text: &str| #[trigger] call_requires(writer.escape, (text,))) && (forall|url: &str|
         #[trigger] call_requires(writer.target, (url,))) && (forall|
            boundary: &str,
            parts: &[Part],
        | #[trigger] call_requires(writer.write, (boundary, parts))) ==> writer.total(),
        escapes_as(writer.escape, model.escape) && targets_as(writer.target, model.target)
            && writes_as(writer.write, model.write) ==> writer.follows(model),
{
}

} // verus!
