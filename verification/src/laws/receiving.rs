//! What is taken out of a request, why one is refused, and what is answered.
use vstd::prelude::*;
use vstd::utf8::{encode_utf8, encode_utf8_decode_utf8, encode_utf8_valid_utf8};

use crate::codec::ReaderModel;
use crate::envelope::{envelope_in, EnvelopeView};
use crate::error::Refusal;
use crate::laws::envelopes::is_refusal;
use crate::laws::headers::law_other_headers_do_not_matter;
use crate::lemmas::lemma_begins;
use crate::message::{value_under, ArrivedView, RequestView};
use crate::mime::{boundary_named, parts_of, PartView};
use crate::receive::{attachment, carried, enveloped, origin, posted_to, taken};
use crate::text::{alike, quoted_text, text_of};
use crate::transport::{accepted, answer_to};

verus! {

/// A request posts to a queue exactly where it is a POST to `/msmq/` and the queue, which is not empty.
pub proof fn law_queue_is_what_follows_msmq(request: RequestView)
    ensures
        forall|queue: Seq<char>|
            queue.len() > 0 && request.path == #[trigger] ("/msmq/"@ + queue) && request.method
                == "POST"@ ==> posted_to(request) == Ok::<Seq<char>, Refusal>(queue),
        posted_to(request) matches Ok(queue) ==> request.method == "POST"@ && queue.len() > 0
            && request.path == "/msmq/"@ + queue,
        request.method != "POST"@ ==> is_refusal(
            posted_to(request),
            "a "@ + request.method + " where MSMQ POSTs"@,
        ),
        request.method == "POST"@ && posted_to(request) is Err ==> is_refusal(
            posted_to(request),
            quoted_text(request.path) + " is not /msmq/<queue>"@,
        ),
{
    reveal_strlit("/msmq/");
    assert forall|queue: Seq<char>|
        queue.len() > 0 && request.path == #[trigger] ("/msmq/"@ + queue) && request.method
            == "POST"@ implies posted_to(request) == Ok::<Seq<char>, Refusal>(queue) by {
        lemma_begins("/msmq/"@, queue);
    }
    if let Ok(queue) = posted_to(request) {
        assert(request.path =~= "/msmq/"@ + queue);
    }
}

/// The boundary is the parameter of that name, where the type is `multipart/related` and the parameter
/// is there and not empty; a `Content-Type` that names none is refused.
pub proof fn law_boundary_is_the_parameter(
    content_type: Seq<char>,
    media_type: spec_fn(Seq<char>) -> Seq<char>,
    parameter: spec_fn(Seq<char>, Seq<char>) -> Option<Seq<char>>,
    boundary: Seq<char>,
)
    ensures
        boundary_named(content_type, media_type, parameter) == Ok::<Seq<char>, Refusal>(boundary)
            <==> media_type(content_type) == "multipart/related"@ && parameter(
            content_type,
            "boundary"@,
        ) == Some(boundary) && boundary.len() > 0,
        media_type(content_type) != "multipart/related"@ ==> is_refusal(
            boundary_named(content_type, media_type, parameter),
            "an SRMP message is multipart/related, not "@ + quoted_text(content_type),
        ),
        media_type(content_type) == "multipart/related"@ && boundary_named(
            content_type,
            media_type,
            parameter,
        ) is Err ==> is_refusal(
            boundary_named(content_type, media_type, parameter),
            "a multipart type naming no boundary"@,
        ),
{
}

/// The parts of a body are those that the multipart reader finds, and its reason is handed on where it
/// finds none.
pub proof fn law_parts_are_those_that_are_read(
    boundary: Seq<char>,
    body: Seq<u8>,
    read: spec_fn(Seq<u8>, Seq<char>) -> Result<Seq<PartView>, Seq<char>>,
)
    ensures
        read(body, boundary) matches Ok(parts) ==> parts_of(boundary, body, read) == Ok::<
            Seq<PartView>,
            Refusal,
        >(parts),
        read(body, boundary) matches Err(reason) ==> is_refusal(
            parts_of(boundary, body, read),
            reason,
        ),
{
}

/// The attachment of an id is what the first part of that id carries, wherever it stands and however
/// many parts there are; and there is none only where no part has the id.
pub proof fn law_first_part_of_an_id_is_the_attachment(parts: Seq<PartView>, id: Seq<char>)
    ensures
        forall|i: int|
            0 <= i < parts.len() && (#[trigger] parts[i]).content_id == Some(id) && (forall|j: int|
                0 <= j < i ==> (#[trigger] parts[j]).content_id != Some(id)) ==> attachment(
                parts,
                id,
            ) == Some(parts[i].bytes),
        attachment(parts, id) is None <==> forall|i: int|
            0 <= i < parts.len() ==> (#[trigger] parts[i]).content_id != Some(id),
    decreases parts.len(),
{
    if parts.len() > 0 {
        let rest = parts.drop_first();
        law_first_part_of_an_id_is_the_attachment(rest, id);
        assert forall|i: int|
            0 <= i < parts.len() && (#[trigger] parts[i]).content_id == Some(id) && (forall|j: int|
                0 <= j < i ==> (#[trigger] parts[j]).content_id != Some(id)) implies attachment(
            parts,
            id,
        ) == Some(parts[i].bytes) by {
            if i > 0 {
                assert(parts[0].content_id != Some(id));
                assert(rest[i - 1] == parts[i]);
                assert forall|j: int| 0 <= j < i - 1 implies (#[trigger] rest[j]).content_id != Some(
                    id,
                ) by {
                    assert(rest[j] == parts[j + 1]);
                }
            }
        }
        if attachment(parts, id) is None {
            assert forall|i: int| 0 <= i < parts.len() implies (#[trigger] parts[i]).content_id
                != Some(id) by {
                if i > 0 {
                    assert(rest[i - 1] == parts[i]);
                }
            }
        } else if forall|i: int|
            0 <= i < parts.len() ==> (#[trigger] parts[i]).content_id != Some(id) {
            assert(parts[0].content_id != Some(id));
            assert forall|i: int| 0 <= i < rest.len() implies (#[trigger] rest[i]).content_id
                != Some(id) by {
                assert(rest[i] == parts[i + 1]);
            }
        }
    }
}

/// A message comes from the queue at the host that the request names, `localhost` where it names none,
/// with the message id as the fragment.
pub proof fn law_origin_is_queue_and_id(host: Seq<char>, queue: Seq<char>, id: Seq<char>)
    ensures
        origin(Some(host), queue, id) == "msmq://"@ + host + "/"@ + queue + "#"@ + id,
        origin(None, queue, id) == "msmq://"@ + "localhost"@ + "/"@ + queue + "#"@ + id,
{
}

/// The value of a header, or an empty one where there is none.
pub open spec fn value_or_empty(value: Option<Seq<char>>) -> Seq<char> {
    match value {
        Some(value) => value,
        None => Seq::empty(),
    }
}

/// A request that is not a POST to `/msmq/` and a queue is refused.
pub proof fn law_what_is_not_posted_to_a_queue_is_refused(request: RequestView, reader: ReaderModel)
    ensures
        request.method != "POST"@ ==> is_refusal(
            taken(request, reader),
            "a "@ + request.method + " where MSMQ POSTs"@,
        ),
        request.method == "POST"@ && (forall|queue: Seq<char>|
            queue.len() > 0 ==> request.path != #[trigger] ("/msmq/"@ + queue)) ==> is_refusal(
            taken(request, reader),
            quoted_text(request.path) + " is not /msmq/<queue>"@,
        ),
{
    law_queue_is_what_follows_msmq(request);
    if request.method == "POST"@ && (forall|queue: Seq<char>|
        queue.len() > 0 ==> request.path != #[trigger] ("/msmq/"@ + queue)) {
        if let Ok(queue) = posted_to(request) {
            assert(request.path == "/msmq/"@ + queue);
        }
    }
}

/// A POST to a queue that does not carry a message is refused for the first thing that is wrong with
/// it, in this order: the type is not `multipart/related`, it names no boundary, the body is not the
/// multipart it says, there is no part in it, or the first part carries no envelope.
pub proof fn law_what_carries_no_message_is_refused(
    request: RequestView,
    queue: Seq<char>,
    reader: ReaderModel,
)
    requires
        request.method == "POST"@,
        request.path == "/msmq/"@ + queue,
        queue.len() > 0,
    ensures
        ({
            let result = taken(request, reader);
            let content_type = value_or_empty(value_under(request.headers, "Content-Type"@));
            if (reader.media_type)(content_type) != "multipart/related"@ {
                is_refusal(
                    result,
                    "an SRMP message is multipart/related, not "@ + quoted_text(content_type),
                )
            } else {
                match (reader.parameter)(content_type, "boundary"@) {
                    None => is_refusal(result, "a multipart type naming no boundary"@),
                    Some(boundary) => if boundary.len() == 0 {
                        is_refusal(result, "a multipart type naming no boundary"@)
                    } else {
                        match (reader.read)(request.body, boundary) {
                            Err(reason) => is_refusal(result, reason),
                            Ok(parts) => if parts.len() == 0 {
                                is_refusal(result, "a message with no envelope"@)
                            } else {
                                envelope_in(
                                    text_of(parts[0].bytes),
                                    reader.first,
                                    reader.unescape,
                                ) matches Err(error) ==> result == Err::<ArrivedView, Refusal>(
                                    error,
                                )
                            },
                        }
                    },
                }
            }
        }),
{
    law_queue_is_what_follows_msmq(request);
}

/// `request` is a POST to `queue` whose body holds `parts`, of which the first carries `envelope`.
pub open spec fn carries(
    request: RequestView,
    queue: Seq<char>,
    parts: Seq<PartView>,
    envelope: EnvelopeView,
    reader: ReaderModel,
) -> bool {
    let content_type = value_or_empty(value_under(request.headers, "Content-Type"@));
    &&& request.method == "POST"@
    &&& request.path == "/msmq/"@ + queue
    &&& queue.len() > 0
    &&& (reader.media_type)(content_type) == "multipart/related"@
    &&& (reader.parameter)(content_type, "boundary"@) matches Some(boundary) && boundary.len() > 0
        && (reader.read)(request.body, boundary) == Ok::<Seq<PartView>, Seq<char>>(parts)
    &&& parts.len() > 0
    &&& envelope_in(text_of(parts[0].bytes), reader.first, reader.unescape) == Ok::<
        EnvelopeView,
        Refusal,
    >(envelope)
}

/// A request that carries a message is taken as the bytes of the first part that goes by the id its
/// envelope names, from the queue at the host it names with the message id as the fragment; and
/// refused only where no part goes by that id.
pub proof fn law_message_is_taken_as_its_attachment(
    request: RequestView,
    queue: Seq<char>,
    parts: Seq<PartView>,
    envelope: EnvelopeView,
    reader: ReaderModel,
)
    requires
        carries(request, queue, parts, envelope, reader),
    ensures
        forall|i: int|
            0 <= i < parts.len() && (#[trigger] parts[i]).content_id == Some(envelope.body_id) && (
            forall|j: int|
                0 <= j < i ==> (#[trigger] parts[j]).content_id != Some(envelope.body_id))
                ==> (taken(request, reader) matches Ok(arrived) && arrived.bytes == parts[i].bytes),
        (forall|i: int|
            0 <= i < parts.len() ==> (#[trigger] parts[i]).content_id != Some(envelope.body_id))
            ==> is_refusal(
            taken(request, reader),
            "no attachment "@ + quoted_text(envelope.body_id),
        ),
        taken(request, reader) matches Ok(arrived) ==> arrived.origin_uri == "msmq://"@ + (
        match value_under(request.headers, "Host"@) {
            Some(host) => host,
            None => "localhost"@,
        }) + "/"@ + queue + "#"@ + envelope.id,
{
    law_queue_is_what_follows_msmq(request);
    law_first_part_of_an_id_is_the_attachment(parts, envelope.body_id);
}

/// What is taken was carried: nothing is made of a request that does not carry a message.
pub proof fn law_what_is_taken_was_carried(request: RequestView, reader: ReaderModel)
    ensures
        taken(request, reader) is Ok ==> exists|
            queue: Seq<char>,
            parts: Seq<PartView>,
            envelope: EnvelopeView,
        | #[trigger] carries(request, queue, parts, envelope, reader),
{
    if taken(request, reader) is Ok {
        law_queue_is_what_follows_msmq(request);
        let queue = posted_to(request)->Ok_0;
        let parts = carried(request, reader)->Ok_0;
        let envelope = enveloped(parts, reader)->Ok_0;
        assert(carries(request, queue, parts, envelope, reader));
    }
}

/// Header lines of other names than the two that are read change nothing, wherever they are put and
/// however many they are: what is taken is still taken, as what it was, and what is refused is still
/// refused.
pub proof fn law_other_headers_change_nothing(
    request: RequestView,
    a: Seq<(Seq<char>, Seq<char>)>,
    others: Seq<(Seq<char>, Seq<char>)>,
    b: Seq<(Seq<char>, Seq<char>)>,
    reader: ReaderModel,
)
    requires
        request.headers == a + b,
        forall|i: int|
            0 <= i < others.len() ==> !alike((#[trigger] others[i]).0, "Content-Type"@) && !alike(
                others[i].0,
                "Host"@,
            ),
    ensures
        taken(RequestView { headers: a + others + b, ..request }, reader) == taken(request, reader),
{
    law_other_headers_do_not_matter(a, others, b, "Content-Type"@);
    law_other_headers_do_not_matter(a, others, b, "Host"@);
}

/// A request is answered `200` and nothing more where a Stream is taken from it, `400` with the reason
/// where it is refused; a connection that sent none is not answered.
pub proof fn law_answer_is_200_or_400(request: RequestView, reader: ReaderModel)
    ensures
        accepted(Some(request), reader).outcome == taken(request, reader),
        accepted(Some(request), reader).response == Some(answer_to(taken(request, reader))),
        taken(request, reader) is Ok ==> {
            &&& answer_to(taken(request, reader)).status == 200
            &&& answer_to(taken(request, reader)).body.len() == 0
        },
        taken(request, reader) matches Err(error) ==> {
            &&& answer_to(taken(request, reader)).status == 400
            &&& answer_to(taken(request, reader)).body == encode_utf8(error.message)
        },
        accepted(None, reader).response is None,
        is_refusal(accepted(None, reader).outcome, "a connection that sent no request"@),
{
}

/// An outcome is answered by what it is: `200` for every Stream, `400` with the reason for every
/// refusal.
pub proof fn law_outcome_is_answered_by_what_it_is(arrived: ArrivedView, error: Refusal)
    ensures
        answer_to(Ok(arrived)).status == 200,
        answer_to(Ok(arrived)).body.len() == 0,
        answer_to(Err(error)).status == 400,
        text_of(answer_to(Err(error)).body) == error.message,
{
    encode_utf8_valid_utf8(error.message);
    encode_utf8_decode_utf8(error.message);
}

} // verus!
