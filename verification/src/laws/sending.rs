//! What a message is composed of, where it is posted, and what the queue's answer means.
use vstd::prelude::*;
use vstd::utf8::encode_utf8;

use crate::codec::WriterModel;
use crate::envelope::{envelope_for, envelope_text};
use crate::error::Refusal;
use crate::laws::texts::law_alike_is_letter_by_letter;
use crate::lemmas::lemma_first_mark;
use crate::message::{value_under, RequestView};
use crate::mime::{content_type_of, srmp_part, PartView};
use crate::number::{decimal, lemma_decimal, value_of};
use crate::target::queue_url_of;
use crate::text::{after, before};
use crate::transport::{
    body_id, composed, envelope_id, is_delivered, message_id, message_parts, posted, round_target,
    too_large, PostingView, TransportView,
};

verus! {

/// `text` is `n` in decimal: nothing but digits, no zero before others, and they write `n`.
pub open spec fn writes_number(text: Seq<char>, n: nat) -> bool {
    &&& text.len() > 0
    &&& forall|i: int| 0 <= i < text.len() ==> '0' <= #[trigger] text[i] <= '9'
    &&& text.len() > 1 ==> text[0] != '0'
    &&& value_of(text) == n
}

/// A number in decimal is nothing but digits, no zero before others, that write the number.
pub proof fn law_decimal_writes_the_number(n: nat)
    ensures
        writes_number(decimal(n), n),
    decreases n,
{
    lemma_decimal(n);
    if n >= 10 {
        law_decimal_writes_the_number(n / 10);
        lemma_decimal(n / 10);
        let head = decimal(n / 10);
        assert(decimal(n)[0] == head[0]);
        if head.len() == 1 && head[0] == '0' {
            assert(head =~= seq!['0']);
            reveal_with_fuel(value_of, 2);
            assert(head.drop_last() =~= Seq::<char>::empty());
        }
    }
}

/// `part` is one that carries `bytes` under `content_id`, as `content_type`: its headers say so, the
/// id in angle brackets, and the length they give is the number of bytes that it carries.
pub open spec fn is_part(
    part: PartView,
    content_type: Seq<char>,
    content_id: Seq<char>,
    bytes: Seq<u8>,
) -> bool {
    &&& part.bytes == bytes
    &&& part.content_id == Some(content_id)
    &&& part.headers.len() == 3
    &&& part.headers[0] == ("Content-Type"@, content_type)
    &&& part.headers[1] == ("Content-Id"@, seq!['<'] + content_id + seq!['>'])
    &&& part.headers[2].0 == "Content-Length"@
    &&& writes_number(part.headers[2].1, bytes.len())
}

/// Every part says what it carries, and how much of it.
pub proof fn law_part_says_what_it_carries(
    content_type: Seq<char>,
    content_id: Seq<char>,
    bytes: Seq<u8>,
)
    ensures
        is_part(srmp_part(content_type, content_id, bytes), content_type, content_id, bytes),
{
    law_decimal_writes_the_number(bytes.len());
    reveal_strlit("<");
    reveal_strlit(">");
    assert("<"@ + content_id + ">"@ =~= seq!['<'] + content_id + seq!['>']);
}

/// The length that is found in the headers of a part, under its name in any case, is the number of
/// bytes that the part carries.
pub proof fn law_length_is_found_in_the_headers(
    content_type: Seq<char>,
    content_id: Seq<char>,
    bytes: Seq<u8>,
)
    ensures
        value_under(
            srmp_part(content_type, content_id, bytes).headers,
            "Content-Length"@,
        ) matches Some(length) && writes_number(length, bytes.len()),
        value_under(srmp_part(content_type, content_id, bytes).headers, "Content-Type"@) == Some(
            content_type,
        ),
{
    law_part_says_what_it_carries(content_type, content_id, bytes);
    let headers = srmp_part(content_type, content_id, bytes).headers;
    reveal_strlit("Content-Type");
    reveal_strlit("Content-Id");
    reveal_strlit("Content-Length");
    reveal_with_fuel(value_under, 4);
    law_alike_is_letter_by_letter("Content-Length"@, "Content-Length"@);
    law_alike_is_letter_by_letter("Content-Type"@, "Content-Type"@);
    assert(headers.drop_first()[0] == headers[1]);
    assert(headers.drop_first().drop_first()[0] == headers[2]);
}

/// The `Content-Type` of a message names the boundary in quotes, between these two texts.
pub proof fn law_content_type_names_the_boundary(boundary: Seq<char>)
    ensures
        content_type_of(boundary) == "multipart/related; boundary=\""@ + boundary
            + "\"; type=\"text/xml\""@,
{
}

/// The boundary that a `Content-Type` was made with stands in it between the quotes that follow
/// `boundary=`.
pub proof fn law_boundary_stands_in_quotes(boundary: Seq<char>)
    requires
        forall|i: int| 0 <= i < boundary.len() ==> #[trigger] boundary[i] != '"',
    ensures
        after(content_type_of(boundary), "boundary=\""@) matches Some(rest) && before(rest, "\""@)
            == boundary,
{
    reveal_strlit("multipart/related; boundary=\"");
    reveal_strlit("\"; type=\"text/xml\"");
    reveal_strlit("boundary=\"");
    reveal_strlit("\"");
    let whole = "multipart/related; boundary=\""@;
    let head = whole.take(19);
    let rest = boundary + "\"; type=\"text/xml\""@;
    let tail = "\"; type=\"text/xml\""@.skip(1);
    assert(whole =~= head + "boundary=\""@);
    assert(content_type_of(boundary) =~= head + "boundary=\""@ + rest);
    assert(rest =~= boundary + "\""@ + tail);
    lemma_first_mark(head, "boundary=\""@, rest);
    lemma_first_mark(boundary, "\""@, tail);
}

/// The ids of a message are its number between a word of their own and `@` with the host.
pub proof fn law_ids_are_made_of_number_and_host(n: u64, host: Seq<char>)
    ensures
        message_id(n, host) == "uuid:"@ + decimal(n as nat) + "@"@ + host,
        body_id(n, host) == "body"@ + decimal(n as nat) + "@"@ + host,
        envelope_id(n, host) == "envelope"@ + decimal(n as nat) + "@"@ + host,
{
}

/// `parts` are those of the message with the number `n` from `host`: two of them, first the envelope
/// of the message to `url`, which refers to the other by its id, and then the Stream.
pub open spec fn are_message_parts(
    parts: Seq<PartView>,
    n: u64,
    host: Seq<char>,
    url: Seq<char>,
    bytes: Seq<u8>,
    sent_at: u64,
    escape: spec_fn(Seq<char>) -> Seq<char>,
) -> bool {
    let number = decimal(n as nat);
    let attached = "body"@ + number + "@"@ + host;
    let envelope = envelope_for("uuid:"@ + number + "@"@ + host, url, attached, sent_at);
    &&& parts.len() == 2
    &&& is_part(
        parts[0],
        "text/xml"@,
        "envelope"@ + number + "@"@ + host,
        encode_utf8(envelope_text(envelope, escape)),
    )
    &&& is_part(parts[1], "application/octet-stream"@, attached, bytes)
}

/// A message has two parts, its envelope and its Stream, and both say what they carry.
pub proof fn law_message_is_envelope_and_stream(
    n: u64,
    host: Seq<char>,
    url: Seq<char>,
    bytes: Seq<u8>,
    sent_at: u64,
    escape: spec_fn(Seq<char>) -> Seq<char>,
)
    ensures
        are_message_parts(
            message_parts(n, host, url, bytes, sent_at, escape),
            n,
            host,
            url,
            bytes,
            sent_at,
            escape,
        ),
{
    law_ids_are_made_of_number_and_host(n, host);
    let envelope = envelope_for(message_id(n, host), url, body_id(n, host), sent_at);
    law_part_says_what_it_carries(
        "text/xml"@,
        envelope_id(n, host),
        encode_utf8(envelope_text(envelope, escape)),
    );
    law_part_says_what_it_carries("application/octet-stream"@, body_id(n, host), bytes);
}

/// `request` is the POST to `path` at `authority` whose body is made of `parts`.
pub open spec fn is_post(
    request: RequestView,
    authority: Seq<char>,
    path: Seq<char>,
    parts: Seq<PartView>,
    write: spec_fn(Seq<char>, Seq<PartView>) -> Seq<u8>,
) -> bool {
    &&& request.method == "POST"@
    &&& request.path == path
    &&& request.headers.len() == 4
    &&& request.headers[0] == ("Host"@, authority)
    &&& request.headers[1] == (
        "Content-Type"@,
        "multipart/related; boundary=\""@ + "MSMQ - SOAP boundary, 12345"@
            + "\"; type=\"text/xml\""@,
    )
    &&& request.headers[2] == ("SOAPAction"@, "\"MSMQMessage\""@)
    &&& request.headers[3] == ("Proxy-Accept"@, "NonInteractiveClient"@)
    &&& request.body == write("MSMQ - SOAP boundary, 12345"@, parts)
}

/// A Stream is refused exactly where it is over 4194304 bytes, with both numbers in the reason, or
/// where the URL is; any other is carried by a POST to the host and path that the URL is taken apart
/// into, as the second of the two parts of the message with the transport's number.
pub proof fn law_stream_is_posted_as_one_message(
    transport: TransportView,
    url: Seq<char>,
    bytes: Seq<u8>,
    sent_at: u64,
    writer: WriterModel,
)
    ensures
        ({
            let request = composed(transport, url, bytes, sent_at, writer);
            if bytes.len() > 4194304 {
                &&& request matches Err(error) && !error.retryable && exists|
                    length: Seq<char>,
                | #[trigger]
                    writes_number(length, bytes.len()) && error.message == length
                        + " bytes is over the "@ + "4194304"@ + " one MSMQ message carries"@
            } else {
                match (writer.target)(url) {
                    Err(error) => request == Err::<RequestView, Refusal>(error),
                    Ok(target) => request matches Ok(post) && exists|parts: Seq<PartView>| #[trigger]
                        are_message_parts(
                            parts,
                            transport.next,
                            transport.host,
                            url,
                            bytes,
                            sent_at,
                            writer.escape,
                        ) && is_post(post, target.authority, target.path, parts, writer.write),
                }
            }
        }),
{
    if bytes.len() > 4194304 {
        law_decimal_writes_the_number(bytes.len());
        lemma_ceiling();
    } else if let Ok(target) = (writer.target)(url) {
        let parts = message_parts(
            transport.next,
            transport.host,
            url,
            bytes,
            sent_at,
            writer.escape,
        );
        law_message_is_envelope_and_stream(
            transport.next,
            transport.host,
            url,
            bytes,
            sent_at,
            writer.escape,
        );
        let post = composed(transport, url, bytes, sent_at, writer)->Ok_0;
        assert(is_post(post, target.authority, target.path, parts, writer.write));
    }
}

proof fn lemma_ceiling()
    ensures
        decimal(4194304) == "4194304"@,
{
    reveal_strlit("4194304");
    reveal_with_fuel(decimal, 8);
    assert(decimal(4194304) =~= "4194304"@);
}

/// The reason that a Stream is too large for gives its length and the ceiling.
pub proof fn law_too_large_gives_both_numbers(len: nat)
    ensures
        too_large(len).message == decimal(len) + " bytes is over the "@ + "4194304"@
            + " one MSMQ message carries"@,
        too_large(len).retryable == false,
{
    lemma_ceiling();
}

/// What is posted for a target is what is composed for the URL of its queue, and goes to that URL;
/// nothing is posted where either is refused.
pub proof fn law_target_is_posted_to_at_its_url(
    transport: TransportView,
    target: Seq<char>,
    bytes: Seq<u8>,
    sent_at: u64,
    writer: WriterModel,
)
    ensures
        ({
            let posting = posted(transport, target, bytes, sent_at, writer);
            match queue_url_of(target) {
                Err(error) => posting == Err::<PostingView, Refusal>(error),
                Ok(url) => match composed(transport, url, bytes, sent_at, writer) {
                    Err(error) => posting == Err::<PostingView, Refusal>(error),
                    Ok(request) => posting matches Ok(p) && p.url == url && p.request == request,
                },
            }
        }),
{
}

/// A queue has taken a message exactly where it answers with one of the statuses from 200 to 299: no
/// other answer, such as that there is no such queue, is taken for a delivery.
pub proof fn law_only_success_is_delivery(status: u16)
    ensures
        200 <= status <= 299 ==> is_delivered(status),
        status < 200 ==> !is_delivered(status),
        status >= 300 ==> !is_delivered(status),
{
}

/// A loopback round goes to the queue `round-trip` at the far end's address.
pub proof fn law_round_goes_to_round_trip(address: Seq<char>)
    ensures
        round_target(address) == "msmq://"@ + address + "/"@ + "round-trip"@,
{
    reveal_strlit("/");
    reveal_strlit("round-trip");
    reveal_strlit("/round-trip");
    assert(round_target(address) =~= "msmq://"@ + address + "/"@ + "round-trip"@);
}

} // verus!
