//! What holds of the library as a whole.
//!
//! The modules below say of each of its operations what comes out for what goes in, from searching
//! texts ([`texts`]) to taking a message in ([`receiving`]) and sending one ([`sending`]); the laws
//! here relate the operations to each other.
use vstd::prelude::*;
use vstd::utf8::{encode_utf8, encode_utf8_decode_utf8, encode_utf8_valid_utf8};

use crate::codec::{ReaderModel, WriterModel};
use crate::envelope::{
    envelope_for, envelope_in, envelope_text, is_url, path_in, queue_in, EnvelopeView, ACTION,
};
use crate::error::Refusal;
use crate::lemmas::{
    lemma_begins, lemma_first_mark, lemma_no_slash, lemma_not_begins, lemma_not_begins_alike,
    lemma_occurs_char, lemma_spelled, lemma_spelled_http, lemma_spelled_msmq,
};
use crate::composed::{
    lemma_envelope_holds_no_delimiter, lemma_library_reads_back, lemma_plain_boundary,
    lemma_round_texts, lemma_simple_authority, lemma_simple_ids, lemma_simple_is_proper,
    lemma_simple_near, lemma_simple_url,
};
use crate::libraries::{
    are_libraries, delimiter, fits, has_line, is_mime_library, is_xml_library, parts_read_back,
    plain_authority, plain_boundary, plain_queue, proper, same_attachments, simple, splits,
    types_read_back, writable,
};
use crate::message::{value_under, ArrivedView, HttpTargetView, RequestView};
use crate::mime::{boundary_named, content_type_of, srmp_part, PartView};
use crate::number::{decimal, law_decimal_reads_back, lemma_decimal};
use crate::receive::{attachment, carried, enveloped, posted_to, taken};
use crate::reference::{lemma_is_an_envelope, lemma_reference_in};
use crate::target::{or_empty, queue_url_of, spelled, url_of, without_direct, QueueView};
use crate::text::{
    after, alike, begins, begins_alike, free_of, index_of, lemma_first_at, lemma_index_of,
    occurs_at, text_of, trim_end,
};
use crate::transport::{
    accepted, body_id, composed, counted, envelope_id, fresh, is_delivered, message_id,
    message_parts, posted, round_target, TransportView, BOUNDARY,
};

pub mod envelopes;
pub mod headers;
pub mod numbers;
pub mod receiving;
pub mod sending;
pub mod targets;
pub mod texts;
pub mod values;

verus! {

/// The URL of the queue called `queue` at `authority`, guarded or not.
pub open spec fn plain_url(guarded: bool, authority: Seq<char>, queue: Seq<char>) -> Seq<char> {
    url_of(
        QueueView {
            scheme: if guarded {
                "https"@
            } else {
                "http"@
            },
            authority,
            queue,
        },
    )
}

/// Each of the forms of a target is read as the same URL: MSMQ's own, the HTTP URL in either case,
/// and the format name that begins with `DIRECT=` in either case; and so for the guarded forms.
pub proof fn law_forms_agree(
    guarded: bool,
    direct: Seq<char>,
    prefix: Seq<char>,
    authority: Seq<char>,
    queue: Seq<char>,
)
    requires
        direct.len() == 0 || alike(direct, "DIRECT="@),
        alike(
            prefix,
            if guarded {
                "https://"@
            } else {
                "http://"@
            },
        ),
        authority.len() > 0,
        queue.len() > 0,
        free_of(authority, '/'),
    ensures
        queue_url_of(direct + prefix + authority + "/msmq/"@ + queue) == Ok::<Seq<char>, Refusal>(
            plain_url(guarded, authority, queue),
        ),
        queue_url_of(
            (if guarded {
                "msmqs://"@
            } else {
                "msmq://"@
            }) + authority + "/"@ + queue,
        ) == Ok::<Seq<char>, Refusal>(plain_url(guarded, authority, queue)),
{
    lemma_spelled_http(direct, prefix, guarded, authority, queue);
    lemma_spelled_msmq(guarded, authority, queue);
}

/// A queue URL is itself a target, and the one that names it: reading it again changes nothing.
pub proof fn law_queue_url_is_settled(target: Seq<char>)
    ensures
        queue_url_of(target) matches Ok(url) ==> queue_url_of(url) == Ok::<Seq<char>, Refusal>(url),
{
    lemma_spelled(target);
    if let Ok(url) = queue_url_of(target) {
        let q = spelled(target)->0;
        reveal_strlit("http");
        reveal_strlit("https");
        reveal_strlit("http://");
        reveal_strlit("https://");
        reveal_strlit("://");
        let guarded = q.scheme == "https"@;
        let prefix = q.scheme + "://"@;
        if guarded {
            assert(prefix =~= "https://"@);
        } else {
            assert(prefix =~= "http://"@);
        }
        assert(url =~= Seq::<char>::empty() + prefix + q.authority + "/msmq/"@ + q.queue);
        lemma_spelled_http(Seq::empty(), prefix, guarded, q.authority, q.queue);
    }
}

/// `target` is in one of the guarded forms.
pub open spec fn is_guarded(target: Seq<char>) -> bool {
    begins(target, "msmqs://"@) || begins_alike(without_direct(target), "https://"@)
}

/// A guarded target, and no other, is sent over HTTPS.
pub proof fn law_guarded_targets_stay_guarded(target: Seq<char>)
    ensures
        queue_url_of(target) matches Ok(url) ==> (begins(url, "https://"@) <==> is_guarded(target)),
{
    if let Ok(url) = queue_url_of(target) {
        reveal_strlit("http");
        reveal_strlit("https");
        reveal_strlit("https://");
        reveal_strlit("://");
        reveal_strlit("msmq://");
        reveal_strlit("msmqs://");
        reveal_strlit("DIRECT=");
        let q = spelled(target)->0;
        let rest = q.authority + "/msmq/"@ + q.queue;
        lemma_spelled(target);
        if q.scheme == "https"@ {
            assert(url =~= "https://"@ + rest);
            lemma_begins("https://"@, rest);
        } else {
            assert(url[4] == ':');
            lemma_not_begins(url, "https://"@, 4);
        }
        if begins(target, "msmq://"@) {
            lemma_occurs_char(target, "msmq://"@, 0, 0);
            lemma_occurs_char(target, "msmq://"@, 0, 4);
            lemma_not_begins(target, "msmqs://"@, 4);
            lemma_not_begins_alike(target, "DIRECT="@, 0);
            lemma_not_begins_alike(target, "https://"@, 0);
        }
    }
}

/// The envelope of a message names the queue that the message is sent to, without the slashes that
/// the name ends in.
pub proof fn law_envelope_names_its_queue(target: Seq<char>)
    ensures
        queue_url_of(target) matches Ok(url) ==> queue_in(url) == trim_end(
            spelled(target)->0.queue,
            '/',
        ),
{
    if let Ok(url) = queue_url_of(target) {
        lemma_spelled(target);
        reveal_strlit("http");
        reveal_strlit("https");
        reveal_strlit("://");
        reveal_strlit("/");
        reveal_strlit("/msmq/");
        let q = spelled(target)->0;
        let path = "/msmq/"@ + q.queue;
        let rest = q.authority + path;
        assert(url =~= q.scheme + "://"@ + rest);
        lemma_first_mark(q.scheme, "://"@, rest);
        lemma_index_of(url, "://"@);
        lemma_no_slash(q.scheme);
        assert(is_url(url));
        assert(rest =~= q.authority + "/"@ + path.skip(1));
        lemma_first_mark(q.authority, "/"@, path.skip(1));
        assert(rest.skip(q.authority.len() as int) =~= path);
        lemma_begins("/msmq/"@, q.queue);
    }
}

/// The queue that a destination names is what follows the first `/msmq/` in it, without the slashes
/// that it ends in; but where the host of a URL is itself called `msmq`, and `/msmq/` follows it, that
/// of the host does not count.
pub proof fn law_queue_follows_msmq(to: Seq<char>)
    requires
        is_url(to) ==> !begins(after(to, "://"@)->0, "msmq/msmq/"@),
    ensures
        queue_in(to) == (match after(to, "/msmq/"@) {
            Some(queue) => trim_end(queue, '/'),
            None => Seq::empty(),
        }),
{
    let path = path_in(to);
    if begins(path, "/msmq/"@) {
        reveal_strlit("/");
        reveal_strlit("://");
        reveal_strlit("/msmq/");
        reveal_strlit("msmq/msmq/");
        lemma_index_of(to, "://"@);
        let i = if is_url(to) {
            index_of(to, "://"@)->0
        } else {
            -3
        };
        let rest = to.skip(i + 3);
        lemma_index_of(rest, "/"@);
        let s = if is_url(to) {
            index_of(rest, "/"@)->0
        } else {
            0
        };
        let p = i + 3 + s;
        assert(path =~= to.skip(p));
        assert(to.subrange(p, p + 6) =~= path.subrange(0, 6));
        assert(occurs_at(to, "/msmq/"@, p));
        assert forall|q: int| 0 <= q < p implies !#[trigger] occurs_at(to, "/msmq/"@, q) by {
            if occurs_at(to, "/msmq/"@, q) {
                lemma_occurs_char(to, "/msmq/"@, q, 0);
                lemma_occurs_char(to, "/msmq/"@, q, 1);
                lemma_occurs_char(to, "://"@, i, 0);
                lemma_occurs_char(to, "://"@, i, 2);
                if q < i {
                    assert(to.take(i).subrange(q, q + 1) =~= "/"@);
                    assert(occurs_at(to.take(i), "/"@, q));
                } else if q == i + 2 {
                    lemma_occurs_char(to, "/msmq/"@, q, 2);
                    lemma_occurs_char(to, "/msmq/"@, q, 3);
                    lemma_occurs_char(to, "/msmq/"@, q, 4);
                    lemma_occurs_char(to, "/msmq/"@, q, 5);
                    lemma_occurs_char(rest, "/"@, s, 0);
                    assert(rest.subrange(4, 5) =~= "/"@);
                    assert(occurs_at(rest, "/"@, 4));
                    assert(s == 4);
                    assert(rest.subrange(4, 10) =~= path.subrange(0, 6));
                    assert("/msmq/"@ == path.subrange(0, 6));
                    assert forall|k: int|
                        4 <= k < 10 implies rest[k] == #[trigger] "msmq/msmq/"@[k] by {
                        assert(rest[k] == path.subrange(0, 6)[k - 4]);
                    }
                    assert(rest.subrange(0, 10) =~= "msmq/msmq/"@);
                } else if q >= i + 3 {
                    assert(rest.subrange(q - i - 3, q - i - 2) =~= "/"@);
                    assert(occurs_at(rest, "/"@, q - i - 3));
                }
            }
        }
        lemma_first_at(to, "/msmq/"@, p);
        assert(to.skip(p + 6) =~= path.skip(6));
    }
}

/// No two messages have the same id: the id tells the number, and the host it comes from.
pub proof fn law_message_ids_are_distinct(m: u64, from: Seq<char>, n: u64, host: Seq<char>)
    requires
        message_id(m, from) == message_id(n, host),
    ensures
        m == n,
        from == host,
{
    let a = decimal(m as nat);
    let b = decimal(n as nat);
    let x = message_id(m, from);
    let y = message_id(n, host);
    lemma_decimal(m as nat);
    lemma_decimal(n as nat);
    reveal_strlit("uuid:");
    reveal_strlit("@");
    assert(x[(5 + a.len()) as int] == '@');
    assert(y[(5 + b.len()) as int] == '@');
    if a.len() < b.len() {
        assert(y[(5 + a.len()) as int] == b[a.len() as int]);
    } else if b.len() < a.len() {
        assert(x[(5 + b.len()) as int] == a[b.len() as int]);
    }
    assert(a =~= x.subrange(5, (5 + a.len()) as int));
    assert(b =~= y.subrange(5, (5 + b.len()) as int));
    assert(from =~= x.skip((6 + a.len()) as int));
    assert(host =~= y.skip((6 + b.len()) as int));
}

/// Each message gets an id of its own: the one after it has another.
pub proof fn law_next_message_has_its_own_id(transport: TransportView)
    ensures
        message_id(counted(transport).next, counted(transport).host) != message_id(
            transport.next,
            transport.host,
        ),
{
    let next = counted(transport);
    if message_id(next.next, next.host) == message_id(transport.next, transport.host) {
        law_message_ids_are_distinct(next.next, next.host, transport.next, transport.host);
    }
}

/// An XML library reads back what it escaped into the text of `envelope`: each element that a queue
/// reads is found with the text it was written with, an escaped text holds no quote, and unescaping
/// undoes the escaping of the attachment's id.
pub open spec fn reads_back(
    envelope: EnvelopeView,
    escape: spec_fn(Seq<char>) -> Seq<char>,
    first: spec_fn(Seq<char>, Seq<char>) -> Result<Option<Seq<char>>, Refusal>,
    unescape: spec_fn(Seq<char>) -> Result<Seq<char>, Refusal>,
) -> bool {
    let xml = envelope_text(envelope, escape);
    &&& free_of(escape(envelope.to), '"')
    &&& free_of(escape(envelope.id), '"')
    &&& free_of(escape(envelope.body_id), '"')
    &&& unescape(escape(envelope.body_id)) == Ok::<Seq<char>, Refusal>(envelope.body_id)
    &&& first(xml, "action"@) == Ok::<Option<Seq<char>>, Refusal>(Some(ACTION@))
    &&& first(xml, "to"@) == Ok::<Option<Seq<char>>, Refusal>(Some(envelope.to))
    &&& first(xml, "id"@) == Ok::<Option<Seq<char>>, Refusal>(Some(envelope.id))
    &&& first(xml, "sentAt"@) == Ok::<Option<Seq<char>>, Refusal>(
        Some(decimal(envelope.sent_at as nat)),
    )
    &&& first(xml, "expiresAt"@) == Ok::<Option<Seq<char>>, Refusal>(
        Some(decimal(envelope.expires_at as nat)),
    )
}

/// A composed envelope parses back to the envelope it was composed from, whatever its texts and
/// times, wherever the XML library reads back the elements it was written into.
pub proof fn law_envelope_parses_back_where_read_back(
    envelope: EnvelopeView,
    escape: spec_fn(Seq<char>) -> Seq<char>,
    first: spec_fn(Seq<char>, Seq<char>) -> Result<Option<Seq<char>>, Refusal>,
    unescape: spec_fn(Seq<char>) -> Result<Seq<char>, Refusal>,
)
    requires
        reads_back(envelope, escape, first, unescape),
    ensures
        envelope_in(envelope_text(envelope, escape), first, unescape) == Ok::<EnvelopeView, Refusal>(
            envelope,
        ),
{
    lemma_is_an_envelope(envelope, escape);
    lemma_reference_in(envelope, escape);
    law_decimal_reads_back(envelope.sent_at);
    law_decimal_reads_back(envelope.expires_at);
}

/// A composed envelope parses back to the envelope it was composed from, whatever XML library both
/// are done with: every field with what it held, for all times and all proper texts, whether they
/// need escaping or not.
pub proof fn law_envelope_parses_back(
    envelope: EnvelopeView,
    escape: spec_fn(Seq<char>) -> Seq<char>,
    first: spec_fn(Seq<char>, Seq<char>) -> Result<Option<Seq<char>>, Refusal>,
    unescape: spec_fn(Seq<char>) -> Result<Seq<char>, Refusal>,
)
    requires
        is_xml_library(escape, first, unescape),
        proper(envelope.id),
        proper(envelope.to),
        proper(envelope.body_id),
    ensures
        envelope_in(envelope_text(envelope, escape), first, unescape) == Ok::<EnvelopeView, Refusal>(
            envelope,
        ),
{
    lemma_library_reads_back(envelope, escape, first, unescape);
    law_envelope_parses_back_where_read_back(envelope, escape, first, unescape);
}

/// Only a `multipart/related` POST to `/msmq/<queue>` is taken, and what is handed on is the bytes of
/// the first part that goes by the id its envelope names.
pub proof fn law_only_srmp_messages_are_taken(request: RequestView, reader: ReaderModel)
    ensures
        taken(request, reader) matches Ok(arrived) ==> {
            &&& request.method == "POST"@
            &&& begins(request.path, "/msmq/"@)
            &&& request.path.len() > "/msmq/"@.len()
            &&& (reader.media_type)(or_empty(value_under(request.headers, "Content-Type"@)))
                == "multipart/related"@
            &&& carried(request, reader) matches Ok(parts) && enveloped(parts, reader) matches Ok(
                envelope,
            ) && attachment(parts, envelope.body_id) == Some(arrived.bytes)
        },
{
    reveal_strlit("/msmq/");
}

/// What is taken is answered `200`, and what is refused `400` with the reason; and the sender learns
/// from the answer which of the two it was.
pub proof fn law_answer_tells_the_outcome(request: RequestView, reader: ReaderModel)
    ensures
        accepted(Some(request), reader).response matches Some(response) && {
            &&& taken(request, reader) is Ok <==> response.status == 200
            &&& taken(request, reader) is Ok <==> is_delivered(response.status)
            &&& taken(request, reader) matches Err(error) ==> response.status == 400
                && text_of(response.body) == error.message
        },
{
    if let Err(error) = taken(request, reader) {
        encode_utf8_valid_utf8(error.message);
        encode_utf8_decode_utf8(error.message);
    }
}

/// No refusal of a request invites another attempt, unless the XML library's own does.
pub proof fn law_refusals_are_permanent(request: RequestView, reader: ReaderModel)
    requires
        forall|xml: Seq<char>, name: Seq<char>| #[trigger]
            (reader.first)(xml, name) matches Err(error) ==> !error.retryable,
        forall|text: Seq<char>| #[trigger]
            (reader.unescape)(text) matches Err(error) ==> !error.retryable,
    ensures
        taken(request, reader) matches Err(error) ==> !error.retryable,
{
}

/// The boundary that a `Content-Type` was written with is the one it is read to name, whatever MIME
/// library reads it.
pub proof fn law_boundary_reads_back(
    boundary: Seq<char>,
    write: spec_fn(Seq<char>, Seq<PartView>) -> Seq<u8>,
    reader: ReaderModel,
)
    requires
        is_mime_library(write, reader),
        plain_boundary(boundary),
    ensures
        boundary_named(content_type_of(boundary), reader.media_type, reader.parameter) == Ok::<
            Seq<char>,
            Refusal,
        >(boundary),
{
    assert(types_read_back(boundary, reader));
}

/// The libraries that a message to `q` goes through at both ends carry it whole: the URL is taken
/// apart into the host and the path it was made of, the `Content-Type` and the envelope are read
/// back, and so are the two parts, with the ids and bytes they were written with.
pub open spec fn carried_whole(
    sender: TransportView,
    q: QueueView,
    bytes: Seq<u8>,
    sent_at: u64,
    writer: WriterModel,
    reader: ReaderModel,
) -> bool {
    let url = url_of(q);
    let parts = message_parts(sender.next, sender.host, url, bytes, sent_at, writer.escape);
    let envelope = envelope_for(
        message_id(sender.next, sender.host),
        url,
        body_id(sender.next, sender.host),
        sent_at,
    );
    &&& (writer.target)(url) == Ok::<HttpTargetView, Refusal>(
        HttpTargetView { authority: q.authority, path: "/msmq/"@ + q.queue },
    )
    &&& types_read_back(BOUNDARY@, reader)
    &&& (reader.read)((writer.write)(BOUNDARY@, parts), BOUNDARY@) matches Ok(back)
        && same_attachments(back, parts)
    &&& reads_back(envelope, writer.escape, reader.first, reader.unescape)
}

/// What is posted to a queue is taken there, and answered `200`, as the bytes it was, under the queue
/// and the id it was sent with, for every Stream that fits in a message and every target that names
/// a queue, wherever the libraries in between carry the message whole.
pub proof fn law_message_arrives_where_carried_whole(
    sender: TransportView,
    target: Seq<char>,
    bytes: Seq<u8>,
    sent_at: u64,
    writer: WriterModel,
    reader: ReaderModel,
)
    requires
        queue_url_of(target) is Ok,
        bytes.len() <= 4 * 1024 * 1024,
        carried_whole(sender, spelled(target)->0, bytes, sent_at, writer, reader),
    ensures
        posted(sender, target, bytes, sent_at, writer) matches Ok(posting) && {
            let arrival = accepted(Some(posting.request), reader);
            &&& posting.url == queue_url_of(target)->Ok_0
            &&& arrival.outcome == Ok::<ArrivedView, Refusal>(
                ArrivedView {
                    origin_uri: "msmq://"@ + spelled(target)->0.authority + "/"@ + spelled(
                        target,
                    )->0.queue + "#"@ + message_id(sender.next, sender.host),
                    bytes,
                },
            )
            &&& arrival.response matches Some(response) && response.status == 200
        },
{
    let q = spelled(target)->0;
    let url = url_of(q);
    let envelope = envelope_for(
        message_id(sender.next, sender.host),
        url,
        body_id(sender.next, sender.host),
        sent_at,
    );
    let parts = message_parts(sender.next, sender.host, url, bytes, sent_at, writer.escape);
    let xml = envelope_text(envelope, writer.escape);
    let request = composed(sender, url, bytes, sent_at, writer)->Ok_0;

    reveal_strlit("/msmq/");
    lemma_begins("/msmq/"@, q.queue);
    assert(posted_to(request) == Ok::<Seq<char>, Refusal>(q.queue));

    reveal_strlit("Host");
    reveal_strlit("Content-Type");
    reveal_with_fuel(value_under, 3);
    assert(value_under(request.headers, "Host"@) == Some(q.authority));
    assert(request.headers.drop_first()[0].0 == "Content-Type"@);
    assert(value_under(request.headers, "Content-Type"@) == Some(content_type_of(BOUNDARY@)));
    reveal_strlit("MSMQ - SOAP boundary, 12345");
    let back = (reader.read)(request.body, BOUNDARY@)->Ok_0;
    assert(carried(request, reader) == Ok::<Seq<PartView>, Refusal>(back));

    encode_utf8_valid_utf8(xml);
    encode_utf8_decode_utf8(xml);
    assert(back[0].bytes == parts[0].bytes && parts[0].bytes == encode_utf8(xml));
    law_envelope_parses_back_where_read_back(
        envelope,
        writer.escape,
        reader.first,
        reader.unescape,
    );
    assert(enveloped(back, reader) == Ok::<EnvelopeView, Refusal>(envelope));

    reveal_strlit("body");
    reveal_strlit("envelope");
    assert(envelope_id(sender.next, sender.host)[0] == 'e');
    assert(body_id(sender.next, sender.host)[0] == 'b');
    reveal_with_fuel(attachment, 3);
    assert(back.drop_first()[0] == back[1]);
    assert(attachment(back, envelope.body_id) == Some(bytes));
}

/// The libraries carry a message whole no line of whose Stream begins with the delimiter.
proof fn lemma_carried_whole(
    sender: TransportView,
    q: QueueView,
    bytes: Seq<u8>,
    sent_at: u64,
    writer: WriterModel,
    reader: ReaderModel,
)
    requires
        are_libraries(writer, reader),
        simple(sender.host),
        q.scheme == "http"@ || q.scheme == "https"@,
        plain_authority(q.authority),
        plain_queue(q.queue),
        !has_line(bytes, delimiter(BOUNDARY@)),
    ensures
        carried_whole(sender, q, bytes, sent_at, writer, reader),
{
    let url = url_of(q);
    let n = sender.next;
    let host = sender.host;
    let parts = message_parts(n, host, url, bytes, sent_at, writer.escape);
    let envelope = envelope_for(message_id(n, host), url, body_id(n, host), sent_at);

    lemma_simple_url(q);
    let path = "/msmq/"@ + q.queue;
    assert(url =~= q.scheme + "://"@ + q.authority + path);
    assert(splits(writer.target, q.scheme, q.authority, path));

    lemma_simple_ids(n, host);
    lemma_simple_is_proper(envelope.to);
    lemma_simple_is_proper(envelope.id);
    lemma_simple_is_proper(envelope.body_id);
    lemma_library_reads_back(envelope, writer.escape, reader.first, reader.unescape);
    assert((writer.escape)(envelope.to) == envelope.to);
    assert((writer.escape)(envelope.id) == envelope.id);
    assert((writer.escape)(envelope.body_id) == envelope.body_id);
    lemma_envelope_holds_no_delimiter(envelope, writer.escape);

    lemma_plain_boundary();
    assert(types_read_back(BOUNDARY@, reader));
    let xml = encode_utf8(envelope_text(envelope, writer.escape));
    assert(writable(parts[0], BOUNDARY@)) by {
        assert(parts[0] == srmp_part("text/xml"@, envelope_id(n, host), xml));
        assert(fits("text/xml"@, envelope_id(n, host), xml, BOUNDARY@));
    }
    assert(writable(parts[1], BOUNDARY@)) by {
        assert(parts[1] == srmp_part("application/octet-stream"@, body_id(n, host), bytes));
        assert(fits("application/octet-stream"@, body_id(n, host), bytes, BOUNDARY@));
    }
    assert(parts_read_back(writer.write, reader.read, BOUNDARY@, parts));
}

/// One message is one Stream: what is posted to a queue is taken there, and answered `200`, as the
/// bytes it was, under the queue and the id it was sent with. This holds in every form of a target,
/// of every Stream that fits in a message and has no line that begins with the delimiter of its parts,
/// whatever libraries the message goes through.
pub proof fn law_message_arrives_as_sent(
    sender: TransportView,
    target: Seq<char>,
    bytes: Seq<u8>,
    sent_at: u64,
    writer: WriterModel,
    reader: ReaderModel,
)
    requires
        are_libraries(writer, reader),
        simple(sender.host),
        queue_url_of(target) is Ok,
        plain_authority(spelled(target)->0.authority),
        plain_queue(spelled(target)->0.queue),
        bytes.len() <= 4 * 1024 * 1024,
        !has_line(bytes, delimiter(BOUNDARY@)),
    ensures
        posted(sender, target, bytes, sent_at, writer) matches Ok(posting) && {
            let arrival = accepted(Some(posting.request), reader);
            &&& posting.url == queue_url_of(target)->Ok_0
            &&& arrival.outcome == Ok::<ArrivedView, Refusal>(
                ArrivedView {
                    origin_uri: "msmq://"@ + spelled(target)->0.authority + "/"@ + spelled(
                        target,
                    )->0.queue + "#"@ + message_id(sender.next, sender.host),
                    bytes,
                },
            )
            &&& arrival.response matches Some(response) && response.status == 200
        },
{
    lemma_spelled(target);
    lemma_carried_whole(sender, spelled(target)->0, bytes, sent_at, writer, reader);
    law_message_arrives_where_carried_whole(sender, target, bytes, sent_at, writer, reader);
}

/// A loopback round posts one message to `round-trip` at the far end's address, the first of a fresh
/// near end however many this transport has sent, and it arrives as the payload that was sent, which
/// the answer tells.
pub proof fn law_loopback_round(
    transport: TransportView,
    address: Seq<char>,
    payload: Seq<u8>,
    sent_at: u64,
    writer: WriterModel,
    reader: ReaderModel,
)
    requires
        are_libraries(writer, reader),
        plain_authority(address),
        payload.len() <= 4 * 1024 * 1024,
        !has_line(payload, delimiter(BOUNDARY@)),
    ensures
        posted(
            fresh(transport.bind, "near"@, transport.timeout),
            round_target(address),
            payload,
            sent_at,
            writer,
        ) matches Ok(posting) && {
            let arrival = accepted(Some(posting.request), reader);
            &&& posting.url == "http://"@ + address + "/msmq/round-trip"@
            &&& arrival.outcome == Ok::<ArrivedView, Refusal>(
                ArrivedView {
                    origin_uri: "msmq://"@ + address + "/round-trip#uuid:1@near"@,
                    bytes: payload,
                },
            )
            &&& arrival.response matches Some(response) && is_delivered(response.status)
        },
{
    let near = fresh(transport.bind, "near"@, transport.timeout);
    let target = round_target(address);
    lemma_simple_authority(address);
    lemma_simple_near();
    reveal_strlit("/");
    reveal_strlit("round-trip");
    reveal_strlit("/round-trip");
    assert(target =~= "msmq://"@ + address + "/"@ + "round-trip"@);
    lemma_spelled_msmq(false, address, "round-trip"@);
    law_message_arrives_as_sent(near, target, payload, sent_at, writer, reader);
    lemma_round_texts(address);
}

} // verus!
