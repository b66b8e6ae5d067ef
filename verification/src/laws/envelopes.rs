//! What an envelope is written as, what is read out of one, and why one is refused.
use vstd::prelude::*;

use crate::envelope::{
    envelope_in, envelope_text, is_url, number_in, opening, queue_in, reference_in,
    text_before_reference, to_body, to_properties, EnvelopeView,
};
use crate::error::Refusal;
use crate::laws::law_queue_follows_msmq;
use crate::lemmas::{
    lemma_begins, lemma_first_mark, lemma_no_slash, lemma_occurs_char, lemma_occurs_in_middle,
};
use crate::number::{decimal, number_of};
use crate::tag::{has_start_tag, is_name_char, name_at, opens_tag};
use crate::text::{
    after, before, begins, contains, lemma_first_at, lemma_index_of, occurs_at, trim_end,
};

verus! {

/// The destination that a URL names is the queue whose `/msmq/` follows the host, whatever the scheme,
/// the host and the queue are called, without the slashes that the queue ends in.
pub proof fn law_destination_names_its_queue(
    scheme: Seq<char>,
    host: Seq<char>,
    queue: Seq<char>,
)
    requires
        scheme.len() > 0,
        forall|i: int| 0 <= i < scheme.len() ==> #[trigger] scheme[i] != '/',
        forall|i: int| 0 <= i < host.len() ==> #[trigger] host[i] != '/',
    ensures
        queue_in(scheme + "://"@ + host + "/msmq/"@ + queue) == trim_end(queue, '/'),
{
    reveal_strlit("://");
    reveal_strlit("/");
    reveal_strlit("/msmq/");
    let to = scheme + "://"@ + host + "/msmq/"@ + queue;
    let path = "/msmq/"@ + queue;
    let rest = host + path;
    assert(to =~= scheme + "://"@ + rest);
    lemma_scheme(scheme, rest);
    assert(rest =~= host + "/"@ + path.skip(1));
    lemma_first_mark(host, "/"@, path.skip(1));
    assert(rest.skip(host.len() as int) =~= path);
    lemma_begins("/msmq/"@, queue);
}

/// A text that begins with a scheme is a URL, and is cut behind the scheme.
proof fn lemma_scheme(scheme: Seq<char>, rest: Seq<char>)
    requires
        scheme.len() > 0,
        forall|i: int| 0 <= i < scheme.len() ==> #[trigger] scheme[i] != '/',
    ensures
        is_url(scheme + "://"@ + rest),
        before(scheme + "://"@ + rest, "://"@) == scheme,
        after(scheme + "://"@ + rest, "://"@) == Some(rest),
{
    reveal_strlit("://");
    let to = scheme + "://"@ + rest;
    lemma_occurs_in_middle(scheme, "://"@, rest);
    assert forall|j: int| 0 <= j < scheme.len() implies !#[trigger] occurs_at(to, "://"@, j) by {
        if occurs_at(to, "://"@, j) {
            lemma_occurs_char(to, "://"@, j, 0);
            lemma_occurs_char(to, "://"@, j, 1);
            lemma_occurs_char(to, "://"@, j, 2);
            if j + 1 < scheme.len() {
                assert(to[j + 1] == scheme[j + 1]);
            } else {
                assert(to[j + 1] == ':');
            }
        }
    }
    lemma_first_at(to, "://"@, scheme.len() as int);
    lemma_index_of(to, "://"@);
    assert(to.take(scheme.len() as int) =~= scheme);
    assert(to.skip((scheme.len() + 3) as int) =~= rest);
    lemma_no_slash(scheme);
}

/// Any other destination names what follows the first `/msmq/` in it, without the slashes that it ends
/// in, and nothing where there is none. The one exception is a URL of a host that is itself called
/// `msmq`, with `/msmq/` behind it.
pub proof fn law_queue_is_what_follows_the_first_msmq(to: Seq<char>)
    requires
        forall|scheme: Seq<char>, queue: Seq<char>|
            scheme.len() > 0 && (forall|i: int|
                0 <= i < scheme.len() ==> #[trigger] scheme[i] != '/') ==> to != #[trigger] (scheme
                + "://msmq/msmq/"@ + queue),
    ensures
        queue_in(to) == (match after(to, "/msmq/"@) {
            Some(queue) => trim_end(queue, '/'),
            None => Seq::empty(),
        }),
{
    if is_url(to) && begins(after(to, "://"@)->0, "msmq/msmq/"@) {
        reveal_strlit("://");
        reveal_strlit("/");
        reveal_strlit("msmq/msmq/");
        reveal_strlit("://msmq/msmq/");
        let scheme = before(to, "://"@);
        let rest = after(to, "://"@)->0;
        let queue = rest.skip(10);
        lemma_index_of(to, "://"@);
        assert(to =~= scheme + "://"@ + rest);
        assert(rest =~= "msmq/msmq/"@ + queue);
        assert("://"@ + "msmq/msmq/"@ =~= "://msmq/msmq/"@);
        assert(to =~= scheme + "://msmq/msmq/"@ + queue);
        assert forall|i: int| 0 <= i < scheme.len() implies #[trigger] scheme[i] != '/' by {
            if scheme[i] == '/' {
                assert(scheme.subrange(i, i + 1) =~= "/"@);
                assert(occurs_at(scheme, "/"@, i));
            }
        }
    }
    law_queue_follows_msmq(to);
}

/// The text of an envelope is this one to the letter, with the destination, the id, the times and the
/// attachment's id in their places.
pub proof fn law_envelope_is_written_to_the_letter(
    envelope: EnvelopeView,
    escape: spec_fn(Seq<char>) -> Seq<char>,
)
    ensures
        envelope_text(envelope, escape) == "<?xml version=\"1.0\"?>"@
            + "<se:Envelope xmlns:se=\""@ + "http://schemas.xmlsoap.org/soap/envelope/"@
            + "\"><se:Header>"@ + "<path xmlns=\""@ + "http://schemas.xmlsoap.org/rp/"@
            + "\" se:mustUnderstand=\"1\"><action>"@ + "MSMQ:default"@ + "</action><to>"@ + escape(
            envelope.to,
        ) + "</to><id>"@ + escape(envelope.id) + "</id></path><properties xmlns=\""@
            + "http://schemas.xmlsoap.org/srmp/"@ + "\" se:mustUnderstand=\"1\"><expiresAt>"@
            + decimal(envelope.expires_at as nat) + "</expiresAt><sentAt>"@ + decimal(
            envelope.sent_at as nat,
        ) + "</sentAt></properties><Msmq xmlns=\""@ + "msmq.namespace.xml"@
            + "\"><Class>0</Class><Priority>3</Priority><Journal>none</Journal><BodyType>0</BodyType>"@
            + "</Msmq></se:Header><se:Body><Msmq xmlns=\""@ + "msmq.namespace.xml"@
            + "\"><Body "@ + "href=\"cid:"@ + escape(envelope.body_id)
            + "\"/></Msmq></se:Body></se:Envelope>"@,
{
    let head = opening() + escape(envelope.to) + "</to><id>"@ + escape(envelope.id);
    let properties = head + "</id></path><properties xmlns=\""@
        + "http://schemas.xmlsoap.org/srmp/"@ + "\" se:mustUnderstand=\"1\"><expiresAt>"@;
    assert(head + to_properties() =~= properties);
    let times = properties + decimal(envelope.expires_at as nat) + "</expiresAt><sentAt>"@
        + decimal(envelope.sent_at as nat);
    let body = times + "</sentAt></properties><Msmq xmlns=\""@ + "msmq.namespace.xml"@
        + "\"><Class>0</Class><Priority>3</Priority><Journal>none</Journal><BodyType>0</BodyType>"@
        + "</Msmq></se:Header><se:Body><Msmq xmlns=\""@ + "msmq.namespace.xml"@ + "\"><Body "@;
    assert(times + to_body() =~= body);
    assert(text_before_reference(envelope, escape) == body);
}

/// The attachment's id is read from behind the first `href="cid:` up to the quote that ends it, to the
/// next such reference, or to the end of the text, whichever comes first.
pub proof fn law_reference_is_read_up_to_its_end(xml: Seq<char>)
    ensures
        reference_in(xml) is Some <==> contains(xml, "href=\"cid:"@),
        reference_in(xml) matches Some(raw) ==> {
            let rest = after(xml, "href=\"cid:"@)->0;
            &&& raw.len() <= rest.len()
            &&& raw == rest.take(raw.len() as int)
            &&& forall|i: int| 0 <= i < raw.len() ==> #[trigger] raw[i] != '"'
            &&& forall|j: int| #[trigger]
                occurs_at(rest, "href=\"cid:"@, j) ==> raw.len() <= j
            &&& raw.len() == rest.len() || rest[raw.len() as int] == '"' || occurs_at(
                rest,
                "href=\"cid:"@,
                raw.len() as int,
            )
        },
{
    let mark = "href=\"cid:"@;
    lemma_index_of(xml, mark);
    if let Some(raw) = reference_in(xml) {
        reveal_strlit("\"");
        let rest = after(xml, mark)->0;
        lemma_index_of(rest, mark);
        let piece = before(rest, mark);
        lemma_index_of(piece, "\""@);
        assert(piece =~= rest.take(piece.len() as int));
        assert(raw =~= rest.take(raw.len() as int));
        assert forall|i: int| 0 <= i < raw.len() implies #[trigger] raw[i] != '"' by {
            if raw[i] == '"' {
                assert(piece.subrange(i, i + 1) =~= "\""@);
                assert(occurs_at(piece, "\""@, i));
            }
        }
        if raw.len() < piece.len() {
            lemma_occurs_char(piece, "\""@, raw.len() as int, 0);
        }
    }
}

/// `answer` is a time: the number in the element, or zero where there is none.
pub open spec fn is_time(answer: Result<Option<Seq<char>>, Refusal>, time: u64) -> bool {
    match answer {
        Ok(Some(text)) => if number_of(text) is Some {
            number_of(text) == Some(time)
        } else {
            time == 0
        },
        Ok(None) => time == 0,
        Err(_) => false,
    }
}

/// A time is the number that its element holds, zero where there is no element or no number in it,
/// and refused only where the search is.
pub proof fn law_time_is_the_number_in_its_element(
    xml: Seq<char>,
    name: Seq<char>,
    first: spec_fn(Seq<char>, Seq<char>) -> Result<Option<Seq<char>>, Refusal>,
    time: u64,
)
    ensures
        number_in(xml, name, first) == Ok::<u64, Refusal>(time) <==> is_time(
            first(xml, name),
            time,
        ),
        number_in(xml, name, first) is Err <==> first(xml, name) is Err,
        first(xml, name) matches Err(error) ==> number_in(xml, name, first) == Err::<u64, Refusal>(
            error,
        ),
{
}

/// Both marks of a SOAP envelope come to one.
proof fn lemma_envelope_mark(xml: Seq<char>)
    ensures
        contains(xml, "<se:Envelope"@) || contains(xml, ":Envelope"@) <==> contains(
            xml,
            ":Envelope"@,
        ),
{
    if contains(xml, "<se:Envelope"@) {
        reveal_strlit("<se:Envelope");
        reveal_strlit(":Envelope");
        let i = choose|i: int| #[trigger] occurs_at(xml, "<se:Envelope"@, i);
        assert(xml.subrange(i + 3, i + 12) =~= xml.subrange(i, i + 12).subrange(3, 12));
        assert("<se:Envelope"@.subrange(3, 12) =~= ":Envelope"@);
        assert(occurs_at(xml, ":Envelope"@, i + 3));
    }
}

/// An envelope is read out of a text exactly where the text holds a SOAP envelope with a path header
/// and the one action that MSMQ sends with; and then the destination is the text of the element `to`,
/// the id that of the element `id`, the attachment the one that is referred to first, and the times
/// the numbers in `sentAt` and `expiresAt`, whoever composed the text.
pub proof fn law_envelope_is_read_by_its_elements(
    xml: Seq<char>,
    first: spec_fn(Seq<char>, Seq<char>) -> Result<Option<Seq<char>>, Refusal>,
    unescape: spec_fn(Seq<char>) -> Result<Seq<char>, Refusal>,
    envelope: EnvelopeView,
)
    ensures
        envelope_in(xml, first, unescape) == Ok::<EnvelopeView, Refusal>(envelope) <==> {
            &&& contains(xml, ":Envelope"@)
            &&& has_start_tag(xml, "path"@)
            &&& first(xml, "action"@) == Ok::<Option<Seq<char>>, Refusal>(Some("MSMQ:default"@))
            &&& first(xml, "to"@) == Ok::<Option<Seq<char>>, Refusal>(Some(envelope.to))
            &&& first(xml, "id"@) == Ok::<Option<Seq<char>>, Refusal>(Some(envelope.id))
            &&& reference_in(xml) matches Some(raw) && unescape(raw) == Ok::<Seq<char>, Refusal>(
                envelope.body_id,
            )
            &&& is_time(first(xml, "sentAt"@), envelope.sent_at)
            &&& is_time(first(xml, "expiresAt"@), envelope.expires_at)
        },
{
    lemma_envelope_mark(xml);
    if let Ok(read) = envelope_in(xml, first, unescape) {
        if read.id == envelope.id && read.to == envelope.to && read.body_id == envelope.body_id
            && read.sent_at == envelope.sent_at && read.expires_at == envelope.expires_at {
            assert(read =~= envelope);
        }
    }
}

/// `refused` is the refusal with the reason `message`, which no later attempt lifts.
pub open spec fn is_refusal<T>(refused: Result<T, Refusal>, message: Seq<char>) -> bool {
    refused == Err::<T, Refusal>(Refusal { message, retryable: false })
}

/// What is not an envelope is refused for the first thing that is wrong with it, in this order: it is
/// no SOAP envelope, it has no path header, the action is missing or another, the destination is
/// missing, the message id is missing, the attachment is not named. Where the search for an element or
/// the unescaping is refused, that refusal is handed on.
pub proof fn law_envelope_is_refused_for_the_first_thing_wrong(
    xml: Seq<char>,
    first: spec_fn(Seq<char>, Seq<char>) -> Result<Option<Seq<char>>, Refusal>,
    unescape: spec_fn(Seq<char>) -> Result<Seq<char>, Refusal>,
)
    ensures
        ({
            let read = envelope_in(xml, first, unescape);
            if !contains(xml, ":Envelope"@) {
                is_refusal(read, "not a SOAP envelope"@)
            } else if !has_start_tag(xml, "path"@) {
                is_refusal(read, "an envelope with no path header"@)
            } else {
                match first(xml, "action"@) {
                    Err(error) => read == Err::<EnvelopeView, Refusal>(error),
                    Ok(None) => is_refusal(read, "an envelope with no path header"@),
                    Ok(Some(action)) => action != "MSMQ:default"@ ==> is_refusal(
                        read,
                        "an action this queue does not take: "@ + action,
                    ),
                }
            }
        }),
        contains(xml, ":Envelope"@) && has_start_tag(xml, "path"@) && first(xml, "action"@) == Ok::<
            Option<Seq<char>>,
            Refusal,
        >(Some("MSMQ:default"@)) ==> {
            let read = envelope_in(xml, first, unescape);
            match first(xml, "to"@) {
                Err(error) => read == Err::<EnvelopeView, Refusal>(error),
                Ok(None) => is_refusal(read, "an envelope with no destination"@),
                Ok(Some(_)) => match first(xml, "id"@) {
                    Err(error) => read == Err::<EnvelopeView, Refusal>(error),
                    Ok(None) => is_refusal(read, "an envelope with no message id"@),
                    Ok(Some(_)) => match reference_in(xml) {
                        None => is_refusal(read, "a body that names no attachment"@),
                        Some(raw) => match unescape(raw) {
                            Err(error) => read == Err::<EnvelopeView, Refusal>(error),
                            Ok(_) => match first(xml, "sentAt"@) {
                                Err(error) => read == Err::<EnvelopeView, Refusal>(error),
                                Ok(_) => match first(xml, "expiresAt"@) {
                                    Err(error) => read == Err::<EnvelopeView, Refusal>(error),
                                    Ok(_) => read is Ok,
                                },
                            },
                        },
                    },
                },
            }
        },
{
    lemma_envelope_mark(xml);
}

/// `xml` can be taken apart around a start tag called `name`: what comes before it, `<`, the prefix
/// with its colon or nothing, the name, one of the characters that end it, and what comes after that.
pub open spec fn apart_at_tag(
    xml: Seq<char>,
    name: Seq<char>,
    head: Seq<char>,
    prefix: Seq<char>,
    end: char,
    tail: Seq<char>,
) -> bool {
    &&& xml == head + seq!['<'] + prefix + name + seq![end] + tail
    &&& prefix.len() == 0 || (prefix.len() > 1 && prefix[prefix.len() - 1] == ':' && forall|i: int|
        0 <= i < prefix.len() - 1 ==> {
            ||| 'a' <= #[trigger] prefix[i] <= 'z'
            ||| 'A' <= prefix[i] <= 'Z'
            ||| '0' <= prefix[i] <= '9'
            ||| prefix[i] == '-'
            ||| prefix[i] == '.'
            ||| prefix[i] == '_'
            ||| prefix[i] >= '\u{80}'
        })
    &&& end == ' ' || end == '\t' || end == '\r' || end == '\n' || end == '>' || end == '/'
}

/// An element begins in a text exactly where the text can be taken apart around its start tag.
pub proof fn law_start_tag_is_found_where_it_stands(xml: Seq<char>, name: Seq<char>)
    ensures
        has_start_tag(xml, name) <==> exists|
            head: Seq<char>,
            prefix: Seq<char>,
            end: char,
            tail: Seq<char>,
        | #[trigger] apart_at_tag(xml, name, head, prefix, end, tail),
{
    if has_start_tag(xml, name) {
        let (i, j) = choose|i: int, j: int| #[trigger]
            opens_tag(xml, i, j) && #[trigger] name_at(xml, name, j);
        let head = xml.take(i);
        let prefix = xml.subrange(i + 1, j);
        let k = j + name.len();
        let end = xml[k];
        let tail = xml.skip(k + 1);
        assert(xml.subrange(j, k) == name);
        assert(xml =~= head + seq!['<'] + prefix + xml.subrange(j, k) + seq![end] + tail);
        if prefix.len() > 0 {
            assert(prefix[prefix.len() - 1] == xml[j - 1]);
            assert forall|m: int| 0 <= m < prefix.len() - 1 implies is_name_char(
                #[trigger] prefix[m],
            ) by {
                assert(prefix[m] == xml[i + 1 + m]);
            }
        }
        assert(apart_at_tag(xml, name, head, prefix, end, tail));
    }
    if exists|head: Seq<char>, prefix: Seq<char>, end: char, tail: Seq<char>| #[trigger]
        apart_at_tag(xml, name, head, prefix, end, tail) {
        let (head, prefix, end, tail) = choose|
            head: Seq<char>,
            prefix: Seq<char>,
            end: char,
            tail: Seq<char>,
        | #[trigger] apart_at_tag(xml, name, head, prefix, end, tail);
        let i = head.len() as int;
        let j = i + 1 + prefix.len();
        assert(xml[i] == '<');
        assert(xml.subrange(j, j + name.len()) =~= name);
        assert(xml[j + name.len()] == end);
        if prefix.len() > 0 {
            assert(xml[j - 1] == prefix[prefix.len() - 1]);
            assert forall|k: int| i < k < j - 1 implies is_name_char(#[trigger] xml[k]) by {
                assert(xml[k] == prefix[k - i - 1]);
            }
        }
        assert(opens_tag(xml, i, j) && name_at(xml, name, j));
    }
}

} // verus!
