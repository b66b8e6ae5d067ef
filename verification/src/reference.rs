//! Where the reference to the attachment stands in the text of an envelope.
use vstd::prelude::*;

use crate::envelope::{
    closing, envelope_text, opening, reference, reference_in, text_before_reference, to_body,
    to_properties, EnvelopeView, ACTION, MSMQ, ROUTING, SOAP, SRMP,
};
use crate::lemmas::{lemma_first_mark, lemma_occurs_char, lemma_occurs_in_middle};
use crate::number::{decimal, lemma_decimal};
use crate::tag::{has_start_tag, name_at, opens_tag};
use crate::text::{contains, free_of, lemma_first_at, lemma_index_of, occurs_at};

verus! {

/// Every quote in `text` is followed by a character, and that is not the `c` of `cid:`.
spec fn unreferring(text: Seq<char>) -> bool {
    forall|i: int|
        0 <= i < text.len() && #[trigger] text[i] == '"' ==> i + 1 < text.len() && text[i + 1]
            != 'c'
}

/// [`unreferring`], from position `i` on, one position after the other.
spec fn scans(text: Seq<char>, i: int) -> bool
    decreases text.len() - i,
{
    if 0 <= i < text.len() {
        &&& text[i] == '"' ==> i + 1 < text.len() && text[i + 1] != 'c'
        &&& scans(text, i + 1)
    } else {
        true
    }
}

proof fn lemma_scans(text: Seq<char>, i: int, k: int)
    requires
        scans(text, i),
        0 <= i <= k < text.len(),
    ensures
        text[k] == '"' ==> k + 1 < text.len() && text[k + 1] != 'c',
    decreases k - i,
{
    if i < k {
        lemma_scans(text, i + 1, k);
    }
}

proof fn lemma_unreferring(text: Seq<char>)
    requires
        scans(text, 0),
    ensures
        unreferring(text),
{
    assert forall|i: int| 0 <= i < text.len() && #[trigger] text[i] == '"' implies i + 1
        < text.len() && text[i + 1] != 'c' by {
        lemma_scans(text, 0, i);
    }
}

proof fn lemma_join(a: Seq<char>, b: Seq<char>)
    requires
        unreferring(a),
        unreferring(b),
    ensures
        unreferring(a + b),
{
    let t = a + b;
    assert forall|i: int| 0 <= i < t.len() && #[trigger] t[i] == '"' implies i + 1 < t.len() && t[i
        + 1] != 'c' by {
        if i < a.len() {
            assert(a[i] == '"');
            assert(t[i + 1] == a[i + 1]);
        } else {
            assert(b[i - a.len()] == '"');
            assert(t[i + 1] == b[i - a.len() + 1]);
        }
    }
}

/// An attribute: its value stands in quotes, holds none, and is not empty.
proof fn lemma_attribute(a: Seq<char>, value: Seq<char>, b: Seq<char>)
    requires
        a.len() > 0,
        unreferring(a.drop_last()),
        value.len() > 0,
        value[0] != 'c',
        unreferring(value),
        unreferring(b),
    ensures
        unreferring(a + value + b),
{
    let t = a + value;
    assert forall|i: int| 0 <= i < t.len() && #[trigger] t[i] == '"' implies i + 1 < t.len() && t[i
        + 1] != 'c' by {
        if i < a.len() - 1 {
            assert(a.drop_last()[i] == '"');
            assert(t[i + 1] == a.drop_last()[i + 1]);
        } else if i == a.len() - 1 {
            assert(t[i + 1] == value[0]);
        } else {
            assert(value[i - a.len()] == '"');
            assert(t[i + 1] == value[i - a.len() + 1]);
        }
    }
    lemma_join(t, b);
}

proof fn lemma_opening()
    ensures
        unreferring(opening()),
{
    reveal_with_fuel(scans, 45);
    reveal_strlit("<?xml version=\"1.0\"?>");
    lemma_unreferring("<?xml version=\"1.0\"?>"@);
    reveal_strlit("<se:Envelope xmlns:se=\"");
    lemma_unreferring("<se:Envelope xmlns:se=\""@.drop_last());
    reveal_strlit("http://schemas.xmlsoap.org/soap/envelope/");
    lemma_unreferring(SOAP@);
    reveal_strlit("\"><se:Header>");
    lemma_unreferring("\"><se:Header>"@);
    lemma_attribute("<se:Envelope xmlns:se=\""@, SOAP@, "\"><se:Header>"@);
    reveal_strlit("<path xmlns=\"");
    lemma_unreferring("<path xmlns=\""@.drop_last());
    reveal_strlit("http://schemas.xmlsoap.org/rp/");
    lemma_unreferring(ROUTING@);
    reveal_strlit("\" se:mustUnderstand=\"1\"><action>");
    lemma_unreferring("\" se:mustUnderstand=\"1\"><action>"@);
    lemma_attribute("<path xmlns=\""@, ROUTING@, "\" se:mustUnderstand=\"1\"><action>"@);
    reveal_strlit("MSMQ:default");
    lemma_unreferring(ACTION@);
    reveal_strlit("</action><to>");
    lemma_unreferring("</action><to>"@);
    let envelope = "<se:Envelope xmlns:se=\""@ + SOAP@ + "\"><se:Header>"@;
    let path = "<path xmlns=\""@ + ROUTING@ + "\" se:mustUnderstand=\"1\"><action>"@;
    lemma_join("<?xml version=\"1.0\"?>"@, envelope);
    lemma_join("<?xml version=\"1.0\"?>"@ + envelope, path);
    lemma_join("<?xml version=\"1.0\"?>"@ + envelope + path, ACTION@);
    lemma_join("<?xml version=\"1.0\"?>"@ + envelope + path + ACTION@, "</action><to>"@);
    assert(opening() =~= "<?xml version=\"1.0\"?>"@ + envelope + path + ACTION@
        + "</action><to>"@);
}

proof fn lemma_to_properties()
    ensures
        unreferring(to_properties()),
{
    reveal_with_fuel(scans, 40);
    reveal_strlit("</id></path><properties xmlns=\"");
    lemma_unreferring("</id></path><properties xmlns=\""@.drop_last());
    reveal_strlit("http://schemas.xmlsoap.org/srmp/");
    lemma_unreferring(SRMP@);
    reveal_strlit("\" se:mustUnderstand=\"1\"><expiresAt>");
    lemma_unreferring("\" se:mustUnderstand=\"1\"><expiresAt>"@);
    lemma_attribute(
        "</id></path><properties xmlns=\""@,
        SRMP@,
        "\" se:mustUnderstand=\"1\"><expiresAt>"@,
    );
}

proof fn lemma_to_body()
    ensures
        unreferring(to_body()),
{
    reveal_with_fuel(scans, 90);
    reveal_strlit("</sentAt></properties><Msmq xmlns=\"");
    lemma_unreferring("</sentAt></properties><Msmq xmlns=\""@.drop_last());
    reveal_strlit("msmq.namespace.xml");
    lemma_unreferring(MSMQ@);
    reveal_strlit(
        "\"><Class>0</Class><Priority>3</Priority><Journal>none</Journal><BodyType>0</BodyType>",
    );
    lemma_unreferring(
        "\"><Class>0</Class><Priority>3</Priority><Journal>none</Journal><BodyType>0</BodyType>"@,
    );
    reveal_strlit("</Msmq></se:Header><se:Body><Msmq xmlns=\"");
    lemma_unreferring("</Msmq></se:Header><se:Body><Msmq xmlns=\""@.drop_last());
    reveal_strlit("\"><Body ");
    lemma_unreferring("\"><Body "@);
    let classes =
        "\"><Class>0</Class><Priority>3</Priority><Journal>none</Journal><BodyType>0</BodyType>"@;
    let header = "</sentAt></properties><Msmq xmlns=\""@ + MSMQ@ + classes;
    let body = "</Msmq></se:Header><se:Body><Msmq xmlns=\""@ + MSMQ@ + "\"><Body "@;
    lemma_attribute("</sentAt></properties><Msmq xmlns=\""@, MSMQ@, classes);
    lemma_attribute("</Msmq></se:Header><se:Body><Msmq xmlns=\""@, MSMQ@, "\"><Body "@);
    lemma_join(header, body);
    assert(to_body() =~= header + body);
}

/// Nothing before the reference to the attachment reads as one.
proof fn lemma_before_reference(envelope: EnvelopeView, escape: spec_fn(Seq<char>) -> Seq<char>)
    requires
        free_of(escape(envelope.to), '"'),
        free_of(escape(envelope.id), '"'),
    ensures
        unreferring(text_before_reference(envelope, escape)),
{
    lemma_opening();
    lemma_to_properties();
    lemma_to_body();
    lemma_decimal(envelope.expires_at as nat);
    lemma_decimal(envelope.sent_at as nat);
    reveal_strlit("</to><id>");
    reveal_strlit("</expiresAt><sentAt>");
    reveal_with_fuel(scans, 22);
    lemma_unreferring("</to><id>"@);
    lemma_unreferring("</expiresAt><sentAt>"@);
    let t1 = opening() + escape(envelope.to);
    let t2 = t1 + "</to><id>"@;
    let t3 = t2 + escape(envelope.id);
    let t4 = t3 + to_properties();
    let t5 = t4 + decimal(envelope.expires_at as nat);
    let t6 = t5 + "</expiresAt><sentAt>"@;
    let t7 = t6 + decimal(envelope.sent_at as nat);
    lemma_join(opening(), escape(envelope.to));
    lemma_join(t1, "</to><id>"@);
    lemma_join(t2, escape(envelope.id));
    lemma_join(t3, to_properties());
    lemma_join(t4, decimal(envelope.expires_at as nat));
    lemma_join(t5, "</expiresAt><sentAt>"@);
    lemma_join(t6, decimal(envelope.sent_at as nat));
    lemma_join(t7, to_body());
}

/// A reference holds a quote, and the `c` of `cid:` after it.
proof fn lemma_reference_at(text: Seq<char>, j: int)
    requires
        occurs_at(text, reference(), j),
    ensures
        text[j + 5] == '"',
        text[j + 6] == 'c',
        j + 7 < text.len(),
{
    reveal_strlit("href=\"cid:");
    lemma_occurs_char(text, reference(), j, 5);
    lemma_occurs_char(text, reference(), j, 6);
}

/// The first reference in a text, where nothing before it and nothing after it reads as one.
proof fn lemma_only_reference(head: Seq<char>, raw: Seq<char>, tail: Seq<char>)
    requires
        unreferring(head),
        free_of(raw, '"'),
        unreferring(tail),
        tail.len() > 0,
        tail[0] == '"',
    ensures
        reference_in(head + reference() + raw + tail) == Some(raw),
{
    let rest = raw + tail;
    let xml = head + reference() + raw + tail;
    assert(xml =~= head + reference() + rest);
    reveal_strlit("href=\"cid:");
    lemma_occurs_in_middle(head, reference(), rest);
    assert forall|j: int| 0 <= j < head.len() implies !#[trigger] occurs_at(xml, reference(), j) by {
        if occurs_at(xml, reference(), j) {
            lemma_reference_at(xml, j);
            if j + 5 < head.len() {
                assert(head[j + 5] == '"');
                assert(xml[j + 6] == head[j + 6]);
            } else {
                assert(xml[j + 5] == reference()[j + 5 - head.len()]);
            }
        }
    }
    lemma_first_at(xml, reference(), head.len() as int);
    assert(xml.skip((head.len() + reference().len()) as int) =~= rest);
    lemma_join(raw, tail);
    lemma_index_of(rest, reference());
    assert forall|j: int| !#[trigger] occurs_at(rest, reference(), j) by {
        if occurs_at(rest, reference(), j) {
            lemma_reference_at(rest, j);
        }
    }
    reveal_strlit("\"");
    assert(rest =~= raw + "\""@ + tail.skip(1));
    lemma_first_mark(raw, "\""@, tail.skip(1));
}

proof fn lemma_closing()
    ensures
        unreferring(closing()),
        closing().len() > 0,
        closing()[0] == '"',
{
    reveal_strlit("\"/></Msmq></se:Body></se:Envelope>");
    reveal_with_fuel(scans, 40);
    lemma_unreferring(closing());
}

/// The attachment that an envelope was written with is the one it is read to refer to.
pub proof fn lemma_reference_in(envelope: EnvelopeView, escape: spec_fn(Seq<char>) -> Seq<char>)
    requires
        free_of(escape(envelope.to), '"'),
        free_of(escape(envelope.id), '"'),
        free_of(escape(envelope.body_id), '"'),
    ensures
        reference_in(envelope_text(envelope, escape)) == Some(escape(envelope.body_id)),
{
    lemma_before_reference(envelope, escape);
    lemma_closing();
    lemma_only_reference(
        text_before_reference(envelope, escape),
        escape(envelope.body_id),
        closing(),
    );
}

/// An envelope is recognised as one, with a path header.
pub proof fn lemma_is_an_envelope(envelope: EnvelopeView, escape: spec_fn(Seq<char>) -> Seq<char>)
    ensures
        contains(envelope_text(envelope, escape), "<se:Envelope"@),
        has_start_tag(envelope_text(envelope, escape), "path"@),
{
    let xml = envelope_text(envelope, escape);
    reveal_strlit("<?xml version=\"1.0\"?>");
    reveal_strlit("<se:Envelope xmlns:se=\"");
    reveal_strlit("<se:Envelope");
    assert(xml.subrange(21, 33) =~= "<se:Envelope"@);
    assert(occurs_at(xml, "<se:Envelope"@, 21));
    reveal_strlit("http://schemas.xmlsoap.org/soap/envelope/");
    reveal_strlit("\"><se:Header>");
    reveal_strlit("<path xmlns=\"");
    reveal_strlit("path");
    assert(xml.subrange(99, 103) =~= "path"@);
    assert(opens_tag(xml, 98, 99) && name_at(xml, "path"@, 99));
}

} // verus!
