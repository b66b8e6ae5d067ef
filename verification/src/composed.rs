//! What a composed message is made of, piece by piece.
use vstd::prelude::*;
use vstd::utf8::{encode_utf8, is_ascii_chars, is_ascii_chars_encode_utf8};

use crate::envelope::{
    closing, envelope_text, opening, reference, text_before_reference, to_body, to_properties,
    EnvelopeView, ACTION, MSMQ, ROUTING, SOAP, SRMP,
};
use crate::error::Refusal;
use crate::laws::reads_back;
use crate::libraries::{
    delimiter, element, ends_in, finds, has_line, is_other_than, is_simple, is_xml_library,
    passes_over, plain_authority, plain_boundary, plain_queue, proper, rendered, simple, written,
    Piece,
};
use crate::number::{decimal, lemma_decimal};
use crate::lemmas::lemma_occurs_char;
use crate::target::{url_of, QueueView};
use crate::text::{before, free_of, index_of, lemma_index_of};
use crate::transport::{body_id, envelope_id, message_id, numbered, BOUNDARY};

verus! {

/// Every character of `text` has the property `p`.
spec fn all(text: Seq<char>, p: spec_fn(char) -> bool) -> bool {
    forall|i: int| 0 <= i < text.len() ==> p(#[trigger] text[i])
}

/// [`all`], from position `i` on, one position after the other.
spec fn each(text: Seq<char>, p: spec_fn(char) -> bool, i: int) -> bool
    decreases text.len() - i,
{
    if 0 <= i < text.len() {
        p(text[i]) && each(text, p, i + 1)
    } else {
        true
    }
}

proof fn lemma_each(text: Seq<char>, p: spec_fn(char) -> bool, i: int, k: int)
    requires
        each(text, p, i),
        0 <= i <= k < text.len(),
    ensures
        p(text[k]),
    decreases k - i,
{
    if i < k {
        lemma_each(text, p, i + 1, k);
    }
}

/// What holds position by position holds of all.
proof fn lemma_all(text: Seq<char>, p: spec_fn(char) -> bool)
    requires
        each(text, p, 0),
    ensures
        all(text, p),
{
    assert forall|i: int| 0 <= i < text.len() implies p(#[trigger] text[i]) by {
        lemma_each(text, p, 0, i);
    }
}

/// A simple text, if not empty, is a proper one.
pub proof fn lemma_simple_is_proper(text: Seq<char>)
    requires
        simple(text),
        text.len() > 0,
    ensures
        proper(text),
{
    assert(is_simple(text[0]) && is_simple(text.last()));
}

/// A number in decimal is simple.
proof fn lemma_decimal_is_simple(n: nat)
    ensures
        simple(decimal(n)),
        decimal(n).len() > 0,
{
    lemma_decimal(n);
}

/// One more piece is written after the others.
proof fn lemma_rendered(pieces: Seq<Piece>, piece: Piece)
    ensures
        rendered(pieces.push(piece)) == rendered(pieces) + written(piece),
{
    assert(pieces.push(piece).drop_last() =~= pieces);
}

spec fn tag(name: Seq<char>, rest: Seq<char>) -> Piece {
    Piece::Tag { name, rest }
}

spec fn before_action() -> Seq<Piece> {
    Seq::<Piece>::empty().push(tag("?xml"@, " version=\"1.0\"?"@)).push(
        tag("se:Envelope"@, " xmlns:se=\""@ + SOAP@ + "\""@),
    ).push(tag("se:Header"@, Seq::empty())).push(
        tag("path"@, " xmlns=\""@ + ROUTING@ + "\" se:mustUnderstand=\"1\""@),
    )
}

/// The element called `name` with `text` in it, as pieces.
spec fn and_element(head: Seq<Piece>, name: Seq<char>, text: Seq<char>) -> Seq<Piece> {
    head.push(tag(name, Seq::empty())).push(Piece::Text(text)).push(tag("/"@ + name, Seq::empty()))
}

proof fn lemma_and_element(head: Seq<Piece>, name: Seq<char>, text: Seq<char>)
    ensures
        rendered(and_element(head, name, text)) == rendered(head) + element(name, text),
{
    let a = head.push(tag(name, Seq::empty()));
    let b = a.push(Piece::Text(text));
    lemma_rendered(head, tag(name, Seq::empty()));
    lemma_rendered(a, Piece::Text(text));
    lemma_rendered(b, tag("/"@ + name, Seq::empty()));
    reveal_strlit("<");
    reveal_strlit("/");
    reveal_strlit("</");
    assert("</"@ =~= "<"@ + "/"@);
    assert(rendered(and_element(head, name, text)) =~= rendered(head) + element(name, text));
}

spec fn before_expiry(to: Seq<char>, id: Seq<char>) -> Seq<Piece> {
    and_element(and_element(and_element(before_action(), "action"@, ACTION@), "to"@, to), "id"@, id).push(
        tag("/path"@, Seq::empty()),
    ).push(tag("properties"@, " xmlns=\""@ + SRMP@ + "\" se:mustUnderstand=\"1\""@))
}

proof fn lemma_before_action()
    ensures
        rendered(before_action()) == "<?xml version=\"1.0\"?>"@ + ("<se:Envelope xmlns:se=\""@ + SOAP@
            + "\">"@) + "<se:Header>"@ + ("<path xmlns=\""@ + ROUTING@
            + "\" se:mustUnderstand=\"1\">"@),
{
    let p0 = Seq::<Piece>::empty();
    let t1 = tag("?xml"@, " version=\"1.0\"?"@);
    let t2 = tag("se:Envelope"@, " xmlns:se=\""@ + SOAP@ + "\""@);
    let t3 = tag("se:Header"@, Seq::empty());
    let t4 = tag("path"@, " xmlns=\""@ + ROUTING@ + "\" se:mustUnderstand=\"1\""@);
    lemma_rendered(p0, t1);
    lemma_rendered(p0.push(t1), t2);
    lemma_rendered(p0.push(t1).push(t2), t3);
    lemma_rendered(p0.push(t1).push(t2).push(t3), t4);
    reveal_strlit("<");
    reveal_strlit(">");
    assert(written(t1) =~= "<?xml version=\"1.0\"?>"@) by {
        reveal_strlit("?xml");
        reveal_strlit(" version=\"1.0\"?");
        reveal_strlit("<?xml version=\"1.0\"?>");
    }
    assert(written(t2) =~= "<se:Envelope xmlns:se=\""@ + SOAP@ + "\">"@) by {
        reveal_strlit("se:Envelope");
        reveal_strlit(" xmlns:se=\"");
        reveal_strlit("<se:Envelope xmlns:se=\"");
        reveal_strlit("\"");
        reveal_strlit("\">");
        assert("<"@ + "se:Envelope"@ + " xmlns:se=\""@ =~= "<se:Envelope xmlns:se=\""@);
        assert("\""@ + ">"@ =~= "\">"@);
    }
    assert(written(t3) =~= "<se:Header>"@) by {
        reveal_strlit("se:Header");
        reveal_strlit("<se:Header>");
    }
    assert(written(t4) =~= "<path xmlns=\""@ + ROUTING@ + "\" se:mustUnderstand=\"1\">"@) by {
        reveal_strlit("path");
        reveal_strlit(" xmlns=\"");
        reveal_strlit("<path xmlns=\"");
        reveal_strlit("\" se:mustUnderstand=\"1\"");
        reveal_strlit("\" se:mustUnderstand=\"1\">");
        assert("<"@ + "path"@ + " xmlns=\""@ =~= "<path xmlns=\""@);
        assert("\" se:mustUnderstand=\"1\""@ + ">"@ =~= "\" se:mustUnderstand=\"1\">"@);
    }
    assert(rendered(p0) =~= Seq::<char>::empty());
    assert(rendered(before_action()) =~= written(t1) + written(t2) + written(t3) + written(t4));
}

spec fn to_expiry() -> Seq<char> {
    "</path>"@ + ("<properties xmlns=\""@ + SRMP@ + "\" se:mustUnderstand=\"1\">"@)
}

spec fn after_sending() -> Seq<char> {
    "</properties><Msmq xmlns=\""@ + MSMQ@
        + "\"><Class>0</Class><Priority>3</Priority><Journal>none</Journal><BodyType>0</BodyType>"@
        + "</Msmq></se:Header><se:Body><Msmq xmlns=\""@ + MSMQ@ + "\"><Body "@
}

proof fn lemma_opening()
    ensures
        opening() == rendered(before_action()) + element("action"@, ACTION@) + "<to>"@,
{
    lemma_before_action();
    reveal_strlit("<");
    reveal_strlit(">");
    reveal_strlit("</");
    assert("\"><se:Header>"@ =~= "\">"@ + "<se:Header>"@) by {
        reveal_strlit("\"><se:Header>");
        reveal_strlit("\">");
        reveal_strlit("<se:Header>");
    }
    assert("\" se:mustUnderstand=\"1\"><action>"@ =~= "\" se:mustUnderstand=\"1\">"@ + ("<"@
        + "action"@ + ">"@)) by {
        reveal_strlit("\" se:mustUnderstand=\"1\"><action>");
        reveal_strlit("\" se:mustUnderstand=\"1\">");
        reveal_strlit("action");
    }
    assert("</action><to>"@ =~= "</"@ + "action"@ + ">"@ + "<to>"@) by {
        reveal_strlit("</action><to>");
        reveal_strlit("<to>");
        reveal_strlit("action");
    }
    assert(opening() =~= rendered(before_action()) + element("action"@, ACTION@) + "<to>"@);
}

proof fn lemma_to_properties()
    ensures
        to_properties() == "</id>"@ + to_expiry() + "<expiresAt>"@,
{
    assert("</id></path><properties xmlns=\""@ =~= "</id>"@ + "</path>"@ + "<properties xmlns=\""@)
        by {
        reveal_strlit("</id></path><properties xmlns=\"");
        reveal_strlit("</id>");
        reveal_strlit("</path>");
        reveal_strlit("<properties xmlns=\"");
    }
    assert("\" se:mustUnderstand=\"1\"><expiresAt>"@ =~= "\" se:mustUnderstand=\"1\">"@
        + "<expiresAt>"@) by {
        reveal_strlit("\" se:mustUnderstand=\"1\"><expiresAt>");
        reveal_strlit("\" se:mustUnderstand=\"1\">");
        reveal_strlit("<expiresAt>");
    }
    assert(to_properties() =~= "</id>"@ + to_expiry() + "<expiresAt>"@);
}

proof fn lemma_to_body()
    ensures
        to_body() == "</sentAt>"@ + after_sending(),
{
    assert("</sentAt></properties><Msmq xmlns=\""@ =~= "</sentAt>"@
        + "</properties><Msmq xmlns=\""@) by {
        reveal_strlit("</sentAt></properties><Msmq xmlns=\"");
        reveal_strlit("</sentAt>");
        reveal_strlit("</properties><Msmq xmlns=\"");
    }
    assert(to_body() =~= "</sentAt>"@ + after_sending());
}

/// The same twelve texts, put together in another order of brackets.
proof fn lemma_regroup(
    head: Seq<char>,
    to: Seq<char>,
    a: Seq<char>,
    b: Seq<char>,
    id: Seq<char>,
    c: Seq<char>,
    middle: Seq<char>,
    d: Seq<char>,
    expiry: Seq<char>,
    e: Seq<char>,
    f: Seq<char>,
    sent: Seq<char>,
    rest: Seq<char>,
)
    ensures
        head + to + (a + b) + id + (c + middle + d) + expiry + (e + f) + sent + rest == head + (to
            + a) + (b + id + c) + middle + (d + expiry + e) + (f + sent + rest),
{
    let x1 = head + to + (a + b) + id + (c + middle + d);
    let y1 = head + (to + a) + (b + id + c) + middle + d;
    assert(x1 =~= y1);
    assert(x1 + expiry + (e + f) + sent + rest =~= y1 + expiry + e + (f + sent + rest));
    assert(y1 + expiry + e =~= head + (to + a) + (b + id + c) + middle + (d + expiry + e));
}

/// What follows the elements that a queue reads.
spec fn ending(raw: Seq<char>) -> Seq<char> {
    after_sending() + reference() + raw + closing()
}

/// The text of an envelope, as the elements that a queue reads and what stands between them.
proof fn lemma_elements(envelope: EnvelopeView, escape: spec_fn(Seq<char>) -> Seq<char>)
    ensures
        envelope_text(envelope, escape) == rendered(before_action()) + element("action"@, ACTION@)
            + element("to"@, escape(envelope.to)) + element("id"@, escape(envelope.id))
            + to_expiry() + element("expiresAt"@, decimal(envelope.expires_at as nat)) + element(
            "sentAt"@,
            decimal(envelope.sent_at as nat),
        ) + ending(escape(envelope.body_id)),
{
    lemma_opening();
    lemma_to_properties();
    lemma_to_body();
    reveal_strlit("<");
    reveal_strlit(">");
    reveal_strlit("</");
    let to = escape(envelope.to);
    let id = escape(envelope.id);
    let expiry = decimal(envelope.expires_at as nat);
    let sent = decimal(envelope.sent_at as nat);
    let raw = escape(envelope.body_id);
    let head = rendered(before_action()) + element("action"@, ACTION@);
    assert(element("to"@, to) =~= "<to>"@ + to + "</to>"@) by {
        reveal_strlit("to");
        reveal_strlit("<to>");
        reveal_strlit("</to>");
        assert("<"@ + "to"@ + ">"@ =~= "<to>"@);
        assert("</"@ + "to"@ + ">"@ =~= "</to>"@);
    }
    assert(element("id"@, id) =~= "<id>"@ + id + "</id>"@) by {
        reveal_strlit("id");
        reveal_strlit("<id>");
        reveal_strlit("</id>");
        assert("<"@ + "id"@ + ">"@ =~= "<id>"@);
        assert("</"@ + "id"@ + ">"@ =~= "</id>"@);
    }
    assert(element("expiresAt"@, expiry) =~= "<expiresAt>"@ + expiry + "</expiresAt>"@) by {
        reveal_strlit("expiresAt");
        reveal_strlit("<expiresAt>");
        reveal_strlit("</expiresAt>");
        assert("<"@ + "expiresAt"@ + ">"@ =~= "<expiresAt>"@);
        assert("</"@ + "expiresAt"@ + ">"@ =~= "</expiresAt>"@);
    }
    assert(element("sentAt"@, sent) =~= "<sentAt>"@ + sent + "</sentAt>"@) by {
        reveal_strlit("sentAt");
        reveal_strlit("<sentAt>");
        reveal_strlit("</sentAt>");
        assert("<"@ + "sentAt"@ + ">"@ =~= "<sentAt>"@);
        assert("</"@ + "sentAt"@ + ">"@ =~= "</sentAt>"@);
    }
    assert("</to><id>"@ =~= "</to>"@ + "<id>"@) by {
        reveal_strlit("</to><id>");
        reveal_strlit("</to>");
        reveal_strlit("<id>");
    }
    assert("</expiresAt><sentAt>"@ =~= "</expiresAt>"@ + "<sentAt>"@) by {
        reveal_strlit("</expiresAt><sentAt>");
        reveal_strlit("</expiresAt>");
        reveal_strlit("<sentAt>");
    }
    lemma_regroup(
        head + "<to>"@,
        to,
        "</to>"@,
        "<id>"@,
        id,
        "</id>"@,
        to_expiry(),
        "<expiresAt>"@,
        expiry,
        "</expiresAt>"@,
        "<sentAt>"@,
        sent,
        "</sentAt>"@ + after_sending(),
    );
    assert(head + "<to>"@ + (to + "</to>"@) =~= head + ("<to>"@ + to + "</to>"@));
    let front = head + ("<to>"@ + to + "</to>"@) + ("<id>"@ + id + "</id>"@) + to_expiry() + (
    "<expiresAt>"@ + expiry + "</expiresAt>"@);
    assert(text_before_reference(envelope, escape) == front + ("<sentAt>"@ + sent + ("</sentAt>"@
        + after_sending())));
    assert(front + ("<sentAt>"@ + sent + ("</sentAt>"@ + after_sending())) + reference() + raw
        + closing() =~= front + ("<sentAt>"@ + sent + "</sentAt>"@) + ending(raw));
}

/// A text does not end in one whose `k`-th character from the end is another.
proof fn lemma_not_ends_in(text: Seq<char>, end: Seq<char>, k: int)
    requires
        0 < k <= end.len(),
        k <= text.len() ==> text[text.len() - k] != end[end.len() - k],
    ensures
        !ends_in(text, end),
{
    if ends_in(text, end) {
        assert(text.skip(text.len() - end.len())[end.len() - k] == text[text.len() - k]);
    }
}

/// One more piece that is no tag of an element is passed over with the others.
proof fn lemma_passes_over(head: Seq<Piece>, piece: Piece, name: Seq<char>)
    requires
        passes_over(head, name),
        is_other_than(piece, name),
    ensures
        passes_over(head.push(piece), name),
{
    let more = head.push(piece);
    assert forall|i: int| 0 <= i < more.len() implies is_other_than(#[trigger] more[i], name) by {
        if i < head.len() {
            assert(more[i] == head[i]);
        }
    }
}

/// The name of a tag.
spec fn is_name(own: Seq<char>) -> bool {
    own.len() > 0 && free_of(own, '<') && free_of(own, '>') && free_of(own, ' ')
}

proof fn lemma_is_name(own: Seq<char>)
    requires
        each(own, |c: char| c != '<' && c != '>' && c != ' ', 0),
        own.len() > 0,
    ensures
        is_name(own),
{
    let p = |c: char| c != '<' && c != '>' && c != ' ';
    lemma_all(own, p);
    assert forall|i: int| 0 <= i < own.len() implies #[trigger] own[i] != '<' && own[i] != '>'
        && own[i] != ' ' by {
        assert(p(own[i]));
    }
}

/// An element of one name is passed over in search of another.
proof fn lemma_passes_over_element(
    head: Seq<Piece>,
    own: Seq<char>,
    text: Seq<char>,
    name: Seq<char>,
    k: int,
)
    requires
        passes_over(head, name),
        is_name(own),
        simple(own),
        free_of(text, '<'),
        0 < k <= name.len(),
        k <= own.len(),
        own[own.len() - k] != name[name.len() - k],
    ensures
        passes_over(and_element(head, own, text), name),
{
    reveal_strlit("/");
    let close = "/"@ + own;
    assert(is_simple(own[0]));
    assert(close[close.len() - k] == own[own.len() - k]);
    lemma_not_ends_in(own, name, k);
    lemma_not_ends_in(close, name, k);
    assert(is_name(close)) by {
        assert forall|i: int| 0 <= i < close.len() implies #[trigger] close[i] != '<' && close[i]
            != '>' && close[i] != ' ' by {
            if i > 0 {
                assert(close[i] == own[i - 1]);
            }
        }
    }
    let a = head.push(tag(own, Seq::empty()));
    let b = a.push(Piece::Text(text));
    lemma_passes_over(head, tag(own, Seq::empty()), name);
    lemma_passes_over(a, Piece::Text(text), name);
    lemma_passes_over(b, tag(close, Seq::empty()), name);
}

/// The attributes of a tag.
spec fn is_rest(rest: Seq<char>) -> bool {
    rest.len() > 0 && rest[0] == ' ' && free_of(rest, '<') && free_of(rest, '>')
}

proof fn lemma_is_rest(a: Seq<char>, value: Seq<char>, b: Seq<char>)
    requires
        a.len() > 0,
        a[0] == ' ',
        each(a, |c: char| c != '<' && c != '>', 0),
        each(value, |c: char| c != '<' && c != '>', 0),
        each(b, |c: char| c != '<' && c != '>', 0),
    ensures
        is_rest(a + value + b),
{
    let p = |c: char| c != '<' && c != '>';
    lemma_all(a, p);
    lemma_all(value, p);
    lemma_all(b, p);
    let rest = a + value + b;
    assert forall|i: int| 0 <= i < rest.len() implies #[trigger] rest[i] != '<' && rest[i] != '>' by {
        if i < a.len() {
            assert(p(a[i]));
        } else if i < a.len() + value.len() {
            assert(p(value[i - a.len()]));
        } else {
            assert(p(b[i - a.len() - value.len()]));
        }
    }
}

proof fn lemma_passes_over_beginning(name: Seq<char>)
    requires
        name.len() > 0,
        name.last() != 'l',
        name.last() != 'e',
        name.last() != 'r',
        name.last() != 'h',
    ensures
        passes_over(before_action(), name),
{
    reveal_with_fuel(each, 50);
    let empty = Seq::<char>::empty();
    let p0 = Seq::<Piece>::empty();
    let t1 = tag("?xml"@, " version=\"1.0\"?"@);
    let t2 = tag("se:Envelope"@, " xmlns:se=\""@ + SOAP@ + "\""@);
    let t3 = tag("se:Header"@, empty);
    let t4 = tag("path"@, " xmlns=\""@ + ROUTING@ + "\" se:mustUnderstand=\"1\""@);
    assert(is_other_than(t1, name)) by {
        reveal_strlit("?xml");
        reveal_strlit(" version=\"1.0\"?");
        lemma_is_name("?xml"@);
        lemma_is_rest(" version=\"1.0\"?"@, empty, empty);
        assert(" version=\"1.0\"?"@ + empty + empty =~= " version=\"1.0\"?"@);
        lemma_not_ends_in("?xml"@, name, 1);
    }
    assert(is_other_than(t2, name)) by {
        reveal_strlit("se:Envelope");
        reveal_strlit(" xmlns:se=\"");
        reveal_strlit("http://schemas.xmlsoap.org/soap/envelope/");
        reveal_strlit("\"");
        lemma_is_name("se:Envelope"@);
        lemma_is_rest(" xmlns:se=\""@, SOAP@, "\""@);
        lemma_not_ends_in("se:Envelope"@, name, 1);
    }
    assert(is_other_than(t3, name)) by {
        reveal_strlit("se:Header");
        lemma_is_name("se:Header"@);
        lemma_not_ends_in("se:Header"@, name, 1);
    }
    assert(is_other_than(t4, name)) by {
        reveal_strlit("path");
        reveal_strlit(" xmlns=\"");
        reveal_strlit("http://schemas.xmlsoap.org/rp/");
        reveal_strlit("\" se:mustUnderstand=\"1\"");
        lemma_is_name("path"@);
        lemma_is_rest(" xmlns=\""@, ROUTING@, "\" se:mustUnderstand=\"1\""@);
        lemma_not_ends_in("path"@, name, 1);
    }
    lemma_passes_over(p0, t1, name);
    lemma_passes_over(p0.push(t1), t2, name);
    lemma_passes_over(p0.push(t1).push(t2), t3, name);
    lemma_passes_over(p0.push(t1).push(t2).push(t3), t4, name);
}

/// The names of the elements that a queue reads.
proof fn lemma_names()
    ensures
        is_name("action"@) && simple("action"@) && "action"@.len() == 6 && "action"@.last() == 'n',
        is_name("to"@) && simple("to"@) && "to"@.len() == 2 && "to"@.last() == 'o',
        is_name("id"@) && simple("id"@) && "id"@.len() == 2 && "id"@.last() == 'd',
        is_name("expiresAt"@) && simple("expiresAt"@) && "expiresAt"@.len() == 9
            && "expiresAt"@.last() == 't' && "expiresAt"@[6] == 's',
        is_name("sentAt"@) && simple("sentAt"@) && "sentAt"@.len() == 6 && "sentAt"@.last() == 't'
            && "sentAt"@[3] == 't',
        simple(ACTION@),
        proper(ACTION@),
{
    reveal_with_fuel(each, 13);
    reveal_strlit("action");
    reveal_strlit("to");
    reveal_strlit("id");
    reveal_strlit("expiresAt");
    reveal_strlit("sentAt");
    reveal_strlit("MSMQ:default");
    lemma_is_name("action"@);
    lemma_is_name("to"@);
    lemma_is_name("id"@);
    lemma_is_name("expiresAt"@);
    lemma_is_name("sentAt"@);
    let p = |c: char| is_simple(c);
    lemma_all("action"@, p);
    lemma_all("to"@, p);
    lemma_all("id"@, p);
    lemma_all("expiresAt"@, p);
    lemma_all("sentAt"@, p);
    lemma_all(ACTION@, p);
    assert forall|t: Seq<char>| #[trigger] all(t, p) implies simple(t) by {
        assert forall|i: int| 0 <= i < t.len() implies is_simple(#[trigger] t[i]) by {
            assert(p(t[i]));
        }
    }
    lemma_simple_is_proper(ACTION@);
}

/// What stands between the id and the time of expiry is passed over in search of a time.
proof fn lemma_passes_over_middle(head: Seq<Piece>, name: Seq<char>)
    requires
        passes_over(head, name),
        name.len() > 0,
        name.last() == 't',
    ensures
        passes_over(
            head.push(tag("/path"@, Seq::empty())).push(
                tag("properties"@, " xmlns=\""@ + SRMP@ + "\" se:mustUnderstand=\"1\""@),
            ),
            name,
        ),
{
    reveal_with_fuel(each, 50);
    let t1 = tag("/path"@, Seq::empty());
    let t2 = tag("properties"@, " xmlns=\""@ + SRMP@ + "\" se:mustUnderstand=\"1\""@);
    assert(is_other_than(t1, name)) by {
        reveal_strlit("/path");
        lemma_is_name("/path"@);
        lemma_not_ends_in("/path"@, name, 1);
    }
    assert(is_other_than(t2, name)) by {
        reveal_strlit("properties");
        reveal_strlit(" xmlns=\"");
        reveal_strlit("http://schemas.xmlsoap.org/srmp/");
        reveal_strlit("\" se:mustUnderstand=\"1\"");
        lemma_is_name("properties"@);
        lemma_is_rest(" xmlns=\""@, SRMP@, "\" se:mustUnderstand=\"1\""@);
        lemma_not_ends_in("properties"@, name, 1);
    }
    lemma_passes_over(head, t1, name);
    lemma_passes_over(head.push(t1), t2, name);
}

proof fn lemma_before_expiry(to: Seq<char>, id: Seq<char>)
    ensures
        rendered(before_expiry(to, id)) == rendered(before_action()) + element("action"@, ACTION@)
            + element("to"@, to) + element("id"@, id) + to_expiry(),
{
    let h2 = and_element(before_action(), "action"@, ACTION@);
    let h3 = and_element(h2, "to"@, to);
    let h4 = and_element(h3, "id"@, id);
    let t1 = tag("/path"@, Seq::empty());
    let t2 = tag("properties"@, " xmlns=\""@ + SRMP@ + "\" se:mustUnderstand=\"1\""@);
    lemma_and_element(before_action(), "action"@, ACTION@);
    lemma_and_element(h2, "to"@, to);
    lemma_and_element(h3, "id"@, id);
    lemma_rendered(h4, t1);
    lemma_rendered(h4.push(t1), t2);
    reveal_strlit("<");
    reveal_strlit(">");
    assert(written(t1) =~= "</path>"@) by {
        reveal_strlit("/path");
        reveal_strlit("</path>");
    }
    assert(written(t2) =~= "<properties xmlns=\""@ + SRMP@ + "\" se:mustUnderstand=\"1\">"@) by {
        reveal_strlit("properties");
        reveal_strlit(" xmlns=\"");
        reveal_strlit("<properties xmlns=\"");
        reveal_strlit("\" se:mustUnderstand=\"1\"");
        reveal_strlit("\" se:mustUnderstand=\"1\">");
        assert("<"@ + "properties"@ + " xmlns=\""@ =~= "<properties xmlns=\""@);
        assert("\" se:mustUnderstand=\"1\""@ + ">"@ =~= "\" se:mustUnderstand=\"1\">"@);
    }
    assert(rendered(h4) + written(t1) + written(t2) =~= rendered(h4) + to_expiry());
}

/// Each of the elements is passed over in search of those that follow it.
proof fn lemma_heads(to: Seq<char>, id: Seq<char>, expiry: Seq<char>)
    requires
        free_of(to, '<'),
        free_of(id, '<'),
        free_of(expiry, '<'),
    ensures
        ({
            let h2 = and_element(before_action(), "action"@, ACTION@);
            let h3 = and_element(h2, "to"@, to);
            let h4 = before_expiry(to, id);
            &&& passes_over(before_action(), "action"@)
            &&& passes_over(h2, "to"@)
            &&& passes_over(h3, "id"@)
            &&& passes_over(h4, "expiresAt"@)
            &&& passes_over(and_element(h4, "expiresAt"@, expiry), "sentAt"@)
        }),
{
    lemma_names();
    let h1 = before_action();
    let h2 = and_element(h1, "action"@, ACTION@);
    let h3 = and_element(h2, "to"@, to);
    let h4 = before_expiry(to, id);
    assert(free_of(ACTION@, '<'));
    lemma_passes_over_beginning("action"@);
    lemma_passes_over_beginning("to"@);
    lemma_passes_over_element(h1, "action"@, ACTION@, "to"@, 1);
    lemma_passes_over_beginning("id"@);
    lemma_passes_over_element(h1, "action"@, ACTION@, "id"@, 1);
    lemma_passes_over_element(h2, "to"@, to, "id"@, 1);
    lemma_passes_over_beginning("expiresAt"@);
    lemma_passes_over_element(h1, "action"@, ACTION@, "expiresAt"@, 1);
    lemma_passes_over_element(h2, "to"@, to, "expiresAt"@, 1);
    lemma_passes_over_element(h3, "id"@, id, "expiresAt"@, 1);
    lemma_passes_over_middle(and_element(h3, "id"@, id), "expiresAt"@);
    lemma_passes_over_beginning("sentAt"@);
    lemma_passes_over_element(h1, "action"@, ACTION@, "sentAt"@, 1);
    lemma_passes_over_element(h2, "to"@, to, "sentAt"@, 1);
    lemma_passes_over_element(h3, "id"@, id, "sentAt"@, 1);
    lemma_passes_over_middle(and_element(h3, "id"@, id), "sentAt"@);
    lemma_passes_over_element(h4, "expiresAt"@, expiry, "sentAt"@, 3);
}

/// Eight texts in a row, cut behind each of five of them.
proof fn lemma_cuts(
    head: Seq<char>,
    action: Seq<char>,
    to: Seq<char>,
    id: Seq<char>,
    middle: Seq<char>,
    expiry: Seq<char>,
    sent: Seq<char>,
    end: Seq<char>,
)
    ensures
        ({
            let whole = head + action + to + id + middle + expiry + sent + end;
            let tail4 = sent + end;
            let tail3 = middle + expiry + tail4;
            &&& whole == head + action + (to + (id + tail3))
            &&& whole == head + action + to + (id + tail3)
            &&& whole == head + action + to + id + tail3
            &&& whole == head + action + to + id + middle + expiry + tail4
        }),
{
    let whole = head + action + to + id + middle + expiry + sent + end;
    let tail4 = sent + end;
    let tail3 = middle + expiry + tail4;
    assert(whole =~= head + action + to + id + middle + expiry + tail4);
    assert(whole =~= head + action + to + id + tail3);
    assert(whole =~= head + action + to + (id + tail3));
    assert(whole =~= head + action + (to + (id + tail3)));
}

/// Every XML library reads back the text of every envelope whose texts are proper.
pub proof fn lemma_library_reads_back(
    envelope: EnvelopeView,
    escape: spec_fn(Seq<char>) -> Seq<char>,
    first: spec_fn(Seq<char>, Seq<char>) -> Result<Option<Seq<char>>, Refusal>,
    unescape: spec_fn(Seq<char>) -> Result<Seq<char>, Refusal>,
)
    requires
        is_xml_library(escape, first, unescape),
        proper(envelope.to),
        proper(envelope.id),
        proper(envelope.body_id),
    ensures
        reads_back(envelope, escape, first, unescape),
{
    let to = escape(envelope.to);
    let id = escape(envelope.id);
    let expiry = decimal(envelope.expires_at as nat);
    let sent = decimal(envelope.sent_at as nat);
    lemma_elements(envelope, escape);
    lemma_names();
    lemma_decimal_is_simple(envelope.expires_at as nat);
    lemma_decimal_is_simple(envelope.sent_at as nat);
    lemma_simple_is_proper(expiry);
    lemma_simple_is_proper(sent);
    assert(escape(ACTION@) == ACTION@ && escape(expiry) == expiry && escape(sent) == sent);

    let h1 = before_action();
    let h2 = and_element(h1, "action"@, ACTION@);
    let h3 = and_element(h2, "to"@, to);
    let h4 = before_expiry(to, id);
    let h5 = and_element(h4, "expiresAt"@, expiry);
    lemma_and_element(h1, "action"@, ACTION@);
    lemma_and_element(h2, "to"@, to);
    lemma_before_expiry(to, id);
    lemma_and_element(h4, "expiresAt"@, expiry);
    assert(free_of(expiry, '<'));
    lemma_heads(to, id, expiry);

    let e_sent = element("sentAt"@, sent);
    let e_expiry = element("expiresAt"@, expiry);
    let end = ending(escape(envelope.body_id));
    let tail4 = e_sent + end;
    let tail3 = to_expiry() + e_expiry + tail4;
    let tail2 = element("id"@, id) + tail3;
    lemma_cuts(
        rendered(h1),
        element("action"@, ACTION@),
        element("to"@, to),
        element("id"@, id),
        to_expiry(),
        e_expiry,
        e_sent,
        end,
    );
    assert(finds(escape, first, h1, "action"@, ACTION@, element("to"@, to) + tail2));
    assert(finds(escape, first, h2, "to"@, envelope.to, tail2));
    assert(finds(escape, first, h3, "id"@, envelope.id, tail3));
    assert(finds(escape, first, h4, "expiresAt"@, expiry, tail4));
    assert(finds(escape, first, h5, "sentAt"@, sent, end));
}

/// The characters that the text of an envelope is made of.
spec fn plain() -> spec_fn(char) -> bool {
    |c: char| '\0' <= c <= '\u{7f}' && c != ','
}

proof fn lemma_joined(a: Seq<char>, b: Seq<char>)
    requires
        all(a, plain()),
        all(b, plain()),
    ensures
        all(a + b, plain()),
{
    let t = a + b;
    let p = plain();
    assert forall|i: int| 0 <= i < t.len() implies p(#[trigger] t[i]) by {
        if i < a.len() {
            assert(p(a[i]));
        } else {
            assert(p(b[i - a.len()]));
        }
    }
}

proof fn lemma_simple_is_plain(text: Seq<char>)
    requires
        simple(text),
    ensures
        all(text, plain()),
{
    let p = plain();
    assert forall|i: int| 0 <= i < text.len() implies p(#[trigger] text[i]) by {
        assert(is_simple(text[i]));
    }
}

proof fn lemma_plain_opening()
    ensures
        all(opening(), plain()),
{
    reveal_with_fuel(each, 50);
    reveal_strlit("<?xml version=\"1.0\"?>");
    reveal_strlit("<se:Envelope xmlns:se=\"");
    reveal_strlit("http://schemas.xmlsoap.org/soap/envelope/");
    reveal_strlit("\"><se:Header>");
    reveal_strlit("<path xmlns=\"");
    reveal_strlit("http://schemas.xmlsoap.org/rp/");
    reveal_strlit("\" se:mustUnderstand=\"1\"><action>");
    reveal_strlit("MSMQ:default");
    reveal_strlit("</action><to>");
    let t0 = "<?xml version=\"1.0\"?>"@;
    let t1 = t0 + "<se:Envelope xmlns:se=\""@;
    let t2 = t1 + SOAP@;
    let t3 = t2 + "\"><se:Header>"@;
    let t4 = t3 + "<path xmlns=\""@;
    let t5 = t4 + ROUTING@;
    let t6 = t5 + "\" se:mustUnderstand=\"1\"><action>"@;
    let t7 = t6 + ACTION@;
    lemma_all(t0, plain());
    lemma_all("<se:Envelope xmlns:se=\""@, plain());
    lemma_all(SOAP@, plain());
    lemma_all("\"><se:Header>"@, plain());
    lemma_all("<path xmlns=\""@, plain());
    lemma_all(ROUTING@, plain());
    lemma_all("\" se:mustUnderstand=\"1\"><action>"@, plain());
    lemma_all(ACTION@, plain());
    lemma_all("</action><to>"@, plain());
    lemma_joined(t0, "<se:Envelope xmlns:se=\""@);
    lemma_joined(t1, SOAP@);
    lemma_joined(t2, "\"><se:Header>"@);
    lemma_joined(t3, "<path xmlns=\""@);
    lemma_joined(t4, ROUTING@);
    lemma_joined(t5, "\" se:mustUnderstand=\"1\"><action>"@);
    lemma_joined(t6, ACTION@);
    lemma_joined(t7, "</action><to>"@);
}

proof fn lemma_plain_properties()
    ensures
        all(to_properties(), plain()),
{
    reveal_with_fuel(each, 50);
    reveal_strlit("</id></path><properties xmlns=\"");
    reveal_strlit("http://schemas.xmlsoap.org/srmp/");
    reveal_strlit("\" se:mustUnderstand=\"1\"><expiresAt>");
    lemma_all("</id></path><properties xmlns=\""@, plain());
    lemma_all(SRMP@, plain());
    lemma_all("\" se:mustUnderstand=\"1\"><expiresAt>"@, plain());
    lemma_joined("</id></path><properties xmlns=\""@, SRMP@);
    lemma_joined(
        "</id></path><properties xmlns=\""@ + SRMP@,
        "\" se:mustUnderstand=\"1\"><expiresAt>"@,
    );
}

proof fn lemma_plain_body()
    ensures
        all(to_body(), plain()),
{
    reveal_with_fuel(each, 90);
    reveal_strlit("</sentAt></properties><Msmq xmlns=\"");
    reveal_strlit("msmq.namespace.xml");
    reveal_strlit(
        "\"><Class>0</Class><Priority>3</Priority><Journal>none</Journal><BodyType>0</BodyType>",
    );
    reveal_strlit("</Msmq></se:Header><se:Body><Msmq xmlns=\"");
    reveal_strlit("\"><Body ");
    let classes =
        "\"><Class>0</Class><Priority>3</Priority><Journal>none</Journal><BodyType>0</BodyType>"@;
    let t0 = "</sentAt></properties><Msmq xmlns=\""@;
    let t1 = t0 + MSMQ@;
    let t2 = t1 + classes;
    let t3 = t2 + "</Msmq></se:Header><se:Body><Msmq xmlns=\""@;
    let t4 = t3 + MSMQ@;
    lemma_all(t0, plain());
    lemma_all(MSMQ@, plain());
    lemma_all(classes, plain());
    lemma_all("</Msmq></se:Header><se:Body><Msmq xmlns=\""@, plain());
    lemma_all("\"><Body "@, plain());
    lemma_joined(t0, MSMQ@);
    lemma_joined(t1, classes);
    lemma_joined(t2, "</Msmq></se:Header><se:Body><Msmq xmlns=\""@);
    lemma_joined(t3, MSMQ@);
    lemma_joined(t4, "\"><Body "@);
}

/// The text of an envelope of simple texts is plain.
proof fn lemma_plain_envelope(envelope: EnvelopeView, escape: spec_fn(Seq<char>) -> Seq<char>)
    requires
        simple(escape(envelope.to)),
        simple(escape(envelope.id)),
        simple(escape(envelope.body_id)),
    ensures
        all(envelope_text(envelope, escape), plain()),
{
    lemma_plain_opening();
    lemma_plain_properties();
    lemma_plain_body();
    lemma_simple_is_plain(escape(envelope.to));
    lemma_simple_is_plain(escape(envelope.id));
    lemma_simple_is_plain(escape(envelope.body_id));
    let expiry = decimal(envelope.expires_at as nat);
    let sent = decimal(envelope.sent_at as nat);
    lemma_decimal_is_simple(envelope.expires_at as nat);
    lemma_decimal_is_simple(envelope.sent_at as nat);
    lemma_simple_is_plain(expiry);
    lemma_simple_is_plain(sent);
    reveal_with_fuel(each, 40);
    reveal_strlit("</to><id>");
    reveal_strlit("</expiresAt><sentAt>");
    reveal_strlit("href=\"cid:");
    reveal_strlit("\"/></Msmq></se:Body></se:Envelope>");
    lemma_all("</to><id>"@, plain());
    lemma_all("</expiresAt><sentAt>"@, plain());
    lemma_all(reference(), plain());
    lemma_all(closing(), plain());
    let t1 = opening() + escape(envelope.to);
    let t2 = t1 + "</to><id>"@;
    let t3 = t2 + escape(envelope.id);
    let t4 = t3 + to_properties();
    let t5 = t4 + expiry;
    let t6 = t5 + "</expiresAt><sentAt>"@;
    let t7 = t6 + sent;
    let t8 = t7 + to_body();
    let t9 = t8 + reference();
    let t10 = t9 + escape(envelope.body_id);
    lemma_joined(opening(), escape(envelope.to));
    lemma_joined(t1, "</to><id>"@);
    lemma_joined(t2, escape(envelope.id));
    lemma_joined(t3, to_properties());
    lemma_joined(t4, expiry);
    lemma_joined(t5, "</expiresAt><sentAt>"@);
    lemma_joined(t6, sent);
    lemma_joined(t7, to_body());
    lemma_joined(t8, reference());
    lemma_joined(t9, escape(envelope.body_id));
    lemma_joined(t10, closing());
}

/// No line of a plain text begins with the delimiter of the boundary that messages travel under.
proof fn lemma_plain_holds_no_delimiter(text: Seq<char>)
    requires
        all(text, plain()),
    ensures
        !has_line(encode_utf8(text), delimiter(BOUNDARY@)),
{
    let p = |c: char| '\0' <= c <= '\u{7f}' && c != ',';
    assert(all(text, p));
    let mark = "--"@ + BOUNDARY@;
    let bytes = encode_utf8(text);
    let needle = delimiter(BOUNDARY@);
    assert(is_ascii_chars(text)) by {
        assert forall|i: int| 0 <= i < text.len() implies '\0' <= #[trigger] text[i] <= '\u{7f}' by {
            assert(p(text[i]));
        }
    }
    is_ascii_chars_encode_utf8(text);
    reveal_strlit("--");
    reveal_strlit("MSMQ - SOAP boundary, 12345");
    reveal_with_fuel(each, 30);
    let ascii = |c: char| c <= '\u{7f}';
    assert(each("--"@, ascii, 0) && each(BOUNDARY@, ascii, 0));
    lemma_all("--"@, ascii);
    lemma_all(BOUNDARY@, ascii);
    assert(is_ascii_chars(mark)) by {
        assert forall|i: int| 0 <= i < mark.len() implies '\0' <= #[trigger] mark[i] <= '\u{7f}' by {
            if i < 2 {
                assert(ascii("--"@[i]));
            } else {
                assert(ascii(BOUNDARY@[i - 2]));
            }
        }
    }
    is_ascii_chars_encode_utf8(mark);
    assert(mark[22] == ',');
    if has_line(bytes, needle) {
        let i = choose|i: int|
            0 <= i && i + needle.len() <= bytes.len() && #[trigger] bytes.subrange(
                i,
                i + needle.len(),
            ) == needle && (i == 0 || bytes[i - 1] == 10);
        assert(bytes.subrange(i, i + needle.len())[22] == bytes[i + 22]);
        assert(needle[22] == mark[22] as u8);
        assert(bytes[i + 22] == text[i + 22] as u8);
        assert(p(text[i + 22]));
    }
}

/// The envelope of simple texts can stand under the boundary that messages travel under.
pub proof fn lemma_envelope_holds_no_delimiter(
    envelope: EnvelopeView,
    escape: spec_fn(Seq<char>) -> Seq<char>,
)
    requires
        simple(escape(envelope.to)),
        simple(escape(envelope.id)),
        simple(escape(envelope.body_id)),
    ensures
        !has_line(encode_utf8(envelope_text(envelope, escape)), delimiter(BOUNDARY@)),
{
    lemma_plain_envelope(envelope, escape);
    lemma_plain_holds_no_delimiter(envelope_text(envelope, escape));
}

proof fn lemma_simple_joined(a: Seq<char>, b: Seq<char>)
    requires
        simple(a),
        simple(b),
    ensures
        simple(a + b),
{
    let t = a + b;
    assert forall|i: int| 0 <= i < t.len() implies is_simple(#[trigger] t[i]) by {
        if i < a.len() {
            assert(t[i] == a[i]);
        } else {
            assert(t[i] == b[i - a.len()]);
        }
    }
}

proof fn lemma_simple(text: Seq<char>)
    requires
        each(text, |c: char| is_simple(c), 0),
    ensures
        simple(text),
{
    let p = |c: char| is_simple(c);
    lemma_all(text, p);
    assert forall|i: int| 0 <= i < text.len() implies is_simple(#[trigger] text[i]) by {
        assert(p(text[i]));
    }
}

/// A host with or without a port is simple, and holds no slash.
pub proof fn lemma_simple_authority(authority: Seq<char>)
    requires
        plain_authority(authority),
    ensures
        authority.len() > 0,
        simple(authority),
        free_of(authority, '/'),
{
    reveal_strlit(":");
    lemma_index_of(authority, ":"@);
    let host = before(authority, ":"@);
    assert forall|i: int| 0 <= i < authority.len() implies is_simple(#[trigger] authority[i])
        && authority[i] != '/' by {
        if let Some(k) = index_of(authority, ":"@) {
            lemma_occurs_char(authority, ":"@, k, 0);
            let port = authority.skip(k + 1);
            if i < k {
                assert(authority[i] == host[i]);
            } else if i > k {
                assert(authority[i] == port[i - k - 1]);
            }
        }
    }
}

/// The URL of a plain queue at a plain host is simple, and so is its path.
pub proof fn lemma_simple_url(q: QueueView)
    requires
        q.scheme == "http"@ || q.scheme == "https"@,
        plain_authority(q.authority),
        plain_queue(q.queue),
    ensures
        url_of(q).len() > 0,
        simple(url_of(q)),
        simple("/msmq/"@ + q.queue),
        ("/msmq/"@ + q.queue).len() > 0,
        ("/msmq/"@ + q.queue)[0] == '/',
{
    reveal_with_fuel(each, 10);
    reveal_strlit("http");
    reveal_strlit("https");
    reveal_strlit("://");
    reveal_strlit("/msmq/");
    lemma_simple("http"@);
    lemma_simple("https"@);
    lemma_simple("://"@);
    lemma_simple("/msmq/"@);
    lemma_simple_authority(q.authority);
    assert(simple(q.queue));
    lemma_simple_joined(q.scheme, "://"@);
    lemma_simple_joined(q.scheme + "://"@, q.authority);
    lemma_simple_joined(q.scheme + "://"@ + q.authority, "/msmq/"@);
    lemma_simple_joined(q.scheme + "://"@ + q.authority + "/msmq/"@, q.queue);
    lemma_simple_joined("/msmq/"@, q.queue);
}

proof fn lemma_simple_numbered(kind: Seq<char>, n: u64, host: Seq<char>)
    requires
        simple(kind),
        simple(host),
    ensures
        simple(numbered(kind, n, host)),
        numbered(kind, n, host).len() > 0,
{
    lemma_decimal_is_simple(n as nat);
    let d = decimal(n as nat);
    reveal_strlit("@");
    assert(simple("@"@));
    lemma_simple_joined(kind, d);
    lemma_simple_joined(kind + d, "@"@);
    lemma_simple_joined(kind + d + "@"@, host);
}

/// The ids of a message from a simple host are simple, and so are the types of its parts.
pub proof fn lemma_simple_ids(n: u64, host: Seq<char>)
    requires
        simple(host),
    ensures
        simple(message_id(n, host)) && message_id(n, host).len() > 0,
        simple(body_id(n, host)) && body_id(n, host).len() > 0,
        simple(envelope_id(n, host)) && envelope_id(n, host).len() > 0,
        simple("text/xml"@) && "text/xml"@.len() > 0,
        simple("application/octet-stream"@) && "application/octet-stream"@.len() > 0,
{
    reveal_with_fuel(each, 26);
    reveal_strlit("uuid:");
    reveal_strlit("body");
    reveal_strlit("envelope");
    reveal_strlit("text/xml");
    reveal_strlit("application/octet-stream");
    lemma_simple("uuid:"@);
    lemma_simple("body"@);
    lemma_simple("envelope"@);
    lemma_simple("text/xml"@);
    lemma_simple("application/octet-stream"@);
    lemma_simple_numbered("uuid:"@, n, host);
    lemma_simple_numbered("body"@, n, host);
    lemma_simple_numbered("envelope"@, n, host);
}

/// The boundary that messages travel under can stand in quotes as it is.
pub proof fn lemma_plain_boundary()
    ensures
        plain_boundary(BOUNDARY@),
{
    reveal_with_fuel(each, 30);
    reveal_strlit("MSMQ - SOAP boundary, 12345");
    let p = |c: char| ' ' <= c <= '~' && c != '"' && c != '\\' && c != ';';
    lemma_all(BOUNDARY@, p);
    assert forall|i: int| 0 <= i < BOUNDARY@.len() implies ' ' <= #[trigger] BOUNDARY@[i] <= '~'
        && BOUNDARY@[i] != '"' && BOUNDARY@[i] != '\\' && BOUNDARY@[i] != ';' by {
        assert(p(BOUNDARY@[i]));
    }
}

/// The near end of a loopback round signs with a simple name, and the round has a plain one.
pub proof fn lemma_simple_near()
    ensures
        simple("near"@),
        plain_queue("round-trip"@),
{
    reveal_with_fuel(each, 12);
    reveal_strlit("near");
    reveal_strlit("round-trip");
    lemma_simple("near"@);
    let queue = "round-trip"@;
    let p = |c: char| 'a' <= c <= 'z' || c == '-';
    lemma_all(queue, p);
    assert forall|i: int| 0 <= i < queue.len() implies ('a' <= #[trigger] queue[i] <= 'z' || queue[i]
        == '-') by {
        assert(p(queue[i]));
    }
}

/// The texts of a loopback round, put together.
pub proof fn lemma_round_texts(address: Seq<char>)
    ensures
        url_of(QueueView { scheme: "http"@, authority: address, queue: "round-trip"@ })
            == "http://"@ + address + "/msmq/round-trip"@,
        "msmq://"@ + address + "/"@ + "round-trip"@ + "#"@ + message_id(1, "near"@) == "msmq://"@
            + address + "/round-trip#uuid:1@near"@,
{
    reveal_strlit("http");
    reveal_strlit("://");
    reveal_strlit("http://");
    reveal_strlit("/msmq/");
    reveal_strlit("/msmq/round-trip");
    reveal_strlit("/");
    reveal_strlit("round-trip");
    reveal_strlit("/round-trip#uuid:1@near");
    reveal_strlit("#");
    reveal_strlit("@");
    reveal_strlit("uuid:");
    reveal_strlit("near");
    assert(url_of(QueueView { scheme: "http"@, authority: address, queue: "round-trip"@ })
        =~= "http://"@ + address + "/msmq/round-trip"@);
    assert(decimal(1) =~= seq!['1']);
    assert("/"@ + "round-trip"@ + "#"@ + message_id(1, "near"@) =~= "/round-trip#uuid:1@near"@);
    assert("msmq://"@ + address + "/"@ + "round-trip"@ + "#"@ + message_id(1, "near"@)
        =~= "msmq://"@ + address + "/round-trip#uuid:1@near"@);
}

} // verus!
