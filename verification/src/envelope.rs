//! The SRMP envelope: what MSMQ says about a message when it sends it over HTTP.
//!
//! A SOAP 1.1 envelope whose header carries the WS-Routing `path` (the action, the destination
//! queue, the message id) and the SRMP `properties`, and whose body names the attachment the message
//! body travels as. A queue reads a handful of elements out of it and never needs a tree. How text
//! is escaped, and how the text of an element is found, is an XML library's affair: its functions are
//! handed in, and what is said here holds whatever they are, as long as each is a function of its
//! arguments.
use vstd::prelude::*;

use crate::error::{protocol_error, refusal, seen, Refusal, TransportError};
use crate::mime::optional_string;
use crate::number::{decimal, number_of, read_number, write_number};
use crate::tag::{has_start_tag, holds_start_tag};
use crate::text::{
    after, after_first, before, before_first, begins, contains, find, from_char, holds, index_of,
    lemma_index_of, same, strip_prefix, trim_end, trim_end_matches,
};

verus! {

/// The SOAP envelope namespace, as SRMP fixes it.
pub const SOAP: &'static str = "http://schemas.xmlsoap.org/soap/envelope/";

/// The WS-Routing namespace the `path` header is in.
pub const ROUTING: &'static str = "http://schemas.xmlsoap.org/rp/";

/// The SRMP namespace the `properties` header is in.
pub const SRMP: &'static str = "http://schemas.xmlsoap.org/srmp/";

/// The MSMQ namespace the `Msmq` header is in.
pub const MSMQ: &'static str = "msmq.namespace.xml";

/// The one action MSMQ sends a message with.
pub const ACTION: &'static str = "MSMQ:default";

/// What an envelope says.
#[derive(Clone, Debug, PartialEq, Eq)]
pub struct Envelope {
    /// The message id, `uuid:<n>@<host>` as MSMQ forms it.
    pub id: String,
    /// The destination queue as a URL, `http://<host>/msmq/<queue>`.
    pub to: String,
    /// The attachment the body travels as, its `Content-Id`.
    pub body_id: String,
    /// When the message was sent, seconds since 1970.
    pub sent_at: u64,
    /// When the message expires, seconds since 1970.
    pub expires_at: u64,
}

/// What an [`Envelope`] says, its texts as sequences of characters.
#[verifier::ext_equal]
pub struct EnvelopeView {
    pub id: Seq<char>,
    pub to: Seq<char>,
    pub body_id: Seq<char>,
    pub sent_at: u64,
    pub expires_at: u64,
}

impl View for Envelope {
    type V = EnvelopeView;

    open spec fn view(&self) -> EnvelopeView {
        EnvelopeView {
            id: self.id@,
            to: self.to@,
            body_id: self.body_id@,
            sent_at: self.sent_at,
            expires_at: self.expires_at,
        }
    }
}

/// When a message sent at `sent_at` expires: as many seconds later as 32 bits count, or at the last
/// second that 64 bits count.
pub open spec fn expiry(sent_at: u64) -> u64 {
    if sent_at + u32::MAX <= u64::MAX {
        (sent_at + u32::MAX) as u64
    } else {
        u64::MAX
    }
}

/// The envelope of a message sent at `sent_at`.
pub open spec fn envelope_for(
    id: Seq<char>,
    to: Seq<char>,
    body_id: Seq<char>,
    sent_at: u64,
) -> EnvelopeView {
    EnvelopeView { id, to, body_id, sent_at, expires_at: expiry(sent_at) }
}

/// `to` is a URL: it begins with a scheme, in which no slash stands, and `://`.
pub open spec fn is_url(to: Seq<char>) -> bool {
    let scheme = before(to, "://"@);
    contains(to, "://"@) && scheme.len() > 0 && !contains(scheme, "/"@)
}

/// The path of a URL, from the first slash after the host on. What is no URL has no host, and is a
/// path as it stands.
pub open spec fn path_in(to: Seq<char>) -> Seq<char> {
    if is_url(to) {
        let rest = after(to, "://"@)->0;
        match index_of(rest, "/"@) {
            Some(i) => rest.skip(i),
            None => Seq::empty(),
        }
    } else {
        to
    }
}

/// The queue that a destination URL names, without the slashes that it ends in: what follows `/msmq/`
/// where its path begins with that, else what follows the first `/msmq/` anywhere, and nothing where
/// there is none.
pub open spec fn queue_in(to: Seq<char>) -> Seq<char> {
    let path = path_in(to);
    if begins(path, "/msmq/"@) {
        trim_end(path.skip("/msmq/"@.len() as int), '/')
    } else {
        match after(to, "/msmq/"@) {
            Some(queue) => trim_end(queue, '/'),
            None => Seq::empty(),
        }
    }
}

/// The path of the URL `to`.
fn path_of(to: &str) -> (path: &str)
    ensures
        path@ == path_in(to@),
{
    proof {
        lemma_index_of(to@, "://"@);
    }
    let scheme = before_first(to, "://");
    match after_first(to, "://") {
        Some(rest) if scheme.unicode_len() > 0 && !holds(scheme, "/") => match find(rest, "/") {
            Some(i) => from_char(rest, i),
            None => {
                proof {
                    reveal_strlit("");
                }
                assert(""@ =~= Seq::<char>::empty());
                ""
            },
        },
        _ => to,
    }
}

impl Envelope {
    /// The envelope for a message to `to`, its body attached as `body_id`.
    pub fn new(id: &str, to: &str, body_id: &str, sent_at: u64) -> (envelope: Self)
        ensures
            envelope@ == envelope_for(id@, to@, body_id@, sent_at),
            envelope.id@ == id@,
            envelope.to@ == to@,
            envelope.body_id@ == body_id@,
            envelope.sent_at == sent_at,
            sent_at <= u64::MAX - u32::MAX ==> envelope.expires_at == sent_at + u32::MAX,
            sent_at > u64::MAX - u32::MAX ==> envelope.expires_at == u64::MAX,
    {
        Envelope {
            id: id.to_owned(),
            to: to.to_owned(),
            body_id: body_id.to_owned(),
            sent_at,
            expires_at: sent_at.saturating_add(u32::MAX as u64),
        }
    }

    /// The queue the destination URL names: what follows `/msmq/`.
    pub fn queue(&self) -> (queue: &str)
        ensures
            queue@ == queue_in(self@.to),
    {
        let to = self.to.as_str();
        if let Some(queue) = strip_prefix(path_of(to), "/msmq/") {
            return trim_end_matches(queue, '/');
        }
        match after_first(to, "/msmq/") {
            Some(queue) => trim_end_matches(queue, '/'),
            None => {
                proof {
                    reveal_strlit("");
                }
                assert(""@ =~= Seq::<char>::empty());
                ""
            },
        }
    }
}

/// The beginning of every envelope, up to the destination.
pub open spec fn opening() -> Seq<char> {
    "<?xml version=\"1.0\"?>"@ + "<se:Envelope xmlns:se=\""@ + SOAP@ + "\"><se:Header>"@
        + "<path xmlns=\""@ + ROUTING@ + "\" se:mustUnderstand=\"1\"><action>"@ + ACTION@
        + "</action><to>"@
}

/// What stands between the message id and the time of expiry.
pub open spec fn to_properties() -> Seq<char> {
    "</id></path><properties xmlns=\""@ + SRMP@ + "\" se:mustUnderstand=\"1\"><expiresAt>"@
}

/// What stands between the time of sending and the reference to the attachment.
pub open spec fn to_body() -> Seq<char> {
    "</sentAt></properties><Msmq xmlns=\""@ + MSMQ@
        + "\"><Class>0</Class><Priority>3</Priority><Journal>none</Journal><BodyType>0</BodyType>"@
        + "</Msmq></se:Header><se:Body><Msmq xmlns=\""@ + MSMQ@ + "\"><Body "@
}

/// What the reference to the attachment begins with.
pub open spec fn reference() -> Seq<char> {
    "href=\"cid:"@
}

/// The end of every envelope, from where the reference to the attachment ends.
pub open spec fn closing() -> Seq<char> {
    "\"/></Msmq></se:Body></se:Envelope>"@
}

/// The XML text of `envelope`, up to the reference to the attachment.
pub open spec fn text_before_reference(
    envelope: EnvelopeView,
    escape: spec_fn(Seq<char>) -> Seq<char>,
) -> Seq<char> {
    opening() + escape(envelope.to) + "</to><id>"@ + escape(envelope.id) + to_properties()
        + decimal(envelope.expires_at as nat) + "</expiresAt><sentAt>"@ + decimal(
        envelope.sent_at as nat,
    ) + to_body()
}

/// `envelope` as the XML text SRMP sends.
pub open spec fn envelope_text(
    envelope: EnvelopeView,
    escape: spec_fn(Seq<char>) -> Seq<char>,
) -> Seq<char> {
    text_before_reference(envelope, escape) + reference() + escape(envelope.body_id) + closing()
}

/// The attachment's id as it stands in the envelope, still escaped: from the first reference to the
/// next one, and no further than to the quote that ends it.
pub open spec fn reference_in(xml: Seq<char>) -> Option<Seq<char>> {
    match after(xml, reference()) {
        Some(rest) => Some(before(before(rest, reference()), "\""@)),
        None => None,
    }
}

/// What the search for an element answers.
pub open spec fn element_seen(answer: Result<Option<String>, TransportError>) -> Result<
    Option<Seq<char>>,
    Refusal,
> {
    match answer {
        Ok(text) => Ok(optional_string(text)),
        Err(error) => Err(error@),
    }
}

/// `escape` answers as `model` says.
pub open spec fn escapes_as<E: Fn(&str) -> String>(
    escape: E,
    model: spec_fn(Seq<char>) -> Seq<char>,
) -> bool {
    forall|text: &str, answer: String| #[trigger]
        call_ensures(escape, (text,), answer) ==> answer@ == model(text@)
}

/// `unescape` answers as `model` says.
pub open spec fn unescapes_as<U: Fn(&str) -> Result<String, TransportError>>(
    unescape: U,
    model: spec_fn(Seq<char>) -> Result<Seq<char>, Refusal>,
) -> bool {
    forall|text: &str, answer: Result<String, TransportError>| #[trigger]
        call_ensures(unescape, (text,), answer) ==> seen(answer) == model(text@)
}

/// `first` answers as `model` says.
pub open spec fn finds_as<F: Fn(&str, &str) -> Result<Option<String>, TransportError>>(
    first: F,
    model: spec_fn(Seq<char>, Seq<char>) -> Result<Option<Seq<char>>, Refusal>,
) -> bool {
    forall|xml: &str, name: &str, answer: Result<Option<String>, TransportError>| #[trigger]
        call_ensures(first, (xml, name), answer) ==> element_seen(answer) == model(xml@, name@)
}

/// The time that the text of an element writes; zero where there is no text, or no number in it.
pub open spec fn time_in(text: Option<Seq<char>>) -> u64 {
    match text {
        Some(text) => match number_of(text) {
            Some(n) => n,
            None => 0,
        },
        None => 0,
    }
}

/// The number in the element called `name`; zero where there is no such element, or no number in it.
pub open spec fn number_in(
    xml: Seq<char>,
    name: Seq<char>,
    first: spec_fn(Seq<char>, Seq<char>) -> Result<Option<Seq<char>>, Refusal>,
) -> Result<u64, Refusal> {
    match first(xml, name) {
        Err(error) => Err(error),
        Ok(None) => Ok(0),
        Ok(Some(text)) => match number_of(text) {
            Some(n) => Ok(n),
            None => Ok(0),
        },
    }
}

/// The text of the element called `name`, or the refusal with `reason` where there is none.
pub open spec fn required_in(
    xml: Seq<char>,
    name: Seq<char>,
    reason: Seq<char>,
    first: spec_fn(Seq<char>, Seq<char>) -> Result<Option<Seq<char>>, Refusal>,
) -> Result<Seq<char>, Refusal> {
    match first(xml, name) {
        Err(error) => Err(error),
        Ok(None) => Err(refusal(reason)),
        Ok(Some(text)) => Ok(text),
    }
}

/// The id of the attachment that an envelope names, or why it names none.
pub open spec fn body_id_in(
    xml: Seq<char>,
    unescape: spec_fn(Seq<char>) -> Result<Seq<char>, Refusal>,
) -> Result<Seq<char>, Refusal> {
    match reference_in(xml) {
        Some(raw) => unescape(raw),
        None => Err(refusal("a body that names no attachment"@)),
    }
}

/// The action that an envelope is sent with is the one this queue takes; else why not.
pub open spec fn action_in(
    xml: Seq<char>,
    first: spec_fn(Seq<char>, Seq<char>) -> Result<Option<Seq<char>>, Refusal>,
) -> Result<(), Refusal> {
    match required_in(xml, "action"@, "an envelope with no path header"@, first) {
        Err(error) => Err(error),
        Ok(action) => if action == ACTION@ {
            Ok(())
        } else {
            Err(refusal("an action this queue does not take: "@ + action))
        },
    }
}

/// The envelope that `xml` carries, or the first reason it is not one.
pub open spec fn envelope_in(
    xml: Seq<char>,
    first: spec_fn(Seq<char>, Seq<char>) -> Result<Option<Seq<char>>, Refusal>,
    unescape: spec_fn(Seq<char>) -> Result<Seq<char>, Refusal>,
) -> Result<EnvelopeView, Refusal> {
    let to = required_in(xml, "to"@, "an envelope with no destination"@, first);
    let id = required_in(xml, "id"@, "an envelope with no message id"@, first);
    let body_id = body_id_in(xml, unescape);
    let sent_at = number_in(xml, "sentAt"@, first);
    let expires_at = number_in(xml, "expiresAt"@, first);
    if !contains(xml, "<se:Envelope"@) && !contains(xml, ":Envelope"@) {
        Err(refusal("not a SOAP envelope"@))
    } else if !has_start_tag(xml, "path"@) {
        Err(refusal("an envelope with no path header"@))
    } else if let Err(error) = action_in(xml, first) {
        Err(error)
    } else if let Err(error) = to {
        Err(error)
    } else if let Err(error) = id {
        Err(error)
    } else if let Err(error) = body_id {
        Err(error)
    } else if let Err(error) = sent_at {
        Err(error)
    } else if let Err(error) = expires_at {
        Err(error)
    } else {
        Ok(
            EnvelopeView {
                id: id->Ok_0,
                to: to->Ok_0,
                body_id: body_id->Ok_0,
                sent_at: sent_at->Ok_0,
                expires_at: expires_at->Ok_0,
            },
        )
    }
}

/// `envelope` as the XML text SRMP sends. `escape` makes a text fit to stand in XML.
pub fn compose<E>(envelope: &Envelope, escape: &E) -> (xml: String) where E: Fn(&str) -> String
    requires
        forall|text: &str| call_requires(*escape, (text,)),
    ensures
        forall|e: spec_fn(Seq<char>) -> Seq<char>| #[trigger]
            escapes_as(*escape, e) ==> xml@ == envelope_text(envelope@, e),
{
    let to = escape(envelope.to.as_str());
    let id = escape(envelope.id.as_str());
    let expires_at = write_number(envelope.expires_at);
    let sent_at = write_number(envelope.sent_at);
    let body_id = escape(envelope.body_id.as_str());
    let mut xml = "<?xml version=\"1.0\"?>".to_owned();
    xml.append("<se:Envelope xmlns:se=\"");
    xml.append(SOAP);
    xml.append("\"><se:Header>");
    xml.append("<path xmlns=\"");
    xml.append(ROUTING);
    xml.append("\" se:mustUnderstand=\"1\"><action>");
    xml.append(ACTION);
    xml.append("</action><to>");
    assert(xml@ =~= opening());
    xml.append(to.as_str());
    xml.append("</to><id>");
    xml.append(id.as_str());
    let ghost head = xml@;
    xml.append("</id></path><properties xmlns=\"");
    xml.append(SRMP);
    xml.append("\" se:mustUnderstand=\"1\"><expiresAt>");
    assert(xml@ =~= head + to_properties());
    xml.append(expires_at.as_str());
    xml.append("</expiresAt><sentAt>");
    xml.append(sent_at.as_str());
    let ghost head = xml@;
    xml.append("</sentAt></properties><Msmq xmlns=\"");
    xml.append(MSMQ);
    xml.append(
        "\"><Class>0</Class><Priority>3</Priority><Journal>none</Journal><BodyType>0</BodyType>",
    );
    xml.append("</Msmq></se:Header><se:Body><Msmq xmlns=\"");
    xml.append(MSMQ);
    xml.append("\"><Body ");
    assert(xml@ =~= head + to_body());
    xml.append("href=\"cid:");
    xml.append(body_id.as_str());
    xml.append("\"/></Msmq></se:Body></se:Envelope>");
    xml
}

/// The attachment's id as it stands in the envelope, still escaped.
fn reference_of(xml: &str) -> (raw: Option<&str>)
    ensures
        match raw {
            Some(r) => reference_in(xml@) == Some(r@),
            None => reference_in(xml@) is None,
        },
{
    match after_first(xml, "href=\"cid:") {
        Some(rest) => Some(before_first(before_first(rest, "href=\"cid:"), "\"")),
        None => None,
    }
}

/// The text of the element called `name`, or the refusal with `reason` where there is none.
fn required<F>(xml: &str, name: &str, reason: &str, first: &F) -> (text: Result<
    String,
    TransportError,
>) where F: Fn(&str, &str) -> Result<Option<String>, TransportError>
    requires
        forall|x: &str, n: &str| call_requires(*first, (x, n)),
    ensures
        forall|f: spec_fn(Seq<char>, Seq<char>) -> Result<Option<Seq<char>>, Refusal>| #[trigger]
            finds_as(*first, f) ==> seen(text) == required_in(xml@, name@, reason@, f),
        text matches Ok(t) ==> call_ensures(
            *first,
            (xml, name),
            Ok::<Option<String>, TransportError>(Some(t)),
        ),
{
    match first(xml, name) {
        Ok(Some(text)) => Ok(text),
        Ok(None) => Err(protocol_error(reason.to_owned())),
        Err(error) => Err(error),
    }
}

/// The number in the element called `name`; zero where there is no such element, or no number in it.
pub fn number<F>(xml: &str, name: &str, first: &F) -> (n: Result<u64, TransportError>) where
    F: Fn(&str, &str) -> Result<Option<String>, TransportError>,

    requires
        forall|x: &str, n: &str| call_requires(*first, (x, n)),
    ensures
        forall|f: spec_fn(Seq<char>, Seq<char>) -> Result<Option<Seq<char>>, Refusal>| #[trigger]
            finds_as(*first, f) ==> seen(n) == number_in(xml@, name@, f),
        n matches Ok(time) ==> exists|answer: Option<String>|
            #![trigger call_ensures(*first, (xml, name), Ok::<Option<String>, TransportError>(answer))]
            call_ensures(*first, (xml, name), Ok::<Option<String>, TransportError>(answer)) && (
            match answer {
                Some(text) => number_of(text@) == Some(time) || (number_of(text@) is None && time
                    == 0),
                None => time == 0,
            }),
{
    match first(xml, name) {
        Ok(Some(text)) => match read_number(text.as_str()) {
            Some(n) => Ok(n),
            None => Ok(0),
        },
        Ok(None) => Ok(0),
        Err(error) => Err(error),
    }
}

/// The envelope `xml` carries, or why it is not one: no `path`, no `to`, no `id`, an action other
/// than [`ACTION`], or a body that names no attachment. `first` finds the text of the first element
/// of a given name, `unescape` gives back a text that was made fit to stand in XML.
pub fn parse<F, U>(xml: &str, first: &F, unescape: &U) -> (envelope: Result<
    Envelope,
    TransportError,
>) where
    F: Fn(&str, &str) -> Result<Option<String>, TransportError>,
    U: Fn(&str) -> Result<String, TransportError>,

    requires
        forall|x: &str, n: &str| call_requires(*first, (x, n)),
        forall|t: &str| call_requires(*unescape, (t,)),
    ensures
        !contains(xml@, "<se:Envelope"@) && !contains(xml@, ":Envelope"@) ==> seen(envelope)
            == Err::<EnvelopeView, Refusal>(refusal("not a SOAP envelope"@)),
        (contains(xml@, "<se:Envelope"@) || contains(xml@, ":Envelope"@)) && !has_start_tag(
            xml@,
            "path"@,
        ) ==> seen(envelope) == Err::<EnvelopeView, Refusal>(
            refusal("an envelope with no path header"@),
        ),
        forall|
            f: spec_fn(Seq<char>, Seq<char>) -> Result<Option<Seq<char>>, Refusal>,
            u: spec_fn(Seq<char>) -> Result<Seq<char>, Refusal>,
        | #[trigger]
            finds_as(*first, f) && #[trigger] unescapes_as(*unescape, u) ==> seen(envelope)
                == envelope_in(xml@, f, u),
        envelope matches Ok(e) ==> {
            &&& call_ensures(
                *first,
                (xml, "to"),
                Ok::<Option<String>, TransportError>(Some(e.to)),
            )
            &&& call_ensures(
                *first,
                (xml, "id"),
                Ok::<Option<String>, TransportError>(Some(e.id)),
            )
            &&& exists|raw: &str|
                reference_in(xml@) == Some(raw@) && #[trigger] call_ensures(
                    *unescape,
                    (raw,),
                    Ok::<String, TransportError>(e.body_id),
                )
        },
        forall|
            f: spec_fn(Seq<char>, Seq<char>) -> Result<Option<Seq<char>>, Refusal>,
            u: spec_fn(Seq<char>) -> Result<Seq<char>, Refusal>,
        | #[trigger]
            finds_as(*first, f) && #[trigger] unescapes_as(*unescape, u) ==> (
            envelope matches Ok(e) ==> {
                &&& f(xml@, "action"@) == Ok::<Option<Seq<char>>, Refusal>(Some("MSMQ:default"@))
                &&& f(xml@, "to"@) == Ok::<Option<Seq<char>>, Refusal>(Some(e.to@))
                &&& f(xml@, "id"@) == Ok::<Option<Seq<char>>, Refusal>(Some(e.id@))
                &&& reference_in(xml@) matches Some(raw) && u(raw) == Ok::<Seq<char>, Refusal>(
                    e.body_id@,
                )
                &&& f(xml@, "sentAt"@) matches Ok(sent) && e.sent_at == time_in(sent)
                &&& f(xml@, "expiresAt"@) matches Ok(expires) && e.expires_at == time_in(expires)
            }),
{
    if !holds(xml, "<se:Envelope") && !holds(xml, ":Envelope") {
        return Err(protocol_error("not a SOAP envelope".to_owned()));
    }
    if !holds_start_tag(xml, "path") {
        return Err(protocol_error("an envelope with no path header".to_owned()));
    }
    match required(xml, "action", "an envelope with no path header", first) {
        Ok(action) => if !same(action.as_str(), ACTION) {
            let mut message = "an action this queue does not take: ".to_owned();
            message.append(action.as_str());
            return Err(protocol_error(message));
        },
        Err(error) => {
            return Err(error);
        },
    }
    let to = match required(xml, "to", "an envelope with no destination", first) {
        Ok(to) => to,
        Err(error) => {
            return Err(error);
        },
    };
    let id = match required(xml, "id", "an envelope with no message id", first) {
        Ok(id) => id,
        Err(error) => {
            return Err(error);
        },
    };
    let body_id = match reference_of(xml) {
        Some(raw) => match unescape(raw) {
            Ok(body_id) => body_id,
            Err(error) => {
                return Err(error);
            },
        },
        None => {
            return Err(protocol_error("a body that names no attachment".to_owned()));
        },
    };
    let sent_at: u64 = match number(xml, "sentAt", first) {
        Ok(n) => n,
        Err(error) => {
            return Err(error);
        },
    };
    let expires_at: u64 = match number(xml, "expiresAt", first) {
        Ok(n) => n,
        Err(error) => {
            return Err(error);
        },
    };
    Ok(Envelope { id, to, body_id, sent_at, expires_at })
}

} // verus!
