//! The transport at work, over small MIME, XML and HTTP functions that stand in for the libraries.

use std::time::Duration;

use msmq::envelope::{compose, number, parse};
use msmq::mime::{boundary_of, content_type, part, parts};
use msmq::{
    answer, ceiling, http_form, now, protocol_error, queue_url, receipt, take, Accepted, Arrived,
    Envelope, Header, HttpTarget, MsmqTransport, Part, Posting, Reader, Request, TransportError,
    Writer, BOUNDARY,
};

// ---------------------------------------------------------------------------------------------
// The libraries

fn escape(text: &str) -> String {
    text.replace('&', "&amp;")
        .replace('<', "&lt;")
        .replace('>', "&gt;")
        .replace('"', "&quot;")
}

fn unescape(text: &str) -> Result<String, TransportError> {
    let mut out = String::new();
    let mut rest = text;
    while let Some(at) = rest.find('&') {
        out.push_str(&rest[..at]);
        rest = &rest[at..];
        let (entity, c) = [("&amp;", '&'), ("&lt;", '<'), ("&gt;", '>'), ("&quot;", '"')]
            .into_iter()
            .find(|(entity, _)| rest.starts_with(entity))
            .ok_or_else(|| protocol_error("an entity no one declared".to_string()))?;
        out.push(c);
        rest = &rest[entity.len()..];
    }
    out.push_str(rest);
    Ok(out)
}

fn first(xml: &str, name: &str) -> Result<Option<String>, TransportError> {
    let open = format!("<{name}>");
    let close = format!("</{name}>");
    match xml.split_once(&open).and_then(|(_, rest)| rest.split_once(&close)) {
        Some((text, _)) => unescape(text).map(Some),
        None => Ok(None),
    }
}

fn media_type(content_type: &str) -> String {
    content_type.split(';').next().unwrap_or("").trim().to_ascii_lowercase()
}

fn parameter<'a>(content_type: &'a str, name: &str) -> Option<&'a str> {
    content_type.split(';').skip(1).find_map(|parameter| {
        let (key, value) = parameter.trim().split_once('=')?;
        key.eq_ignore_ascii_case(name).then(|| value.trim_matches('"'))
    })
}

fn write(boundary: &str, parts: &[Part]) -> Vec<u8> {
    let mut out = Vec::new();
    for part in parts {
        out.extend_from_slice(format!("--{boundary}\r\n").as_bytes());
        for header in &part.headers {
            out.extend_from_slice(format!("{}: {}\r\n", header.name, header.value).as_bytes());
        }
        out.extend_from_slice(b"\r\n");
        out.extend_from_slice(&part.bytes);
        out.extend_from_slice(b"\r\n");
    }
    out.extend_from_slice(format!("--{boundary}--\r\n").as_bytes());
    out
}

fn find(bytes: &[u8], needle: &[u8]) -> Option<usize> {
    bytes.windows(needle.len()).position(|window| window == needle)
}

fn read(body: &[u8], boundary: &str) -> Result<Vec<Part>, String> {
    let delimiter = format!("\r\n--{boundary}");
    let mut rest = body
        .strip_prefix(&delimiter.as_bytes()[2..])
        .ok_or("a body that does not begin with its boundary")?;
    let mut out = Vec::new();
    while !rest.starts_with(b"--") {
        rest = rest.strip_prefix(b"\r\n").ok_or("a boundary in the middle of a line")?;
        let end = find(rest, delimiter.as_bytes()).ok_or("a part that never closes")?;
        let blank = find(&rest[..end], b"\r\n\r\n").ok_or("a part without a blank line")?;
        let mut headers = Vec::new();
        let mut content_id = None;
        for line in String::from_utf8_lossy(&rest[..blank]).split("\r\n") {
            let (name, value) = line.split_once(':').ok_or("a header without a colon")?;
            let value = value.trim();
            if name.eq_ignore_ascii_case("Content-Id") {
                content_id = Some(value.trim_matches(['<', '>']).to_string());
            }
            headers.push(Header { name: name.to_string(), value: value.to_string() });
        }
        out.push(Part { headers, content_id, bytes: rest[blank + 4..end].to_vec() });
        rest = &rest[end + delimiter.len()..];
    }
    Ok(out)
}

fn target(url: &str) -> Result<HttpTarget, TransportError> {
    let (_, rest) = url
        .split_once("://")
        .ok_or_else(|| protocol_error("a url with no scheme".to_string()))?;
    let (authority, path) = rest.split_once('/').unwrap_or((rest, ""));
    Ok(HttpTarget { authority: authority.to_string(), path: format!("/{path}") })
}

type MediaType = fn(&str) -> String;
type Parameter = for<'a, 'b> fn(&'a str, &'b str) -> Option<&'a str>;
type Read = fn(&[u8], &str) -> Result<Vec<Part>, String>;
type First = fn(&str, &str) -> Result<Option<String>, TransportError>;
type Unescape = fn(&str) -> Result<String, TransportError>;
type Escape = fn(&str) -> String;
type Target = fn(&str) -> Result<HttpTarget, TransportError>;
type Write = fn(&str, &[Part]) -> Vec<u8>;

fn reader() -> Reader<MediaType, Parameter, Read, First, Unescape> {
    Reader { media_type, parameter, read, first, unescape }
}

fn writer() -> Writer<Escape, Target, Write> {
    Writer { escape, target, write }
}

// ---------------------------------------------------------------------------------------------
// Both ends, without the sockets in between

const SENT_AT: u64 = 1_800_000_000;

/// Carry `bytes` to the queue at the far end, and bring the answer back.
fn send(
    near: &mut MsmqTransport,
    far: &MsmqTransport,
    target: &str,
    bytes: &[u8],
) -> (Result<(), TransportError>, Option<Accepted>) {
    deliver(near.post(target, bytes, SENT_AT, &writer()), far)
}

/// Hand a posting to the far end, and bring the answer back.
fn deliver(
    posting: Result<Posting, TransportError>,
    far: &MsmqTransport,
) -> (Result<(), TransportError>, Option<Accepted>) {
    let posting = match posting {
        Ok(posting) => posting,
        Err(error) => return (Err(error), None),
    };
    let dealt = far.accept_one(Some(&posting.request), &reader());
    let response = dealt.response.as_ref().expect("an answer");
    let text = String::from_utf8_lossy(&response.body).to_string();
    (receipt(response.status, &text), Some(dealt))
}

/// One loopback round.
fn round(msmq: &MsmqTransport, payload: &[u8]) -> Result<Arrived, TransportError> {
    let far = msmq.sibling(msmq.host());
    let posting = msmq.send_to("127.0.0.1:49152", payload, SENT_AT, &writer());
    let (sent, dealt) = deliver(posting, &far);
    sent?;
    dealt.expect("dealt with").outcome
}

fn secs(n: u64) -> Duration {
    Duration::from_secs(n)
}

fn request(method: &str, path: &str, headers: &[(&str, &str)], body: &[u8]) -> Request {
    Request {
        method: method.to_string(),
        path: path.to_string(),
        headers: headers
            .iter()
            .map(|(name, value)| Header { name: name.to_string(), value: value.to_string() })
            .collect(),
        body: body.to_vec(),
    }
}

/// A request that carries `parts` to the queue `orders`.
fn carrying(parts: &[Part]) -> Request {
    request(
        "POST",
        "/msmq/orders",
        &[("Host", "node-b"), ("Content-Type", &content_type("b"))],
        &write("b", parts),
    )
}

// ---------------------------------------------------------------------------------------------
// The envelope

#[test]
fn a_composed_envelope_parses_back_and_names_its_queue() {
    let envelope = Envelope::new(
        "uuid:7@node-a",
        "http://node-b/msmq/orders",
        "body@node-a",
        1_800_000_000,
    );
    let xml = compose(&envelope, &escape);
    assert!(xml.contains("<action>MSMQ:default</action>"));
    assert!(xml.contains("se:mustUnderstand=\"1\""));
    assert_eq!(parse(&xml, &first, &unescape).expect("parsing"), envelope);
    assert_eq!(envelope.queue(), "orders");
    assert_eq!(envelope.expires_at, 1_800_000_000 + u64::from(u32::MAX));
}

#[test]
fn what_is_not_an_srmp_envelope_is_refused_for_the_reason_it_is_not() {
    assert!(parse("<order/>", &first, &unescape).is_err(), "no envelope");
    let other = compose(&Envelope::new("uuid:1@a", "http://b/msmq/q", "x", 0), &escape)
        .replace("MSMQ:default", "MSMQ:ack");
    let error = parse(&other, &first, &unescape).expect_err("another action");
    assert!(error.message.contains("MSMQ:ack"));
    assert!(!error.retryable);
    let no_body = compose(&Envelope::new("uuid:1@a", "http://b/msmq/q", "x", 0), &escape)
        .replace("href=\"cid:x\"", "");
    assert!(parse(&no_body, &first, &unescape).is_err(), "no attachment");
}

#[test]
fn an_envelope_is_written_to_the_letter() {
    let envelope = Envelope::new("uuid:1@a&b", "http://b/msmq/q", "x\"y", 7);
    assert_eq!(
        compose(&envelope, &escape),
        "<?xml version=\"1.0\"?>\
         <se:Envelope xmlns:se=\"http://schemas.xmlsoap.org/soap/envelope/\">\
         <se:Header>\
         <path xmlns=\"http://schemas.xmlsoap.org/rp/\" se:mustUnderstand=\"1\">\
         <action>MSMQ:default</action><to>http://b/msmq/q</to><id>uuid:1@a&amp;b</id>\
         </path>\
         <properties xmlns=\"http://schemas.xmlsoap.org/srmp/\" se:mustUnderstand=\"1\">\
         <expiresAt>4294967302</expiresAt><sentAt>7</sentAt>\
         </properties>\
         <Msmq xmlns=\"msmq.namespace.xml\"><Class>0</Class><Priority>3</Priority>\
         <Journal>none</Journal><BodyType>0</BodyType></Msmq>\
         </se:Header>\
         <se:Body>\
         <Msmq xmlns=\"msmq.namespace.xml\"><Body href=\"cid:x&quot;y\"/></Msmq>\
         </se:Body>\
         </se:Envelope>"
    );
}

#[test]
fn an_envelope_parses_back_whatever_its_texts_and_times() {
    for (id, to, body_id, sent_at) in [
        ("", "", "", 0),
        ("a<b>\"c\"&d", "href=\"cid:to\"", "href=\"cid:id\"", u64::MAX),
        ("uuid:1@n\u{f6}d", "msmq:to", ":Envelope", u64::MAX - u64::from(u32::MAX)),
    ] {
        let envelope = Envelope::new(id, to, body_id, sent_at);
        let xml = compose(&envelope, &escape);
        assert_eq!(parse(&xml, &first, &unescape).expect("parsing"), envelope, "{id}");
    }
}

#[test]
fn each_thing_an_envelope_lacks_is_named() {
    let xml = compose(&Envelope::new("uuid:1@a", "http://b/msmq/q", "x", 0), &escape);
    let refused = |xml: &str| parse(xml, &first, &unescape).expect_err("refused").message;
    assert_eq!(refused("<order/>"), "not a SOAP envelope");
    assert_eq!(
        refused(
            "<se:Envelope><action>MSMQ:default</action><to>http://b/msmq/q</to>\
             <id>uuid:1@a</id><Body href=\"cid:x\"/></se:Envelope>"
        ),
        "an envelope with no path header"
    );
    assert_eq!(
        refused(&xml.replace("path", "way").replace("MSMQ:default", "MSMQ:ack")),
        "an envelope with no path header",
        "whatever the action"
    );
    assert!(parse(&xml.replace("path", "rp:path"), &first, &unescape).is_ok(), "any prefix");
    for way in ["<path>", "<path\t", "<path\n", "<path\r\n", "<path/>", "<r-p.1_\u{f6}:path>"] {
        let headed = xml.replace("path", "way") + way;
        assert!(parse(&headed, &first, &unescape).is_ok(), "{way:?}");
    }
    for way in [
        "http://b:path/msmq/q", "x:path>", ":path>", "<:path>", "<a b:path>", "<a:b:path>", "</path>",
        "</rp:path>", "<!--rp:path>", "<pathway>", "<mypath>", "<path", "path>", "< path>", "<Path>",
    ] {
        let headed = xml.replace("path", "way") + way;
        assert_eq!(refused(&headed), "an envelope with no path header", "{way:?}");
    }
    assert_eq!(
        refused(&xml.replace("action", "deed")),
        "an envelope with no path header"
    );
    assert_eq!(
        refused(&xml.replace("MSMQ:default", "MSMQ:ack")),
        "an action this queue does not take: MSMQ:ack"
    );
    assert_eq!(
        refused(&xml.replace("<to>", "<at>")),
        "an envelope with no destination"
    );
    assert_eq!(
        refused(&xml.replace("<id>", "<no>")),
        "an envelope with no message id"
    );
    assert_eq!(
        refused(&xml.replace("cid:", "mid:")),
        "a body that names no attachment"
    );
    for spoiled in ["<to>&no;", "<id>&no;", "<sentAt>&no;", "<expiresAt>&no;", "href=\"cid:&no;"] {
        let whole = spoiled.trim_end_matches("&no;");
        assert_eq!(
            refused(&xml.replace(whole, spoiled)),
            "an entity no one declared",
            "{spoiled}"
        );
    }
    let prefixed = xml.replace("se:Envelope", "soap:Envelope");
    assert!(parse(&prefixed, &first, &unescape).is_ok(), "any prefix will do");
}

#[test]
fn the_attachment_is_named_by_the_first_reference_and_no_further_than_the_next() {
    let xml = compose(&Envelope::new("uuid:1@a", "http://b/msmq/q", "x", 0), &escape);
    let named = |xml: &str| parse(xml, &first, &unescape).expect("parsing").body_id;
    assert_eq!(named(&xml.replace("cid:x\"", "cid:x\" href=\"cid:y\"")), "x");
    assert_eq!(named(&xml.replace("cid:x\"", "cid:ahref=\"cid:b\"")), "a");
    assert_eq!(named(xml.split_once("x\"/>").expect("body").0), "");
}

#[test]
fn a_time_is_a_number_or_zero() {
    let time = |text: &str| number(text, "sentAt", &first);
    assert_eq!(time("<sentAt>0</sentAt>"), Ok(0));
    assert_eq!(time("<sentAt>0042</sentAt>"), Ok(42));
    assert_eq!(time("<sentAt>+42</sentAt>"), Ok(42));
    assert_eq!(time("<sentAt>18446744073709551615</sentAt>"), Ok(u64::MAX));
    for none in ["18446744073709551616", "+", "", "-1", "++1", "1 ", "1e3", "\u{664}"] {
        assert_eq!(time(&format!("<sentAt>{none}</sentAt>")), Ok(0), "{none}");
    }
    assert_eq!(time("<expiresAt>42</expiresAt>"), Ok(0), "no such element");
    assert!(time("<sentAt>&no;</sentAt>").is_err());
}

#[test]
fn an_expiry_past_the_last_second_is_the_last_second() {
    assert_eq!(Envelope::new("i", "t", "b", 0).expires_at, u64::from(u32::MAX));
    assert_eq!(Envelope::new("i", "t", "b", u64::MAX).expires_at, u64::MAX);
    assert_eq!(Envelope::new("i", "t", "b", u64::MAX - 1).expires_at, u64::MAX);
}

#[test]
fn a_queue_is_what_follows_the_first_msmq() {
    let queue = |to: &str| Envelope::new("i", to, "b", 0).queue().to_string();
    assert_eq!(queue("http://b/msmq/q///"), "q");
    assert_eq!(queue("http://b/msmq/private$/q"), "private$/q");
    assert_eq!(queue("http://b/msmq/a/msmq/b"), "a/msmq/b");
    assert_eq!(queue("http://b/orders"), "");
    assert_eq!(queue("http://b/msmq/"), "");
    assert_eq!(queue("http://msmq/msmq/q"), "q", "a host called msmq");
    assert_eq!(queue("https://msmq/msmq/orders"), "orders");
    assert_eq!(queue("http://msmq/msmq/"), "");
    assert_eq!(queue("http://msmq/orders"), "orders", "no other msmq than the host");
    assert_eq!(queue("http://msmq/x/msmq/q"), "x/msmq/q");
    assert_eq!(queue("http://msmq"), "");
    assert_eq!(queue("http://b/x/msmq/q"), "q");
    assert_eq!(queue("/msmq/q/"), "q", "a path alone");
    assert_eq!(queue("/msmq/a://b"), "a://b", "no scheme before the path");
    assert_eq!(queue("/msmq/a://msmq/msmq/b"), "a://msmq/msmq/b");
    assert_eq!(queue("://msmq/msmq/q"), "msmq/q", "no scheme at all");
    assert_eq!(queue("http://b/x://msmq/q"), "q");
}

// ---------------------------------------------------------------------------------------------
// The multipart body

#[test]
fn a_written_body_parses_back_with_binary_attachments_whole() {
    let written = vec![
        part("text/xml", "envelope", b"<se:Envelope/>"),
        part(
            "application/octet-stream",
            "body@xmip",
            b"\r\n--x\r\n\x00\xff",
        ),
        part("application/octet-stream", "empty", b""),
    ];
    let body = write("MSMQ - SOAP boundary, 12345", &written);
    let back = parts("MSMQ - SOAP boundary, 12345", &body, &read).expect("parsing");
    assert_eq!(back, written);
    assert_eq!(back[1].content_id(), Some("body@xmip"));
    assert_eq!(back[1].header_value("content-length"), Some("9"));
}

#[test]
fn the_boundary_is_read_from_the_type_and_a_wrong_type_is_refused() {
    let boundary_of = |content_type: &str| {
        boundary_of(content_type, &media_type, &parameter).map(str::to_string)
    };
    assert_eq!(boundary_of(&content_type("abc")).expect("boundary"), "abc");
    assert_eq!(
        boundary_of("Multipart/Related; type=text/xml; boundary=xyz").expect("boundary"),
        "xyz"
    );
    assert!(!boundary_of("text/xml").expect_err("wrong").retryable);
    assert!(boundary_of("multipart/related").is_err());
    assert!(parts("b", b"no boundary here", &read).is_err());
    assert!(parts("b", b"--b\r\nContent-Type: x\r\n\r\nnever closes", &read).is_err());
}

#[test]
fn a_type_is_refused_in_these_words() {
    let refused = |content_type: &str| {
        boundary_of(content_type, &media_type, &parameter).expect_err("refused").message
    };
    assert_eq!(
        refused("text/\"xml\"\t"),
        "an SRMP message is multipart/related, not \"text/\\\"xml\\\"\\t\""
    );
    assert_eq!(refused("multipart/related"), "a multipart type naming no boundary");
    assert_eq!(
        refused("multipart/related; boundary=\"\""),
        "a multipart type naming no boundary"
    );
    let reason = parts("b", b"no boundary here", &read).expect_err("refused");
    assert_eq!(reason.message, "a body that does not begin with its boundary");
    assert!(!reason.retryable);
}

#[test]
fn a_part_and_its_type_are_written_to_the_letter() {
    assert_eq!(
        content_type(BOUNDARY),
        "multipart/related; boundary=\"MSMQ - SOAP boundary, 12345\"; type=\"text/xml\""
    );
    let written = part("text/xml", "envelope1@node-a", b"0123456789");
    let lines: Vec<(&str, &str)> = written
        .headers
        .iter()
        .map(|header| (header.name.as_str(), header.value.as_str()))
        .collect();
    assert_eq!(
        lines,
        [
            ("Content-Type", "text/xml"),
            ("Content-Id", "<envelope1@node-a>"),
            ("Content-Length", "10"),
        ]
    );
    assert_eq!(written.header_value("CONTENT-id"), Some("<envelope1@node-a>"));
    assert_eq!(written.header_value("Content"), None);
    assert_eq!(written.content_id(), Some("envelope1@node-a"));
    assert_eq!(written.bytes, b"0123456789");
}

// ---------------------------------------------------------------------------------------------
// Targets

#[test]
fn a_target_is_read_in_each_of_the_three_forms() {
    assert_eq!(
        queue_url("msmq://node-b:8080/orders").expect("url"),
        "http://node-b:8080/msmq/orders"
    );
    assert_eq!(
        queue_url("DIRECT=HTTP://node-b/msmq/orders").expect("url"),
        "http://node-b/msmq/orders"
    );
    assert_eq!(
        queue_url("http://node-b/msmq/orders").expect("url"),
        "http://node-b/msmq/orders"
    );
    assert!(queue_url("msmq://node-b").is_err(), "no queue");
    assert!(queue_url("tcp://node-b/orders").is_err(), "not MSMQ");
    assert!(
        queue_url("http://node-b/orders").is_err(),
        "not under /msmq/"
    );
}

#[test]
fn a_guarded_target_is_written_as_https_in_each_of_the_three_forms() {
    for target in [
        "msmqs://node-b:8443/orders",
        "https://node-b:8443/msmq/orders",
        "DIRECT=HTTPS://node-b:8443/msmq/orders",
        "direct=https://node-b:8443/msmq/orders",
    ] {
        assert_eq!(
            queue_url(target).expect(target),
            "https://node-b:8443/msmq/orders",
            "{target}"
        );
    }
    assert!(queue_url("msmqs://node-b").is_err(), "no queue");
    let mut near = MsmqTransport::new("127.0.0.1:0", "node-a");
    let request = near
        .compose("https://node-b:8443/msmq/orders", b"fits", SENT_AT, &writer())
        .expect("composed");
    assert_eq!(request.header_value("Host"), Some("node-b:8443"));
    assert_eq!(request.path, "/msmq/orders");
}

#[test]
fn a_target_is_refused_in_these_words() {
    let refused = |target: &str| {
        let error = queue_url(target).expect_err("refused");
        assert!(!error.retryable);
        error.message
    };
    for target in [
        "tcp://node-b/orders",
        "",
        "MSMQ://node-b/orders",
        "DIRECT=msmq://node-b/orders",
        "DIRECT=DIRECT=http://node-b/msmq/orders",
        "DIRECT",
        "h\u{e9}ttp://x",
    ] {
        assert_eq!(refused(target), format!("{target:?} is not an MSMQ queue"));
    }
    for target in [
        "msmq://node-b",
        "msmq://node-b/",
        "msmq:///orders",
        "msmqs://",
        "http://node-b/orders",
        "http://node-b/MSMQ/orders",
        "https:///msmq/orders",
        "DIRECT=http://node-b/msmq/",
    ] {
        assert_eq!(
            refused(target),
            format!("{target:?} names no host and queue")
        );
    }
    assert_eq!(refused("\t"), "\"\\t\" is not an MSMQ queue");
}

#[test]
fn a_queue_url_is_settled_and_guarded_as_its_target_is() {
    for (target, url) in [
        ("msmq://b/q/r", "http://b/msmq/q/r"),
        ("HtTp://b/msmq/q", "http://b/msmq/q"),
        ("dIrEcT=hTTps://b/msmq/msmq/", "https://b/msmq/msmq/"),
        ("msmqs://https:80//", "https://https:80/msmq//"),
        ("msmq://h\u{f6}st/\u{e9}", "http://h\u{f6}st/msmq/\u{e9}"),
    ] {
        assert_eq!(queue_url(target).expect(target), url);
        assert_eq!(queue_url(url).expect(url), url, "settled");
    }
}

#[test]
fn the_http_form_is_read_in_either_case() {
    assert_eq!(http_form("https://b/x"), Some(("https", "b/x")));
    assert_eq!(http_form("Direct=HTTP://b"), Some(("http", "b")));
    assert_eq!(http_form("http:/b"), None);
    assert_eq!(http_form("DIRECT="), None);
    assert_eq!(http_form("d\u{130}RECT=http://b"), None);
}

// ---------------------------------------------------------------------------------------------
// Messages

#[test]
fn a_message_posted_to_the_queue_arrives_as_its_attachment() {
    let far_end = MsmqTransport::new("127.0.0.1:0", "node-b").timing_out_after(secs(2));
    let address = "127.0.0.1:49152";
    let mut near = MsmqTransport::new("127.0.0.1:0", "node-a").timing_out_after(secs(2));
    let (sent, first) = send(
        &mut near,
        &far_end,
        &format!("msmq://{address}/orders"),
        b"\x00order\r\n\xff",
    );
    sent.expect("sending");
    let (sent, second) = send(
        &mut near,
        &far_end,
        &format!("DIRECT=HTTP://{address}/msmq/invoices"),
        b"",
    );
    sent.expect("sending");
    let first = first.expect("dealt with").outcome.expect("the order");
    let second = second.expect("dealt with").outcome.expect("the invoice");
    assert_eq!(first.bytes, b"\x00order\r\n\xff");
    assert!(first.origin_uri.starts_with("msmq://127.0.0.1:"));
    assert!(
        first.origin_uri.ends_with("/orders#uuid:1@node-a"),
        "{}",
        first.origin_uri
    );
    assert!(second.bytes.is_empty());
    assert!(second.origin_uri.ends_with("/invoices#uuid:2@node-a"));
}

#[test]
fn what_is_not_an_srmp_message_is_answered_400_and_refused() {
    let far_end = MsmqTransport::new("127.0.0.1:0", "node-b").timing_out_after(secs(2));
    let posted = request("POST", "/msmq/orders", &[("Host", "node-b")], b"<order/>");
    let dealt = far_end.accept_one(Some(&posted), &reader());
    let refused = dealt.outcome.expect_err("not multipart");
    assert!(!refused.retryable);
    assert!(refused.message.contains("multipart/related"), "{}", refused.message);
    let response = dealt.response.expect("an answer");
    assert_eq!(response.status, 400);
    assert_eq!(response.body, refused.message.as_bytes());
    let text = String::from_utf8_lossy(&response.body).to_string();
    let sent = receipt(response.status, &text).expect_err("answered 400");
    assert!(sent.message.contains("400"), "{}", sent.message);
}

#[test]
fn a_stream_over_the_ceiling_is_refused_before_a_request_is_formed() {
    let mut near = MsmqTransport::new("127.0.0.1:0", "node-a");
    let over = vec![0u8; ceiling() + 1];
    let error = near
        .compose("http://node-b/msmq/orders", &over, SENT_AT, &writer())
        .expect_err("over");
    assert!(!error.retryable);
    assert!(error.message.contains("4194304"), "{}", error.message);
    assert_eq!(
        error.message,
        "4194305 bytes is over the 4194304 one MSMQ message carries"
    );
    let request = near
        .compose("http://node-b/msmq/orders", b"fits", SENT_AT, &writer())
        .expect("fits");
    assert_eq!(request.header_value("Host"), Some("node-b"));
    assert_eq!(request.path, "/msmq/orders");
    assert_eq!(near.name(), "msmq");
    let arrived = take(&request, &reader()).expect("taken");
    assert!(arrived.origin_uri.ends_with("#uuid:1@node-a"), "no number was spent");
}

/// The payloads an attachment must carry whole, and one at the brim.
fn edge_payloads() -> Vec<(&'static str, Vec<u8>)> {
    vec![
        ("empty", Vec::new()),
        ("one byte", vec![0x2a]),
        ("every byte", (0..=255).collect()),
        ("nul run", vec![0; 512]),
        ("high bytes", vec![0xff; 512]),
        ("crlf storm", b"\r\n".repeat(400)),
        ("the brim", vec![b'm'; ceiling()]),
    ]
}

#[test]
fn a_loopback_round_posts_one_message_and_takes_it_at_the_queue() {
    let msmq = MsmqTransport::loopback(secs(5));
    let arrived = round(&msmq, b"\x00order\r\n\xff").expect("round");
    assert_eq!(arrived.bytes, b"\x00order\r\n\xff");
    assert!(arrived.origin_uri.starts_with("msmq://127.0.0.1:"));
    assert!(
        arrived.origin_uri.ends_with("/round-trip#uuid:1@near"),
        "{}",
        arrived.origin_uri
    );
    assert_eq!(msmq.name(), "msmq");
}

#[test]
fn the_loopback_returns_the_edge_payloads_whole_and_refuses_over_the_brim() {
    let msmq = MsmqTransport::loopback(secs(5));
    assert_eq!(ceiling(), 4 * 1024 * 1024);
    for (name, payload) in edge_payloads() {
        let arrived = round(&msmq, &payload).expect(name);
        assert_eq!(arrived.bytes, payload, "{name}");
    }
    let over = vec![b'm'; ceiling() + 1];
    let failure = round(&msmq, &over).expect_err("over the brim");
    assert!(failure.message.contains("4194304"), "{}", failure.message);
}

#[test]
fn a_delimiter_in_the_middle_of_a_line_is_content() {
    let msmq = MsmqTransport::loopback(secs(5));
    let payload = format!("x--{BOUNDARY}\r\ny--{BOUNDARY}--");
    let arrived = round(&msmq, payload.as_bytes()).expect("round");
    assert_eq!(arrived.bytes, payload.as_bytes());
}

#[test]
fn a_request_is_composed_to_the_letter() {
    let mut near = MsmqTransport::new("127.0.0.1:0", "node-a");
    let request = near
        .compose("http://node-b/msmq/orders", b"<order/>", 7, &writer())
        .expect("composed");
    assert_eq!(request.method, "POST");
    let lines: Vec<(&str, &str)> = request
        .headers
        .iter()
        .map(|header| (header.name.as_str(), header.value.as_str()))
        .collect();
    assert_eq!(
        lines,
        [
            ("Host", "node-b"),
            (
                "Content-Type",
                "multipart/related; boundary=\"MSMQ - SOAP boundary, 12345\"; type=\"text/xml\"",
            ),
            ("SOAPAction", "\"MSMQMessage\""),
            ("Proxy-Accept", "NonInteractiveClient"),
        ]
    );
    let envelope =
        Envelope::new("uuid:1@node-a", "http://node-b/msmq/orders", "body1@node-a", 7);
    let written = [
        part("text/xml", "envelope1@node-a", compose(&envelope, &escape).as_bytes()),
        part("application/octet-stream", "body1@node-a", b"<order/>"),
    ];
    assert_eq!(request.body, write(BOUNDARY, &written));
}

#[test]
fn a_number_is_spent_on_a_url_that_is_not_one_and_not_on_a_target_that_is_not() {
    let mut near = MsmqTransport::new("127.0.0.1:0", "node-a");
    let refused = near.post("tcp://node-b/orders", b"", SENT_AT, &writer()).expect_err("no queue");
    assert_eq!(refused.message, "\"tcp://node-b/orders\" is not an MSMQ queue");
    let over = vec![0u8; ceiling() + 1];
    assert!(near.post("msmq://node-b/orders", &over, SENT_AT, &writer()).is_err());
    let refused = near.compose("node-b", b"", SENT_AT, &writer()).expect_err("no url");
    assert_eq!(refused.message, "a url with no scheme");
    let posting = near.post("msmq://node-b/orders", b"", SENT_AT, &writer()).expect("posting");
    assert_eq!(posting.url, "http://node-b/msmq/orders");
    let arrived = take(&posting.request, &reader()).expect("taken");
    assert_eq!(arrived.origin_uri, "msmq://node-b/orders#uuid:2@node-a");
}

#[test]
fn a_guarded_target_is_posted_to_an_https_url() {
    let mut near = MsmqTransport::new("127.0.0.1:0", "node-a");
    for target in ["msmqs://node-b:8443/orders", "DIRECT=HTTPS://node-b:8443/msmq/orders"] {
        let posting = near.post(target, b"<order/>", SENT_AT, &writer()).expect("posting");
        assert!(posting.url.starts_with("https://"), "{}", posting.url);
        assert_eq!(posting.url, "https://node-b:8443/msmq/orders");
        assert_eq!(posting.request.header_value("Host"), Some("node-b:8443"));
        assert_eq!(posting.request.path, "/msmq/orders");
    }
    let posting = near.post("msmq://node-b/orders", b"", SENT_AT, &writer()).expect("posting");
    assert!(posting.url.starts_with("http://"), "{}", posting.url);
}

#[test]
fn a_loopback_round_leaves_the_counter_where_it_is() {
    let mut msmq = MsmqTransport::loopback(secs(5));
    msmq.compose("http://b/msmq/q", b"", SENT_AT, &writer()).expect("composed");
    for _ in 0..2 {
        let posting =
            msmq.send_to("127.0.0.1:49152", b"x", SENT_AT, &writer()).expect("posting");
        assert_eq!(posting.url, "http://127.0.0.1:49152/msmq/round-trip");
        let arrived = take(&posting.request, &reader()).expect("taken");
        assert_eq!(arrived.origin_uri, "msmq://127.0.0.1:49152/round-trip#uuid:1@near");
    }
    let request = msmq.compose("http://b/msmq/q", b"", SENT_AT, &writer()).expect("composed");
    let arrived = take(&request, &reader()).expect("taken");
    assert_eq!(arrived.origin_uri, "msmq://b/q#uuid:2@far");
    let refused = msmq.send_to("", b"x", SENT_AT, &writer()).expect_err("no address");
    assert_eq!(refused.message, "\"msmq:///round-trip\" names no host and queue");
}

#[test]
fn a_request_that_is_no_message_is_refused_in_these_words() {
    let refused = |request: &Request| {
        let error = take(request, &reader()).expect_err("refused");
        assert!(!error.retryable);
        error.message
    };
    assert_eq!(
        refused(&request("GET", "/msmq/orders", &[], b"")),
        "a GET where MSMQ POSTs"
    );
    assert_eq!(refused(&request("post", "/", &[], b"")), "a post where MSMQ POSTs");
    for path in ["/msmq/", "/orders", "/MSMQ/orders", "", "/\"msmq\"/orders"] {
        assert_eq!(
            refused(&request("POST", path, &[], b"")),
            format!("{path:?} is not /msmq/<queue>")
        );
    }
    assert_eq!(
        refused(&request("POST", "/msmq/orders", &[], b"")),
        "an SRMP message is multipart/related, not \"\""
    );
    assert_eq!(
        refused(&request(
            "POST",
            "/msmq/orders",
            &[("content-type", "multipart/related; boundary=b")],
            b"<order/>"
        )),
        "a body that does not begin with its boundary"
    );
    assert_eq!(refused(&carrying(&[])), "a message with no envelope");
    assert_eq!(
        refused(&carrying(&[part("text/xml", "envelope", b"<order/>")])),
        "not a SOAP envelope"
    );
    let envelope = Envelope::new("uuid:1@a", "http://b/msmq/q", "body \"x\"", 0);
    let xml = compose(&envelope, &escape);
    assert_eq!(
        refused(&carrying(&[part("text/xml", "envelope", xml.as_bytes())])),
        "no attachment \"body \\\"x\\\"\""
    );
}

#[test]
fn the_first_part_that_goes_by_the_id_is_the_stream() {
    let envelope = Envelope::new("uuid:1@n\u{f6}de", "http://b/msmq/q", "x", 0);
    let xml = compose(&envelope, &escape);
    let mut nameless = part("text/plain", "x", b"nameless");
    nameless.headers.remove(1);
    let mut posted = carrying(&[
        part("text/xml", "envelope", xml.as_bytes()),
        nameless,
        part("application/octet-stream", "y", b"another"),
        part("application/octet-stream", "x", b"the stream"),
        part("application/octet-stream", "x", b"too late"),
    ]);
    let arrived = take(&posted, &reader()).expect("taken");
    assert_eq!(arrived.bytes, b"the stream");
    assert_eq!(arrived.origin_uri, "msmq://node-b/orders#uuid:1@n\u{f6}de");
    posted.headers.remove(0);
    let arrived = take(&posted, &reader()).expect("taken");
    assert_eq!(arrived.origin_uri, "msmq://localhost/orders#uuid:1@n\u{f6}de");
}

#[test]
fn an_envelope_that_is_not_all_utf8_is_read_with_replacement_characters() {
    let envelope = Envelope::new("uuid:1@a?b", "http://b/msmq/q", "x", 0);
    let bytes: Vec<u8> = compose(&envelope, &escape)
        .into_bytes()
        .into_iter()
        .map(|byte| if byte == b'?' { 0xff } else { byte })
        .collect();
    let posted = carrying(&[
        part("text/xml", "envelope", &bytes),
        part("application/octet-stream", "x", b"the stream"),
    ]);
    let arrived = take(&posted, &reader()).expect("taken");
    assert_eq!(arrived.origin_uri, "msmq://node-b/orders#uuid:1@a\u{fffd}b");
}

#[test]
fn what_is_taken_is_answered_200_and_no_request_is_not_answered() {
    let far = MsmqTransport::new("127.0.0.1:0", "node-b");
    let taken = answer(&Ok(Arrived { origin_uri: String::new(), bytes: vec![1] }));
    assert_eq!((taken.status, taken.body), (200, Vec::new()));
    let refused = answer(&Err(protocol_error("n\u{f6}".to_string())));
    assert_eq!((refused.status, refused.body), (400, "n\u{f6}".as_bytes().to_vec()));
    let dealt = far.accept_one(None, &reader());
    assert!(dealt.response.is_none());
    let refused = dealt.outcome.expect_err("no request");
    assert_eq!(refused.message, "a connection that sent no request");
}

#[test]
fn a_receipt_is_any_status_from_200_to_299() {
    for status in [200, 204, 299] {
        assert_eq!(receipt(status, ""), Ok(()));
    }
    for status in [0, 199, 300, 400, 503, u16::MAX] {
        let refused = receipt(status, "not now").expect_err("refused");
        assert_eq!(refused.message, format!("the queue answered {status}: not now"));
        assert!(!refused.retryable);
    }
}

#[test]
fn a_sibling_keeps_the_configuration_and_counts_for_itself() {
    let mut node = MsmqTransport::new("127.0.0.1:8080", "node-a").timing_out_after(secs(3));
    node.compose("http://b/msmq/q", b"", SENT_AT, &writer()).expect("composed");
    let mut sibling = node.sibling("node-b");
    assert_eq!(sibling.bind(), "127.0.0.1:8080");
    assert_eq!(sibling.host(), "node-b");
    assert_eq!(sibling.timeout(), Some(secs(3)));
    let request = sibling.compose("http://b/msmq/q", b"", SENT_AT, &writer()).expect("composed");
    let arrived = take(&request, &reader()).expect("taken");
    assert_eq!(arrived.origin_uri, "msmq://b/q#uuid:1@node-b");
    let request = node.compose("http://b/msmq/q", b"", SENT_AT, &writer()).expect("composed");
    let arrived = take(&request, &reader()).expect("taken");
    assert_eq!(arrived.origin_uri, "msmq://b/q#uuid:2@node-a");
    let loopback = MsmqTransport::loopback(secs(5));
    assert_eq!(loopback.bind(), "127.0.0.1:0");
    assert_eq!(loopback.host(), "far");
    assert_eq!(loopback.timeout(), Some(secs(5)));
    assert_eq!(MsmqTransport::new("a", "b").sibling("c").timeout(), None);
}

#[test]
fn a_clock_before_1970_counts_from_zero() {
    assert_eq!(now(Some(SENT_AT)), SENT_AT);
    assert_eq!(now(None), 0);
}

#[test]
fn a_refusal_is_permanent() {
    let refused = TransportError::permanent("no".to_string());
    assert_eq!(refused, protocol_error("no".to_string()));
    assert_eq!(refused.message, "no");
    assert!(!refused.retryable);
}
