//! The MIME shape an SRMP message travels in: `multipart/related`, the envelope first and the body
//! attached after it.
//!
//! The HTTP body is `multipart/related` with `type="text/xml"`, its first part the SOAP envelope,
//! each further part a binary attachment with a `Content-Id` that the envelope refers to by `cid:`.
//! The attachment is `application/octet-stream` and travels as the bytes it is. How a header value
//! is taken apart, and how parts become one body and come out of it again, is a MIME library's
//! affair: its functions are handed in, and what is said here holds whatever they are, as long as
//! each is a function of its arguments.
use vstd::prelude::*;
use vstd::slice::slice_to_vec;

use crate::error::{protocol_error, refusal, seen, Refusal, TransportError};
use crate::message::{header, lines, look_up, optional, value_under, Header};
use crate::number::{all_digits, decimal, lemma_decimal, value_of, write_number};
use crate::text::{alike, quoted, quoted_text, same};

verus! {

/// One part of a multipart body.
#[derive(Clone, Debug, PartialEq, Eq)]
pub struct Part {
    /// The header lines it carries.
    pub headers: Vec<Header>,
    /// The id that its `Content-Id` header gives it, without the angle brackets.
    pub content_id: Option<String>,
    /// What it carries.
    pub bytes: Vec<u8>,
}

/// What a [`Part`] says.
#[verifier::ext_equal]
pub struct PartView {
    pub headers: Seq<(Seq<char>, Seq<char>)>,
    pub content_id: Option<Seq<char>>,
    pub bytes: Seq<u8>,
}

/// What an optional text is.
pub open spec fn optional_string(text: Option<String>) -> Option<Seq<char>> {
    match text {
        Some(t) => Some(t@),
        None => None,
    }
}

impl View for Part {
    type V = PartView;

    open spec fn view(&self) -> PartView {
        PartView {
            headers: lines(self.headers@),
            content_id: optional_string(self.content_id),
            bytes: self.bytes@,
        }
    }
}

/// What a list of parts says.
pub open spec fn parts_seen(parts: Seq<Part>) -> Seq<PartView> {
    parts.map_values(|part: Part| part@)
}

impl Part {
    /// The id that the part goes by.
    pub fn content_id(&self) -> (id: Option<&str>)
        ensures
            optional(id) == self@.content_id,
    {
        match &self.content_id {
            Some(id) => Some(id.as_str()),
            None => None,
        }
    }

    /// The value of the first header called `name`, the case of ASCII letters aside.
    pub fn header_value(&self, name: &str) -> (value: Option<&str>)
        ensures
            optional(value) == value_under(self@.headers, name@),
            value matches Some(v) ==> exists|i: int|
                0 <= i < self.headers@.len() && v@ == (#[trigger] self.headers@[i]).value@ && alike(
                    self.headers@[i].name@,
                    name@,
                ) && forall|j: int| 0 <= j < i ==> !alike((#[trigger] self.headers@[j]).name@, name@),
            value is None ==> forall|i: int|
                0 <= i < self.headers@.len() ==> !alike((#[trigger] self.headers@[i]).name@, name@),
    {
        look_up(&self.headers, name)
    }
}

/// The `Content-Type` of an SRMP message under `boundary`.
pub open spec fn content_type_of(boundary: Seq<char>) -> Seq<char> {
    "multipart/related; boundary=\""@ + boundary + "\"; type=\"text/xml\""@
}

/// One part as SRMP writes it.
pub open spec fn srmp_part(
    content_type: Seq<char>,
    content_id: Seq<char>,
    bytes: Seq<u8>,
) -> PartView {
    PartView {
        headers: seq![
            ("Content-Type"@, content_type),
            ("Content-Id"@, "<"@ + content_id + ">"@),
            ("Content-Length"@, decimal(bytes.len())),
        ],
        content_id: Some(content_id),
        bytes,
    }
}

/// `media_type` answers as `model` says.
pub open spec fn types_as<M: Fn(&str) -> String>(
    media_type: M,
    model: spec_fn(Seq<char>) -> Seq<char>,
) -> bool {
    forall|content_type: &str, answer: String| #[trigger]
        call_ensures(media_type, (content_type,), answer) ==> answer@ == model(content_type@)
}

/// `parameter` answers as `model` says.
pub open spec fn parameters_as<P>(
    parameter: P,
    model: spec_fn(Seq<char>, Seq<char>) -> Option<Seq<char>>,
) -> bool where P: for <'a, 'b>Fn(&'a str, &'b str) -> Option<&'a str> {
    forall|content_type: &str, name: &str, answer: Option<&str>| #[trigger]
        call_ensures(parameter, (content_type, name), answer) ==> optional(answer) == model(
            content_type@,
            name@,
        )
}

/// What a multipart reader answers: the parts of a body, or why it is not one.
pub open spec fn parts_or_reason(answer: Result<Vec<Part>, String>) -> Result<
    Seq<PartView>,
    Seq<char>,
> {
    match answer {
        Ok(parts) => Ok(parts_seen(parts@)),
        Err(reason) => Err(reason@),
    }
}

/// `read` answers as `model` says.
pub open spec fn reads_as<R: Fn(&[u8], &str) -> Result<Vec<Part>, String>>(
    read: R,
    model: spec_fn(Seq<u8>, Seq<char>) -> Result<Seq<PartView>, Seq<char>>,
) -> bool {
    forall|body: &[u8], boundary: &str, answer: Result<Vec<Part>, String>| #[trigger]
        call_ensures(read, (body, boundary), answer) ==> parts_or_reason(answer) == model(
            body@,
            boundary@,
        )
}

/// The boundary that `content_type` names, or why it names none.
pub open spec fn boundary_named(
    content_type: Seq<char>,
    media_type: spec_fn(Seq<char>) -> Seq<char>,
    parameter: spec_fn(Seq<char>, Seq<char>) -> Option<Seq<char>>,
) -> Result<Seq<char>, Refusal> {
    if media_type(content_type) != "multipart/related"@ {
        Err(refusal("an SRMP message is multipart/related, not "@ + quoted_text(content_type)))
    } else {
        match parameter(content_type, "boundary"@) {
            Some(boundary) if boundary.len() > 0 => Ok(boundary),
            _ => Err(refusal("a multipart type naming no boundary"@)),
        }
    }
}

/// The parts of an SRMP body, or why it is not one.
pub open spec fn parts_of(
    boundary: Seq<char>,
    body: Seq<u8>,
    read: spec_fn(Seq<u8>, Seq<char>) -> Result<Seq<PartView>, Seq<char>>,
) -> Result<Seq<PartView>, Refusal> {
    match read(body, boundary) {
        Ok(parts) => Ok(parts),
        Err(reason) => Err(refusal(reason)),
    }
}

/// What [`parts`] answers.
pub open spec fn parts_result(answer: Result<Vec<Part>, TransportError>) -> Result<
    Seq<PartView>,
    Refusal,
> {
    match answer {
        Ok(parts) => Ok(parts_seen(parts@)),
        Err(error) => Err(error@),
    }
}

/// The `Content-Type` an SRMP message travels under, with `boundary`.
pub fn content_type(boundary: &str) -> (out: String)
    ensures
        out@ == content_type_of(boundary@),
{
    let mut out = "multipart/related; boundary=\"".to_owned();
    out.append(boundary);
    out.append("\"; type=\"text/xml\"");
    out
}

/// One part as SRMP writes it: its type, its content id and its length.
pub fn part(content_type: &str, content_id: &str, bytes: &[u8]) -> (part: Part)
    ensures
        part@ == srmp_part(content_type@, content_id@, bytes@),
        part.bytes@ == bytes@,
        part.content_id matches Some(id) && id@ == content_id@,
        part.headers@.len() == 3,
        part.headers@[0].name@ == "Content-Type"@ && part.headers@[0].value@ == content_type@,
        part.headers@[1].name@ == "Content-Id"@ && part.headers@[1].value@ == "<"@ + content_id@
            + ">"@,
        part.headers@[2].name@ == "Content-Length"@ && all_digits(part.headers@[2].value@)
            && value_of(part.headers@[2].value@) == bytes@.len(),
{
    let mut bracketed = "<".to_owned();
    bracketed.append(content_id);
    bracketed.append(">");
    let length = write_number(bytes.len() as u64);
    proof {
        lemma_decimal(bytes@.len());
    }
    let mut headers: Vec<Header> = Vec::new();
    headers.push(header("Content-Type", content_type));
    headers.push(header("Content-Id", bracketed.as_str()));
    headers.push(header("Content-Length", length.as_str()));
    let part = Part {
        headers,
        content_id: Some(content_id.to_owned()),
        bytes: slice_to_vec(bytes),
    };
    assert(part@.headers =~= srmp_part(content_type@, content_id@, bytes@).headers);
    part
}

/// The boundary a `Content-Type` names, or the refusal: the type is not `multipart/related`, or it
/// names no boundary. `media_type` gives the type that a header value begins with, `parameter` the
/// parameter of a given name.
pub fn boundary_of<'c, M, P>(content_type: &'c str, media_type: &M, parameter: &P) -> (boundary:
    Result<&'c str, TransportError>) where
    M: Fn(&str) -> String,
    P: for <'a, 'b>Fn(&'a str, &'b str) -> Option<&'a str>,

    requires
        forall|c: &str| call_requires(*media_type, (c,)),
        forall|c: &str, name: &str| call_requires(*parameter, (c, name)),
    ensures
        forall|m: spec_fn(Seq<char>) -> Seq<char>, p: spec_fn(Seq<char>, Seq<char>) -> Option<
            Seq<char>,
        >| #[trigger]
            types_as(*media_type, m) && #[trigger] parameters_as(*parameter, p) ==> seen(boundary)
                == boundary_named(content_type@, m, p),
{
    let kind = media_type(content_type);
    if !same(kind.as_str(), "multipart/related") {
        let mut message = "an SRMP message is multipart/related, not ".to_owned();
        message.append(quoted(content_type).as_str());
        return Err(protocol_error(message));
    }
    match parameter(content_type, "boundary") {
        Some(boundary) => if boundary.is_empty() {
            Err(protocol_error("a multipart type naming no boundary".to_owned()))
        } else {
            Ok(boundary)
        },
        None => Err(protocol_error("a multipart type naming no boundary".to_owned())),
    }
}

/// The parts of an SRMP body under `boundary`, or the refusal where the body is not the multipart
/// its boundary says. `read` takes a multipart body apart.
pub fn parts<R>(boundary: &str, body: &[u8], read: &R) -> (parts: Result<
    Vec<Part>,
    TransportError,
>) where R: Fn(&[u8], &str) -> Result<Vec<Part>, String>
    requires
        forall|b: &[u8], s: &str| call_requires(*read, (b, s)),
    ensures
        forall|r: spec_fn(Seq<u8>, Seq<char>) -> Result<Seq<PartView>, Seq<char>>| #[trigger]
            reads_as(*read, r) ==> parts_result(parts) == parts_of(boundary@, body@, r),
{
    match read(body, boundary) {
        Ok(parts) => Ok(parts),
        Err(reason) => Err(protocol_error(reason)),
    }
}

} // verus!
