//! The HTTP messages that SRMP travels in, as plain values.
use vstd::prelude::*;

use crate::text::{alike, same_ignoring_case};

verus! {

/// One header line.
#[derive(Clone, Debug, PartialEq, Eq)]
pub struct Header {
    pub name: String,
    pub value: String,
}

impl View for Header {
    type V = (Seq<char>, Seq<char>);

    open spec fn view(&self) -> (Seq<char>, Seq<char>) {
        (self.name@, self.value@)
    }
}

/// The header line `name: value`.
pub(crate) fn header(name: &str, value: &str) -> (line: Header)
    ensures
        line@ == (name@, value@),
{
    Header { name: name.to_owned(), value: value.to_owned() }
}

/// What a list of header lines says.
pub open spec fn lines(headers: Seq<Header>) -> Seq<(Seq<char>, Seq<char>)> {
    headers.map_values(|line: Header| line@)
}

/// The value of the first header called `name`, the case of ASCII letters aside.
pub open spec fn value_under(headers: Seq<(Seq<char>, Seq<char>)>, name: Seq<char>) -> Option<
    Seq<char>,
>
    decreases headers.len(),
{
    if headers.len() == 0 {
        None
    } else if alike(headers[0].0, name) {
        Some(headers[0].1)
    } else {
        value_under(headers.drop_first(), name)
    }
}

/// What an optional text is.
pub open spec fn optional(text: Option<&str>) -> Option<Seq<char>> {
    match text {
        Some(t) => Some(t@),
        None => None,
    }
}

/// The value of the first header called `name`.
pub(crate) fn look_up<'a>(headers: &'a Vec<Header>, name: &str) -> (value: Option<&'a str>)
    ensures
        optional(value) == value_under(lines(headers@), name@),
        value matches Some(v) ==> exists|i: int|
            0 <= i < headers@.len() && v@ == (#[trigger] headers@[i]).value@ && alike(
                headers@[i].name@,
                name@,
            ) && forall|j: int| 0 <= j < i ==> !alike((#[trigger] headers@[j]).name@, name@),
        value is None ==> forall|i: int|
            0 <= i < headers@.len() ==> !alike((#[trigger] headers@[i]).name@, name@),
{
    let ghost all = lines(headers@);
    let mut i: usize = 0;
    assert(all.skip(0) =~= all);
    while i < headers.len()
        invariant
            i <= headers@.len(),
            all == lines(headers@),
            value_under(all, name@) == value_under(all.skip(i as int), name@),
            forall|j: int| 0 <= j < i ==> !alike((#[trigger] headers@[j]).name@, name@),
        decreases headers@.len() - i,
    {
        assert(all.skip(i as int)[0] == headers@[i as int]@);
        assert(all.skip(i as int).drop_first() =~= all.skip(i + 1));
        if same_ignoring_case(headers[i].name.as_str(), name) {
            return Some(headers[i].value.as_str());
        }
        i = i + 1;
    }
    None
}

/// A request: what is asked of which path, under which headers, with which body.
#[derive(Clone, Debug, PartialEq, Eq)]
pub struct Request {
    pub method: String,
    pub path: String,
    pub headers: Vec<Header>,
    pub body: Vec<u8>,
}

/// What a [`Request`] says.
#[verifier::ext_equal]
pub struct RequestView {
    pub method: Seq<char>,
    pub path: Seq<char>,
    pub headers: Seq<(Seq<char>, Seq<char>)>,
    pub body: Seq<u8>,
}

impl View for Request {
    type V = RequestView;

    open spec fn view(&self) -> RequestView {
        RequestView {
            method: self.method@,
            path: self.path@,
            headers: lines(self.headers@),
            body: self.body@,
        }
    }
}

impl Request {
    /// The value of the first header called `name`, the case of ASCII letters aside.
    pub fn header_value(&self, name: &str) -> (value: Option<&str>)
        ensures
            optional(value) == value_under(self@.headers, name@),
            value matches Some(v) ==> exists|i: int|
                0 <= i < self.headers@.len() && v@ == (#[trigger] self.headers@[i]).value@ && alike(
                    self.headers@[i].name@,
                    name@,
                ) && forall|j: int| 0 <= j < i ==> !alike((#[trigger] self.headers@[j]).name@, name@),
            value is None ==> forall|i: int|
                0 <= i < self.headers@.len() ==> !alike((#[trigger] self.headers@[i]).name@, name@),
    {
        look_up(&self.headers, name)
    }
}

/// An answer: its status and what it says.
#[derive(Clone, Debug, PartialEq, Eq)]
pub struct Response {
    pub status: u16,
    pub body: Vec<u8>,
}

/// What a [`Response`] says.
#[verifier::ext_equal]
pub struct ResponseView {
    pub status: u16,
    pub body: Seq<u8>,
}

impl View for Response {
    type V = ResponseView;

    open spec fn view(&self) -> ResponseView {
        ResponseView { status: self.status, body: self.body@ }
    }
}

/// What an HTTP URL names: the host, with its port where it gives one, and the path there.
#[derive(Clone, Debug, PartialEq, Eq)]
pub struct HttpTarget {
    pub authority: String,
    pub path: String,
}

/// What an [`HttpTarget`] says.
#[verifier::ext_equal]
pub struct HttpTargetView {
    pub authority: Seq<char>,
    pub path: Seq<char>,
}

impl View for HttpTarget {
    type V = HttpTargetView;

    open spec fn view(&self) -> HttpTargetView {
        HttpTargetView { authority: self.authority@, path: self.path@ }
    }
}

/// A Stream, and where it came from.
#[derive(Clone, Debug, PartialEq, Eq)]
pub struct Arrived {
    pub origin_uri: String,
    pub bytes: Vec<u8>,
}

/// What an [`Arrived`] holds.
#[verifier::ext_equal]
pub struct ArrivedView {
    pub origin_uri: Seq<char>,
    pub bytes: Seq<u8>,
}

impl View for Arrived {
    type V = ArrivedView;

    open spec fn view(&self) -> ArrivedView {
        ArrivedView { origin_uri: self.origin_uri@, bytes: self.bytes@ }
    }
}

} // verus!
