//! The functions of a MIME library, an XML library and an HTTP library that messages are written and
//! read with.
//!
//! [`Writer`] and [`Reader`] carry the functions themselves; [`WriterModel`] and [`ReaderModel`] say
//! what each of them answers on every argument. What is proved of a message holds for every writer
//! and reader that follows some model, that is, whose functions answer by their arguments alone.
use vstd::prelude::*;

use crate::envelope::{escapes_as, finds_as, unescapes_as};
use crate::error::{seen, Refusal, TransportError};
use crate::message::{HttpTarget, HttpTargetView};
use crate::mime::{parameters_as, parts_seen, reads_as, types_as, Part, PartView};

verus! {

/// What a message is written with.
pub struct Writer<E, T, W> {
    /// Makes a text fit to stand in XML.
    pub escape: E,
    /// Takes an HTTP URL apart.
    pub target: T,
    /// Makes one body of parts under a boundary.
    pub write: W,
}

/// What the functions of a [`Writer`] answer.
pub struct WriterModel {
    pub escape: spec_fn(Seq<char>) -> Seq<char>,
    pub target: spec_fn(Seq<char>) -> Result<HttpTargetView, Refusal>,
    pub write: spec_fn(Seq<char>, Seq<PartView>) -> Seq<u8>,
}

/// `target` answers as `model` says.
pub open spec fn targets_as<T: Fn(&str) -> Result<HttpTarget, TransportError>>(
    target: T,
    model: spec_fn(Seq<char>) -> Result<HttpTargetView, Refusal>,
) -> bool {
    forall|url: &str, answer: Result<HttpTarget, TransportError>| #[trigger]
        call_ensures(target, (url,), answer) ==> seen(answer) == model(url@)
}

/// `write` answers as `model` says.
pub open spec fn writes_as<W: Fn(&str, &[Part]) -> Vec<u8>>(
    write: W,
    model: spec_fn(Seq<char>, Seq<PartView>) -> Seq<u8>,
) -> bool {
    forall|boundary: &str, parts: &[Part], answer: Vec<u8>| #[trigger]
        call_ensures(write, (boundary, parts), answer) ==> answer@ == model(
            boundary@,
            parts_seen(parts@),
        )
}

impl<E, T, W> Writer<E, T, W> where
    E: Fn(&str) -> String,
    T: Fn(&str) -> Result<HttpTarget, TransportError>,
    W: Fn(&str, &[Part]) -> Vec<u8>,
 {
    /// Each of the functions takes every argument.
    pub open spec fn total(&self) -> bool {
        &&& forall|text: &str| #[trigger] call_requires(self.escape, (text,))
        &&& forall|url: &str| #[trigger] call_requires(self.target, (url,))
        &&& forall|boundary: &str, parts: &[Part]| #[trigger]
            call_requires(self.write, (boundary, parts))
    }

    /// The functions answer as `model` says.
    pub open spec fn follows(&self, model: WriterModel) -> bool {
        &&& escapes_as(self.escape, model.escape)
        &&& targets_as(self.target, model.target)
        &&& writes_as(self.write, model.write)
    }
}

/// What a message is read with.
pub struct Reader<M, P, R, F, U> {
    /// The type that a `Content-Type` begins with, in lower case and without its parameters.
    pub media_type: M,
    /// The parameter of a given name in a `Content-Type`.
    pub parameter: P,
    /// Takes a multipart body apart at a boundary, or says why it cannot.
    pub read: R,
    /// Finds the text of the first XML element of a given name.
    pub first: F,
    /// Gives back a text that was made fit to stand in XML.
    pub unescape: U,
}

/// What the functions of a [`Reader`] answer.
pub struct ReaderModel {
    pub media_type: spec_fn(Seq<char>) -> Seq<char>,
    pub parameter: spec_fn(Seq<char>, Seq<char>) -> Option<Seq<char>>,
    pub read: spec_fn(Seq<u8>, Seq<char>) -> Result<Seq<PartView>, Seq<char>>,
    pub first: spec_fn(Seq<char>, Seq<char>) -> Result<Option<Seq<char>>, Refusal>,
    pub unescape: spec_fn(Seq<char>) -> Result<Seq<char>, Refusal>,
}

impl<M, P, R, F, U> Reader<M, P, R, F, U> where
    M: Fn(&str) -> String,
    P: for <'a, 'b>Fn(&'a str, &'b str) -> Option<&'a str>,
    R: Fn(&[u8], &str) -> Result<Vec<Part>, String>,
    F: Fn(&str, &str) -> Result<Option<String>, TransportError>,
    U: Fn(&str) -> Result<String, TransportError>,
 {
    /// Each of the functions takes every argument.
    pub open spec fn total(&self) -> bool {
        &&& forall|c: &str| #[trigger] call_requires(self.media_type, (c,))
        &&& forall|c: &str, name: &str| #[trigger] call_requires(self.parameter, (c, name))
        &&& forall|body: &[u8], boundary: &str| #[trigger]
            call_requires(self.read, (body, boundary))
        &&& forall|xml: &str, name: &str| #[trigger] call_requires(self.first, (xml, name))
        &&& forall|text: &str| #[trigger] call_requires(self.unescape, (text,))
    }

    /// The functions answer as `model` says.
    pub open spec fn follows(&self, model: ReaderModel) -> bool {
        &&& types_as(self.media_type, model.media_type)
        &&& parameters_as(self.parameter, model.parameter)
        &&& reads_as(self.read, model.read)
        &&& finds_as(self.first, model.first)
        &&& unescapes_as(self.unescape, model.unescape)
    }
}

} // verus!
