//! Streams that arrive as MSMQ messages over HTTP. One message is one Stream.
//!
//! Between machines MSMQ speaks SRMP: the message as a SOAP envelope (who it is for, what it is, when
//! it was sent) with the body attached after it in a `multipart/related` POST to
//! `http://<host>/msmq/<queue>`. The receiving end takes one POST, reads the envelope
//! ([`envelope`]) and the attachment it names ([`mime`]), answers `200 OK`, and hands the attachment
//! on as the Stream, bytes as they are ([`receive`]). The sending end composes the same envelope
//! around a Stream and posts it ([`transport`]) to the queue that a target names ([`target`]).
//!
//! The one ceiling is MSMQ's own: a message is at most four mebibytes, and a Stream over that is
//! refused before a request is formed. The origin URI is the queue with the message id as its
//! fragment: `msmq://node-b/orders#uuid:7@node-a`.
//!
//! Sockets, and the MIME, XML and HTTP libraries that bytes go through, stay outside: functions of
//! those libraries are handed in by a [`Reader`] or a [`Writer`] ([`codec`]). What holds of this
//! library as a whole is stated and proved in [`laws`], and where it rests on what those libraries
//! are for, [`libraries`] says what that is.
pub mod codec;
mod composed;
pub mod envelope;
pub mod error;
pub mod laws;
mod lemmas;
pub mod libraries;
pub mod message;
pub mod mime;
pub mod number;
pub mod receive;
mod reference;
pub mod tag;
pub mod target;
pub mod text;
pub mod transport;

pub use codec::{Reader, Writer};
pub use envelope::Envelope;
pub use error::{protocol_error, TransportError};
pub use message::{Arrived, Header, HttpTarget, Request, Response};
pub use mime::Part;
pub use receive::take;
pub use target::{http_form, queue_url};
pub use transport::{answer, ceiling, now, receipt, Accepted, MsmqTransport, Posting, BOUNDARY};
