//! What MIME, XML and HTTP libraries are for, as far as a message needs them: whatever texts and
//! parts are written with them are read back.
//!
//! Each of these says of a library as a whole what anyone who uses it relies on, on texts and parts
//! of which no library makes a special case. None of them speaks of a message.
use vstd::prelude::*;
use vstd::utf8::encode_utf8;

use crate::codec::{ReaderModel, WriterModel};
use crate::error::Refusal;
use crate::message::HttpTargetView;
use crate::mime::{content_type_of, srmp_part, PartView};
use crate::number::{all_digits, value_of};
use crate::text::{after, before, free_of};

verus! {

/// `c` is white space.
pub open spec fn is_space(c: char) -> bool {
    ||| c <= ' '
    ||| c == '\u{85}'
    ||| c == '\u{a0}'
    ||| c == '\u{1680}'
    ||| '\u{2000}' <= c <= '\u{200a}'
    ||| c == '\u{2028}'
    ||| c == '\u{2029}'
    ||| c == '\u{202f}'
    ||| c == '\u{205f}'
    ||| c == '\u{3000}'
}

/// `c` is a control character.
pub open spec fn is_control(c: char) -> bool {
    c < ' ' || '\u{7f}' <= c <= '\u{9f}'
}

/// `text` is printable, is not empty, and has no white space around it.
pub open spec fn proper(text: Seq<char>) -> bool {
    &&& text.len() > 0
    &&& !is_space(text[0])
    &&& !is_space(text.last())
    &&& forall|i: int| 0 <= i < text.len() ==> !is_control(#[trigger] text[i])
}

/// `c` is an ASCII letter, a digit, or one of the marks that ids, hosts, paths and types are made
/// with.
pub open spec fn is_simple(c: char) -> bool {
    ||| 'a' <= c <= 'z'
    ||| 'A' <= c <= 'Z'
    ||| '0' <= c <= '9'
    ||| c == '-'
    ||| c == '.'
    ||| c == '_'
    ||| c == ':'
    ||| c == '/'
    ||| c == '@'
}

/// Every character of `text` is simple.
pub open spec fn simple(text: Seq<char>) -> bool {
    forall|i: int| 0 <= i < text.len() ==> is_simple(#[trigger] text[i])
}

/// A piece of XML text: a tag, from `<` to `>`, with its name and what follows that after a space; or
/// the text between two tags.
pub enum Piece {
    Tag { name: Seq<char>, rest: Seq<char> },
    Text(Seq<char>),
}

/// A piece as it is written.
pub open spec fn written(piece: Piece) -> Seq<char> {
    match piece {
        Piece::Tag { name, rest } => "<"@ + name + rest + ">"@,
        Piece::Text(text) => text,
    }
}

/// Pieces as they are written, one after the other.
pub open spec fn rendered(pieces: Seq<Piece>) -> Seq<char>
    decreases pieces.len(),
{
    if pieces.len() == 0 {
        Seq::empty()
    } else {
        rendered(pieces.drop_last()) + written(pieces.last())
    }
}

/// `text` ends in `end`.
pub open spec fn ends_in(text: Seq<char>, end: Seq<char>) -> bool {
    end.len() <= text.len() && text.skip(text.len() - end.len()) == end
}

/// `piece` is well formed, and no tag of an element called `name`, with or without a prefix. A tag
/// may be a declaration, between `?` and `?`, but begins no comment.
pub open spec fn is_other_than(piece: Piece, name: Seq<char>) -> bool {
    match piece {
        Piece::Tag { name: own, rest } => {
            &&& own.len() > 0
            &&& own[0] != '!'
            &&& own[0] == '?' ==> rest.len() > 0 && rest.last() == '?'
            &&& free_of(own, '<')
            &&& free_of(own, '>')
            &&& free_of(own, ' ')
            &&& rest.len() > 0 ==> rest[0] == ' '
            &&& free_of(rest, '<')
            &&& free_of(rest, '>')
            &&& !ends_in(own, name)
        },
        Piece::Text(text) => free_of(text, '<'),
    }
}

/// No element called `name` begins in `pieces`.
pub open spec fn passes_over(pieces: Seq<Piece>, name: Seq<char>) -> bool {
    forall|i: int| 0 <= i < pieces.len() ==> is_other_than(#[trigger] pieces[i], name)
}

/// The element called `name` with `content` in it.
pub open spec fn element(name: Seq<char>, content: Seq<char>) -> Seq<char> {
    "<"@ + name + ">"@ + content + "</"@ + name + ">"@
}

/// The element called `name` that follows `head` is found, with the text that was escaped into it.
pub open spec fn finds(
    escape: spec_fn(Seq<char>) -> Seq<char>,
    first: spec_fn(Seq<char>, Seq<char>) -> Result<Option<Seq<char>>, Refusal>,
    head: Seq<Piece>,
    name: Seq<char>,
    text: Seq<char>,
    tail: Seq<char>,
) -> bool {
    first(rendered(head) + element(name, escape(text)) + tail, name) == Ok::<
        Option<Seq<char>>,
        Refusal,
    >(Some(text))
}

/// What an XML library is for: an escaped text holds neither a quote nor a `<`, unescaping undoes
/// escaping, a simple text needs none, and the first element of a name is found with the text that
/// was escaped into it.
pub open spec fn is_xml_library(
    escape: spec_fn(Seq<char>) -> Seq<char>,
    first: spec_fn(Seq<char>, Seq<char>) -> Result<Option<Seq<char>>, Refusal>,
    unescape: spec_fn(Seq<char>) -> Result<Seq<char>, Refusal>,
) -> bool {
    &&& forall|text: Seq<char>| free_of(#[trigger] escape(text), '"') && free_of(escape(text), '<')
    &&& forall|text: Seq<char>|
        proper(text) ==> unescape(#[trigger] escape(text)) == Ok::<Seq<char>, Refusal>(text)
    &&& forall|text: Seq<char>| simple(text) ==> #[trigger] escape(text) == text
    &&& forall|head: Seq<Piece>, name: Seq<char>, text: Seq<char>, tail: Seq<char>|
        name.len() > 0 && simple(name) && passes_over(head, name) && proper(text)
            ==> #[trigger] finds(escape, first, head, name, text, tail)
}

/// A boundary that can stand in quotes as it is: printable ASCII without quotes, backslashes and
/// semicolons, not empty, and with no space around it.
pub open spec fn plain_boundary(boundary: Seq<char>) -> bool {
    &&& boundary.len() > 0
    &&& boundary[0] != ' '
    &&& boundary.last() != ' '
    &&& forall|i: int|
        0 <= i < boundary.len() ==> ' ' <= #[trigger] boundary[i] <= '~' && boundary[i] != '"'
            && boundary[i] != '\\' && boundary[i] != ';'
}

/// A header reader finds in the `Content-Type` of an SRMP message the type and the boundary that were
/// written there.
pub open spec fn types_read_back(boundary: Seq<char>, reader: ReaderModel) -> bool {
    &&& (reader.media_type)(content_type_of(boundary)) == "multipart/related"@
    &&& (reader.parameter)(content_type_of(boundary), "boundary"@) == Some(boundary)
}

/// A line of `bytes` begins with `mark`: it stands at their beginning, or behind a line feed.
pub open spec fn has_line(bytes: Seq<u8>, mark: Seq<u8>) -> bool {
    exists|i: int|
        0 <= i && i + mark.len() <= bytes.len() && #[trigger] bytes.subrange(i, i + mark.len())
            == mark && (i == 0 || bytes[i - 1] == 10)
}

/// The bytes that set the parts under `boundary` apart.
pub open spec fn delimiter(boundary: Seq<char>) -> Seq<u8> {
    encode_utf8("--"@ + boundary)
}

/// The part `content_type`, `content_id`, `bytes` can stand under `boundary`: none of its lines begins
/// with the delimiter. In the middle of a line that is content like any other.
pub open spec fn fits(
    content_type: Seq<char>,
    content_id: Seq<char>,
    bytes: Seq<u8>,
    boundary: Seq<char>,
) -> bool {
    &&& content_type.len() > 0
    &&& simple(content_type)
    &&& content_id.len() > 0
    &&& simple(content_id)
    &&& !has_line(bytes, delimiter(boundary))
}

/// `part` is one that SRMP writes, and can stand under `boundary`.
pub open spec fn writable(part: PartView, boundary: Seq<char>) -> bool {
    exists|content_type: Seq<char>, content_id: Seq<char>, bytes: Seq<u8>|
        part == #[trigger] srmp_part(content_type, content_id, bytes) && fits(
            content_type,
            content_id,
            bytes,
            boundary,
        )
}

/// `back` are as many parts as `parts`, with the same ids and the same bytes.
pub open spec fn same_attachments(back: Seq<PartView>, parts: Seq<PartView>) -> bool {
    &&& back.len() == parts.len()
    &&& forall|i: int|
        0 <= i < parts.len() ==> (#[trigger] back[i]).content_id == parts[i].content_id
            && back[i].bytes == parts[i].bytes
}

/// `parts` written under `boundary` are read back with their ids and bytes.
pub open spec fn parts_read_back(
    write: spec_fn(Seq<char>, Seq<PartView>) -> Seq<u8>,
    read: spec_fn(Seq<u8>, Seq<char>) -> Result<Seq<PartView>, Seq<char>>,
    boundary: Seq<char>,
    parts: Seq<PartView>,
) -> bool {
    read(write(boundary, parts), boundary) matches Ok(back) && same_attachments(back, parts)
}

/// What a MIME library is for: the type and the boundary are found in a `Content-Type`, and the parts
/// of a body are read back, whatever bytes they carry but for a line that begins with the delimiter.
pub open spec fn is_mime_library(
    write: spec_fn(Seq<char>, Seq<PartView>) -> Seq<u8>,
    reader: ReaderModel,
) -> bool {
    &&& forall|boundary: Seq<char>|
        plain_boundary(boundary) ==> #[trigger] types_read_back(boundary, reader)
    &&& forall|boundary: Seq<char>, parts: Seq<PartView>|
        plain_boundary(boundary) && parts.len() > 0 && (forall|i: int|
            0 <= i < parts.len() ==> writable(#[trigger] parts[i], boundary))
            ==> #[trigger] parts_read_back(write, reader.read, boundary, parts)
}

/// `host` is a host name in lower case.
pub open spec fn plain_host(host: Seq<char>) -> bool {
    &&& host.len() > 0
    &&& forall|i: int|
        0 <= i < host.len() ==> {
            ||| 'a' <= #[trigger] host[i] <= 'z'
            ||| '0' <= host[i] <= '9'
            ||| host[i] == '-'
            ||| host[i] == '.'
        }
}

/// `authority` is a host name in lower case, with a port or without. A port is a number of 16 bits.
pub open spec fn plain_authority(authority: Seq<char>) -> bool {
    &&& plain_host(before(authority, ":"@))
    &&& after(authority, ":"@) matches Some(port) ==> {
        &&& port.len() > 0
        &&& all_digits(port)
        &&& value_of(port) <= u16::MAX
    }
}

/// `queue` is made of ASCII letters, digits and hyphens.
pub open spec fn plain_queue(queue: Seq<char>) -> bool {
    &&& queue.len() > 0
    &&& forall|i: int|
        0 <= i < queue.len() ==> {
            ||| 'a' <= #[trigger] queue[i] <= 'z'
            ||| 'A' <= queue[i] <= 'Z'
            ||| '0' <= queue[i] <= '9'
            ||| queue[i] == '-'
        }
}

/// The URL made of `scheme`, `authority` and `path` is taken apart into the last two.
pub open spec fn splits(
    target: spec_fn(Seq<char>) -> Result<HttpTargetView, Refusal>,
    scheme: Seq<char>,
    authority: Seq<char>,
    path: Seq<char>,
) -> bool {
    target(scheme + "://"@ + authority + path) == Ok::<HttpTargetView, Refusal>(
        HttpTargetView { authority, path },
    )
}

/// What an HTTP library is for: a URL is taken apart into the host and the path it is made of.
pub open spec fn is_http_library(
    target: spec_fn(Seq<char>) -> Result<HttpTargetView, Refusal>,
) -> bool {
    forall|scheme: Seq<char>, authority: Seq<char>, path: Seq<char>|
        (scheme == "http"@ || scheme == "https"@) && plain_authority(authority) && path.len() > 0
            && path[0] == '/' && simple(path)
            ==> #[trigger] splits(target, scheme, authority, path)
}

/// The libraries that messages are written and read with do what they are for.
pub open spec fn are_libraries(writer: WriterModel, reader: ReaderModel) -> bool {
    &&& is_xml_library(writer.escape, reader.first, reader.unescape)
    &&& is_mime_library(writer.write, reader)
    &&& is_http_library(writer.target)
}

} // verus!
