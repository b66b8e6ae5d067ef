//! The queue that a send target names.
//!
//! A target is `msmq://<host>/<queue>`, the queue's HTTP URL `http://<host>/msmq/<queue>`, or MSMQ's
//! format name for it, `DIRECT=HTTP://<host>/msmq/<queue>`. Each has a guarded form: `msmqs://`,
//! `https://`, `DIRECT=HTTPS://`.
use vstd::prelude::*;

use crate::error::{protocol_error, refusal, seen, Refusal, TransportError};
use crate::text::{
    after, after_first, before, before_first, begins, begins_alike, quoted, quoted_text,
    strip_prefix, strip_prefix_ignoring_case,
};

verus! {

/// A queue: the scheme it is reached by, the host, and its name there.
#[verifier::ext_equal]
pub struct QueueView {
    pub scheme: Seq<char>,
    pub authority: Seq<char>,
    pub queue: Seq<char>,
}

/// `text`, or no text at all where there is none.
pub open spec fn or_empty(text: Option<Seq<char>>) -> Seq<char> {
    match text {
        Some(t) => t,
        None => Seq::empty(),
    }
}

/// `text` without the `prefix` that it begins with; nothing where it does not.
pub open spec fn under(text: Seq<char>, prefix: Seq<char>) -> Seq<char> {
    if begins(text, prefix) {
        text.skip(prefix.len() as int)
    } else {
        Seq::empty()
    }
}

/// `target` without the `DIRECT=` of a format name, in either case.
pub open spec fn without_direct(target: Seq<char>) -> Seq<char> {
    if begins_alike(target, "DIRECT="@) {
        target.skip(7)
    } else {
        target
    }
}

/// The scheme and the rest of a target in the HTTP URL form or MSMQ's `DIRECT=` format name for it.
pub open spec fn http_form_of(target: Seq<char>) -> Option<(Seq<char>, Seq<char>)> {
    let url = without_direct(target);
    if begins_alike(url, "https://"@) {
        Some(("https"@, url.skip(8)))
    } else if begins_alike(url, "http://"@) {
        Some(("http"@, url.skip(7)))
    } else {
        None
    }
}

/// The scheme, host and queue that `target` spells out, any of the last two empty where it leaves
/// it out; nothing where it is in none of the forms.
pub open spec fn spelled(target: Seq<char>) -> Option<QueueView> {
    if begins(target, "msmq://"@) {
        let rest = target.skip(7);
        Some(
            QueueView {
                scheme: "http"@,
                authority: before(rest, "/"@),
                queue: or_empty(after(rest, "/"@)),
            },
        )
    } else if begins(target, "msmqs://"@) {
        let rest = target.skip(8);
        Some(
            QueueView {
                scheme: "https"@,
                authority: before(rest, "/"@),
                queue: or_empty(after(rest, "/"@)),
            },
        )
    } else {
        match http_form_of(target) {
            Some((scheme, rest)) => Some(
                QueueView {
                    scheme,
                    authority: before(rest, "/"@),
                    queue: under(or_empty(after(rest, "/"@)), "msmq/"@),
                },
            ),
            None => None,
        }
    }
}

/// The HTTP URL of a queue.
pub open spec fn url_of(queue: QueueView) -> Seq<char> {
    queue.scheme + "://"@ + queue.authority + "/msmq/"@ + queue.queue
}

/// The queue URL that `target` names, or why it names none.
pub open spec fn queue_url_of(target: Seq<char>) -> Result<Seq<char>, Refusal> {
    match spelled(target) {
        None => Err(refusal(quoted_text(target) + " is not an MSMQ queue"@)),
        Some(q) => if q.authority.len() == 0 || q.queue.len() == 0 {
            Err(refusal(quoted_text(target) + " names no host and queue"@))
        } else {
            Ok(url_of(q))
        },
    }
}

/// The scheme and the rest of a target in the HTTP URL form or MSMQ's `DIRECT=` format name for it,
/// the scheme in either case.
pub fn http_form(target: &str) -> (form: Option<(&'static str, &str)>)
    ensures
        match form {
            Some((scheme, rest)) => http_form_of(target@) == Some((scheme@, rest@)),
            None => http_form_of(target@) is None,
        },
{
    proof {
        reveal_strlit("DIRECT=");
        reveal_strlit("https://");
        reveal_strlit("http://");
    }
    let url = match strip_prefix_ignoring_case(target, "DIRECT=") {
        Some(rest) => rest,
        None => target,
    };
    if let Some(rest) = strip_prefix_ignoring_case(url, "https://") {
        return Some(("https", rest));
    }
    match strip_prefix_ignoring_case(url, "http://") {
        Some(rest) => Some(("http", rest)),
        None => None,
    }
}

/// `rest` cut at its first slash: the host before it and the path after it.
fn host_and_path(rest: &str) -> (cut: (&str, &str))
    ensures
        cut.0@ == before(rest@, "/"@),
        cut.1@ == or_empty(after(rest@, "/"@)),
{
    let path = match after_first(rest, "/") {
        Some(path) => path,
        None => {
            proof {
                reveal_strlit("");
            }
            assert(""@ =~= Seq::<char>::empty());
            ""
        },
    };
    (before_first(rest, "/"), path)
}

/// The queue URL a target names: `msmq://host/queue`, `http://host/msmq/queue` or
/// `DIRECT=HTTP://host/msmq/queue`, each as `http://host/msmq/queue`; and their guarded forms
/// `msmqs://host/queue`, `https://host/msmq/queue` or `DIRECT=HTTPS://host/msmq/queue`, each as
/// `https://host/msmq/queue`. Refused where the target names no host or no queue.
pub fn queue_url(target: &str) -> (url: Result<String, TransportError>)
    ensures
        seen(url) == queue_url_of(target@),
{
    proof {
        reveal_strlit("msmq://");
        reveal_strlit("msmqs://");
        reveal_strlit("msmq/");
        reveal_strlit("");
    }
    let (scheme, authority, queue) = if let Some(rest) = strip_prefix(target, "msmq://") {
        let (authority, queue) = host_and_path(rest);
        ("http", authority, queue)
    } else if let Some(rest) = strip_prefix(target, "msmqs://") {
        let (authority, queue) = host_and_path(rest);
        ("https", authority, queue)
    } else {
        match http_form(target) {
            Some((scheme, rest)) => {
                let (authority, path) = host_and_path(rest);
                let queue = match strip_prefix(path, "msmq/") {
                    Some(queue) => queue,
                    None => "",
                };
                assert(queue@ =~= under(path@, "msmq/"@));
                (scheme, authority, queue)
            },
            None => {
                let mut message = quoted(target);
                message.append(" is not an MSMQ queue");
                return Err(protocol_error(message));
            },
        }
    };
    if authority.is_empty() || queue.is_empty() {
        let mut message = quoted(target);
        message.append(" names no host and queue");
        return Err(protocol_error(message));
    }
    let mut url = scheme.to_owned();
    url.append("://");
    url.append(authority);
    url.append("/msmq/");
    url.append(queue);
    Ok(url)
}

} // verus!
