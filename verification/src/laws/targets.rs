//! Which targets name a queue, and which URL is theirs.
use vstd::prelude::*;

use crate::error::Refusal;
use crate::laws::{law_forms_agree, plain_url};
use crate::lemmas::{lemma_begins_alike, lemma_not_begins_alike};
use crate::target::{http_form_of, queue_url_of, spelled};
use crate::text::{
    after, alike, before, begins, begins_alike, fold, lemma_index_of, occurs_at, quoted_text,
};

verus! {

/// `target` is MSMQ's own form of the queue called `queue` at `authority`.
pub open spec fn in_own_form(
    target: Seq<char>,
    guarded: bool,
    authority: Seq<char>,
    queue: Seq<char>,
) -> bool {
    &&& target == (if guarded {
        "msmqs://"@
    } else {
        "msmq://"@
    }) + authority + "/"@ + queue
    &&& authority.len() > 0
    &&& queue.len() > 0
    &&& forall|i: int| 0 <= i < authority.len() ==> #[trigger] authority[i] != '/'
}

/// `target` begins as an HTTP URL does, behind the `DIRECT=` of a format name or not, in either case,
/// and goes on with `rest`.
pub open spec fn begins_as_http(
    target: Seq<char>,
    guarded: bool,
    direct: Seq<char>,
    prefix: Seq<char>,
    rest: Seq<char>,
) -> bool {
    &&& target == direct + prefix + rest
    &&& direct.len() == 0 || alike(direct, "DIRECT="@)
    &&& alike(
        prefix,
        if guarded {
            "https://"@
        } else {
            "http://"@
        },
    )
}

/// `target` is the HTTP URL of the queue called `queue` at `authority`, or the format name for it.
pub open spec fn in_http_form(
    target: Seq<char>,
    guarded: bool,
    direct: Seq<char>,
    prefix: Seq<char>,
    authority: Seq<char>,
    queue: Seq<char>,
) -> bool {
    &&& begins_as_http(target, guarded, direct, prefix, authority + "/msmq/"@ + queue)
    &&& authority.len() > 0
    &&& queue.len() > 0
    &&& forall|i: int| 0 <= i < authority.len() ==> #[trigger] authority[i] != '/'
}

/// The URL of the queue called `queue` at `authority`.
pub open spec fn queue_at_host(guarded: bool, authority: Seq<char>, queue: Seq<char>) -> Seq<char> {
    (if guarded {
        "https://"@
    } else {
        "http://"@
    }) + authority + "/msmq/"@ + queue
}

/// A target in MSMQ's own form is read as the URL of the queue that it names.
pub proof fn law_own_form_names_its_queue(
    target: Seq<char>,
    guarded: bool,
    authority: Seq<char>,
    queue: Seq<char>,
)
    requires
        in_own_form(target, guarded, authority, queue),
    ensures
        queue_url_of(target) == Ok::<Seq<char>, Refusal>(queue_at_host(guarded, authority, queue)),
{
    let prefix = if guarded {
        "https://"@
    } else {
        "http://"@
    };
    law_forms_agree(guarded, Seq::empty(), prefix, authority, queue);
    lemma_url(guarded, authority, queue);
}

/// A target in the HTTP form is read as the URL of the queue that it names.
pub proof fn law_http_form_names_its_queue(
    target: Seq<char>,
    guarded: bool,
    direct: Seq<char>,
    prefix: Seq<char>,
    authority: Seq<char>,
    queue: Seq<char>,
)
    requires
        in_http_form(target, guarded, direct, prefix, authority, queue),
    ensures
        queue_url_of(target) == Ok::<Seq<char>, Refusal>(queue_at_host(guarded, authority, queue)),
{
    law_forms_agree(guarded, direct, prefix, authority, queue);
    lemma_url(guarded, authority, queue);
    assert(target =~= direct + prefix + authority + "/msmq/"@ + queue);
}

proof fn lemma_url(guarded: bool, authority: Seq<char>, queue: Seq<char>)
    ensures
        plain_url(guarded, authority, queue) == queue_at_host(guarded, authority, queue),
{
    reveal_strlit("http");
    reveal_strlit("https");
    reveal_strlit("http://");
    reveal_strlit("https://");
    reveal_strlit("://");
    assert("http"@ + "://"@ =~= "http://"@);
    assert("https"@ + "://"@ =~= "https://"@);
    assert(plain_url(guarded, authority, queue) =~= queue_at_host(guarded, authority, queue));
}

/// Where a target is taken apart at the first slash, the host before it holds none.
proof fn lemma_cut(rest: Seq<char>)
    requires
        after(rest, "/"@) is Some,
    ensures
        rest == before(rest, "/"@) + "/"@ + after(rest, "/"@)->0,
        forall|i: int| 0 <= i < before(rest, "/"@).len() ==> #[trigger] before(rest, "/"@)[i] != '/',
{
    reveal_strlit("/");
    lemma_index_of(rest, "/"@);
    let head = before(rest, "/"@);
    assert(rest =~= head + "/"@ + after(rest, "/"@)->0);
    assert forall|i: int| 0 <= i < head.len() implies #[trigger] head[i] != '/' by {
        if head[i] == '/' {
            assert(rest.subrange(i, i + 1) =~= "/"@);
            assert(occurs_at(rest, "/"@, i));
        }
    }
}

/// A URL comes of nothing but a target in one of the forms, and is the URL of the queue that the
/// target names: a host, which holds no slash, and a queue, neither of them empty. So a target that is
/// no MSMQ target, names no host or no queue, or is an HTTP URL whose path does not begin with
/// `/msmq/`, is refused.
pub proof fn law_only_a_form_names_a_queue(target: Seq<char>)
    ensures
        queue_url_of(target) matches Ok(url) ==> {
            ||| exists|guarded: bool, authority: Seq<char>, queue: Seq<char>| #[trigger]
                in_own_form(target, guarded, authority, queue) && url == queue_at_host(
                    guarded,
                    authority,
                    queue,
                )
            ||| exists|
                guarded: bool,
                direct: Seq<char>,
                prefix: Seq<char>,
                authority: Seq<char>,
                queue: Seq<char>,
            | #[trigger]
                in_http_form(target, guarded, direct, prefix, authority, queue) && url
                    == queue_at_host(guarded, authority, queue)
        },
{
    if let Ok(url) = queue_url_of(target) {
        reveal_strlit("msmq://");
        reveal_strlit("msmqs://");
        reveal_strlit("/msmq/");
        reveal_strlit("msmq/");
        reveal_strlit("/");
        let q = spelled(target)->0;
        if begins(target, "msmq://"@) || begins(target, "msmqs://"@) {
            let guarded = !begins(target, "msmq://"@);
            let prefix = if guarded {
                "msmqs://"@
            } else {
                "msmq://"@
            };
            let rest = target.skip(prefix.len() as int);
            assert(target =~= prefix + rest);
            assert(after(rest, "/"@) is Some);
            lemma_cut(rest);
            assert(target =~= prefix + q.authority + "/"@ + q.queue);
            lemma_url(guarded, q.authority, q.queue);
            assert(in_own_form(target, guarded, q.authority, q.queue));
        } else {
            let (scheme, rest) = http_form_of(target)->0;
            reveal_strlit("http");
            reveal_strlit("https");
            law_http_form_is_scheme_and_rest(target);
            let guarded = scheme == "https"@;
            let (direct, prefix) = choose|direct: Seq<char>, prefix: Seq<char>| #[trigger]
                begins_as_http(target, guarded, direct, prefix, rest);
            assert(after(rest, "/"@) is Some);
            lemma_cut(rest);
            let path = after(rest, "/"@)->0;
            assert(begins(path, "msmq/"@));
            assert(path =~= "msmq/"@ + q.queue);
            assert("/"@ + "msmq/"@ =~= "/msmq/"@);
            assert(rest =~= q.authority + "/msmq/"@ + q.queue);
            lemma_url(guarded, q.authority, q.queue);
            assert(in_http_form(target, guarded, direct, prefix, q.authority, q.queue));
        }
    }
}

/// What is left of a target in the HTTP form, and the scheme it has in lower case, are found exactly
/// where it begins as an HTTP URL does.
pub proof fn law_http_form_is_scheme_and_rest(target: Seq<char>)
    ensures
        http_form_of(target) matches Some((scheme, rest)) ==> {
            ||| scheme == "https"@ && exists|direct: Seq<char>, prefix: Seq<char>| #[trigger]
                begins_as_http(target, true, direct, prefix, rest)
            ||| scheme == "http"@ && exists|direct: Seq<char>, prefix: Seq<char>| #[trigger]
                begins_as_http(target, false, direct, prefix, rest)
        },
        forall|guarded: bool, direct: Seq<char>, prefix: Seq<char>, rest: Seq<char>| #[trigger]
            begins_as_http(target, guarded, direct, prefix, rest) ==> http_form_of(target) == Some(
                (
                    if guarded {
                        "https"@
                    } else {
                        "http"@
                    },
                    rest,
                ),
            ),
{
    reveal_strlit("DIRECT=");
    reveal_strlit("https://");
    reveal_strlit("http://");
    reveal_strlit("https");
    reveal_strlit("http");
    if let Some((scheme, rest)) = http_form_of(target) {
        let direct = if begins_alike(target, "DIRECT="@) {
            target.take(7)
        } else {
            Seq::empty()
        };
        let url = target.skip(direct.len() as int);
        assert(url =~= if begins_alike(target, "DIRECT="@) {
            target.skip(7)
        } else {
            target
        });
        let guarded = begins_alike(url, "https://"@);
        let n: int = if guarded {
            8
        } else {
            7
        };
        let prefix = url.take(n);
        assert(url =~= prefix + rest);
        assert(target =~= direct + prefix + rest);
        assert(begins_as_http(target, guarded, direct, prefix, rest));
    }
    assert forall|guarded: bool, direct: Seq<char>, prefix: Seq<char>, rest: Seq<char>| #[trigger]
        begins_as_http(target, guarded, direct, prefix, rest) implies http_form_of(target) == Some(
        (
            if guarded {
                "https"@
            } else {
                "http"@
            },
            rest,
        ),
    ) by {
        let url = prefix + rest;
        assert(target =~= direct + url);
        assert(fold(prefix[0]) == 'h');
        if direct.len() == 0 {
            assert(target =~= url);
            lemma_not_begins_alike(target, "DIRECT="@, 0);
        } else {
            lemma_begins_alike(direct, "DIRECT="@, url);
        }
        if guarded {
            lemma_begins_alike(prefix, "https://"@, rest);
        } else {
            assert(fold(prefix[4]) == ':');
            lemma_not_begins_alike(url, "https://"@, 4);
            lemma_begins_alike(prefix, "http://"@, rest);
        }
    }
}

/// A target that names no queue is refused for good, with the target in quotes: as no MSMQ queue where
/// it begins in none of the ways that a target does, and else as naming no host and queue.
pub proof fn law_refused_target_is_quoted(target: Seq<char>)
    ensures
        queue_url_of(target) matches Err(error) ==> {
            &&& !error.retryable
            &&& error.message == quoted_text(target) + (if begins(target, "msmq://"@) || begins(
                target,
                "msmqs://"@,
            ) || http_form_of(target) is Some {
                " names no host and queue"@
            } else {
                " is not an MSMQ queue"@
            })
        },
{
}

} // verus!
