//! Facts about texts that the laws rest on.
use vstd::prelude::*;

use crate::target::{http_form_of, spelled, without_direct, QueueView};
use crate::text::{
    after, alike, before, begins, begins_alike, contains, fold, free_of, index_of, lemma_first_at,
    lemma_index_of, occurs_at,
};

verus! {

/// Where `needle` stands at a position of a text, each of its characters stands there.
pub proof fn lemma_occurs_char(text: Seq<char>, needle: Seq<char>, i: int, k: int)
    requires
        occurs_at(text, needle, i),
        0 <= k < needle.len(),
    ensures
        text[i + k] == needle[k],
{
    assert(text.subrange(i, i + needle.len())[k] == text[i + k]);
}

/// A text stands where it was put.
pub proof fn lemma_occurs_in_middle(head: Seq<char>, needle: Seq<char>, tail: Seq<char>)
    ensures
        occurs_at(head + needle + tail, needle, head.len() as int),
{
    let text = head + needle + tail;
    assert(text.subrange(head.len() as int, (head.len() + needle.len()) as int) =~= needle);
}

/// What begins with a text goes on with the rest.
pub proof fn lemma_begins(prefix: Seq<char>, rest: Seq<char>)
    ensures
        begins(prefix + rest, prefix),
        (prefix + rest).skip(prefix.len() as int) == rest,
{
    assert((prefix + rest).subrange(0, prefix.len() as int) =~= prefix);
    assert((prefix + rest).skip(prefix.len() as int) =~= rest);
}

/// What begins with a text, the case aside, goes on with the rest.
pub proof fn lemma_begins_alike(head: Seq<char>, prefix: Seq<char>, rest: Seq<char>)
    requires
        alike(head, prefix),
    ensures
        begins_alike(head + rest, prefix),
        (head + rest).skip(prefix.len() as int) == rest,
{
    assert((head + rest).take(prefix.len() as int) =~= head);
    assert((head + rest).skip(prefix.len() as int) =~= rest);
}

/// A text whose character at some place differs from the prefix's does not begin with it.
pub proof fn lemma_not_begins(text: Seq<char>, prefix: Seq<char>, k: int)
    requires
        0 <= k < prefix.len(),
        k < text.len() ==> text[k] != prefix[k],
    ensures
        !begins(text, prefix),
{
    if begins(text, prefix) {
        lemma_occurs_char(text, prefix, 0, k);
    }
}

/// A text whose character at some place differs from the prefix's by more than its case does not
/// begin with it.
pub proof fn lemma_not_begins_alike(text: Seq<char>, prefix: Seq<char>, k: int)
    requires
        0 <= k < prefix.len(),
        k < text.len() ==> fold(text[k]) != fold(prefix[k]),
    ensures
        !begins_alike(text, prefix),
{
    if begins_alike(text, prefix) {
        let head = text.take(prefix.len() as int);
        assert(fold(head[k]) == fold(prefix[k]));
    }
}

/// A text that is free of slashes has none to be found.
pub proof fn lemma_no_slash(text: Seq<char>)
    requires
        free_of(text, '/'),
    ensures
        !contains(text, "/"@),
{
    reveal_strlit("/");
    if contains(text, "/"@) {
        let i = choose|i: int| #[trigger] occurs_at(text, "/"@, i);
        lemma_occurs_char(text, "/"@, i, 0);
    }
}

/// What precedes the first slash holds none.
pub proof fn lemma_before_slash(text: Seq<char>)
    ensures
        free_of(before(text, "/"@), '/'),
{
    reveal_strlit("/");
    lemma_index_of(text, "/"@);
    let head = before(text, "/"@);
    assert forall|i: int| 0 <= i < head.len() implies #[trigger] head[i] != '/' by {
        if head[i] == '/' {
            assert(text.subrange(i, i + 1) =~= "/"@);
            assert(occurs_at(text, "/"@, i));
        }
    }
}

/// The first `mark` of a text stands where what holds none of its first character ends.
pub proof fn lemma_first_mark(head: Seq<char>, mark: Seq<char>, tail: Seq<char>)
    requires
        mark.len() > 0,
        free_of(head, mark[0]),
    ensures
        index_of(head + mark + tail, mark) == Some(head.len() as int),
        before(head + mark + tail, mark) == head,
        after(head + mark + tail, mark) == Some(tail),
{
    let text = head + mark + tail;
    lemma_occurs_in_middle(head, mark, tail);
    assert forall|j: int| 0 <= j < head.len() implies !#[trigger] occurs_at(text, mark, j) by {
        if occurs_at(text, mark, j) {
            lemma_occurs_char(text, mark, j, 0);
            assert(text[j] == head[j]);
        }
    }
    lemma_first_at(text, mark, head.len() as int);
    assert(text.take(head.len() as int) =~= head);
    assert(text.skip((head.len() + mark.len()) as int) =~= tail);
}

/// A target in the HTTP form spells out the queue it is made of.
pub proof fn lemma_spelled_http(
    direct: Seq<char>,
    prefix: Seq<char>,
    guarded: bool,
    authority: Seq<char>,
    queue: Seq<char>,
)
    requires
        direct.len() == 0 || alike(direct, "DIRECT="@),
        alike(
            prefix,
            if guarded {
                "https://"@
            } else {
                "http://"@
            },
        ),
        free_of(authority, '/'),
    ensures
        spelled(direct + prefix + authority + "/msmq/"@ + queue) == Some(
            QueueView {
                scheme: if guarded {
                    "https"@
                } else {
                    "http"@
                },
                authority,
                queue,
            },
        ),
{
    reveal_strlit("DIRECT=");
    reveal_strlit("https://");
    reveal_strlit("http://");
    reveal_strlit("msmq://");
    reveal_strlit("msmqs://");
    reveal_strlit("/msmq/");
    reveal_strlit("msmq/");
    reveal_strlit("/");
    let rest = authority + "/msmq/"@ + queue;
    let url = prefix + rest;
    let target = direct + prefix + authority + "/msmq/"@ + queue;
    assert(target =~= direct + url);
    assert(fold(prefix[0]) == 'h');
    if direct.len() == 0 {
        assert(target =~= url);
        lemma_not_begins_alike(target, "DIRECT="@, 0);
    } else {
        assert(fold(direct[0]) == 'd');
        lemma_begins_alike(direct, "DIRECT="@, url);
    }
    assert(without_direct(target) == url);
    lemma_not_begins(target, "msmq://"@, 0);
    lemma_not_begins(target, "msmqs://"@, 0);
    if guarded {
        lemma_begins_alike(prefix, "https://"@, rest);
    } else {
        assert(fold(prefix[4]) == ':');
        lemma_not_begins_alike(url, "https://"@, 4);
        lemma_begins_alike(prefix, "http://"@, rest);
    }
    let path = "msmq/"@ + queue;
    assert(rest =~= authority + "/"@ + path);
    lemma_first_mark(authority, "/"@, path);
    lemma_begins("msmq/"@, queue);
}

/// A target in MSMQ's own form spells out the queue it is made of.
pub proof fn lemma_spelled_msmq(guarded: bool, authority: Seq<char>, queue: Seq<char>)
    requires
        free_of(authority, '/'),
    ensures
        spelled(
            (if guarded {
                "msmqs://"@
            } else {
                "msmq://"@
            }) + authority + "/"@ + queue,
        ) == Some(
            QueueView {
                scheme: if guarded {
                    "https"@
                } else {
                    "http"@
                },
                authority,
                queue,
            },
        ),
{
    reveal_strlit("msmq://");
    reveal_strlit("msmqs://");
    reveal_strlit("/");
    let prefix = if guarded {
        "msmqs://"@
    } else {
        "msmq://"@
    };
    let rest = authority + "/"@ + queue;
    let target = prefix + authority + "/"@ + queue;
    assert(target =~= prefix + rest);
    lemma_begins(prefix, rest);
    if guarded {
        lemma_not_begins(target, "msmq://"@, 4);
    }
    lemma_first_mark(authority, "/"@, queue);
}

/// The host that a target spells out holds no slash, and the scheme is one of the two.
pub proof fn lemma_spelled(target: Seq<char>)
    ensures
        spelled(target) matches Some(q) ==> {
            &&& free_of(q.authority, '/')
            &&& q.scheme == "http"@ || q.scheme == "https"@
        },
{
    reveal_strlit("msmq://");
    reveal_strlit("msmqs://");
    lemma_before_slash(target.skip(7));
    lemma_before_slash(target.skip(8));
    if let Some((_, rest)) = http_form_of(target) {
        lemma_before_slash(rest);
    }
}

} // verus!
