//! Text as a sequence of characters: searching, cutting and comparing.
use vstd::prelude::*;
use vstd::utf8::*;

verus! {

/// `needle` stands in `text` at position `i`.
pub open spec fn occurs_at(text: Seq<char>, needle: Seq<char>, i: int) -> bool {
    &&& 0 <= i
    &&& i + needle.len() <= text.len()
    &&& text.subrange(i, i + needle.len()) == needle
}

/// `i` is the first position at which `needle` stands in `text`.
pub open spec fn first_at(text: Seq<char>, needle: Seq<char>, i: int) -> bool {
    &&& occurs_at(text, needle, i)
    &&& forall|j: int| 0 <= j < i ==> !#[trigger] occurs_at(text, needle, j)
}

/// `needle` stands somewhere in `text`.
pub open spec fn contains(text: Seq<char>, needle: Seq<char>) -> bool {
    exists|i: int| #[trigger] occurs_at(text, needle, i)
}

/// The first position of `needle` in `text`, if it stands there at all.
pub open spec fn index_of(text: Seq<char>, needle: Seq<char>) -> Option<int> {
    if exists|i: int| #[trigger] first_at(text, needle, i) {
        Some(choose|i: int| #[trigger] first_at(text, needle, i))
    } else {
        None
    }
}

/// What follows the first `needle` in `text`, if it stands there at all.
pub open spec fn after(text: Seq<char>, needle: Seq<char>) -> Option<Seq<char>> {
    match index_of(text, needle) {
        Some(i) => Some(text.skip(i + needle.len())),
        None => None,
    }
}

/// What precedes the first `needle` in `text`; all of `text` where there is none.
pub open spec fn before(text: Seq<char>, needle: Seq<char>) -> Seq<char> {
    match index_of(text, needle) {
        Some(i) => text.take(i),
        None => text,
    }
}

/// `text` holds no `c`.
pub open spec fn free_of(text: Seq<char>, c: char) -> bool {
    forall|i: int| 0 <= i < text.len() ==> #[trigger] text[i] != c
}

/// `text` begins with `prefix`.
pub open spec fn begins(text: Seq<char>, prefix: Seq<char>) -> bool {
    occurs_at(text, prefix, 0)
}

/// `c` in lower case where it is an ASCII letter, `c` itself otherwise.
pub open spec fn fold(c: char) -> char {
    if 'A' <= c <= 'Z' {
        ((c as u8) + 32) as char
    } else {
        c
    }
}

/// `a` and `b` are the same text, the case of ASCII letters aside.
pub open spec fn alike(a: Seq<char>, b: Seq<char>) -> bool {
    &&& a.len() == b.len()
    &&& forall|i: int| 0 <= i < a.len() ==> #[trigger] fold(a[i]) == fold(b[i])
}

/// `text` begins with `prefix`, the case of ASCII letters aside.
pub open spec fn begins_alike(text: Seq<char>, prefix: Seq<char>) -> bool {
    prefix.len() <= text.len() && alike(text.take(prefix.len() as int), prefix)
}

/// `text` without the run of `c` that it ends in.
pub open spec fn trim_end(text: Seq<char>, c: char) -> Seq<char>
    decreases text.len(),
{
    if text.len() > 0 && text.last() == c {
        trim_end(text.drop_last(), c)
    } else {
        text
    }
}

/// The text that `{:?}` writes for a text: the standard library's quoted and escaped form of it.
pub uninterp spec fn quoted_text(text: Seq<char>) -> Seq<char>;

/// The text that the standard library reads out of bytes that are not all UTF-8.
pub uninterp spec fn lossy_text(bytes: Seq<u8>) -> Seq<char>;

/// The text that bytes carry: what they encode where they are UTF-8, and otherwise the standard
/// library's reading of them with replacement characters.
pub open spec fn text_of(bytes: Seq<u8>) -> Seq<char> {
    if valid_utf8(bytes) {
        decode_utf8(bytes)
    } else {
        lossy_text(bytes)
    }
}

/// The first position is the one that [`index_of`] names.
pub proof fn lemma_first_at(text: Seq<char>, needle: Seq<char>, i: int)
    requires
        first_at(text, needle, i),
    ensures
        index_of(text, needle) == Some(i),
{
    let k = choose|k: int| #[trigger] first_at(text, needle, k);
    assert(first_at(text, needle, k));
    assert(occurs_at(text, needle, i) && occurs_at(text, needle, k));
}

/// Text that occurs has a first position.
pub proof fn lemma_occurs_has_first(text: Seq<char>, needle: Seq<char>, i: int)
    requires
        occurs_at(text, needle, i),
    ensures
        exists|k: int| k <= i && #[trigger] first_at(text, needle, k),
    decreases i,
{
    if exists|j: int| 0 <= j < i && #[trigger] occurs_at(text, needle, j) {
        let j = choose|j: int| 0 <= j < i && #[trigger] occurs_at(text, needle, j);
        lemma_occurs_has_first(text, needle, j);
    } else {
        assert(first_at(text, needle, i));
    }
}

/// [`index_of`] names a position exactly when the needle occurs.
pub proof fn lemma_index_of(text: Seq<char>, needle: Seq<char>)
    ensures
        index_of(text, needle) is Some <==> contains(text, needle),
        index_of(text, needle) matches Some(i) ==> first_at(text, needle, i),
{
    if contains(text, needle) {
        let i = choose|i: int| #[trigger] occurs_at(text, needle, i);
        lemma_occurs_has_first(text, needle, i);
    }
    if let Some(i) = index_of(text, needle) {
        assert(first_at(text, needle, i));
        assert(occurs_at(text, needle, i));
    }
}

/// The characters of `s`, one by one.
pub(crate) fn chars_of(s: &str) -> (out: Vec<char>)
    ensures
        out@ == s@,
{
    let mut out: Vec<char> = Vec::new();
    for c in it: s.chars()
        invariant
            it.seq() == s@,
            out@ == it.seq().take(it.index()),
    {
        out.push(c);
        assert(it.seq().take(it.index() + 1) =~= it.seq().take(it.index()).push(c));
    }
    assert(s@.take(s@.len() as int) =~= s@);
    out
}

/// Whether `needle` stands in `text` at `i`.
pub(crate) fn stands_at(text: &Vec<char>, needle: &Vec<char>, i: usize) -> (found: bool)
    requires
        i + needle@.len() <= text@.len(),
    ensures
        found == occurs_at(text@, needle@, i as int),
{
    let total: usize = text.len();
    let mut k: usize = 0;
    while k < needle.len()
        invariant
            total == text@.len(),
            k <= needle@.len(),
            i + needle@.len() <= text@.len(),
            forall|j: int| 0 <= j < k ==> text@[i + j] == needle@[j],
        decreases needle@.len() - k,
    {
        if text[i + k] != needle[k] {
            assert(text@.subrange(i as int, i + needle@.len())[k as int] != needle@[k as int]);
            return false;
        }
        k = k + 1;
    }
    assert(text@.subrange(i as int, i + needle@.len()) =~= needle@);
    true
}

/// The first position of `needle` in `text`, counted in characters.
pub(crate) fn find(text: &str, needle: &str) -> (at: Option<usize>)
    ensures
        at matches Some(i) ==> index_of(text@, needle@) == Some(i as int)
            && i + needle@.len() <= text@.len() <= usize::MAX,
        at is None ==> index_of(text@, needle@) is None,
{
    let t = chars_of(text);
    let n = chars_of(needle);
    if n.len() > t.len() {
        proof {
            lemma_index_of(text@, needle@);
        }
        return None;
    }
    let last: usize = t.len() - n.len();
    let mut i: usize = 0;
    while i < last && !stands_at(&t, &n, i)
        invariant
            t@ == text@,
            n@ == needle@,
            last + n@.len() == t@.len(),
            i <= last,
            forall|j: int| 0 <= j < i ==> !#[trigger] occurs_at(text@, needle@, j),
        decreases last - i,
    {
        i = i + 1;
    }
    if stands_at(&t, &n, i) {
        proof {
            lemma_first_at(text@, needle@, i as int);
        }
        Some(i)
    } else {
        proof {
            lemma_index_of(text@, needle@);
        }
        None
    }
}

/// Whether `a` and `b` are the same text.
pub(crate) fn same(a: &str, b: &str) -> (equal: bool)
    ensures
        equal == (a@ == b@),
{
    a.to_owned() == b.to_owned()
}

/// Whether `needle` stands somewhere in `text`.
pub(crate) fn holds(text: &str, needle: &str) -> (found: bool)
    ensures
        found == contains(text@, needle@),
{
    proof {
        lemma_index_of(text@, needle@);
    }
    find(text, needle).is_some()
}

/// `text` from character `from` on.
pub(crate) fn from_char(text: &str, from: usize) -> (rest: &str)
    requires
        from <= text@.len(),
    ensures
        rest@ == text@.skip(from as int),
{
    let len = text.unicode_len();
    let rest = text.substring_char(from, len);
    assert(rest@ =~= text@.skip(from as int));
    rest
}

/// What follows the first `needle` in `text`.
pub(crate) fn after_first<'a>(text: &'a str, needle: &str) -> (rest: Option<&'a str>)
    ensures
        match rest {
            Some(r) => after(text@, needle@) == Some(r@),
            None => after(text@, needle@) is None,
        },
{
    match find(text, needle) {
        Some(i) => {
            let from: usize = i + needle.unicode_len();
            Some(from_char(text, from))
        },
        None => None,
    }
}

/// What precedes the first `needle` in `text`; all of `text` where there is none.
pub(crate) fn before_first<'a>(text: &'a str, needle: &str) -> (head: &'a str)
    ensures
        head@ == before(text@, needle@),
{
    match find(text, needle) {
        Some(i) => {
            let head = text.substring_char(0, i);
            assert(head@ =~= text@.take(i as int));
            head
        },
        None => text,
    }
}

/// `text` without the `prefix` that it begins with.
pub(crate) fn strip_prefix<'a>(text: &'a str, prefix: &str) -> (rest: Option<&'a str>)
    ensures
        match rest {
            Some(r) => begins(text@, prefix@) && r@ == text@.skip(prefix@.len() as int),
            None => !begins(text@, prefix@),
        },
{
    let t = chars_of(text);
    let p = chars_of(prefix);
    if p.len() <= t.len() && stands_at(&t, &p, 0) {
        Some(from_char(text, p.len()))
    } else {
        None
    }
}

/// `c` in lower case where it is an ASCII letter.
fn fold_case(c: char) -> (folded: char)
    ensures
        folded == fold(c),
{
    if 'A' <= c && c <= 'Z' {
        ((c as u8) + 32) as char
    } else {
        c
    }
}

/// Whether `a` and `b` are the same text, the case of ASCII letters aside.
pub(crate) fn same_ignoring_case(a: &str, b: &str) -> (equal: bool)
    ensures
        equal == alike(a@, b@),
{
    let x = chars_of(a);
    let y = chars_of(b);
    if x.len() != y.len() {
        return false;
    }
    let mut i: usize = 0;
    while i < x.len()
        invariant
            x@ == a@,
            y@ == b@,
            x@.len() == y@.len(),
            i <= x@.len(),
            forall|j: int| 0 <= j < i ==> #[trigger] fold(a@[j]) == fold(b@[j]),
        decreases x@.len() - i,
    {
        if fold_case(x[i]) != fold_case(y[i]) {
            assert(fold(a@[i as int]) != fold(b@[i as int]));
            return false;
        }
        i = i + 1;
    }
    true
}

/// `text` without the `prefix` that it begins with, the case of ASCII letters aside.
pub(crate) fn strip_prefix_ignoring_case<'a>(text: &'a str, prefix: &str) -> (rest: Option<&'a str>)
    ensures
        match rest {
            Some(r) => begins_alike(text@, prefix@) && r@ == text@.skip(prefix@.len() as int),
            None => !begins_alike(text@, prefix@),
        },
{
    let n: usize = prefix.unicode_len();
    if n > text.unicode_len() {
        return None;
    }
    let head = text.substring_char(0, n);
    assert(head@ =~= text@.take(n as int));
    if same_ignoring_case(head, prefix) {
        Some(from_char(text, n))
    } else {
        None
    }
}

/// What [`trim_end`] keeps is a beginning of the text.
proof fn lemma_trim_end_keeps_a_beginning(text: Seq<char>, c: char, n: int)
    requires
        0 <= n <= text.len(),
        forall|j: int| n <= j < text.len() ==> text[j] == c,
        n > 0 ==> text[n - 1] != c,
    ensures
        trim_end(text, c) == text.take(n),
    decreases text.len(),
{
    if n == text.len() {
        assert(text.take(n) =~= text);
    } else {
        lemma_trim_end_keeps_a_beginning(text.drop_last(), c, n);
        assert(text.drop_last().take(n) =~= text.take(n));
    }
}

/// `text` without the run of `c` that it ends in.
pub(crate) fn trim_end_matches(text: &str, c: char) -> (kept: &str)
    ensures
        kept@ == trim_end(text@, c),
{
    let t = chars_of(text);
    let mut n: usize = t.len();
    while n > 0 && t[n - 1] == c
        invariant
            t@ == text@,
            n <= t@.len(),
            forall|j: int| n <= j < t@.len() ==> t@[j] == c,
        decreases n,
    {
        n = n - 1;
    }
    proof {
        lemma_trim_end_keeps_a_beginning(text@, c, n as int);
    }
    let kept = text.substring_char(0, n);
    assert(kept@ =~= text@.take(n as int));
    kept
}

/// Calls `format!` with `{:?}` on a text. Claims that the result is a function of the text alone,
/// named [`quoted_text`]; how the quoting and escaping go is left unsaid.
#[verifier::external_body]
pub(crate) fn quoted(text: &str) -> (out: String)
    ensures
        out@ == quoted_text(text@),
{
    format!("{:?}", text)
}

/// Calls `String::from_utf8_lossy`. Claims that UTF-8 bytes give the text that they encode, and that
/// the result on other bytes is a function of the bytes alone, named [`lossy_text`].
#[verifier::external_body]
pub(crate) fn from_utf8_lossy(bytes: &[u8]) -> (out: String)
    ensures
        out@ == (if valid_utf8(bytes@) {
            decode_utf8(bytes@)
        } else {
            lossy_text(bytes@)
        }),
{
    String::from_utf8_lossy(bytes).into_owned()
}

} // verus!
