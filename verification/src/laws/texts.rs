//! What searching, cutting and comparing texts come to, character by character.
use vstd::prelude::*;
use vstd::utf8::{
    decode_utf8_encode_utf8, encode_utf8, encode_utf8_decode_utf8, encode_utf8_valid_utf8,
    valid_utf8,
};

use crate::lemmas::lemma_occurs_char;
use crate::text::{
    after, alike, before, begins, begins_alike, contains, fold, index_of, lemma_first_at,
    lemma_index_of, lossy_text, occurs_at, text_of, trim_end,
};

verus! {

/// A text stands at a position where each of its characters stands there, one after the other.
pub proof fn law_text_stands_by_its_characters(text: Seq<char>, needle: Seq<char>, i: int)
    ensures
        occurs_at(text, needle, i) <==> {
            &&& 0 <= i
            &&& i + needle.len() <= text.len()
            &&& forall|k: int| 0 <= k < needle.len() ==> text[i + k] == #[trigger] needle[k]
        },
{
    if occurs_at(text, needle, i) {
        assert forall|k: int| 0 <= k < needle.len() implies text[i + k] == #[trigger] needle[k] by {
            lemma_occurs_char(text, needle, i, k);
        }
    } else if 0 <= i && i + needle.len() <= text.len() && (forall|k: int|
        0 <= k < needle.len() ==> text[i + k] == #[trigger] needle[k]) {
        assert(text.subrange(i, i + needle.len()) =~= needle);
    }
}

/// A text is found where it is put: it stands in every text that can be taken apart around it, and in
/// no other.
pub proof fn law_text_is_found_where_it_stands(text: Seq<char>, needle: Seq<char>)
    ensures
        contains(text, needle) <==> exists|head: Seq<char>, tail: Seq<char>|
            text == #[trigger] (head + needle + tail),
{
    if contains(text, needle) {
        let i = choose|i: int| #[trigger] occurs_at(text, needle, i);
        let head = text.take(i);
        let tail = text.skip(i + needle.len());
        assert(text =~= head + needle + tail);
    }
    if exists|head: Seq<char>, tail: Seq<char>| text == #[trigger] (head + needle + tail) {
        let (head, tail) = choose|head: Seq<char>, tail: Seq<char>|
            text == #[trigger] (head + needle + tail);
        assert((head + needle + tail).subrange(
            head.len() as int,
            (head.len() + needle.len()) as int,
        ) =~= needle);
        assert(occurs_at(text, needle, head.len() as int));
    }
}

/// The position that is found is the first one of all.
pub proof fn law_first_position_is_found(text: Seq<char>, needle: Seq<char>, i: int)
    ensures
        index_of(text, needle) == Some(i) <==> {
            &&& occurs_at(text, needle, i)
            &&& forall|j: int| #[trigger] occurs_at(text, needle, j) ==> i <= j
        },
        index_of(text, needle) is None <==> forall|j: int| !#[trigger] occurs_at(text, needle, j),
{
    lemma_index_of(text, needle);
    if occurs_at(text, needle, i) && (forall|j: int| #[trigger]
        occurs_at(text, needle, j) ==> i <= j) {
        lemma_first_at(text, needle, i);
    }
}

/// A text is cut at the first mark: what comes before it, the mark and what comes after it are the
/// text again, and the mark stands no further to the left. A text without the mark is not cut.
pub proof fn law_text_is_cut_at_the_first_mark(text: Seq<char>, mark: Seq<char>)
    ensures
        contains(text, mark) ==> {
            &&& after(text, mark) matches Some(rest) && text == before(text, mark) + mark + rest
            &&& forall|j: int| #[trigger]
                occurs_at(text, mark, j) ==> before(text, mark).len() <= j
        },
        !contains(text, mark) ==> after(text, mark) is None && before(text, mark) == text,
{
    lemma_index_of(text, mark);
    if contains(text, mark) {
        assert(text =~= before(text, mark) + mark + after(text, mark)->0);
    }
}

/// A text begins with another where that and a rest make it up.
pub proof fn law_beginning_is_followed_by_the_rest(text: Seq<char>, prefix: Seq<char>)
    ensures
        begins(text, prefix) <==> exists|rest: Seq<char>| text == #[trigger] (prefix + rest),
{
    if begins(text, prefix) {
        assert(text =~= prefix + text.skip(prefix.len() as int));
    }
    if exists|rest: Seq<char>| text == #[trigger] (prefix + rest) {
        assert(text.subrange(0, prefix.len() as int) =~= prefix);
    }
}

/// Two characters are the same letter, the case aside, where they are the same character, or one is
/// an ASCII letter in upper case and the other stands 32 places above it.
pub proof fn law_case_is_32_places(a: char, b: char)
    ensures
        fold(a) == fold(b) <==> {
            ||| a == b
            ||| 65 <= a as int <= 90 && b as int == a as int + 32
            ||| 65 <= b as int <= 90 && a as int == b as int + 32
        },
{
}

/// Two texts are alike where they are as long as each other and the same letter by letter, the case
/// of ASCII letters aside.
pub proof fn law_alike_is_letter_by_letter(a: Seq<char>, b: Seq<char>)
    ensures
        alike(a, b) <==> {
            &&& a.len() == b.len()
            &&& forall|i: int|
                0 <= i < a.len() ==> {
                    ||| #[trigger] a[i] == b[i]
                    ||| 65 <= a[i] as int <= 90 && b[i] as int == a[i] as int + 32
                    ||| 65 <= b[i] as int <= 90 && a[i] as int == b[i] as int + 32
                }
        },
{
    if alike(a, b) {
        assert forall|i: int| 0 <= i < a.len() implies {
            ||| #[trigger] a[i] == b[i]
            ||| 65 <= a[i] as int <= 90 && b[i] as int == a[i] as int + 32
            ||| 65 <= b[i] as int <= 90 && a[i] as int == b[i] as int + 32
        } by {
            assert(fold(a[i]) == fold(b[i]));
            law_case_is_32_places(a[i], b[i]);
        }
    } else if a.len() == b.len() {
        let i = choose|i: int| 0 <= i < a.len() && #[trigger] fold(a[i]) != fold(b[i]);
        law_case_is_32_places(a[i], b[i]);
        assert(a[i] != b[i]);
    }
}

/// A text begins with another, the case aside, where something alike and a rest make it up.
pub proof fn law_beginning_alike_is_followed_by_the_rest(text: Seq<char>, prefix: Seq<char>)
    ensures
        begins_alike(text, prefix) <==> exists|head: Seq<char>, rest: Seq<char>|
            text == #[trigger] (head + rest) && alike(head, prefix),
{
    if begins_alike(text, prefix) {
        let n = prefix.len() as int;
        assert(text =~= text.take(n) + text.skip(n));
    }
    if exists|head: Seq<char>, rest: Seq<char>|
        text == #[trigger] (head + rest) && alike(head, prefix) {
        let (head, rest) = choose|head: Seq<char>, rest: Seq<char>|
            text == #[trigger] (head + rest) && alike(head, prefix);
        assert(text.take(prefix.len() as int) =~= head);
    }
}

/// What is trimmed off the end of a text is all of the run of one character that it ends in, and
/// nothing else.
pub proof fn law_trimming_takes_the_run_at_the_end(text: Seq<char>, c: char)
    ensures
        ({
            let kept = trim_end(text, c);
            &&& kept.len() <= text.len()
            &&& kept == text.take(kept.len() as int)
            &&& forall|i: int| kept.len() <= i < text.len() ==> #[trigger] text[i] == c
            &&& kept.len() > 0 ==> kept[kept.len() - 1] != c
        }),
    decreases text.len(),
{
    if text.len() > 0 && text.last() == c {
        law_trimming_takes_the_run_at_the_end(text.drop_last(), c);
        let kept = trim_end(text, c);
        assert(text.drop_last().take(kept.len() as int) =~= text.take(kept.len() as int));
        assert forall|i: int| kept.len() <= i < text.len() implies #[trigger] text[i] == c by {
            if i < text.len() - 1 {
                assert(text[i] == text.drop_last()[i]);
            }
        }
    } else {
        assert(text.take(text.len() as int) =~= text);
    }
}

/// A text that was written as UTF-8 is read as the text it was; and what is read out of UTF-8 bytes is
/// written as those bytes again.
pub proof fn law_utf8_reads_back(text: Seq<char>, bytes: Seq<u8>)
    ensures
        text_of(encode_utf8(text)) == text,
        valid_utf8(bytes) ==> encode_utf8(text_of(bytes)) == bytes,
        !valid_utf8(bytes) ==> text_of(bytes) == lossy_text(bytes),
{
    encode_utf8_valid_utf8(text);
    encode_utf8_decode_utf8(text);
    if valid_utf8(bytes) {
        decode_utf8_encode_utf8(bytes);
    }
}

} // verus!
