//! Start tags in XML text.
use vstd::prelude::*;

use crate::text::{chars_of, occurs_at, stands_at};

verus! {

/// `c` can stand in the prefix of a name: a letter, a digit, one of three marks, or a character
/// outside ASCII.
pub open spec fn is_name_char(c: char) -> bool {
    ||| 'a' <= c <= 'z'
    ||| 'A' <= c <= 'Z'
    ||| '0' <= c <= '9'
    ||| c == '-'
    ||| c == '.'
    ||| c == '_'
    ||| c >= '\u{80}'
}

/// `c` ends the name in a tag: white space, or what the tag ends in.
pub open spec fn ends_name(c: char) -> bool {
    ||| c == ' '
    ||| c == '\t'
    ||| c == '\r'
    ||| c == '\n'
    ||| c == '>'
    ||| c == '/'
}

/// What stands in `xml` from `i` up to `j` opens a tag: a `<` alone, or with a prefix and its colon.
pub open spec fn opens_tag(xml: Seq<char>, i: int, j: int) -> bool {
    &&& 0 <= i < j <= xml.len()
    &&& xml[i] == '<'
    &&& j == i + 1 || {
        &&& i + 1 < j - 1
        &&& xml[j - 1] == ':'
        &&& forall|k: int| i < k < j - 1 ==> is_name_char(#[trigger] xml[k])
    }
}

/// `name` stands in `xml` at `j`, and ends there as the name in a tag does.
pub open spec fn name_at(xml: Seq<char>, name: Seq<char>, j: int) -> bool {
    &&& occurs_at(xml, name, j)
    &&& j + name.len() < xml.len()
    &&& ends_name(xml[j + name.len()])
}

/// An element called `name`, with or without a prefix, begins somewhere in `xml`.
pub open spec fn has_start_tag(xml: Seq<char>, name: Seq<char>) -> bool {
    exists|i: int, j: int| #[trigger] opens_tag(xml, i, j) && #[trigger] name_at(xml, name, j)
}

/// Whether `c` can stand in the prefix of a name.
fn in_name(c: char) -> (found: bool)
    ensures
        found == is_name_char(c),
{
    ('a' <= c && c <= 'z') || ('A' <= c && c <= 'Z') || ('0' <= c && c <= '9') || c == '-' || c
        == '.' || c == '_' || c >= '\u{80}'
}

/// Whether a tag is opened just before `j`.
fn opened_before(xml: &Vec<char>, j: usize) -> (found: bool)
    requires
        j <= xml@.len(),
    ensures
        found == exists|i: int| #[trigger] opens_tag(xml@, i, j as int),
{
    if j == 0 {
        return false;
    }
    if xml[j - 1] == '<' {
        assert(opens_tag(xml@, j - 1, j as int));
        return true;
    }
    if xml[j - 1] != ':' {
        return false;
    }
    let mut k: usize = j - 1;
    while k > 0 && in_name(xml[k - 1])
        invariant
            k <= j - 1,
            j <= xml@.len(),
            forall|m: int| k <= m < j - 1 ==> is_name_char(#[trigger] xml@[m]),
        decreases k,
    {
        k = k - 1;
    }
    if k > 0 && k < j - 1 && xml[k - 1] == '<' {
        assert(opens_tag(xml@, k - 1, j as int));
        true
    } else {
        assert forall|i: int| !#[trigger] opens_tag(xml@, i, j as int) by {
            if opens_tag(xml@, i, j as int) {
                if i >= k {
                    assert(is_name_char(xml@[i]));
                } else if i < k - 1 {
                    assert(is_name_char(xml@[k - 1]));
                }
            }
        }
        false
    }
}

/// Whether an element called `name`, with or without a prefix, begins somewhere in `xml`.
pub(crate) fn holds_start_tag(xml: &str, name: &str) -> (found: bool)
    ensures
        found == has_start_tag(xml@, name@),
{
    let x = chars_of(xml);
    let n = chars_of(name);
    let mut j: usize = 0;
    while j < x.len() && n.len() < x.len() - j
        invariant
            x@ == xml@,
            n@ == name@,
            j <= x@.len(),
            forall|i: int, m: int|
                m < j ==> !(#[trigger] opens_tag(xml@, i, m) && #[trigger] name_at(xml@, name@, m)),
        decreases x@.len() - j,
    {
        let end: char = x[j + n.len()];
        let ended = end == ' ' || end == '\t' || end == '\r' || end == '\n' || end == '>' || end
            == '/';
        if ended && stands_at(&x, &n, j) && opened_before(&x, j) {
            let ghost i = choose|i: int| #[trigger] opens_tag(x@, i, j as int);
            assert(opens_tag(xml@, i, j as int) && name_at(xml@, name@, j as int));
            return true;
        }
        j = j + 1;
    }
    false
}

} // verus!
