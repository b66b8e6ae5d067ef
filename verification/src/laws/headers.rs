//! What is found under the name of a header.
use vstd::prelude::*;

use crate::message::value_under;
use crate::text::alike;

verus! {

/// The value found under a name is that of the first line of that name, wherever it stands and however
/// many lines there are; and nothing is found only where no line has the name.
pub proof fn law_first_header_of_a_name_is_found(
    headers: Seq<(Seq<char>, Seq<char>)>,
    name: Seq<char>,
)
    ensures
        forall|i: int|
            0 <= i < headers.len() && alike((#[trigger] headers[i]).0, name) && (forall|j: int|
                0 <= j < i ==> !alike((#[trigger] headers[j]).0, name)) ==> value_under(
                headers,
                name,
            ) == Some(headers[i].1),
        value_under(headers, name) is None <==> forall|i: int|
            0 <= i < headers.len() ==> !alike((#[trigger] headers[i]).0, name),
    decreases headers.len(),
{
    if headers.len() > 0 {
        let rest = headers.drop_first();
        law_first_header_of_a_name_is_found(rest, name);
        assert forall|i: int|
            0 <= i < headers.len() && alike((#[trigger] headers[i]).0, name) && (forall|j: int|
                0 <= j < i ==> !alike((#[trigger] headers[j]).0, name)) implies value_under(
            headers,
            name,
        ) == Some(headers[i].1) by {
            if i > 0 {
                assert(!alike(headers[0].0, name));
                assert(rest[i - 1] == headers[i]);
                assert forall|j: int| 0 <= j < i - 1 implies !alike((#[trigger] rest[j]).0, name) by {
                    assert(rest[j] == headers[j + 1]);
                }
            }
        }
        if value_under(headers, name) is None {
            assert forall|i: int| 0 <= i < headers.len() implies !alike(
                (#[trigger] headers[i]).0,
                name,
            ) by {
                if i > 0 {
                    assert(rest[i - 1] == headers[i]);
                }
            }
        } else if forall|i: int| 0 <= i < headers.len() ==> !alike((#[trigger] headers[i]).0, name) {
            assert(!alike(headers[0].0, name));
            assert forall|i: int| 0 <= i < rest.len() implies !alike(
                (#[trigger] rest[i]).0,
                name,
            ) by {
                assert(rest[i] == headers[i + 1]);
            }
        }
    }
}

/// Lines put before others are looked at first, and lines put after them only where they give nothing.
pub proof fn law_headers_are_looked_up_in_order(
    a: Seq<(Seq<char>, Seq<char>)>,
    b: Seq<(Seq<char>, Seq<char>)>,
    name: Seq<char>,
)
    ensures
        value_under(a, name) is Some ==> value_under(a + b, name) == value_under(a, name),
        value_under(a, name) is None ==> value_under(a + b, name) == value_under(b, name),
    decreases a.len(),
{
    if a.len() == 0 {
        assert(a + b =~= b);
    } else {
        assert((a + b)[0] == a[0]);
        assert((a + b).drop_first() =~= a.drop_first() + b);
        law_headers_are_looked_up_in_order(a.drop_first(), b, name);
    }
}

/// Lines of other names change nothing, wherever they are put.
pub proof fn law_other_headers_do_not_matter(
    a: Seq<(Seq<char>, Seq<char>)>,
    others: Seq<(Seq<char>, Seq<char>)>,
    b: Seq<(Seq<char>, Seq<char>)>,
    name: Seq<char>,
)
    requires
        forall|i: int| 0 <= i < others.len() ==> !alike((#[trigger] others[i]).0, name),
    ensures
        value_under(a + others + b, name) == value_under(a + b, name),
{
    law_first_header_of_a_name_is_found(others, name);
    law_headers_are_looked_up_in_order(a + others, b, name);
    law_headers_are_looked_up_in_order(a, others, name);
    law_headers_are_looked_up_in_order(a, b, name);
}

} // verus!
