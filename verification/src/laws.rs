//! The guarantees of the envelope, stated over the field model of
//! [`crate::render`] and proved once for all responses.

use vstd::prelude::*;
use crate::escape::escaped;
use crate::escape::plain_char;
use crate::escape::unescaped;
use crate::escape::lemma_plain_escaped;
use crate::escape::lemma_unescape_escape;
use crate::render::action_field;
use crate::render::array_text;
use crate::render::comma_join;
use crate::render::extra_field;
use crate::render::join_offset;
use crate::render::lemma_comma_join_element;
use crate::render::quoted;
use crate::render::response_fields;
use crate::render::result_text;
use crate::render::string_literal;
use crate::Action;
use crate::JTableResponse;

verus! {

/// Whether the serialized object for `r` contains a field named `name`.
pub open spec fn has_field(r: JTableResponse<String>, name: Seq<char>) -> bool {
    exists|i: int|
        0 <= i < response_fields(r).len() && #[trigger] response_fields(r)[i].0 == name
}

/// Field exclusivity: the serialized object never holds two of
/// `"Message"`, `"Record"` and `"Records"` at once — each response
/// contributes at most one field beyond `"Result"`.
pub proof fn lemma_field_exclusivity(r: JTableResponse<String>)
    ensures
        !(has_field(r, "Message"@) && has_field(r, "Record"@)),
        !(has_field(r, "Message"@) && has_field(r, "Records"@)),
        !(has_field(r, "Record"@) && has_field(r, "Records"@)),
{
    reveal_strlit("Result");
    reveal_strlit("Message");
    reveal_strlit("Record");
    reveal_strlit("Records");
    assert("Message"@[0] != "Records"@[0]);
    assert("Message"@.len() != "Record"@.len());
    assert("Record"@.len() != "Records"@.len());
    assert(response_fields(r)[0].0 == "Result"@);
    assert("Result"@[2] != "Record"@[2]);
    assert("Result"@.len() != "Message"@.len());
    assert("Result"@.len() != "Records"@.len());
}

/// Result correlation: the `"Result"` field is always first, and its
/// value is `"OK"` exactly on the success variant and `"ERROR"`
/// exactly on the failure variant.
pub proof fn lemma_result_correlation(r: JTableResponse<String>)
    ensures
        response_fields(r).len() >= 1,
        response_fields(r)[0] == ("Result"@, quoted(result_text(r))),
        (result_text(r) == "OK"@) <==> (r is Success),
        (result_text(r) == "ERROR"@) <==> (r is Failure),
{
    reveal_strlit("OK");
    reveal_strlit("ERROR");
    assert("OK"@.len() != "ERROR"@.len());
}

/// Update/Delete minimality: a successful update or delete serializes
/// to an object with exactly one field, `"Result"`.
pub proof fn lemma_update_delete_minimal(r: JTableResponse<String>)
    requires
        r matches JTableResponse::Success(a) && (a is Update || a is Delete),
    ensures
        response_fields(r).len() == 1,
        response_fields(r)[0].0 == "Result"@,
{
}

/// Payload fidelity for a create: the text under `"Record"` is the
/// payload's own serialized text, unchanged.
pub proof fn lemma_create_fidelity(r: JTableResponse<String>)
    requires
        r matches JTableResponse::Success(Action::Create(_)),
    ensures
        r matches JTableResponse::Success(Action::Create(p)) ==> extra_field(r) == Some(
            ("Record"@, p@),
        ),
{
}

/// Payload fidelity for a list: the text under `"Records"` is the
/// array of the payloads' own serialized texts, in order, unchanged —
/// an empty list still yields the (empty) array — and each payload's
/// text appears verbatim at its offset inside that array.
pub proof fn lemma_list_fidelity(r: JTableResponse<String>)
    requires
        r matches JTableResponse::Success(Action::List(_)),
    ensures
        r matches JTableResponse::Success(Action::List(l)) ==> extra_field(r) == Some(
            ("Records"@, array_text(l@.map_values(|s: String| s@))),
        ),
        r matches JTableResponse::Success(Action::List(l)) ==> (forall|k: int|
            0 <= k < l@.len() ==> array_text(l@.map_values(|s: String| s@)).subrange(
                1 + join_offset(l@.map_values(|s: String| s@), k),
                1 + join_offset(l@.map_values(|s: String| s@), k) + l@[k]@.len(),
            ) == l@[k]@),
{
    if let JTableResponse::Success(Action::List(l)) = r {
        let texts = l@.map_values(|s: String| s@);
        assert forall|k: int| 0 <= k < l@.len() implies array_text(texts).subrange(
            1 + join_offset(texts, k),
            1 + join_offset(texts, k) + l@[k]@.len(),
        ) == l@[k]@ by {
            lemma_comma_join_element(texts, k);
            let off = join_offset(texts, k);
            assert(texts[k] == l@[k]@);
            assert(array_text(texts).subrange(1 + off, 1 + off + texts[k].len() as int)
                =~= comma_join(texts).subrange(off, off + texts[k].len() as int));
        }
    }
}

/// Message fidelity: the `"Message"` field holds the error text as a
/// JSON string literal, and escaping loses nothing — reading the
/// emitted literal back yields the message exactly. A message without
/// characters that JSON must escape is embedded verbatim.
pub proof fn lemma_message_fidelity(r: JTableResponse<String>)
    requires
        r is Failure,
    ensures
        r matches JTableResponse::Failure(m) ==> extra_field(r) == Some(
            ("Message"@, string_literal(m@)),
        ),
        r matches JTableResponse::Failure(m) ==> unescaped(escaped(m@)) == Some(m@),
        r matches JTableResponse::Failure(m) ==> ((forall|i: int|
            0 <= i < m@.len() ==> plain_char(#[trigger] m@[i])) ==> string_literal(m@) == quoted(
            m@,
        )),
{
    if let JTableResponse::Failure(m) = r {
        lemma_unescape_escape(m@);
        if forall|i: int| 0 <= i < m@.len() ==> plain_char(#[trigger] m@[i]) {
            lemma_plain_escaped(m@);
        }
    }
}

} // verus!
