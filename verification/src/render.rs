//! Rendering a response envelope as JSON text.
//!
//! The model is a short list of fields: every response starts with a
//! `"Result"` field holding `"OK"` or `"ERROR"`, and at most one
//! payload field follows — `"Record"`, `"Records"` or `"Message"`,
//! depending on the variant ([`extra_field`]). [`response_text`] is
//! the JSON object with exactly those fields in that order, and
//! [`JTableResponse::to_json`] produces it.
//!
//! Rendering is defined for payloads that are already JSON text
//! (`T = String`): the payload type is opaque to the envelope, so a
//! caller serializes each record first, by whatever means, and the
//! envelope embeds the result verbatim.

use vstd::prelude::*;
use vstd::string::StringExecFns;
use crate::escape::escaped;
use crate::escape::push_escaped;
use crate::Action;
use crate::JTableResponse;

verus! {

/// The given text wrapped in double quotes, verbatim.
pub open spec fn quoted(s: Seq<char>) -> Seq<char> {
    seq!['"'] + s + seq!['"']
}

/// The JSON string literal holding `s`: quotes around the escaped content.
pub open spec fn string_literal(s: Seq<char>) -> Seq<char> {
    quoted(escaped(s))
}

/// The given texts joined with commas, each one verbatim.
pub open spec fn comma_join(elems: Seq<Seq<char>>) -> Seq<char>
    decreases elems.len(),
{
    if elems.len() == 0 {
        Seq::empty()
    } else if elems.len() == 1 {
        elems[0]
    } else {
        elems[0] + seq![','] + comma_join(elems.skip(1))
    }
}

/// The JSON array whose element texts are `elems`, in order, verbatim.
pub open spec fn array_text(elems: Seq<Seq<char>>) -> Seq<char> {
    seq!['['] + comma_join(elems) + seq![']']
}

/// One `"name":value` item of a JSON object body.
pub open spec fn field_text(f: (Seq<char>, Seq<char>)) -> Seq<char> {
    quoted(f.0) + seq![':'] + f.1
}

/// The JSON object holding the given fields, in order.
pub open spec fn object_text(fields: Seq<(Seq<char>, Seq<char>)>) -> Seq<char> {
    seq!['{'] + comma_join(fields.map_values(|f: (Seq<char>, Seq<char>)| field_text(f))) + seq![
        '}',
    ]
}

/// The payload field an action contributes, if any: its name and the
/// raw JSON text of its value. `Update` and `Delete` contribute none;
/// `Create` puts its record under `"Record"`; `List` puts its records,
/// as a JSON array, under `"Records"`.
pub open spec fn action_field(a: Action<String>) -> Option<(Seq<char>, Seq<char>)> {
    match a {
        Action::Update => None,
        Action::Delete => None,
        Action::Create(r) => Some(("Record"@, r@)),
        Action::List(l) => Some(("Records"@, array_text(l@.map_values(|s: String| s@)))),
    }
}

/// The status text: `OK` on success, `ERROR` on failure.
pub open spec fn result_text(r: JTableResponse<String>) -> Seq<char> {
    match r {
        JTableResponse::Success(_) => "OK"@,
        JTableResponse::Failure(_) => "ERROR"@,
    }
}

/// The field following `"Result"`, if any: the action's payload field
/// on success, the `"Message"` field holding the escaped error text on
/// failure.
pub open spec fn extra_field(r: JTableResponse<String>) -> Option<(Seq<char>, Seq<char>)> {
    match r {
        JTableResponse::Success(a) => action_field(a),
        JTableResponse::Failure(m) => Some(("Message"@, string_literal(m@))),
    }
}

/// Every field of the serialized object, in emission order:
/// `"Result"` first, then the extra field if there is one.
pub open spec fn response_fields(r: JTableResponse<String>) -> Seq<(Seq<char>, Seq<char>)> {
    match extra_field(r) {
        Some(f) => seq![("Result"@, quoted(result_text(r))), f],
        None => seq![("Result"@, quoted(result_text(r)))],
    }
}

/// The complete JSON text of a response.
pub open spec fn response_text(r: JTableResponse<String>) -> Seq<char> {
    object_text(response_fields(r))
}

/// What an action appends to an object body that already holds a
/// field: nothing, or a comma and its payload field.
pub open spec fn action_suffix(a: Action<String>) -> Seq<char> {
    match action_field(a) {
        Some(f) => seq![','] + field_text(f),
        None => Seq::empty(),
    }
}

/// Where element `k` begins inside `comma_join(elems)`: after the
/// earlier elements and the comma that follows each of them.
pub open spec fn join_offset(elems: Seq<Seq<char>>, k: int) -> int
    decreases k,
{
    if k <= 0 {
        0
    } else {
        join_offset(elems, k - 1) + elems[k - 1].len() + 1
    }
}

/// Dropping the first element moves every later offset back by that
/// element and its comma.
proof fn lemma_join_offset_shift(elems: Seq<Seq<char>>, k: int)
    requires
        1 <= k < elems.len(),
    ensures
        join_offset(elems, k) == elems[0].len() + 1 + join_offset(elems.skip(1), k - 1),
    decreases k,
{
    if k == 1 {
        assert(join_offset(elems, 0) == 0);
        assert(join_offset(elems.skip(1), 0) == 0);
    } else {
        lemma_join_offset_shift(elems, k - 1);
        assert(elems.skip(1)[k - 2] == elems[k - 1]);
        assert(join_offset(elems.skip(1), k - 1) == join_offset(elems.skip(1), k - 2)
            + elems.skip(1)[k - 2].len() + 1);
    }
}

/// Payload fidelity inside a join: element `k` of the list appears
/// verbatim at its offset in the joined text, so no joined element is
/// altered, truncated or run into its neighbour.
pub proof fn lemma_comma_join_element(elems: Seq<Seq<char>>, k: int)
    requires
        0 <= k < elems.len(),
    ensures
        0 <= join_offset(elems, k),
        join_offset(elems, k) + elems[k].len() <= comma_join(elems).len(),
        comma_join(elems).subrange(
            join_offset(elems, k),
            join_offset(elems, k) + elems[k].len() as int,
        ) == elems[k],
    decreases k,
{
    if k == 0 {
        if elems.len() == 1 {
            assert(comma_join(elems).subrange(0, elems[0].len() as int) =~= elems[0]);
        } else {
            assert(comma_join(elems) == elems[0] + seq![','] + comma_join(elems.skip(1)));
            assert(comma_join(elems).subrange(0, elems[0].len() as int) =~= elems[0]);
        }
    } else {
        let tail = elems.skip(1);
        lemma_comma_join_element(tail, k - 1);
        lemma_join_offset_shift(elems, k);
        assert(tail[k - 1] == elems[k]);
        assert(comma_join(elems) == elems[0] + seq![','] + comma_join(tail));
        let shift = elems[0].len() + 1;
        let off = join_offset(tail, k - 1);
        assert(comma_join(elems).subrange(
            shift + off,
            shift + off + elems[k].len() as int,
        ) =~= comma_join(tail).subrange(off, off + elems[k].len() as int));
    }
}

/// A single text joins to itself.
proof fn lemma_comma_join_one(a: Seq<char>)
    ensures
        comma_join(seq![a]) == a,
{
}

/// Two texts join with one comma between them.
proof fn lemma_comma_join_two(a: Seq<char>, b: Seq<char>)
    ensures
        comma_join(seq![a, b]) == a + seq![','] + b,
{
    assert(seq![a, b].skip(1) =~= seq![b]);
    assert(comma_join(seq![b]) == b);
}

/// Joining one more element appends it, after a comma unless it is first.
proof fn lemma_comma_join_push(elems: Seq<Seq<char>>, e: Seq<char>)
    ensures
        comma_join(elems.push(e)) == (if elems.len() == 0 {
            e
        } else {
            comma_join(elems) + seq![','] + e
        }),
    decreases elems.len(),
{
    if elems.len() == 0 {
        assert(elems.push(e).len() == 1);
        assert(elems.push(e)[0] == e);
    } else if elems.len() == 1 {
        assert(elems.push(e)[0] == elems[0]);
        assert(elems.push(e).skip(1) =~= seq![e]);
        assert(comma_join(seq![e]) == e);
    } else {
        assert(elems.push(e)[0] == elems[0]);
        assert(elems.push(e).skip(1) =~= elems.skip(1).push(e));
        lemma_comma_join_push(elems.skip(1), e);
        assert(comma_join(elems.push(e)) =~= comma_join(elems) + seq![','] + e);
    }
}

impl Action<String> {
    /// Append this action's payload field, if any, to the body of an
    /// object that already holds at least one field.
    pub fn ser(&self, out: &mut String)
        ensures
            final(out)@ == old(out)@ + action_suffix(*self),
    {
        match self {
            Action::Update => {},
            Action::Delete => {},
            Action::Create(r) => {
                out.append(",\"Record\":");
                out.append(r.as_str());
                proof {
                    reveal_strlit(",\"Record\":");
                    reveal_strlit("Record");
                    assert(out@ =~= old(out)@ + action_suffix(*self));
                }
            },
            Action::List(l) => {
                out.append(",\"Records\":[");
                let ghost texts = l@.map_values(|s: String| s@);
                let mut i: usize = 0;
                while i < l.len()
                    invariant
                        texts == l@.map_values(|s: String| s@),
                        i <= l.len(),
                        out@ == old(out)@ + ",\"Records\":["@ + comma_join(
                            texts.subrange(0, i as int),
                        ),
                    decreases l.len() - i,
                {
                    if i > 0 {
                        out.append(",");
                    }
                    out.append(l[i].as_str());
                    proof {
                        reveal_strlit(",");
                        assert(texts.subrange(0, i as int).push(texts[i as int])
                            =~= texts.subrange(0, i + 1 as int));
                        lemma_comma_join_push(texts.subrange(0, i as int), texts[i as int]);
                        assert(out@ =~= old(out)@ + ",\"Records\":["@ + comma_join(
                            texts.subrange(0, i + 1 as int),
                        ));
                    }
                    i = i + 1;
                }
                out.append("]");
                proof {
                    reveal_strlit(",\"Records\":[");
                    reveal_strlit("]");
                    reveal_strlit("Records");
                    assert(texts.subrange(0, l@.len() as int) =~= texts);
                    assert(out@ =~= old(out)@ + action_suffix(*self));
                }
            },
        }
    }
}

impl<'e> JTableResponse<'e, String> {
    /// Render the complete JSON object for this response: the
    /// `"Result"` field, then the payload or message field if the
    /// variant calls for one.
    pub fn to_json(&self) -> (out: String)
        ensures
            out@ == response_text(*self),
    {
        let mut out = String::new();
        match self {
            JTableResponse::Success(action) => {
                out.append("{\"Result\":\"OK\"");
                action.ser(&mut out);
            },
            JTableResponse::Failure(msg) => {
                out.append("{\"Result\":\"ERROR\",\"Message\":\"");
                push_escaped(&mut out, msg);
                out.append("\"");
            },
        }
        out.append("}");
        proof {
            reveal_strlit("{\"Result\":\"OK\"");
            reveal_strlit("{\"Result\":\"ERROR\",\"Message\":\"");
            reveal_strlit("\"");
            reveal_strlit("}");
            reveal_strlit("Result");
            reveal_strlit("OK");
            reveal_strlit("ERROR");
            reveal_strlit("Message");
            let rf = ("Result"@, quoted(result_text(*self)));
            match extra_field(*self) {
                Some(f) => {
                    assert(response_fields(*self).map_values(
                        |g: (Seq<char>, Seq<char>)| field_text(g),
                    ) =~= seq![field_text(rf), field_text(f)]);
                    lemma_comma_join_two(field_text(rf), field_text(f));
                },
                None => {
                    assert(response_fields(*self).map_values(
                        |g: (Seq<char>, Seq<char>)| field_text(g),
                    ) =~= seq![field_text(rf)]);
                    lemma_comma_join_one(field_text(rf));
                },
            }
            assert(out@ =~= response_text(*self));
        }
        out
    }
}

} // verus!
