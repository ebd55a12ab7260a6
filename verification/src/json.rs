//! JSON documents as the configuration files hold them: parsing a text
//! with `serde_json`, and reading members of the parsed value.

use vstd::prelude::*;

verus! {

/// A parsed JSON value. Numbers keep their JSON text; object members keep
/// the order the parser gives them.
pub enum JsonValue {
    Null,
    Bool(bool),
    Number(String),
    Text(String),
    Array(Vec<JsonValue>),
    Object(Vec<(String, JsonValue)>),
}

/// The view of a JSON value: its texts as character sequences.
pub enum JsonView {
    Null,
    Bool(bool),
    Number(Seq<char>),
    Text(Seq<char>),
    Array(Seq<JsonView>),
    Object(Seq<(Seq<char>, JsonView)>),
}

pub open spec fn json_view(v: JsonValue) -> JsonView
    decreases v,
{
    match v {
        JsonValue::Null => JsonView::Null,
        JsonValue::Bool(b) => JsonView::Bool(b),
        JsonValue::Number(n) => JsonView::Number(n@),
        JsonValue::Text(t) => JsonView::Text(t@),
        JsonValue::Array(items) => JsonView::Array(json_views(items@)),
        JsonValue::Object(members) => JsonView::Object(members_view(members@)),
    }
}

/// The views of a list of values.
pub open spec fn json_views(items: Seq<JsonValue>) -> Seq<JsonView>
    decreases items,
{
    if items.len() == 0 {
        Seq::empty()
    } else {
        seq![json_view(items[0])] + json_views(items.drop_first())
    }
}

/// The views of an object's members.
pub open spec fn members_view(members: Seq<(String, JsonValue)>) -> Seq<(Seq<char>, JsonView)>
    decreases members,
{
    if members.len() == 0 {
        Seq::empty()
    } else {
        seq![(members[0].0@, json_view(members[0].1))] + members_view(members.drop_first())
    }
}

/// The views of a list hold the view of each value, in order.
pub proof fn lemma_json_views(items: Seq<JsonValue>)
    ensures
        json_views(items).len() == items.len(),
        forall|i: int| 0 <= i < items.len() ==> #[trigger] json_views(items)[i] == json_view(items[i]),
    decreases items.len(),
{
    if items.len() > 0 {
        lemma_json_views(items.drop_first());
        assert forall|i: int| 0 <= i < items.len() implies #[trigger] json_views(items)[i] == json_view(
            items[i],
        ) by {
            if i > 0 {
                assert(items.drop_first()[i - 1] == items[i]);
            }
        }
    }
}

/// The views of an object's members hold each member's name and value view.
pub proof fn lemma_members_view(members: Seq<(String, JsonValue)>)
    ensures
        members_view(members).len() == members.len(),
        forall|i: int|
            0 <= i < members.len() ==> #[trigger] members_view(members)[i] == (
                members[i].0@,
                json_view(members[i].1),
            ),
    decreases members.len(),
{
    if members.len() > 0 {
        lemma_members_view(members.drop_first());
        assert forall|i: int| 0 <= i < members.len() implies #[trigger] members_view(members)[i] == (
            members[i].0@,
            json_view(members[i].1),
        ) by {
            if i > 0 {
                assert(members.drop_first()[i - 1] == members[i]);
            }
        }
    }
}

/// The first member named `key` (`serde_json::Value::get` on an object).
pub open spec fn member(members: Seq<(Seq<char>, JsonView)>, key: Seq<char>) -> Option<JsonView>
    decreases members.len(),
{
    if members.len() == 0 {
        None
    } else if members[0].0 == key {
        Some(members[0].1)
    } else {
        member(members.drop_first(), key)
    }
}

/// `value.get(key)`: a member of an object, nothing for other values.
pub open spec fn get(value: JsonView, key: Seq<char>) -> Option<JsonView> {
    match value {
        JsonView::Object(members) => member(members, key),
        _ => None,
    }
}

/// The view of a value found, or nothing.
pub open spec fn found_view(r: Option<&JsonValue>) -> Option<JsonView> {
    match r {
        Some(v) => Some(json_view(*v)),
        None => None,
    }
}

/// The member named `key` of an object's members.
pub fn member_of<'a>(members: &'a Vec<(String, JsonValue)>, key: &str) -> (r: Option<&'a JsonValue>)
    ensures
        found_view(r) == member(members_view(members@), key@),
{
    let ghost mv = members_view(members@);
    proof {
        lemma_members_view(members@);
    }
    let mut i: usize = 0;
    assert(mv.skip(0) =~= mv);
    while i < members.len()
        invariant
            i <= members.len(),
            mv == members_view(members@),
            mv.len() == members@.len(),
            member(mv, key@) == member(mv.skip(i as int), key@),
        decreases members.len() - i,
    {
        proof {
            lemma_members_view(members@);
        }
        assert(mv.skip(i as int)[0] == mv[i as int]);
        assert(mv[i as int] == (members@[i as int].0@, json_view(members@[i as int].1)));
        if crate::text::str_eq(members[i].0.as_str(), key) {
            return Some(&members[i].1);
        }
        assert(mv.skip(i as int).drop_first() =~= mv.skip(i + 1));
        i += 1;
    }
    None
}

/// `value.get(key)`.
pub fn get_member<'a>(value: &'a JsonValue, key: &str) -> (r: Option<&'a JsonValue>)
    ensures
        found_view(r) == get(json_view(*value), key@),
{
    match value {
        JsonValue::Object(members) => member_of(members, key),
        _ => None,
    }
}

/// What `serde_json::from_str::<serde_json::Value>` makes of a text: the
/// document, or the parser's error message.
pub uninterp spec fn json_document(text: Seq<char>) -> Result<JsonView, Seq<char>>;

/// The view of a parse's outcome.
pub open spec fn json_result_view(r: Result<JsonValue, String>) -> Result<JsonView, Seq<char>> {
    match r {
        Ok(v) => Ok(json_view(v)),
        Err(e) => Err(e@),
    }
}

#[verifier::external_type_specification]
#[verifier::external_body]
pub struct ExSerdeJsonValue(serde_json::Value);

/// `serde_json::from_str::<serde_json::Value>(text)`, the document taken
/// over value for value (`json_value_of`) and the error by its message.
/// The contract names the outcome: it depends on the text alone. JSON's
/// grammar and serde_json's error messages are not restated.
#[verifier::external_body]
pub(crate) fn parse_json(text: &str) -> (r: Result<JsonValue, String>)
    ensures
        json_result_view(r) == json_document(text@),
{
    match serde_json::from_str::<serde_json::Value>(text) {
        Ok(value) => Ok(json_value_of(&value)),
        Err(error) => Err(error.to_string()),
    }
}

/// A `serde_json::Value` taken over one for one: each variant to the
/// variant of the same name, numbers by their JSON text, members in the
/// order the parsed map holds them. Only `parse_json` uses it.
#[verifier::external_body]
fn json_value_of(value: &serde_json::Value) -> JsonValue {
    match value {
        serde_json::Value::Null => JsonValue::Null,
        serde_json::Value::Bool(b) => JsonValue::Bool(*b),
        serde_json::Value::Number(n) => JsonValue::Number(n.to_string()),
        serde_json::Value::String(s) => JsonValue::Text(s.clone()),
        serde_json::Value::Array(items) => JsonValue::Array(items.iter().map(json_value_of).collect()),
        serde_json::Value::Object(members) => JsonValue::Object(
            members.iter().map(|(key, item)| (key.clone(), json_value_of(item))).collect(),
        ),
    }
}

} // verus!
