//! What holds of JSON values as a whole.

use vstd::prelude::*;

use crate::json;
use crate::json::{Json, JsonView};

verus! {

/// A value holds what its variant holds: arrays and objects item by item and
/// member by member, in order.
pub proof fn law_content_of_values(value: Json)
    ensures
        match value {
            Json::Null => value@ == JsonView::Null,
            Json::Bool(b) => value@ == JsonView::Bool(b),
            Json::Number(n) => value@ == JsonView::Number(n@),
            Json::Text(s) => value@ == JsonView::Text(s@),
            Json::Array(items) => value@ matches JsonView::Array(inner) && inner.len()
                == items@.len() && (forall|i: int|
                0 <= i < items@.len() ==> #[trigger] inner[i] == items@[i]@),
            Json::Object(members) => value@ matches JsonView::Object(inner) && inner.len()
                == members@.len() && (forall|i: int|
                0 <= i < members@.len() ==> #[trigger] inner[i] == (
                    members@[i].0@,
                    members@[i].1@,
                )),
        },
{
}

/// The contents of values are the content of each, in order.
pub proof fn law_contents_in_order(values: Seq<Json>, i: int)
    requires
        0 <= i < values.len(),
    ensures
        json::contents(values).len() == values.len(),
        json::contents(values)[i] == values[i]@,
{
}

/// A member is found by its name, wherever it stands; the first one counts.
pub proof fn law_member_is_found(
    before: Seq<(Seq<char>, JsonView)>,
    key: Seq<char>,
    value: JsonView,
    after: Seq<(Seq<char>, JsonView)>,
)
    requires
        forall|i: int| 0 <= i < before.len() ==> (#[trigger] before[i]).0 != key,
    ensures
        JsonView::Object(before + seq![(key, value)] + after).member(key) == Some(value),
    decreases before.len(),
{
    let all = before + seq![(key, value)] + after;
    if before.len() == 0 {
        assert(all[0] == (key, value));
    } else {
        let rest = before.drop_first();
        assert(all[0] == before[0] && before[0].0 != key);
        assert forall|i: int| 0 <= i < rest.len() implies (#[trigger] rest[i]).0 != key by {
            assert(rest[i] == before[i + 1]);
        }
        assert(all.drop_first() =~= rest + seq![(key, value)] + after);
        law_member_is_found(rest, key, value, after);
    }
}

/// A name that no member has is not found, and only objects have members.
pub proof fn law_absent_member(value: JsonView, key: Seq<char>)
    requires
        value matches JsonView::Object(members) ==> forall|i: int|
            0 <= i < members.len() ==> (#[trigger] members[i]).0 != key,
    ensures
        value.member(key) is None,
{
    if let JsonView::Object(members) = value {
        lemma_absent(members, key);
    }
}

/// A search without a match finds nothing.
proof fn lemma_absent(members: Seq<(Seq<char>, JsonView)>, key: Seq<char>)
    requires
        forall|i: int| 0 <= i < members.len() ==> (#[trigger] members[i]).0 != key,
    ensures
        json::find_member(members, key) is None,
    decreases members.len(),
{
    if members.len() > 0 {
        let rest = members.drop_first();
        assert(members[0].0 != key);
        assert forall|i: int| 0 <= i < rest.len() implies (#[trigger] rest[i]).0 != key by {
            assert(rest[i] == members[i + 1]);
        }
        lemma_absent(rest, key);
    }
}

/// A string member is a member that is a string, and an array member one that
/// is an array.
pub proof fn law_typed_members(
    value: JsonView,
    key: Seq<char>,
    chars: Seq<char>,
    items: Seq<JsonView>,
)
    ensures
        value.text_member(key) == Some(chars) <==> value.member(key) == Some(
            JsonView::Text(chars),
        ),
        value.array_member(key) == Some(items) <==> value.member(key) == Some(
            JsonView::Array(items),
        ),
        value.text() == Some(chars) <==> value == JsonView::Text(chars),
        value.items() == Some(items) <==> value == JsonView::Array(items),
{
}

} // verus!
