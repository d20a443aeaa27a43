//! What holds of the response that the entries of a turn amount to.

use std::time::Duration;
use vstd::prelude::*;

use crate::json::JsonView;
use crate::text;
use crate::text_laws;
use crate::transcript;

verus! {

/// The entries that count are those of the two response types, and a turn
/// starts at those of the user's type.
pub proof fn law_entry_types(entry: JsonView)
    ensures
        transcript::is_response(entry) <==> (entry.text_member("type"@) == Some(
            "PLANNER_RESPONSE"@,
        ) || entry.text_member("type"@) == Some("TEXT_RESPONSE"@)),
        transcript::is_user_input(entry) <==> entry.text_member("type"@) == Some("USER_INPUT"@),
{
}

// ── The whole from its parts ────────────────────────────────────────

/// A response names the conversation and the duration that it was asked for,
/// and a turn without entries has nothing else to say.
pub proof fn law_empty_turn(turn: Seq<JsonView>, id: Seq<char>, duration: Duration)
    ensures
        transcript::turn_response(turn, id, duration).conversation_id == id,
        transcript::turn_response(turn, id, duration).duration == duration,
        transcript::turn_response(Seq::empty(), id, duration).text == Seq::<char>::empty(),
        transcript::turn_response(Seq::empty(), id, duration).tool_calls
            == Seq::<JsonView>::empty(),
        transcript::turn_response(Seq::empty(), id, duration).artifacts
            == Seq::<Seq<char>>::empty(),
{
}

/// A turn that goes on says what it said and then what is added: tool calls
/// and artifacts one after the other, texts with a line feed between, where
/// both have some.
pub proof fn law_turn_goes_on(
    first: Seq<JsonView>,
    more: Seq<JsonView>,
    id: Seq<char>,
    duration: Duration,
)
    ensures
        ({
            let whole = transcript::turn_response(first + more, id, duration);
            let head = transcript::turn_response(first, id, duration);
            let tail = transcript::turn_response(more, id, duration);
            &&& whole.tool_calls == head.tool_calls + tail.tool_calls
            &&& whole.artifacts == head.artifacts + tail.artifacts
            &&& whole.text == (if head.text.len() == 0 {
                tail.text
            } else if tail.text.len() == 0 {
                head.text
            } else {
                head.text + seq!['\n'] + tail.text
            })
        }),
{
    lemma_flat_concat(first, more, transcript::entry_texts());
    lemma_flat_concat(first, more, transcript::entry_tool_calls());
    lemma_flat_concat(first, more, transcript::entry_artifacts());
    let a = transcript::flat(first, transcript::entry_texts());
    let b = transcript::flat(more, transcript::entry_texts());
    lemma_texts_are_nonempty(first);
    lemma_texts_are_nonempty(more);
    lemma_joined_nonempty(a);
    lemma_joined_nonempty(b);
    reveal_strlit("\n");
    assert("\n"@ =~= seq!['\n']);
    if a.len() == 0 {
        assert(a + b =~= b);
    } else if b.len() == 0 {
        assert(a + b =~= a);
    } else {
        text_laws::law_joining(a, b, "\n"@, Seq::empty());
    }
}

/// What two runs of items amount to is what each amounts to, in order.
proof fn lemma_flat_concat<A>(
    a: Seq<JsonView>,
    b: Seq<JsonView>,
    part: spec_fn(JsonView) -> Seq<A>,
)
    ensures
        transcript::flat(a + b, part) == transcript::flat(a, part) + transcript::flat(b, part),
    decreases b.len(),
{
    if b.len() == 0 {
        assert(a + b =~= a);
        assert(transcript::flat(a, part) + transcript::flat(b, part) =~= transcript::flat(a, part));
    } else {
        assert((a + b).drop_last() =~= a + b.drop_last());
        lemma_flat_concat(a, b.drop_last(), part);
        assert(transcript::flat(a + b, part) =~= transcript::flat(a, part) + transcript::flat(
            b,
            part,
        ));
    }
}

/// No text that is picked from an array of items is empty.
proof fn lemma_item_texts_are_nonempty(items: Seq<JsonView>)
    ensures
        forall|i: int|
            0 <= i < transcript::flat(items, transcript::item_text()).len() ==> (
            #[trigger] transcript::flat(items, transcript::item_text())[i]).len() > 0,
    decreases items.len(),
{
    if items.len() > 0 {
        lemma_item_texts_are_nonempty(items.drop_last());
        let before = transcript::flat(items.drop_last(), transcript::item_text());
        let all = transcript::flat(items, transcript::item_text());
        assert forall|i: int| 0 <= i < all.len() implies (#[trigger] all[i]).len() > 0 by {
            if i < before.len() {
                assert(all[i] == before[i]);
            }
        }
    }
}

/// No text that an entry adds is empty.
proof fn lemma_texts_are_nonempty(entries: Seq<JsonView>)
    ensures
        forall|i: int|
            0 <= i < transcript::flat(entries, transcript::entry_texts()).len() ==> (
            #[trigger] transcript::flat(entries, transcript::entry_texts())[i]).len() > 0,
    decreases entries.len(),
{
    if entries.len() > 0 {
        lemma_texts_are_nonempty(entries.drop_last());
        if let Some(items) = entries.last().array_member("content"@) {
            lemma_item_texts_are_nonempty(items);
        }
        let entry = entries.last();
        let before = transcript::flat(entries.drop_last(), transcript::entry_texts());
        let all = transcript::flat(entries, transcript::entry_texts());
        let head = transcript::nonempty(entry.text_member("content"@));
        assert forall|i: int| 0 <= i < all.len() implies (#[trigger] all[i]).len() > 0 by {
            if i < before.len() {
                assert(all[i] == before[i]);
            } else if i - before.len() >= head.len() {
                let items = entry.array_member("content"@).unwrap();
                assert(all[i] == transcript::flat(items, transcript::item_text())[i - before.len()
                    - head.len()]);
            }
        }
    }
}

/// Parts that are not empty join to something that is not.
proof fn lemma_joined_nonempty(parts: Seq<Seq<char>>)
    requires
        forall|i: int| 0 <= i < parts.len() ==> (#[trigger] parts[i]).len() > 0,
    ensures
        text::joined(parts, "\n"@).len() > 0 <==> parts.len() > 0,
{
    if parts.len() > 0 {
        assert(parts[parts.len() - 1].len() > 0);
    }
}

// ── One entry ───────────────────────────────────────────────────────

/// What a turn of one entry amounts to, item by item.
proof fn lemma_single<A>(entry: JsonView, part: spec_fn(JsonView) -> Seq<A>)
    ensures
        transcript::flat(seq![entry], part) == part(entry),
{
    let one = seq![entry];
    assert(one.drop_last() =~= Seq::<JsonView>::empty());
    assert(transcript::flat(Seq::<JsonView>::empty(), part) =~= Seq::<A>::empty());
    assert(transcript::flat(one, part) =~= part(entry));
}

/// An entry of another type says nothing, whatever it holds.
pub proof fn law_other_types_say_nothing(entry: JsonView, id: Seq<char>, duration: Duration)
    requires
        entry.text_member("type"@) != Some("PLANNER_RESPONSE"@),
        entry.text_member("type"@) != Some("TEXT_RESPONSE"@),
    ensures
        transcript::turn_response(seq![entry], id, duration) == transcript::turn_response(
            Seq::empty(),
            id,
            duration,
        ),
{
    lemma_single(entry, transcript::entry_texts());
    lemma_single(entry, transcript::entry_tool_calls());
    lemma_single(entry, transcript::entry_artifacts());
}

/// A response entry of either type with a string for its content says that
/// string.
pub proof fn law_string_content(
    entry: JsonView,
    content: Seq<char>,
    id: Seq<char>,
    duration: Duration,
)
    requires
        entry.text_member("type"@) == Some("PLANNER_RESPONSE"@) || entry.text_member("type"@)
            == Some("TEXT_RESPONSE"@),
        entry.member("content"@) == Some(JsonView::Text(content)),
    ensures
        transcript::turn_response(seq![entry], id, duration).text == content,
{
    lemma_single(entry, transcript::entry_texts());
    let texts = transcript::response_texts(entry);
    if content.len() > 0 {
        assert(texts =~= seq![content]);
    } else {
        assert(texts =~= Seq::<Seq<char>>::empty());
        assert(content =~= Seq::<char>::empty());
    }
}

/// A response entry of either type with an array for its content says the
/// non-empty texts of the items, in order and joined by line feeds. Here
/// `pick` is any function that picks the text of an item, unless it is missing
/// or empty.
pub proof fn law_array_content(
    entry: JsonView,
    items: Seq<JsonView>,
    pick: spec_fn(JsonView) -> Option<Seq<char>>,
    id: Seq<char>,
    duration: Duration,
)
    requires
        entry.text_member("type"@) == Some("PLANNER_RESPONSE"@) || entry.text_member("type"@)
            == Some("TEXT_RESPONSE"@),
        entry.member("content"@) == Some(JsonView::Array(items)),
        forall|item: JsonView| #[trigger]
            pick(item) == (match item.text_member("text"@) {
                Some(t) => if t.len() > 0 {
                    Some(t)
                } else {
                    None
                },
                None => None,
            }),
    ensures
        transcript::turn_response(seq![entry], id, duration).text == text::joined(
            items.filter_map(pick),
            seq!['\n'],
        ),
{
    reveal_strlit("\n");
    assert("\n"@ =~= seq!['\n']);
    lemma_single(entry, transcript::entry_texts());
    lemma_picked_texts(items, pick);
    assert(transcript::response_texts(entry) =~= items.filter_map(pick));
}

/// The texts of items are those that are picked.
proof fn lemma_picked_texts(items: Seq<JsonView>, pick: spec_fn(JsonView) -> Option<Seq<char>>)
    requires
        forall|item: JsonView| #[trigger]
            pick(item) == (match item.text_member("text"@) {
                Some(t) => if t.len() > 0 {
                    Some(t)
                } else {
                    None
                },
                None => None,
            }),
    ensures
        transcript::flat(items, transcript::item_text()) == items.filter_map(pick),
    decreases items.len(),
{
    if items.len() > 0 {
        lemma_picked_texts(items.drop_last(), pick);
        let item = items.last();
        let found = pick(item);
        assert(transcript::flat(items, transcript::item_text()) =~= items.filter_map(pick));
    }
}

/// A response entry of either type with two spoken items for its content says
/// the one and then the other.
pub proof fn law_two_items_are_two_lines(
    entry: JsonView,
    one: JsonView,
    two: JsonView,
    a: Seq<char>,
    b: Seq<char>,
    id: Seq<char>,
    duration: Duration,
)
    requires
        entry.text_member("type"@) == Some("PLANNER_RESPONSE"@) || entry.text_member("type"@)
            == Some("TEXT_RESPONSE"@),
        entry.member("content"@) == Some(JsonView::Array(seq![one, two])),
        one.text_member("text"@) == Some(a) && a.len() > 0,
        two.text_member("text"@) == Some(b) && b.len() > 0,
    ensures
        transcript::turn_response(seq![entry], id, duration).text == a + seq!['\n'] + b,
{
    reveal_strlit("\n");
    assert("\n"@ =~= seq!['\n']);
    lemma_single(entry, transcript::entry_texts());
    let items = seq![one, two];
    assert(items =~= seq![one] + seq![two]);
    lemma_flat_concat(seq![one], seq![two], transcript::item_text());
    lemma_single(one, transcript::item_text());
    lemma_single(two, transcript::item_text());
    assert(transcript::response_texts(entry) =~= seq![a] + seq![b]);
    text_laws::law_joining(seq![a], seq![b], "\n"@, a);
    text_laws::law_joining(seq![a], seq![b], "\n"@, b);
}

/// A response entry whose content is neither a string nor an array says
/// nothing.
pub proof fn law_no_content(entry: JsonView, id: Seq<char>, duration: Duration)
    requires
        entry.text_member("content"@) is None,
        entry.array_member("content"@) is None,
    ensures
        transcript::turn_response(seq![entry], id, duration).text == Seq::<char>::empty(),
{
    lemma_single(entry, transcript::entry_texts());
    assert(transcript::entry_texts()(entry) =~= Seq::<Seq<char>>::empty());
}

/// A response entry of either type makes the tool calls that its array holds,
/// all of them and in order, and none where it has no such array.
pub proof fn law_tool_calls_are_kept(entry: JsonView, id: Seq<char>, duration: Duration)
    requires
        entry.text_member("type"@) == Some("PLANNER_RESPONSE"@) || entry.text_member("type"@)
            == Some("TEXT_RESPONSE"@),
    ensures
        transcript::turn_response(seq![entry], id, duration).tool_calls == (match entry.member(
            "tool_calls"@,
        ) {
            Some(JsonView::Array(calls)) => calls,
            _ => Seq::empty(),
        }),
{
    lemma_single(entry, transcript::entry_tool_calls());
}

/// A response entry of either type names the artifacts that its array holds,
/// in order: those that are strings by themselves, those that are objects by
/// their string `path`, and no others; none where it has no such array. Here
/// `pick` is any function that picks the path of an artifact.
pub proof fn law_artifacts_are_kept(
    entry: JsonView,
    pick: spec_fn(JsonView) -> Option<Seq<char>>,
    id: Seq<char>,
    duration: Duration,
)
    requires
        entry.text_member("type"@) == Some("PLANNER_RESPONSE"@) || entry.text_member("type"@)
            == Some("TEXT_RESPONSE"@),
        forall|artifact: JsonView| #[trigger]
            pick(artifact) == (match artifact {
                JsonView::Text(path) => Some(path),
                _ => artifact.text_member("path"@),
            }),
    ensures
        transcript::turn_response(seq![entry], id, duration).artifacts == (match entry.member(
            "artifacts"@,
        ) {
            Some(JsonView::Array(artifacts)) => artifacts.filter_map(pick),
            _ => Seq::empty(),
        }),
{
    lemma_single(entry, transcript::entry_artifacts());
    if let Some(JsonView::Array(artifacts)) = entry.member("artifacts"@) {
        lemma_picked_paths(artifacts, pick);
    }
}

/// The paths of artifacts are those that are picked.
proof fn lemma_picked_paths(
    artifacts: Seq<JsonView>,
    pick: spec_fn(JsonView) -> Option<Seq<char>>,
)
    requires
        forall|artifact: JsonView| #[trigger]
            pick(artifact) == (match artifact {
                JsonView::Text(path) => Some(path),
                _ => artifact.text_member("path"@),
            }),
    ensures
        transcript::flat(artifacts, transcript::artifact_path()) == artifacts.filter_map(pick),
    decreases artifacts.len(),
{
    if artifacts.len() > 0 {
        lemma_picked_paths(artifacts.drop_last(), pick);
        let found = pick(artifacts.last());
        assert(transcript::flat(artifacts, transcript::artifact_path()) =~= artifacts.filter_map(
            pick,
        ));
    }
}

// ── Where the turn starts ───────────────────────────────────────────

/// Where no entry starts a turn, all but the first entry count.
pub proof fn law_turn_without_user_input(entries: Seq<JsonView>)
    requires
        forall|i: int|
            0 <= i < entries.len() ==> (#[trigger] entries[i]).text_member("type"@) != Some(
                "USER_INPUT"@,
            ),
    ensures
        transcript::latest_turn(entries) == entries.skip(1),
{
    lemma_no_start(entries);
}

/// Where no entry starts a turn, the search ends at the front.
proof fn lemma_no_start(entries: Seq<JsonView>)
    requires
        forall|i: int|
            0 <= i < entries.len() ==> (#[trigger] entries[i]).text_member("type"@) != Some(
                "USER_INPUT"@,
            ),
    ensures
        transcript::last_user_input(entries) == 0,
    decreases entries.len(),
{
    if entries.len() > 0 {
        assert(entries[entries.len() - 1].text_member("type"@) != Some("USER_INPUT"@));
        assert forall|i: int| 0 <= i < entries.drop_last().len() implies (
        #[trigger] entries.drop_last()[i]).text_member("type"@) != Some("USER_INPUT"@) by {
            assert(entries[i].text_member("type"@) != Some("USER_INPUT"@));
        }
        lemma_no_start(entries.drop_last());
    }
}

} // verus!
