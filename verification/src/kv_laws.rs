//! What the achievement schema says, told by where its values stand.
use vstd::prelude::*;

use crate::kv::{
    child, definition_of, definitions, first_named, first_text, group_definitions, inner_stats,
    localized, stat_definitions, stats_definitions, stats_of, DefView, KVEntry, KVValue,
};
use crate::text::{numbers_are_read, parsed};

verus! {

/// Whether the entry at `at` is the first with the given name.
pub open spec fn is_first_at(entries: Seq<KVEntry>, key: Seq<char>, at: int) -> bool {
    &&& 0 <= at < entries.len()
    &&& entries[at].key@ == key
    &&& forall|k: int| 0 <= k < at ==> (#[trigger] entries[k]).key@ != key
}

/// Whether a value holds another under a name: it is nested, and the first of its entries with
/// that name has the other value.
pub open spec fn holds(node: KVValue, key: Seq<char>, value: KVValue) -> bool {
    node is Nested && exists|at: int| #[trigger]
        is_first_at(node->Nested_0@, key, at) && node->Nested_0@[at].value == value
}

/// Whether a value holds nothing under a name.
pub open spec fn holds_none(node: KVValue, key: Seq<char>) -> bool {
    node is Nested ==> forall|k: int|
        0 <= k < node->Nested_0@.len() ==> (#[trigger] node->Nested_0@[k]).key@ != key
}

proof fn first_named_is_first(entries: Seq<KVEntry>, key: Seq<char>)
    ensures
        match first_named(entries, key) {
            Some(value) => exists|at: int| #[trigger]
                is_first_at(entries, key, at) && entries[at].value == value,
            None => forall|k: int| 0 <= k < entries.len() ==> (#[trigger] entries[k]).key@ != key,
        },
    decreases entries.len(),
{
    if entries.len() > 0 {
        if entries[0].key@ == key {
            assert(is_first_at(entries, key, 0));
        } else {
            let rest = entries.drop_first();
            first_named_is_first(rest, key);
            match first_named(rest, key) {
                Some(value) => {
                    let at = choose|at: int| #[trigger]
                        is_first_at(rest, key, at) && rest[at].value == value;
                    assert forall|k: int| 0 <= k < at + 1 implies (#[trigger] entries[k]).key@
                        != key by {
                        if k > 0 {
                            assert(rest[k - 1].key@ != key);
                        }
                    }
                    assert(is_first_at(entries, key, at + 1));
                },
                None => {
                    assert forall|k: int| 0 <= k < entries.len() implies (#[trigger] entries[k]).key@
                        != key by {
                        if k > 0 {
                            assert(rest[k - 1].key@ != key);
                        }
                    }
                },
            }
        }
    }
}

/// A value is found by its name inside a nested one, the first where there are several, and
/// nowhere else.
pub proof fn values_are_found_by_name(node: KVValue, key: Seq<char>)
    ensures
        match child(node, key) {
            Some(value) => holds(node, key, value),
            None => holds_none(node, key),
        },
        forall|value: KVValue| #[trigger] holds(node, key, value) ==> child(node, key) == Some(value),
{
    if node is Nested {
        let entries = node->Nested_0@;
        first_named_is_first(entries, key);
        assert forall|value: KVValue| #[trigger] holds(node, key, value) implies child(node, key)
            == Some(value) by {
            let at = choose|at: int| #[trigger]
                is_first_at(entries, key, at) && entries[at].value == value;
            if let Some(other) = first_named(entries, key) {
                let bt = choose|bt: int| #[trigger]
                    is_first_at(entries, key, bt) && entries[bt].value == other;
                if at < bt {
                    assert(entries[at].key@ != key);
                }
                if bt < at {
                    assert(entries[bt].key@ != key);
                }
            } else {
                assert(entries[at].key@ != key);
            }
        }
    }
}

/// Whether `stats` are the stats of the value at `at` one level below the root, the first that
/// has any.
pub open spec fn first_inner_stats(entries: Seq<KVEntry>, at: int, stats: KVValue) -> bool {
    &&& 0 <= at < entries.len()
    &&& holds(entries[at].value, "stats"@, stats)
    &&& forall|k: int| 0 <= k < at ==> holds_none((#[trigger] entries[k]).value, "stats"@)
}

proof fn inner_stats_are_first(entries: Seq<KVEntry>)
    ensures
        match inner_stats(entries) {
            Some(stats) => exists|at: int| #[trigger] first_inner_stats(entries, at, stats),
            None => forall|k: int|
                0 <= k < entries.len() ==> holds_none((#[trigger] entries[k]).value, "stats"@),
        },
    decreases entries.len(),
{
    if entries.len() > 0 {
        values_are_found_by_name(entries[0].value, "stats"@);
        match child(entries[0].value, "stats"@) {
            Some(stats) => {
                assert(first_inner_stats(entries, 0, stats));
            },
            None => {
                let rest = entries.drop_first();
                inner_stats_are_first(rest);
                match inner_stats(rest) {
                    Some(stats) => {
                        let at = choose|at: int| #[trigger] first_inner_stats(rest, at, stats);
                        assert forall|k: int| 0 <= k < at + 1 implies holds_none(
                            (#[trigger] entries[k]).value,
                            "stats"@,
                        ) by {
                            if k > 0 {
                                assert(holds_none(rest[k - 1].value, "stats"@));
                            }
                        }
                        assert(first_inner_stats(entries, at + 1, stats));
                    },
                    None => {
                        assert forall|k: int| 0 <= k < entries.len() implies holds_none(
                            (#[trigger] entries[k]).value,
                            "stats"@,
                        ) by {
                            if k > 0 {
                                assert(holds_none(rest[k - 1].value, "stats"@));
                            }
                        }
                    },
                }
            },
        }
    }
}

/// The stats of a schema are those of its root, and where it has none, the first one level
/// below.
pub proof fn stats_are_at_the_root_or_below(root: KVValue)
    ensures
        match stats_of(root) {
            Some(stats) => holds(root, "stats"@, stats) || (holds_none(root, "stats"@)
                && root is Nested && exists|at: int| #[trigger]
                first_inner_stats(root->Nested_0@, at, stats)),
            None => holds_none(root, "stats"@) && (root is Nested ==> forall|k: int|
                0 <= k < root->Nested_0@.len() ==> holds_none(
                    (#[trigger] root->Nested_0@[k]).value,
                    "stats"@,
                )),
        },
{
    values_are_found_by_name(root, "stats"@);
    if root is Nested {
        inner_stats_are_first(root->Nested_0@);
    }
}

/// Whether an entry is a named bit: its key is the number, and it holds a text that is not empty
/// as its `name`. What else it holds makes no difference.
pub open spec fn is_named_bit(entry: KVEntry, bit: u32, name: Seq<char>) -> bool {
    &&& parsed(entry.key@, 0xffff_ffff) == Some(bit as int)
    &&& name.len() > 0
    &&& exists|text: String| #[trigger] holds(entry.value, "name"@, KVValue::Text(text)) && text@ == name
}

/// Whether the `j`-th bit of the `i`-th stat entry is a named one: the key of the stat entry is
/// the number of the group, and it holds nested `bits`. What else it holds, such as its type,
/// makes no difference.
pub open spec fn is_bit_at(
    stats: Seq<KVEntry>,
    i: int,
    j: int,
    stat_id: u32,
    bit: u32,
    name: Seq<char>,
) -> bool {
    &&& 0 <= i < stats.len()
    &&& parsed(stats[i].key@, 0xffff_ffff) == Some(stat_id as int)
    &&& exists|bits: Vec<KVEntry>| #[trigger]
        holds(stats[i].value, "bits"@, KVValue::Nested(bits)) && 0 <= j < bits@.len()
            && is_named_bit(bits@[j], bit, name)
}

/// Whether the place `a` comes before the place `b`.
pub open spec fn place_before(a: (int, int), b: (int, int)) -> bool {
    a.0 < b.0 || (a.0 == b.0 && a.1 < b.1)
}

/// Whether `found` are the named bits of the stats, all of them, each once and in their order,
/// where `places` says where each stands.
pub open spec fn are_the_named_bits(
    stats: Seq<KVEntry>,
    places: Seq<(int, int)>,
    found: Seq<DefView>,
) -> bool {
    &&& places.len() == found.len()
    &&& forall|k: int|
        0 <= k < found.len() ==> is_bit_at(
            stats,
            (#[trigger] places[k]).0,
            places[k].1,
            found[k].stat_id,
            found[k].bit,
            found[k].api_name,
        )
    &&& forall|k: int, l: int|
        0 <= k < l < places.len() ==> place_before(#[trigger] places[k], #[trigger] places[l])
    &&& forall|i: int, j: int, stat_id: u32, bit: u32, name: Seq<char>| #[trigger]
        is_bit_at(stats, i, j, stat_id, bit, name) ==> places.contains((i, j))
}

proof fn definitions_are_named_bits(stat_id: u32, entry: KVEntry)
    ensures
        definition_of(stat_id, entry) matches Some(definition) ==> definition.stat_id == stat_id
            && is_named_bit(entry, definition.bit, definition.api_name),
        forall|bit: u32, name: Seq<char>| #[trigger]
            is_named_bit(entry, bit, name) ==> definition_of(stat_id, entry) is Some,
{
    values_are_found_by_name(entry.value, "name"@);
    numbers_are_read(entry.key@, u32::MAX as int, 0);
    if let Some(definition) = definition_of(stat_id, entry) {
        let text = child(entry.value, "name"@)->Some_0->Text_0;
        assert(holds(entry.value, "name"@, KVValue::Text(text)));
    }
    assert forall|bit: u32, name: Seq<char>| #[trigger]
        is_named_bit(entry, bit, name) implies definition_of(stat_id, entry) is Some by {
        let text = choose|text: String| #[trigger]
            holds(entry.value, "name"@, KVValue::Text(text)) && text@ == name;
        assert(child(entry.value, "name"@) == Some(KVValue::Text(text)));
    }
}

/// Where the named bits among the first `count` of a group stand.
spec fn group_places(stat_id: u32, i: int, bits: Seq<KVEntry>, count: int) -> Seq<(int, int)>
    decreases count,
{
    if count <= 0 {
        seq![]
    } else if definition_of(stat_id, bits[count - 1]) is Some {
        group_places(stat_id, i, bits, count - 1).push((i, count - 1))
    } else {
        group_places(stat_id, i, bits, count - 1)
    }
}

proof fn group_places_fit(stat_id: u32, i: int, bits: Seq<KVEntry>, count: int)
    requires
        0 <= count <= bits.len(),
    ensures
        ({
            let places = group_places(stat_id, i, bits, count);
            let found = group_definitions(stat_id, bits, count);
            &&& places.len() == found.len()
            &&& forall|k: int|
                0 <= k < places.len() ==> (#[trigger] places[k]).0 == i && 0 <= places[k].1 < count
                    && definition_of(stat_id, bits[places[k].1]) == Some(found[k])
            &&& forall|k: int, l: int|
                0 <= k < l < places.len() ==> place_before(
                    #[trigger] places[k],
                    #[trigger] places[l],
                )
            &&& forall|j: int|
                0 <= j < count && (#[trigger] definition_of(stat_id, bits[j])) is Some
                    ==> places.contains((i, j))
        }),
    decreases count,
{
    if count > 0 {
        group_places_fit(stat_id, i, bits, count - 1);
        let before = group_places(stat_id, i, bits, count - 1);
        let places = group_places(stat_id, i, bits, count);
        assert forall|j: int|
            0 <= j < count && (#[trigger] definition_of(stat_id, bits[j]))
                is Some implies places.contains((i, j)) by {
            if j < count - 1 {
                assert(before.contains((i, j)));
                let k = choose|k: int| 0 <= k < before.len() && before[k] == (i, j);
                assert(places[k] == (i, j));
            } else {
                assert(places[places.len() - 1] == (i, j));
            }
        }
    }
}

/// Where the named bits of a stat entry stand.
spec fn stat_places(stats: Seq<KVEntry>, i: int) -> Seq<(int, int)> {
    match (parsed(stats[i].key@, u32::MAX as int), child(stats[i].value, "bits"@)) {
        (Some(stat_id), Some(KVValue::Nested(bits))) => group_places(
            stat_id as u32,
            i,
            bits@,
            bits@.len() as int,
        ),
        _ => seq![],
    }
}

proof fn stat_places_fit(stats: Seq<KVEntry>, i: int)
    requires
        0 <= i < stats.len(),
    ensures
        ({
            let places = stat_places(stats, i);
            let found = stat_definitions(stats[i]);
            &&& places.len() == found.len()
            &&& forall|k: int|
                0 <= k < places.len() ==> (#[trigger] places[k]).0 == i && is_bit_at(
                    stats,
                    i,
                    places[k].1,
                    found[k].stat_id,
                    found[k].bit,
                    found[k].api_name,
                )
            &&& forall|k: int, l: int|
                0 <= k < l < places.len() ==> place_before(
                    #[trigger] places[k],
                    #[trigger] places[l],
                )
            &&& forall|j: int, stat_id: u32, bit: u32, name: Seq<char>| #[trigger]
                is_bit_at(stats, i, j, stat_id, bit, name) ==> places.contains((i, j))
        }),
{
    let places = stat_places(stats, i);
    let found = stat_definitions(stats[i]);
    values_are_found_by_name(stats[i].value, "bits"@);
    numbers_are_read(stats[i].key@, u32::MAX as int, 0);
    match (parsed(stats[i].key@, u32::MAX as int), child(stats[i].value, "bits"@)) {
        (Some(number), Some(KVValue::Nested(bits))) => {
            let stat_id = number as u32;
            group_places_fit(stat_id, i, bits@, bits@.len() as int);
            assert(holds(stats[i].value, "bits"@, KVValue::Nested(bits)));
            assert forall|k: int| 0 <= k < places.len() implies (#[trigger] places[k]).0 == i
                && is_bit_at(
                stats,
                i,
                places[k].1,
                found[k].stat_id,
                found[k].bit,
                found[k].api_name,
            ) by {
                definitions_are_named_bits(stat_id, bits@[places[k].1]);
            }
        },
        _ => {},
    }
    assert forall|j: int, stat_id: u32, bit: u32, name: Seq<char>| #[trigger]
        is_bit_at(stats, i, j, stat_id, bit, name) implies places.contains((i, j)) by {
        let bits = choose|bits: Vec<KVEntry>| #[trigger]
            holds(stats[i].value, "bits"@, KVValue::Nested(bits)) && 0 <= j < bits@.len()
                && is_named_bit(bits@[j], bit, name);
        assert(child(stats[i].value, "bits"@) == Some(KVValue::Nested(bits)));
        definitions_are_named_bits(stat_id, bits@[j]);
        assert(definition_of(stat_id, bits@[j]) is Some);
    }
}

/// Where the named bits of the first `count` stat entries stand.
spec fn all_places(stats: Seq<KVEntry>, count: int) -> Seq<(int, int)>
    decreases count,
{
    if count <= 0 {
        seq![]
    } else {
        all_places(stats, count - 1) + stat_places(stats, count - 1)
    }
}

proof fn all_places_fit(stats: Seq<KVEntry>, count: int)
    requires
        0 <= count <= stats.len(),
    ensures
        ({
            let places = all_places(stats, count);
            let found = stats_definitions(stats, count);
            &&& places.len() == found.len()
            &&& forall|k: int|
                0 <= k < places.len() ==> 0 <= (#[trigger] places[k]).0 < count && is_bit_at(
                    stats,
                    places[k].0,
                    places[k].1,
                    found[k].stat_id,
                    found[k].bit,
                    found[k].api_name,
                )
            &&& forall|k: int, l: int|
                0 <= k < l < places.len() ==> place_before(
                    #[trigger] places[k],
                    #[trigger] places[l],
                )
            &&& forall|i: int, j: int, stat_id: u32, bit: u32, name: Seq<char>|
                i < count && #[trigger] is_bit_at(stats, i, j, stat_id, bit, name)
                    ==> places.contains((i, j))
        }),
    decreases count,
{
    if count > 0 {
        let i = count - 1;
        all_places_fit(stats, i);
        stat_places_fit(stats, i);
        let before = all_places(stats, i);
        let here = stat_places(stats, i);
        let places = all_places(stats, count);
        let found = stats_definitions(stats, count);
        assert forall|k: int| 0 <= k < places.len() implies 0 <= (#[trigger] places[k]).0 < count
            && is_bit_at(
            stats,
            places[k].0,
            places[k].1,
            found[k].stat_id,
            found[k].bit,
            found[k].api_name,
        ) by {
            if k < before.len() {
                assert(places[k] == before[k]);
                assert(found[k] == stats_definitions(stats, i)[k]);
            } else {
                assert(places[k] == here[k - before.len()]);
                assert(found[k] == stat_definitions(stats[i])[k - before.len()]);
            }
        }
        assert forall|k: int, l: int| 0 <= k < l < places.len() implies place_before(
            #[trigger] places[k],
            #[trigger] places[l],
        ) by {
            if l < before.len() {
                assert(places[k] == before[k] && places[l] == before[l]);
            } else if k >= before.len() {
                assert(places[k] == here[k - before.len()]);
                assert(places[l] == here[l - before.len()]);
            } else {
                assert(places[k] == before[k]);
                assert(places[l] == here[l - before.len()]);
            }
        }
        assert forall|at: int, j: int, stat_id: u32, bit: u32, name: Seq<char>|
            at < count && #[trigger] is_bit_at(
                stats,
                at,
                j,
                stat_id,
                bit,
                name,
            ) implies places.contains((at, j)) by {
            if at < i {
                assert(before.contains((at, j)));
                let k = choose|k: int| 0 <= k < before.len() && before[k] == (at, j);
                assert(places[k] == (at, j));
            } else {
                assert(here.contains((at, j)));
                let k = choose|k: int| 0 <= k < here.len() && here[k] == (at, j);
                assert(places[before.len() + k] == (at, j));
            }
        }
    }
}

/// The achievements of a schema are the named bits of its stats: all of them, each once and in
/// their order, and nothing else.
pub proof fn achievements_are_the_named_bits(root: KVValue)
    ensures
        match stats_of(root) {
            Some(KVValue::Nested(stats)) => exists|places: Seq<(int, int)>| #[trigger]
                are_the_named_bits(stats@, places, definitions(root)),
            _ => definitions(root).len() == 0,
        },
{
    if let Some(KVValue::Nested(stats)) = stats_of(root) {
        all_places_fit(stats@, stats@.len() as int);
        let places = all_places(stats@, stats@.len() as int);
        assert(are_the_named_bits(stats@, places, definitions(root)));
    }
}

/// Whether the text of the entry at `at` is the first that is not empty.
pub open spec fn is_first_text_at(entries: Seq<KVEntry>, at: int) -> bool {
    &&& 0 <= at < entries.len()
    &&& entries[at].value is Text && entries[at].value->Text_0@.len() > 0
    &&& forall|k: int|
        0 <= k < at ==> !((#[trigger] entries[k]).value is Text
            && entries[k].value->Text_0@.len() > 0)
}

proof fn first_text_is_first(entries: Seq<KVEntry>)
    ensures
        match first_text(entries) {
            Some(text) => exists|at: int| #[trigger]
                is_first_text_at(entries, at) && entries[at].value->Text_0@ == text,
            None => forall|at: int| !#[trigger] is_first_text_at(entries, at),
        },
    decreases entries.len(),
{
    if entries.len() > 0 {
        let rest = entries.drop_first();
        if entries[0].value is Text && entries[0].value->Text_0@.len() > 0 {
            assert(is_first_text_at(entries, 0));
        } else {
            first_text_is_first(rest);
            match first_text(rest) {
                Some(text) => {
                    let at = choose|at: int| #[trigger]
                        is_first_text_at(rest, at) && rest[at].value->Text_0@ == text;
                    assert forall|k: int| 0 <= k < at + 1 implies !((
                    #[trigger] entries[k]).value is Text && entries[k].value->Text_0@.len() > 0) by {
                        if k > 0 {
                            assert(rest[k - 1] == entries[k]);
                        }
                    }
                    assert(is_first_text_at(entries, at + 1));
                },
                None => {
                    assert forall|at: int| !#[trigger] is_first_text_at(entries, at) by {
                        if is_first_text_at(entries, at) {
                            assert forall|k: int| 0 <= k < at - 1 implies !((
                            #[trigger] rest[k]).value is Text && rest[k].value->Text_0@.len()
                                > 0) by {
                                assert(entries[k + 1] == rest[k]);
                            }
                            assert(is_first_text_at(rest, at - 1));
                        }
                    }
                },
            }
        }
    }
}

/// A text for the user is what stands under its name: a text that is not empty as it is; among
/// texts by language the English one, unless it is empty or missing, and then the first that is
/// not empty.
pub proof fn texts_are_english_first(node: KVValue, key: Seq<char>)
    ensures
        forall|text: String| #[trigger]
            holds(node, key, KVValue::Text(text)) ==> localized(node, key) == (if text@.len() > 0 {
                Some(text@)
            } else {
                None
            }),
        forall|languages: Vec<KVEntry>, english: String|
            holds(node, key, KVValue::Nested(languages)) && #[trigger] holds(
                KVValue::Nested(languages),
                "english"@,
                KVValue::Text(english),
            ) && english@.len() > 0 ==> localized(node, key) == Some(english@),
        forall|languages: Vec<KVEntry>| #[trigger]
            holds(node, key, KVValue::Nested(languages)) && (forall|english: String| #[trigger]
                holds(KVValue::Nested(languages), "english"@, KVValue::Text(english))
                    ==> english@.len() == 0) ==> match localized(node, key) {
                Some(text) => exists|at: int| #[trigger]
                    is_first_text_at(languages@, at) && languages@[at].value->Text_0@ == text,
                None => forall|at: int| !#[trigger] is_first_text_at(languages@, at),
            },
        holds_none(node, key) ==> localized(node, key) is None,
{
    values_are_found_by_name(node, key);
    if let Some(KVValue::Nested(languages)) = child(node, key) {
        let inner = KVValue::Nested(languages);
        values_are_found_by_name(inner, "english"@);
        first_text_is_first(languages@);
        assert(child(inner, "english"@) == first_named(languages@, "english"@));
        if let Some(KVValue::Text(english)) = child(inner, "english"@) {
            assert(holds(inner, "english"@, KVValue::Text(english)));
        }
    }
    if holds_none(node, key) && node is Nested {
        if let Some(value) = child(node, key) {
            let at = choose|at: int| #[trigger]
                is_first_at(node->Nested_0@, key, at) && node->Nested_0@[at].value == value;
            assert(node->Nested_0@[at].key@ != key);
        }
    }
}

/// An achievement is shown with the texts `name` and `desc` of what its bit holds as `display`.
pub proof fn achievements_have_their_texts(stat_id: u32, entry: KVEntry)
    ensures
        definition_of(stat_id, entry) matches Some(definition) ==> {
            &&& forall|display: KVValue| #[trigger]
                holds(entry.value, "display"@, display) ==> definition.display_name == localized(
                    display,
                    "name"@,
                ) && definition.description == localized(display, "desc"@)
            &&& holds_none(entry.value, "display"@) ==> definition.display_name is None
                && definition.description is None
        },
{
    values_are_found_by_name(entry.value, "display"@);
    if holds_none(entry.value, "display"@) && entry.value is Nested {
        if let Some(value) = child(entry.value, "display"@) {
            let at = choose|at: int| #[trigger]
                is_first_at(entry.value->Nested_0@, "display"@, at)
                    && entry.value->Nested_0@[at].value == value;
            assert(entry.value->Nested_0@[at].key@ != "display"@);
        }
    }
}

} // verus!
