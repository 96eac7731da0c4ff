//! The achievement schema: a tree of named values.
use vstd::prelude::*;

use crate::order::views;
use crate::text::{optional_text, parse_decimal, parsed, same_text};

verus! {

/// A value of the schema.
#[derive(Debug)]
pub enum KVValue {
    Nested(Vec<KVEntry>),
    Text(String),
    /// A number or another value that the schema's reader has no use for.
    Other,
}

/// A named value of the schema.
#[derive(Debug)]
pub struct KVEntry {
    pub key: String,
    pub value: KVValue,
}

/// The value of the first entry with the given name.
pub open spec fn first_named(entries: Seq<KVEntry>, key: Seq<char>) -> Option<KVValue>
    decreases entries.len(),
{
    if entries.len() == 0 {
        None
    } else if entries[0].key@ == key {
        Some(entries[0].value)
    } else {
        first_named(entries.drop_first(), key)
    }
}

/// The entries of a nested value.
pub open spec fn nested(node: KVValue) -> Option<Seq<KVEntry>> {
    match node {
        KVValue::Nested(entries) => Some(entries@),
        _ => None,
    }
}

/// The text of a value.
pub open spec fn text_value(node: KVValue) -> Option<Seq<char>> {
    match node {
        KVValue::Text(text) => Some(text@),
        _ => None,
    }
}

/// The value with the given name inside a nested value.
pub open spec fn child(node: KVValue, key: Seq<char>) -> Option<KVValue> {
    match nested(node) {
        Some(entries) => first_named(entries, key),
        None => None,
    }
}

impl KVValue {
    /// The value with the given name inside a nested value.
    pub fn get(&self, key: &str) -> (found: Option<&KVValue>)
        ensures
            match found {
                Some(value) => child(*self, key@) == Some(*value),
                None => child(*self, key@) is None,
            },
    {
        match self {
            KVValue::Nested(entries) => {
                let mut i: usize = 0;
                assert(entries@.skip(0) =~= entries@);
                while i < entries.len()
                    invariant
                        i <= entries@.len(),
                        nested(*self) == Some(entries@),
                        first_named(entries@, key@) == first_named(entries@.skip(i as int), key@),
                    decreases entries@.len() - i,
                {
                    assert(entries@.skip(i as int)[0] == entries@[i as int]);
                    assert(entries@.skip(i as int).drop_first() =~= entries@.skip(i + 1));
                    if same_text(entries[i].key.as_str(), key) {
                        return Some(&entries[i].value);
                    }
                    i += 1;
                }
                None
            },
            _ => None,
        }
    }

    /// The entries of a nested value.
    pub fn as_nested(&self) -> (entries: Option<&Vec<KVEntry>>)
        ensures
            match entries {
                Some(entries) => nested(*self) == Some(entries@),
                None => nested(*self) is None,
            },
    {
        match self {
            KVValue::Nested(entries) => Some(entries),
            _ => None,
        }
    }

    /// The text of a value.
    pub fn as_str(&self) -> (text: Option<&String>)
        ensures
            match text {
                Some(text) => text_value(*self) == Some(text@),
                None => text_value(*self) is None,
            },
    {
        match self {
            KVValue::Text(text) => Some(text),
            _ => None,
        }
    }
}

/// The first `stats` value inside one of the entries.
pub open spec fn inner_stats(entries: Seq<KVEntry>) -> Option<KVValue>
    decreases entries.len(),
{
    if entries.len() == 0 {
        None
    } else {
        match child(entries[0].value, "stats"@) {
            Some(stats) => Some(stats),
            None => inner_stats(entries.drop_first()),
        }
    }
}

/// The `stats` value of a schema: that of its root, or the first one level below.
pub open spec fn stats_of(root: KVValue) -> Option<KVValue> {
    match child(root, "stats"@) {
        Some(stats) => Some(stats),
        None => match nested(root) {
            Some(entries) => inner_stats(entries),
            None => None,
        },
    }
}

/// The `stats` value of a schema.
pub fn find_stats_node(root: &KVValue) -> (stats: Option<&KVValue>)
    ensures
        match stats {
            Some(stats) => stats_of(*root) == Some(*stats),
            None => stats_of(*root) is None,
        },
{
    if let Some(stats) = root.get("stats") {
        return Some(stats);
    }
    match root.as_nested() {
        Some(entries) => {
            let mut i: usize = 0;
            assert(entries@.skip(0) =~= entries@);
            while i < entries.len()
                invariant
                    i <= entries@.len(),
                    nested(*root) == Some(entries@),
                    child(*root, "stats"@) is None,
                    inner_stats(entries@) == inner_stats(entries@.skip(i as int)),
                decreases entries@.len() - i,
            {
                assert(entries@.skip(i as int)[0] == entries@[i as int]);
                assert(entries@.skip(i as int).drop_first() =~= entries@.skip(i + 1));
                if let Some(stats) = entries[i].value.get("stats") {
                    return Some(stats);
                }
                i += 1;
            }
            None
        },
        None => None,
    }
}

/// The first text that is not empty among the entries.
pub open spec fn first_text(entries: Seq<KVEntry>) -> Option<Seq<char>>
    decreases entries.len(),
{
    if entries.len() == 0 {
        None
    } else if text_value(entries[0].value) matches Some(text) && text.len() > 0 {
        text_value(entries[0].value)
    } else {
        first_text(entries.drop_first())
    }
}

/// A text in the user's language: plain, or by language, English first and then whichever is
/// not empty.
pub open spec fn localized(node: KVValue, key: Seq<char>) -> Option<Seq<char>> {
    match child(node, key) {
        Some(KVValue::Text(text)) => if text@.len() > 0 {
            Some(text@)
        } else {
            None
        },
        Some(KVValue::Nested(entries)) => match first_named(entries@, "english"@) {
            Some(KVValue::Text(text)) => if text@.len() > 0 {
                Some(text@)
            } else {
                first_text(entries@)
            },
            _ => first_text(entries@),
        },
        _ => None,
    }
}

/// Whether a text is not empty.
fn is_filled(text: &String) -> (filled: bool)
    ensures
        filled == (text@.len() > 0),
{
    proof {
        reveal_strlit("");
        assert(text@.len() == 0 ==> text@ =~= ""@);
    }
    !same_text(text.as_str(), "")
}

/// A text in the user's language.
pub fn get_localized_string(node: &KVValue, key: &str) -> (text: Option<String>)
    ensures
        optional_text(text) == localized(*node, key@),
{
    let field: &KVValue = match node.get(key) {
        Some(field) => field,
        None => return None,
    };
    match field {
        KVValue::Text(text) => if is_filled(text) {
            Some(text.clone())
        } else {
            None
        },
        KVValue::Nested(entries) => {
            if let Some(KVValue::Text(english)) = field.get("english") {
                if is_filled(english) {
                    return Some(english.clone());
                }
            }
            let mut i: usize = 0;
            assert(entries@.skip(0) =~= entries@);
            while i < entries.len()
                invariant
                    i <= entries@.len(),
                    first_text(entries@) == first_text(entries@.skip(i as int)),
                    localized(*node, key@) == first_text(entries@),
                decreases entries@.len() - i,
            {
                assert(entries@.skip(i as int)[0] == entries@[i as int]);
                assert(entries@.skip(i as int).drop_first() =~= entries@.skip(i + 1));
                if let KVValue::Text(text) = &entries[i].value {
                    if is_filled(text) {
                        return Some(text.clone());
                    }
                }
                i += 1;
            }
            None
        },
        KVValue::Other => None,
    }
}

/// An achievement of the schema: a bit of a stat group with a name.
#[derive(Debug)]
pub struct AchievementDef {
    pub stat_id: u32,
    pub bit: u32,
    pub api_name: String,
    pub display_name: Option<String>,
    pub description: Option<String>,
}

/// What an `AchievementDef` holds.
pub struct DefView {
    pub stat_id: u32,
    pub bit: u32,
    pub api_name: Seq<char>,
    pub display_name: Option<Seq<char>>,
    pub description: Option<Seq<char>>,
}

impl View for AchievementDef {
    type V = DefView;

    open spec fn view(&self) -> DefView {
        DefView {
            stat_id: self.stat_id,
            bit: self.bit,
            api_name: self.api_name@,
            display_name: optional_text(self.display_name),
            description: optional_text(self.description),
        }
    }
}

impl Clone for AchievementDef {
    fn clone(&self) -> (copy: Self)
        ensures
            copy@ == self@,
    {
        AchievementDef {
            stat_id: self.stat_id,
            bit: self.bit,
            api_name: self.api_name.clone(),
            display_name: self.display_name.clone(),
            description: self.description.clone(),
        }
    }
}

/// The achievement that a bit of a group is, if it has a number and a name.
pub open spec fn definition_of(stat_id: u32, entry: KVEntry) -> Option<DefView> {
    match (parsed(entry.key@, u32::MAX as int), child(entry.value, "name"@)) {
        (Some(bit), Some(KVValue::Text(name))) => if name@.len() > 0 {
            let display = child(entry.value, "display"@);
            Some(
                DefView {
                    stat_id,
                    bit: bit as u32,
                    api_name: name@,
                    display_name: match display {
                        Some(display) => localized(display, "name"@),
                        None => None,
                    },
                    description: match display {
                        Some(display) => localized(display, "desc"@),
                        None => None,
                    },
                },
            )
        } else {
            None
        },
        _ => None,
    }
}

/// The achievements among the first `count` bits of a group.
pub open spec fn group_definitions(stat_id: u32, bits: Seq<KVEntry>, count: int) -> Seq<DefView>
    decreases count,
{
    if count <= 0 {
        seq![]
    } else {
        match definition_of(stat_id, bits[count - 1]) {
            Some(definition) => group_definitions(stat_id, bits, count - 1).push(definition),
            None => group_definitions(stat_id, bits, count - 1),
        }
    }
}

/// The achievements of a stat entry: those of its bits, if it has a number and bits.
pub open spec fn stat_definitions(entry: KVEntry) -> Seq<DefView> {
    match (parsed(entry.key@, u32::MAX as int), child(entry.value, "bits"@)) {
        (Some(stat_id), Some(KVValue::Nested(bits))) => group_definitions(
            stat_id as u32,
            bits@,
            bits@.len() as int,
        ),
        _ => seq![],
    }
}

/// The achievements of the first `count` stat entries.
pub open spec fn stats_definitions(entries: Seq<KVEntry>, count: int) -> Seq<DefView>
    decreases count,
{
    if count <= 0 {
        seq![]
    } else {
        stats_definitions(entries, count - 1) + stat_definitions(entries[count - 1])
    }
}

/// The achievements of a schema, in its order.
pub open spec fn definitions(root: KVValue) -> Seq<DefView> {
    match stats_of(root) {
        Some(stats) => match nested(stats) {
            Some(entries) => stats_definitions(entries, entries.len() as int),
            None => seq![],
        },
        None => seq![],
    }
}

/// The achievement that a bit of a group is.
fn read_definition(stat_id: u32, entry: &KVEntry) -> (definition: Option<AchievementDef>)
    ensures
        match definition {
            Some(definition) => definition_of(stat_id, *entry) == Some(definition@),
            None => definition_of(stat_id, *entry) is None,
        },
{
    let bit: u64 = match parse_decimal(entry.key.as_str(), u32::MAX as u64) {
        Some(bit) => bit,
        None => return None,
    };
    let name: &String = match entry.value.get("name") {
        Some(KVValue::Text(name)) => name,
        _ => return None,
    };
    if !is_filled(name) {
        return None;
    }
    let (display_name, description): (Option<String>, Option<String>) = match entry.value.get(
        "display",
    ) {
        Some(display) => (
            get_localized_string(display, "name"),
            get_localized_string(display, "desc"),
        ),
        None => (None, None),
    };
    Some(
        AchievementDef {
            stat_id,
            bit: bit as u32,
            api_name: name.clone(),
            display_name,
            description,
        },
    )
}

/// Adds the achievements of a stat entry to `out`.
fn read_stat(entry: &KVEntry, out: &mut Vec<AchievementDef>)
    ensures
        views(final(out)@) == views(old(out)@) + stat_definitions(*entry),
{
    let ghost before = views(out@);
    assert(before + Seq::<DefView>::empty() =~= before);
    let stat_id: u64 = match parse_decimal(entry.key.as_str(), u32::MAX as u64) {
        Some(stat_id) => stat_id,
        None => return ,
    };
    let bits: &Vec<KVEntry> = match entry.value.get("bits") {
        Some(KVValue::Nested(bits)) => bits,
        _ => return ,
    };
    let mut i: usize = 0;
    while i < bits.len()
        invariant
            i <= bits@.len(),
            stat_id <= u32::MAX,
            views(out@) == before + group_definitions(stat_id as u32, bits@, i as int),
        decreases bits@.len() - i,
    {
        let ghost held = out@;
        if let Some(definition) = read_definition(stat_id as u32, &bits[i]) {
            let ghost view = definition@;
            out.push(definition);
            assert(views(out@) =~= views(held).push(view));
            assert(views(out@) =~= before + group_definitions(stat_id as u32, bits@, i + 1));
        }
        i += 1;
    }
}

/// The achievements of a schema, in its order.
pub fn extract_achievements(root: &KVValue) -> (found: Vec<AchievementDef>)
    ensures
        views(found@) == definitions(*root),
{
    let mut found: Vec<AchievementDef> = Vec::new();
    assert(views(found@) =~= Seq::<DefView>::empty());
    let stats: &KVValue = match find_stats_node(root) {
        Some(stats) => stats,
        None => return found,
    };
    let entries: &Vec<KVEntry> = match stats.as_nested() {
        Some(entries) => entries,
        None => return found,
    };
    let mut i: usize = 0;
    while i < entries.len()
        invariant
            i <= entries@.len(),
            views(found@) == stats_definitions(entries@, i as int),
        decreases entries@.len() - i,
    {
        read_stat(&entries[i], &mut found);
        i += 1;
    }
    found
}

} // verus!
