//! Adding unlocks to Steam's stat groups without clearing any.
use std::collections::{BTreeMap, BTreeSet};
use vstd::prelude::*;
use vstd::std_specs::cmp::OrdSpec;

use crate::order::views;
use crate::text::{decimal, same_text, to_decimal};

verus! {

/// The bit of a stat group that an achievement is.
#[derive(Debug)]
pub struct AchievementBit {
    pub stat_id: u32,
    pub bit: u32,
    pub api_name: String,
}

/// What an `AchievementBit` holds.
pub struct BitView {
    pub stat_id: u32,
    pub bit: u32,
    pub api_name: Seq<char>,
}

impl View for AchievementBit {
    type V = BitView;

    open spec fn view(&self) -> BitView {
        BitView {
            stat_id: self.stat_id,
            bit: self.bit,
            api_name: self.api_name@,
        }
    }
}

impl Clone for AchievementBit {
    fn clone(&self) -> (copy: Self)
        ensures
            copy@ == self@,
    {
        AchievementBit {
            stat_id: self.stat_id,
            bit: self.bit,
            api_name: self.api_name.clone(),
        }
    }
}

/// The value of a stat group as Steam reports it.
#[derive(Debug, Clone, Copy, PartialEq, Eq, Structural)]
pub struct CurrentStat {
    pub stat_id: Option<u32>,
    pub stat_value: Option<u32>,
}

/// The value that a stat group is to have.
#[derive(Debug, Clone, Copy, PartialEq, Eq, Structural)]
pub struct StoreStat {
    pub stat_id: Option<u32>,
    pub stat_value: Option<u32>,
}

/// Why unlocks cannot be added.
#[derive(Debug)]
pub enum PlanError {
    /// The schema has no such achievement.
    Unknown { api_name: String },
    /// The achievement's bit lies outside its group.
    UnsupportedBit { api_name: String, bit: u32 },
    /// Steam did not report the group, so its other bits are not known.
    MissingGroup { stat_id: u32 },
}

/// What a `PlanError` says.
pub enum PlanFailure {
    Unknown { api_name: Seq<char> },
    UnsupportedBit { api_name: Seq<char>, bit: u32 },
    MissingGroup { stat_id: u32 },
}

impl View for PlanError {
    type V = PlanFailure;

    open spec fn view(&self) -> PlanFailure {
        match *self {
            PlanError::Unknown { api_name } => PlanFailure::Unknown { api_name: api_name@ },
            PlanError::UnsupportedBit { api_name, bit } => PlanFailure::UnsupportedBit {
                api_name: api_name@,
                bit,
            },
            PlanError::MissingGroup { stat_id } => PlanFailure::MissingGroup { stat_id },
        }
    }
}

impl PlanFailure {
    /// The message for the user.
    pub open spec fn text(self) -> Seq<char> {
        match self {
            PlanFailure::Unknown { api_name } => "Steam schema no longer contains achievement "@
                + api_name,
            PlanFailure::UnsupportedBit { api_name, bit } => "Steam achievement "@ + api_name
                + " uses unsupported bit "@ + decimal(bit as nat),
            PlanFailure::MissingGroup { stat_id } =>
                "Steam omitted current value for achievement stat group "@ + decimal(stat_id as nat)
                + "; refusing unsafe write"@,
        }
    }
}

impl PlanError {
    /// The message for the user.
    pub fn message(&self) -> (message: String)
        ensures
            message@ == self@.text(),
    {
        match self {
            PlanError::Unknown { api_name } => {
                let mut message: String = "Steam schema no longer contains achievement ".to_owned();
                message.append(api_name.as_str());
                message
            },
            PlanError::UnsupportedBit { api_name, bit } => {
                let mut message: String = "Steam achievement ".to_owned();
                message.append(api_name.as_str());
                message.append(" uses unsupported bit ");
                message.append(to_decimal(*bit as u64).as_str());
                message
            },
            PlanError::MissingGroup { stat_id } => {
                let mut message: String =
                    "Steam omitted current value for achievement stat group ".to_owned();
                message.append(to_decimal(*stat_id as u64).as_str());
                message.append("; refusing unsafe write");
                message
            },
        }
    }
}

/// The achievement with the given name, the last one where there are several.
pub open spec fn bit_for(definitions: Seq<BitView>, api_name: Seq<char>) -> Option<BitView>
    decreases definitions.len(),
{
    if definitions.len() == 0 {
        None
    } else if definitions.last().api_name == api_name {
        Some(definitions.last())
    } else {
        bit_for(definitions.drop_last(), api_name)
    }
}

/// The reported value of a group, the last one where there are several.
pub open spec fn value_for(current: Seq<CurrentStat>, stat_id: u32) -> Option<u32>
    decreases current.len(),
{
    if current.len() == 0 {
        None
    } else if current.last().stat_id == Some(stat_id) && current.last().stat_value is Some {
        current.last().stat_value
    } else {
        value_for(current.drop_last(), stat_id)
    }
}

/// Why an unlock cannot be added, if it cannot.
pub open spec fn obstacle(
    definitions: Seq<BitView>,
    current: Seq<CurrentStat>,
    api_name: Seq<char>,
) -> Option<PlanFailure> {
    match bit_for(definitions, api_name) {
        None => Some(PlanFailure::Unknown { api_name }),
        Some(definition) => if definition.bit >= 32 {
            Some(PlanFailure::UnsupportedBit { api_name, bit: definition.bit })
        } else if value_for(current, definition.stat_id) is None {
            Some(PlanFailure::MissingGroup { stat_id: definition.stat_id })
        } else {
            None
        },
    }
}

/// The value of a group with the bits of the first `count` names added to `value`.
pub open spec fn with_unlocks(
    definitions: Seq<BitView>,
    names: Seq<Seq<char>>,
    count: int,
    stat_id: u32,
    value: u32,
) -> u32
    decreases count,
{
    if count <= 0 {
        value
    } else {
        let before = with_unlocks(definitions, names, count - 1, stat_id, value);
        match bit_for(definitions, names[count - 1]) {
            Some(definition) => if definition.stat_id == stat_id {
                before | (1u32 << definition.bit)
            } else {
                before
            },
            None => before,
        }
    }
}

/// The value that a reported group is to have.
pub open spec fn updated_value(
    definitions: Seq<BitView>,
    current: Seq<CurrentStat>,
    names: Seq<Seq<char>>,
    stat_id: u32,
) -> Option<u32> {
    match value_for(current, stat_id) {
        Some(value) => Some(
            with_unlocks(definitions, names, names.len() as int, stat_id, value),
        ),
        None => None,
    }
}

/// Whether `stats` are the groups that gain a bit, in ascending order, each with its whole
/// new value.
pub open spec fn is_additive_plan(
    stats: Seq<StoreStat>,
    definitions: Seq<BitView>,
    current: Seq<CurrentStat>,
    names: Seq<Seq<char>>,
) -> bool {
    &&& forall|i: int|
        0 <= i < stats.len() ==> (#[trigger] stats[i]).stat_id is Some && stats[i].stat_value
            == updated_value(definitions, current, names, stats[i].stat_id.unwrap())
            && stats[i].stat_value is Some && stats[i].stat_value != value_for(
            current,
            stats[i].stat_id.unwrap(),
        )
    &&& forall|i: int, j: int|
        0 <= i < j < stats.len() ==> (#[trigger] stats[i]).stat_id.unwrap() < (
        #[trigger] stats[j]).stat_id.unwrap()
    &&& forall|stat_id: u32| #[trigger]
        updated_value(definitions, current, names, stat_id) != value_for(current, stat_id)
            ==> exists|i: int| 0 <= i < stats.len() && (#[trigger] stats[i]).stat_id == Some(stat_id)
}

/// Whether the first `count` unlocks can be added.
pub open spec fn no_obstacle(
    definitions: Seq<BitView>,
    current: Seq<CurrentStat>,
    names: Seq<Seq<char>>,
    count: int,
) -> bool {
    forall|i: int|
        0 <= i < count ==> (#[trigger] obstacle(definitions, current, names[i])) is None
}

proof fn increasing_items<K: Ord>(items: Seq<K>)
    requires
        vstd::std_specs::btree::increasing_seq(items),
        vstd::laws_cmp::obeys_cmp::<K>(),
    ensures
        forall|i: int, j: int|
            #![trigger items[i], items[j]]
            0 <= i < j < items.len() ==> items[i].cmp_spec(&items[j]) is Less,
{
    broadcast use vstd::std_specs::btree::axiom_increasing_seq_meaning;

}

proof fn references_ascend(ids: Seq<&u32>)
    requires
        vstd::std_specs::btree::increasing_seq(ids),
    ensures
        forall|i: int, j: int| 0 <= i < j < ids.len() ==> *ids[i] < *ids[j],
{
    broadcast use vstd::laws_cmp::group_laws_cmp;

    increasing_items::<&u32>(ids);
    assert forall|i: int, j: int| 0 <= i < j < ids.len() implies *ids[i] < *ids[j] by {
        let (left, right) = (ids[i], ids[j]);
        assert(*left < *right);
    }
}

/// Why the first of the first `count` unlocks that cannot be added cannot.
pub open spec fn first_obstacle(
    definitions: Seq<BitView>,
    current: Seq<CurrentStat>,
    names: Seq<Seq<char>>,
    count: int,
) -> Option<PlanFailure>
    decreases count,
{
    if count <= 0 {
        None
    } else {
        match first_obstacle(definitions, current, names, count - 1) {
            Some(failure) => Some(failure),
            None => obstacle(definitions, current, names[count - 1]),
        }
    }
}

/// There is no first obstacle exactly where there is none.
pub proof fn first_obstacle_is_first(
    definitions: Seq<BitView>,
    current: Seq<CurrentStat>,
    names: Seq<Seq<char>>,
    at: int,
    count: int,
)
    requires
        0 <= at <= count,
    ensures
        first_obstacle(definitions, current, names, count) is None <==> no_obstacle(
            definitions,
            current,
            names,
            count,
        ),
        at < count && no_obstacle(definitions, current, names, at) && obstacle(
            definitions,
            current,
            names[at],
        ) is Some ==> first_obstacle(definitions, current, names, count) == obstacle(
            definitions,
            current,
            names[at],
        ),
    decreases count,
{
    if count > 0 {
        if at < count {
            first_obstacle_is_first(definitions, current, names, at, count - 1);
        } else {
            first_obstacle_is_first(definitions, current, names, at - 1, count - 1);
        }
        assert(obstacle(definitions, current, names[count - 1]) is None || !no_obstacle(
            definitions,
            current,
            names,
            count,
        ));
    }
}

/// Whether a group gains a bit.
pub open spec fn gains_a_bit(
    definitions: Seq<BitView>,
    current: Seq<CurrentStat>,
    names: Seq<Seq<char>>,
) -> bool {
    exists|stat_id: u32| #[trigger]
        updated_value(definitions, current, names, stat_id) != value_for(current, stat_id)
}

/// The members of a set in ascending order.
pub fn ascending_ids(ids: &BTreeSet<u32>) -> (listed: Vec<u32>)
    ensures
        forall|i: int, j: int| 0 <= i < j < listed@.len() ==> listed@[i] < listed@[j],
        forall|id: u32| listed@.contains(id) == ids@.contains(id),
{
    let mut listed: Vec<u32> = Vec::new();
    for id in it: ids.iter()
        invariant
            it.seq().unref().to_set() == ids@,
            vstd::std_specs::btree::increasing_seq(it.seq()),
            listed@ =~= it.seq().unref().take(it.index() as int),
            it.index() == it.seq().len() ==> listed@ =~= it.seq().unref() && (forall|i: int, j: int|
                0 <= i < j < listed@.len() ==> listed@[i] < listed@[j]) && (forall|id: u32|
                listed@.contains(id) == ids@.contains(id)),
    {
        proof {
            let all = it.seq().unref();
            let k = it.index() as int;
            assert(all.take(k + 1) =~= all.take(k).push(all[k]));
            assert(all.take(all.len() as int) =~= all);
            references_ascend(it.seq());
            assert forall|i: int, j: int| 0 <= i < j < all.len() implies all[i] < all[j] by {
                assert(it.seq()[i] == all[i] && it.seq()[j] == all[j]);
            }
            assert forall|id: u32| all.contains(id) == ids@.contains(id) by {
                assert(all.to_set().contains(id) == all.contains(id));
            }
        }
        listed.push(*id);
    }
    listed
}

/// The achievement with the given name.
fn find_bit<'a>(definitions: &'a Vec<AchievementBit>, api_name: &str) -> (found: Option<
    &'a AchievementBit,
>)
    ensures
        match found {
            Some(definition) => bit_for(views(definitions@), api_name@) == Some(definition@)
                && definition@.api_name == api_name@,
            None => bit_for(views(definitions@), api_name@) is None,
        },
{
    let ghost all = views(definitions@);
    let mut i: usize = definitions.len();
    assert(all.take(i as int) =~= all);
    while i > 0
        invariant
            i <= definitions@.len(),
            all == views(definitions@),
            bit_for(all, api_name@) == bit_for(all.take(i as int), api_name@),
        decreases i,
    {
        proof {
            let upto = all.take(i as int);
            assert(upto.last() == definitions@[i - 1]@);
            assert(upto.drop_last() =~= all.take(i - 1));
        }
        if same_text(definitions[i - 1].api_name.as_str(), api_name) {
            return Some(&definitions[i - 1]);
        }
        i -= 1;
    }
    None
}

/// Whether `values` holds the reported values, where `current` are the reports.
spec fn holds_reports(values: Map<u32, u32>, current: Seq<CurrentStat>) -> bool {
    forall|stat_id: u32|
        #![trigger value_for(current, stat_id)]
        match value_for(current, stat_id) {
            Some(value) => values.dom().contains(stat_id) && values[stat_id] == value,
            None => !values.dom().contains(stat_id),
        }
}

/// The reported values by group.
fn reported_values(current: &Vec<CurrentStat>) -> (values: BTreeMap<u32, u32>)
    ensures
        holds_reports(values@, current@),
{
    let mut values: BTreeMap<u32, u32> = BTreeMap::new();
    let mut i: usize = 0;
    while i < current.len()
        invariant
            i <= current@.len(),
            holds_reports(values@, current@.take(i as int)),
        decreases current@.len() - i,
    {
        let ghost before = values@;
        let stat: CurrentStat = current[i];
        if let (Some(stat_id), Some(stat_value)) = (stat.stat_id, stat.stat_value) {
            values.insert(stat_id, stat_value);
        }
        proof {
            let upto = current@.take(i + 1);
            assert(upto.drop_last() =~= current@.take(i as int));
            assert(upto.last() == current@[i as int]);
            assert forall|stat_id: u32|
                #![trigger value_for(upto, stat_id)]
                match value_for(upto, stat_id) {
                    Some(value) => values@.dom().contains(stat_id) && values@[stat_id] == value,
                    None => !values@.dom().contains(stat_id),
                } by {
                assert(value_for(current@.take(i as int), stat_id) == value_for(
                    current@.take(i as int),
                    stat_id,
                ));
            }
        }
        i += 1;
    }
    assert(current@.take(i as int) =~= current@);
    values
}

proof fn adding_keeps_bits(initial: u32, value: u32, added: u32)
    requires
        value & initial == initial,
    ensures
        (value | added) & initial == initial,
        value != initial ==> (value | added) != initial,
{
    assert((value | added) & initial == initial) by (bit_vector)
        requires
            value & initial == initial,
    ;
    assert(value != initial ==> (value | added) != initial) by (bit_vector)
        requires
            value & initial == initial,
    ;
}

proof fn unlocks_keep_bits(
    definitions: Seq<BitView>,
    names: Seq<Seq<char>>,
    count: int,
    stat_id: u32,
    value: u32,
)
    ensures
        with_unlocks(definitions, names, count, stat_id, value) & value == value,
    decreases count,
{
    if count <= 0 {
        assert(value & value == value) by (bit_vector);
    } else {
        unlocks_keep_bits(definitions, names, count - 1, stat_id, value);
        let before = with_unlocks(definitions, names, count - 1, stat_id, value);
        match bit_for(definitions, names[count - 1]) {
            Some(definition) => {
                adding_keeps_bits(value, before, 1u32 << definition.bit);
            },
            None => {},
        }
    }
}

/// Whether `values` holds the values of the reported groups with the first `count` unlocks
/// added, and `changed` the groups that gained a bit.
spec fn holds_updates(
    values: Map<u32, u32>,
    changed: Set<u32>,
    definitions: Seq<BitView>,
    current: Seq<CurrentStat>,
    names: Seq<Seq<char>>,
    count: int,
) -> bool {
    forall|stat_id: u32|
        #![trigger value_for(current, stat_id)]
        match value_for(current, stat_id) {
            Some(value) => {
                let updated = with_unlocks(definitions, names, count, stat_id, value);
                values.dom().contains(stat_id) && values[stat_id] == updated && (changed.contains(
                    stat_id,
                ) == (updated != value))
            },
            None => !values.dom().contains(stat_id) && !changed.contains(stat_id),
        }
}

/// The values to store so that the named achievements are unlocked: whole values, for the
/// groups alone that gain a bit.
///
/// Each value rests on one that Steam has just reported, so that no bit which is set there is
/// cleared. A name that the schema does not have, a bit outside its group or a group that was
/// not reported is refused.
pub fn build_additive_stats(
    definitions: &Vec<AchievementBit>,
    current_stats: &Vec<CurrentStat>,
    api_names: &Vec<String>,
) -> (result: Result<Vec<StoreStat>, PlanError>)
    ensures
        match result {
            Ok(stats) => no_obstacle(
                views(definitions@),
                current_stats@,
                views(api_names@),
                api_names@.len() as int,
            ) && is_additive_plan(
                stats@,
                views(definitions@),
                current_stats@,
                views(api_names@),
            ),
            Err(error) => exists|i: int|
                0 <= i < api_names@.len() && no_obstacle(
                    views(definitions@),
                    current_stats@,
                    views(api_names@),
                    i,
                ) && #[trigger] obstacle(views(definitions@), current_stats@, views(api_names@)[i])
                    == Some(error@),
        },
{
    let ghost defs = views(definitions@);
    let ghost current = current_stats@;
    let ghost names = views(api_names@);
    let mut values: BTreeMap<u32, u32> = reported_values(current_stats);
    let mut changed: BTreeSet<u32> = BTreeSet::new();
    let mut i: usize = 0;
    while i < api_names.len()
        invariant
            i <= api_names@.len(),
            defs == views(definitions@),
            current == current_stats@,
            names == views(api_names@),
            no_obstacle(defs, current, names, i as int),
            holds_updates(values@, changed@, defs, current, names, i as int),
        decreases api_names@.len() - i,
    {
        let ghost values_before = values@;
        let ghost changed_before = changed@;
        assert(names[i as int] == api_names@[i as int]@);
        let definition: &AchievementBit = match find_bit(definitions, api_names[i].as_str()) {
            Some(definition) => definition,
            None => {
                let error: PlanError = PlanError::Unknown { api_name: api_names[i].clone() };
                assert(obstacle(defs, current, names[i as int]) == Some(error@));
                return Err(error);
            },
        };
        if definition.bit >= 32 {
            let error: PlanError = PlanError::UnsupportedBit {
                api_name: definition.api_name.clone(),
                bit: definition.bit,
            };
            assert(obstacle(defs, current, names[i as int]) == Some(error@));
            return Err(error);
        }
        let stat_id: u32 = definition.stat_id;
        let ghost reported = value_for(current, stat_id);
        let value: u32 = match values.get(&stat_id) {
            Some(value) => *value,
            None => {
                let error: PlanError = PlanError::MissingGroup { stat_id };
                assert(obstacle(defs, current, names[i as int]) == Some(error@));
                return Err(error);
            },
        };
        assert(obstacle(defs, current, names[i as int]) is None);
        let updated: u32 = value | (1u32 << definition.bit);
        if updated != value {
            values.insert(stat_id, updated);
            changed.insert(stat_id);
        }
        proof {
            assert forall|id: u32|
                #![trigger value_for(current, id)]
                match value_for(current, id) {
                    Some(value) => {
                        let updated = with_unlocks(defs, names, i + 1, id, value);
                        values@.dom().contains(id) && values@[id] == updated && (changed@.contains(
                            id,
                        ) == (updated != value))
                    },
                    None => !values@.dom().contains(id) && !changed@.contains(id),
                } by {
                if let Some(initial) = value_for(current, id) {
                    unlocks_keep_bits(defs, names, i as int, id, initial);
                    adding_keeps_bits(
                        initial,
                        with_unlocks(defs, names, i as int, id, initial),
                        1u32 << definition.bit,
                    );
                }
            }
        }
        i += 1;
    }
    let ids: Vec<u32> = ascending_ids(&changed);
    let mut stats: Vec<StoreStat> = Vec::new();
    let mut k: usize = 0;
    while k < ids.len()
        invariant
            k <= ids@.len(),
            stats@.len() == k,
            forall|id: u32| ids@.contains(id) == changed@.contains(id),
            holds_updates(values@, changed@, defs, current, names, names.len() as int),
            forall|j: int|
                0 <= j < k ==> (#[trigger] stats@[j]).stat_id == Some(ids@[j]) && stats@[j].stat_value
                    == updated_value(defs, current, names, ids@[j]),
        decreases ids@.len() - k,
    {
        let stat_id: u32 = ids[k];
        proof {
            assert(ids@.contains(stat_id));
            assert(value_for(current, stat_id) == value_for(current, stat_id));
        }
        let stat_value: Option<u32> = match values.get(&stat_id) {
            Some(value) => Some(*value),
            None => None,
        };
        stats.push(StoreStat { stat_id: Some(stat_id), stat_value });
        k += 1;
    }
    proof {
        assert forall|j: int| 0 <= j < stats@.len() implies (#[trigger] stats@[j]).stat_value
            is Some && stats@[j].stat_value != value_for(current, stats@[j].stat_id.unwrap()) by {
            assert(ids@.contains(ids@[j]));
        }
        assert forall|stat_id: u32| #[trigger]
            updated_value(defs, current, names, stat_id) != value_for(
                current,
                stat_id,
            ) implies exists|j: int|
            0 <= j < stats@.len() && (#[trigger] stats@[j]).stat_id == Some(stat_id) by {
            assert(changed@.contains(stat_id));
            let j = choose|j: int| 0 <= j < ids@.len() && ids@[j] == stat_id;
            assert(stats@[j].stat_id == Some(stat_id));
        }
    }
    Ok(stats)
}

/// Whether a bit of a value is set.
pub open spec fn has_bit(value: u32, bit: u32) -> bool {
    (value >> bit) & 1 == 1
}

/// Whether one of the first `count` names is the given bit of a group.
pub open spec fn requests_bit(
    definitions: Seq<BitView>,
    names: Seq<Seq<char>>,
    count: int,
    stat_id: u32,
    bit: u32,
) -> bool {
    exists|k: int|
        0 <= k < count && match #[trigger] bit_for(definitions, names[k]) {
            Some(definition) => definition.stat_id == stat_id && definition.bit == bit,
            None => false,
        }
}

/// Adding unlocks sets the bits that are asked for and changes no other.
pub proof fn unlocks_set_requested_bits(
    definitions: Seq<BitView>,
    names: Seq<Seq<char>>,
    count: int,
    stat_id: u32,
    value: u32,
    bit: u32,
)
    requires
        bit < 32,
        forall|k: int|
            0 <= k < count ==> match #[trigger] bit_for(definitions, names[k]) {
                Some(definition) => definition.bit < 32,
                None => true,
            },
    ensures
        has_bit(with_unlocks(definitions, names, count, stat_id, value), bit) == (has_bit(
            value,
            bit,
        ) || requests_bit(definitions, names, count, stat_id, bit)),
    decreases count,
{
    if count > 0 {
        unlocks_set_requested_bits(definitions, names, count - 1, stat_id, value, bit);
        let before = with_unlocks(definitions, names, count - 1, stat_id, value);
        match bit_for(definitions, names[count - 1]) {
            Some(definition) => {
                let added = definition.bit;
                assert((((before | (1u32 << added)) >> bit) & 1 == 1) == (((before >> bit) & 1 == 1)
                    || added == bit)) by (bit_vector)
                    requires
                        added < 32,
                        bit < 32,
                ;
            },
            None => {},
        }
    }
}

proof fn no_obstacle_bits(
    definitions: Seq<BitView>,
    current: Seq<CurrentStat>,
    names: Seq<Seq<char>>,
    count: int,
)
    requires
        no_obstacle(definitions, current, names, count),
    ensures
        forall|k: int|
            0 <= k < count ==> match #[trigger] bit_for(definitions, names[k]) {
                Some(definition) => definition.bit < 32,
                None => true,
            },
{
    assert forall|k: int| 0 <= k < count implies match #[trigger] bit_for(definitions, names[k]) {
        Some(definition) => definition.bit < 32,
        None => true,
    } by {
        assert(obstacle(definitions, current, names[k]) is None);
    }
}

/// Every bit of a stored value was set on Steam or is one of those asked for, and every bit
/// that was set on Steam stays set: nothing is ever cleared.
pub proof fn stored_values_only_add(
    stats: Seq<StoreStat>,
    definitions: Seq<BitView>,
    current: Seq<CurrentStat>,
    names: Seq<Seq<char>>,
    i: int,
    bit: u32,
)
    requires
        no_obstacle(definitions, current, names, names.len() as int),
        is_additive_plan(stats, definitions, current, names),
        0 <= i < stats.len(),
        bit < 32,
    ensures
        ({
            let stat_id = stats[i].stat_id.unwrap();
            let before = value_for(current, stat_id);
            let after = stats[i].stat_value;
            &&& before is Some && after is Some
            &&& has_bit(before.unwrap(), bit) ==> has_bit(after.unwrap(), bit)
            &&& has_bit(after.unwrap(), bit) && !has_bit(before.unwrap(), bit) ==> requests_bit(
                definitions,
                names,
                names.len() as int,
                stat_id,
                bit,
            )
        }),
{
    let stat_id = stats[i].stat_id.unwrap();
    assert(value_for(current, stat_id) is Some);
    no_obstacle_bits(definitions, current, names, names.len() as int);
    unlocks_set_requested_bits(
        definitions,
        names,
        names.len() as int,
        stat_id,
        value_for(current, stat_id).unwrap(),
        bit,
    );
}

/// Once the plan is stored, every named achievement is unlocked.
pub proof fn every_name_is_unlocked(
    definitions: Seq<BitView>,
    current: Seq<CurrentStat>,
    names: Seq<Seq<char>>,
    k: int,
)
    requires
        no_obstacle(definitions, current, names, names.len() as int),
        0 <= k < names.len(),
    ensures
        ({
            let definition = bit_for(definitions, names[k]).unwrap();
            let after = updated_value(definitions, current, names, definition.stat_id);
            after is Some && has_bit(after.unwrap(), definition.bit)
        }),
{
    assert(obstacle(definitions, current, names[k]) is None);
    let definition = bit_for(definitions, names[k]).unwrap();
    no_obstacle_bits(definitions, current, names, names.len() as int);
    unlocks_set_requested_bits(
        definitions,
        names,
        names.len() as int,
        definition.stat_id,
        value_for(current, definition.stat_id).unwrap(),
        definition.bit,
    );
}

proof fn unlocks_of_full_value(
    definitions: Seq<BitView>,
    names: Seq<Seq<char>>,
    count: int,
    stat_id: u32,
    value: u32,
)
    requires
        forall|k: int|
            0 <= k < count ==> match #[trigger] bit_for(definitions, names[k]) {
                Some(definition) => definition.bit < 32 && (definition.stat_id == stat_id
                    ==> has_bit(value, definition.bit)),
                None => true,
            },
    ensures
        with_unlocks(definitions, names, count, stat_id, value) == value,
    decreases count,
{
    if count > 0 {
        unlocks_of_full_value(definitions, names, count - 1, stat_id, value);
        match bit_for(definitions, names[count - 1]) {
            Some(definition) => {
                let bit = definition.bit;
                assert((value >> bit) & 1 == 1 ==> value | (1u32 << bit) == value) by (bit_vector)
                    requires
                        bit < 32,
                ;
            },
            None => {},
        }
    }
}

/// Asking again for the same achievements, once Steam reports the stored values, stores
/// nothing.
pub proof fn repeating_stores_nothing(
    stats: Seq<StoreStat>,
    definitions: Seq<BitView>,
    current: Seq<CurrentStat>,
    later: Seq<CurrentStat>,
    names: Seq<Seq<char>>,
)
    requires
        no_obstacle(definitions, current, names, names.len() as int),
        forall|stat_id: u32| #[trigger]
            value_for(later, stat_id) == updated_value(definitions, current, names, stat_id),
        is_additive_plan(stats, definitions, later, names),
    ensures
        stats.len() == 0,
{
    if stats.len() > 0 {
        let stat_id = stats[0].stat_id.unwrap();
        assert(stats[0].stat_value != value_for(later, stat_id));
        let value = value_for(later, stat_id).unwrap();
        no_obstacle_bits(definitions, current, names, names.len() as int);
        assert forall|k: int| 0 <= k < names.len() implies match #[trigger] bit_for(
            definitions,
            names[k],
        ) {
            Some(definition) => definition.bit < 32 && (definition.stat_id == stat_id ==> has_bit(
                value,
                definition.bit,
            )),
            None => true,
        } by {
            every_name_is_unlocked(definitions, current, names, k);
        }
        unlocks_of_full_value(definitions, names, names.len() as int, stat_id, value);
    }
}

} // verus!
