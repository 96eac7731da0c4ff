//! What is shown of achievements and what is added to them, told by the values themselves.
use vstd::prelude::*;

use crate::achievement_plan::{
    bit_for, every_name_is_unlocked, first_obstacle_is_first, has_bit, is_additive_plan,
    no_obstacle, obstacle, updated_value, value_for, BitView, CurrentStat, PlanFailure, StoreStat,
};
use crate::achievements::{
    achieved_count, achieved_list, achievement_states, all_found, is_achieved, is_locked,
    is_store_request, joint_unlocks, last_named, missing_names, numeric_name, reported_achievements,
    schema_bits, schema_refusal, shown_list, store_refusal, store_rejection, sync_failure,
    unlock_names, unlock_time_of, AchievementBlock, AchievementFailure, AchievementState,
    AchievementView, ReceivedSchema, ShownAchievement, StoreRequest, StoreResponse, UserStats,
};
use crate::kv::{definitions, nested, stats_of, DefView, KVValue};
use crate::order::{sorted_form, sorting_orders, text_before};
use crate::save_achievements::{save_unlocks, UnlocksError};
use crate::text::{decimal, parsed};

verus! {

/// Whether a block says that a bit of a group was unlocked at `time`. A block without a number is
/// that of group 0.
pub open spec fn says_unlocked(
    block: AchievementBlock,
    stat_id: u32,
    bit: u32,
    time: u64,
) -> bool {
    &&& block.achievement_id == Some(stat_id) || (block.achievement_id is None && stat_id == 0)
    &&& bit < block.unlock_time@.len()
    &&& block.unlock_time@[bit as int] == time
    &&& time > 0
}

proof fn times_come_from_blocks(
    blocks: Seq<AchievementBlock>,
    stat_id: u32,
    bit: u32,
    count: int,
)
    requires
        0 <= count <= blocks.len(),
    ensures
        ({
            let time = unlock_time_of(blocks, stat_id, bit, count);
            &&& time > 0 ==> exists|i: int|
                0 <= i < count && #[trigger] says_unlocked(blocks[i], stat_id, bit, time)
                    && forall|k: int, other: u64|
                    i < k < count ==> !#[trigger] says_unlocked(blocks[k], stat_id, bit, other)
            &&& time == 0 ==> forall|k: int, other: u64|
                0 <= k < count ==> !#[trigger] says_unlocked(blocks[k], stat_id, bit, other)
        }),
    decreases count,
{
    if count > 0 {
        times_come_from_blocks(blocks, stat_id, bit, count - 1);
        let block = blocks[count - 1];
        let time = unlock_time_of(blocks, stat_id, bit, count);
        if bit < block.unlock_time@.len() && says_unlocked(
            block,
            stat_id,
            bit,
            block.unlock_time@[bit as int] as u64,
        ) {
            assert(says_unlocked(blocks[count - 1], stat_id, bit, time));
        } else if time > 0 {
            let i = choose|i: int|
                0 <= i < count - 1 && #[trigger] says_unlocked(blocks[i], stat_id, bit, time)
                    && forall|k: int, other: u64|
                    i < k < count - 1 ==> !#[trigger] says_unlocked(blocks[k], stat_id, bit, other);
            assert forall|k: int, other: u64|
                i < k < count implies !#[trigger] says_unlocked(blocks[k], stat_id, bit, other) by {
                if k == count - 1 && says_unlocked(blocks[k], stat_id, bit, other) {
                    assert(other == block.unlock_time@[bit as int]);
                }
            }
        }
    }
}

/// Every achievement of the schema is reported, in its order and with its texts. It is unlocked
/// exactly where a block of its group has a time at its bit, and then since the time that the last
/// such block says.
pub proof fn achievements_are_unlocked_by_their_bits(
    schema: Seq<DefView>,
    blocks: Seq<AchievementBlock>,
    at: int,
)
    requires
        0 <= at < schema.len(),
    ensures
        ({
            let states = achievement_states(schema, blocks);
            let (definition, state) = (schema[at], states[at]);
            &&& states.len() == schema.len()
            &&& state.apiname == definition.api_name
            &&& state.name == definition.display_name
            &&& state.description == definition.description
            &&& state.achieved == (state.unlocktime > 0)
            &&& state.achieved ==> exists|i: int|
                0 <= i < blocks.len() && #[trigger] says_unlocked(
                    blocks[i],
                    definition.stat_id,
                    definition.bit,
                    state.unlocktime,
                ) && forall|k: int, other: u64|
                    i < k < blocks.len() ==> !#[trigger] says_unlocked(
                        blocks[k],
                        definition.stat_id,
                        definition.bit,
                        other,
                    )
            &&& !state.achieved ==> forall|k: int, other: u64|
                0 <= k < blocks.len() ==> !#[trigger] says_unlocked(
                    blocks[k],
                    definition.stat_id,
                    definition.bit,
                    other,
                )
        }),
{
    times_come_from_blocks(blocks, schema[at].stat_id, schema[at].bit, blocks.len() as int);
}

/// What is known of a name: the last achievement that has it.
pub proof fn names_are_known_by_their_last(achievements: Seq<AchievementState>, name: Seq<char>)
    ensures
        match last_named(achievements, name) {
            Some(state) => exists|i: int|
                0 <= i < achievements.len() && (#[trigger] achievements[i]) == state && state.apiname
                    == name && forall|k: int|
                    i < k < achievements.len() ==> (#[trigger] achievements[k]).apiname != name,
            None => forall|k: int|
                0 <= k < achievements.len() ==> (#[trigger] achievements[k]).apiname != name,
        },
        is_locked(achievements, name) ==> exists|i: int|
            0 <= i < achievements.len() && (#[trigger] achievements[i]).apiname == name
                && !achievements[i].achieved && forall|k: int|
                i < k < achievements.len() ==> (#[trigger] achievements[k]).apiname != name,
        is_achieved(achievements, name) ==> exists|i: int|
            0 <= i < achievements.len() && (#[trigger] achievements[i]).apiname == name
                && achievements[i].achieved && forall|k: int|
                i < k < achievements.len() ==> (#[trigger] achievements[k]).apiname != name,
        !is_locked(achievements, name) && !is_achieved(achievements, name) ==> forall|k: int|
            0 <= k < achievements.len() ==> (#[trigger] achievements[k]).apiname != name,
    decreases achievements.len(),
{
    if achievements.len() > 0 {
        let rest = achievements.drop_last();
        let last = achievements.len() - 1;
        names_are_known_by_their_last(rest, name);
        if achievements[last].apiname != name {
            match last_named(rest, name) {
                Some(state) => {
                    let i = choose|i: int|
                        0 <= i < rest.len() && (#[trigger] rest[i]) == state && state.apiname == name
                            && forall|k: int|
                            i < k < rest.len() ==> (#[trigger] rest[k]).apiname != name;
                    assert(achievements[i] == state);
                    assert forall|k: int| i < k < achievements.len() implies (
                    #[trigger] achievements[k]).apiname != name by {
                        if k < last {
                            assert(rest[k] == achievements[k]);
                        }
                    }
                },
                None => {
                    assert forall|k: int| 0 <= k < achievements.len() implies (
                    #[trigger] achievements[k]).apiname != name by {
                        if k < last {
                            assert(rest[k] == achievements[k]);
                        }
                    }
                },
            }
        }
    }
}

/// Which of the names are locked on Steam.
spec fn missing_positions(
    names: Seq<Seq<char>>,
    achievements: Seq<AchievementState>,
    count: int,
) -> Seq<int>
    decreases count,
{
    if count <= 0 {
        seq![]
    } else if is_locked(achievements, names[count - 1]) {
        missing_positions(names, achievements, count - 1).push(count - 1)
    } else {
        missing_positions(names, achievements, count - 1)
    }
}

/// Whether `chosen` are the items of `all` that are picked, in their order.
pub open spec fn are_picked(all: Seq<Seq<char>>, picks: Seq<int>, chosen: Seq<Seq<char>>) -> bool {
    &&& picks.len() == chosen.len()
    &&& forall|k: int|
        0 <= k < picks.len() ==> 0 <= #[trigger] picks[k] < all.len() && chosen[k] == all[picks[k]]
    &&& forall|k: int, l: int| 0 <= k < l < picks.len() ==> #[trigger] picks[k] < #[trigger] picks[l]
}

proof fn missing_positions_fit(
    names: Seq<Seq<char>>,
    achievements: Seq<AchievementState>,
    count: int,
)
    requires
        0 <= count <= names.len(),
    ensures
        ({
            let picks = missing_positions(names, achievements, count);
            &&& are_picked(names, picks, missing_names(names, achievements, count))
            &&& forall|k: int| 0 <= k < picks.len() ==> #[trigger] picks[k] < count
            &&& forall|i: int|
                0 <= i < count ==> (picks.contains(i) <==> is_locked(
                    achievements,
                    #[trigger] names[i],
                ))
        }),
    decreases count,
{
    if count > 0 {
        missing_positions_fit(names, achievements, count - 1);
        let before = missing_positions(names, achievements, count - 1);
        let picks = missing_positions(names, achievements, count);
        assert forall|i: int| 0 <= i < count implies (picks.contains(i) <==> is_locked(
            achievements,
            #[trigger] names[i],
        )) by {
            if before.contains(i) {
                let k = choose|k: int| 0 <= k < before.len() && before[k] == i;
                assert(picks[k] == i);
            }
            if picks.contains(i) && i < count - 1 {
                let k = choose|k: int| 0 <= k < picks.len() && picks[k] == i;
                assert(before[k] == i);
            }
            if i == count - 1 && is_locked(achievements, names[i]) {
                assert(picks[picks.len() - 1] == i);
            }
        }
    }
}

/// The unlocks that are added are those of the saves, by their numbers in decimal, that Steam has
/// locked: all of them, each once and in their order.
pub proof fn missing_unlocks_are_added_in_order(ids: Seq<u32>, known: Seq<AchievementState>)
    ensures
        ({
            let names = unlock_names(ids);
            let added = missing_names(names, known, ids.len() as int);
            &&& names.len() == ids.len()
            &&& forall|i: int| 0 <= i < ids.len() ==> #[trigger] names[i] == decimal(ids[i] as nat)
            &&& exists|picks: Seq<int>| #[trigger]
                are_picked(names, picks, added) && forall|i: int|
                    0 <= i < names.len() ==> (picks.contains(i) <==> is_locked(
                        known,
                        #[trigger] names[i],
                    ))
        }),
{
    let names = unlock_names(ids);
    missing_positions_fit(names, known, ids.len() as int);
    let picks = missing_positions(names, known, ids.len() as int);
    assert(are_picked(names, picks, missing_names(names, known, ids.len() as int)));
}

/// What reading the unlocks of the save at `at` gives.
#[verifier::opaque]
pub open spec fn unlocks_at(saves: Seq<Seq<u8>>, at: int) -> Result<Set<u32>, UnlocksError> {
    save_unlocks(saves[at])
}

proof fn joint_unlocks_step(saves: Seq<Seq<u8>>, count: int)
    requires
        0 < count,
    ensures
        joint_unlocks(saves, count) == match joint_unlocks(saves, count - 1) {
            Err(failure) => Err(failure),
            Ok(unlocked) => match unlocks_at(saves, count - 1) {
                Ok(more) => Ok(unlocked.union(more)),
                Err(error) => Err((count - 1, error)),
            },
        },
{
    reveal(unlocks_at);
}

/// The unlocks of several saves are those of each of them together; the first save that cannot be
/// read is told.
pub proof fn saves_are_unlocked_together(saves: Seq<Seq<u8>>, count: int)
    requires
        0 <= count <= saves.len(),
    ensures
        match joint_unlocks(saves, count) {
            Ok(unlocked) => (forall|i: int|
                0 <= i < count ==> (#[trigger] unlocks_at(saves, i)) is Ok) && forall|id: u32|
                unlocked.contains(id) <==> exists|i: int|
                    0 <= i < count && (#[trigger] unlocks_at(saves, i))->Ok_0.contains(id),
            Err((at, error)) => 0 <= at < count && unlocks_at(saves, at) == Err::<
                Set<u32>,
                UnlocksError,
            >(error) && forall|i: int| 0 <= i < at ==> (#[trigger] unlocks_at(saves, i)) is Ok,
        },
    decreases count,
{
    if count > 0 {
        saves_are_unlocked_together(saves, count - 1);
        joint_unlocks_step(saves, count);
        if let Ok(before) = joint_unlocks(saves, count - 1) {
            if let Ok(more) = unlocks_at(saves, count - 1) {
                let unlocked = joint_unlocks(saves, count)->Ok_0;
                assert forall|id: u32| unlocked.contains(id) implies exists|i: int|
                    0 <= i < count && (#[trigger] unlocks_at(saves, i))->Ok_0.contains(id) by {
                    if before.contains(id) {
                        let i = choose|i: int|
                            0 <= i < count - 1 && (#[trigger] unlocks_at(
                                saves,
                                i,
                            ))->Ok_0.contains(id);
                        assert(unlocks_at(saves, i)->Ok_0.contains(id));
                    } else {
                        assert(unlocks_at(saves, count - 1)->Ok_0.contains(id));
                    }
                }
                assert forall|id: u32|
                    (exists|i: int|
                        0 <= i < count && (#[trigger] unlocks_at(saves, i))->Ok_0.contains(
                            id,
                        )) implies unlocked.contains(id) by {
                    let i = choose|i: int|
                        0 <= i < count && (#[trigger] unlocks_at(saves, i))->Ok_0.contains(id);
                    if i < count - 1 {
                        assert(before.contains(id));
                    }
                }
            }
        }
    }
}

/// The bit of a name is that of the last definition that has it.
pub proof fn bits_are_those_of_the_last_definition(definitions: Seq<BitView>, name: Seq<char>)
    ensures
        match bit_for(definitions, name) {
            Some(definition) => exists|i: int|
                0 <= i < definitions.len() && (#[trigger] definitions[i]) == definition
                    && definition.api_name == name && forall|k: int|
                    i < k < definitions.len() ==> (#[trigger] definitions[k]).api_name != name,
            None => forall|k: int|
                0 <= k < definitions.len() ==> (#[trigger] definitions[k]).api_name != name,
        },
    decreases definitions.len(),
{
    if definitions.len() > 0 {
        let rest = definitions.drop_last();
        let last = definitions.len() - 1;
        bits_are_those_of_the_last_definition(rest, name);
        if definitions[last].api_name != name {
            assert forall|k: int| 0 <= k < last implies #[trigger] definitions[k] == rest[k] by {}
            if let Some(definition) = bit_for(rest, name) {
                let i = choose|i: int|
                    0 <= i < rest.len() && (#[trigger] rest[i]) == definition
                        && definition.api_name == name && forall|k: int|
                        i < k < rest.len() ==> (#[trigger] rest[k]).api_name != name;
                assert(definitions[i] == definition);
            }
        }
    }
}

/// The value of a group is the last that Steam reported for it; a group without a reported value
/// has none, and none is made up.
pub proof fn values_are_the_last_reported(current: Seq<CurrentStat>, stat_id: u32)
    ensures
        match value_for(current, stat_id) {
            Some(value) => exists|i: int|
                0 <= i < current.len() && (#[trigger] current[i]).stat_id == Some(stat_id)
                    && current[i].stat_value == Some(value) && forall|k: int|
                    i < k < current.len() ==> (#[trigger] current[k]).stat_id != Some(stat_id)
                        || current[k].stat_value is None,
            None => forall|k: int|
                0 <= k < current.len() ==> (#[trigger] current[k]).stat_id != Some(stat_id)
                    || current[k].stat_value is None,
        },
    decreases current.len(),
{
    if current.len() > 0 {
        let rest = current.drop_last();
        let last = current.len() - 1;
        values_are_the_last_reported(rest, stat_id);
        assert forall|k: int| 0 <= k < last implies #[trigger] current[k] == rest[k] by {}
        if current[last].stat_id == Some(stat_id) && current[last].stat_value is Some {
            assert(current[last].stat_value == value_for(current, stat_id));
        } else if let Some(value) = value_for(rest, stat_id) {
            let i = choose|i: int|
                0 <= i < rest.len() && (#[trigger] rest[i]).stat_id == Some(stat_id)
                    && rest[i].stat_value == Some(value) && forall|k: int|
                    i < k < rest.len() ==> (#[trigger] rest[k]).stat_id != Some(stat_id)
                        || rest[k].stat_value is None;
            assert(current[i].stat_value == Some(value));
        }
    }
}

/// An unlock can be added unless the schema does not know it, its bit lies outside the 32 of its
/// group, or Steam did not report the group.
pub proof fn unlocks_need_a_known_bit(
    definitions: Seq<BitView>,
    current: Seq<CurrentStat>,
    name: Seq<char>,
)
    ensures
        match (obstacle(definitions, current, name), bit_for(definitions, name)) {
            (None, Some(definition)) => definition.bit <= 31 && value_for(
                current,
                definition.stat_id,
            ) is Some,
            (Some(PlanFailure::Unknown { api_name }), None) => api_name == name,
            (Some(PlanFailure::UnsupportedBit { api_name, bit }), Some(definition)) => api_name
                == name && bit == definition.bit && bit > 31,
            (Some(PlanFailure::MissingGroup { stat_id }), Some(definition)) => stat_id
                == definition.stat_id && definition.bit <= 31 && value_for(current, stat_id)
                is None,
            _ => false,
        },
{
}

/// The bits of a schema are those of its achievements, in their order; without a schema with
/// nested stats there are none, and that is told.
pub proof fn schemas_are_read_or_refused(schema: ReceivedSchema, at: int)
    ensures
        match schema {
            ReceivedSchema::Missing => schema_refusal(schema) == Some(
                AchievementFailure::SchemaMissing,
            ),
            ReceivedSchema::Unreadable => schema_refusal(schema) == Some(
                AchievementFailure::SchemaUnparsed,
            ),
            ReceivedSchema::Read(root) => match stats_of(root) {
                None => schema_refusal(schema) == Some(AchievementFailure::NoStatsNode),
                Some(stats) => {
                    &&& nested(stats) is None ==> schema_refusal(schema) == Some(
                        AchievementFailure::StatsNotNested,
                    )
                    &&& nested(stats) is Some ==> schema_refusal(schema) is None
                },
            },
        },
        schema matches ReceivedSchema::Read(root) ==> {
            let (found, bits) = (definitions(root), schema_bits(schema));
            &&& bits.len() == found.len()
            &&& 0 <= at < found.len() ==> bits[at].stat_id == found[at].stat_id && bits[at].bit
                == found[at].bit && bits[at].api_name == found[at].api_name
        },
{
}

/// A request to store stats is for the game, from the user for the user, with the CRC that Steam
/// reported, and never resets anything.
pub proof fn stores_are_for_the_user_and_never_reset(
    request: StoreRequest,
    steam_id: Option<u64>,
    current: UserStats,
    schema: ReceivedSchema,
    names: Seq<Seq<char>>,
)
    requires
        is_store_request(request, steam_id, current, schema, names),
    ensures
        request.game_id == Some(250_900u64),
        request.settor_steam_id == steam_id && request.settee_steam_id == steam_id,
        request.crc_stats is Some && request.crc_stats == current.crc_stats,
        request.explicit_reset == Some(false),
        request.stats@.len() > 0,
        is_additive_plan(request.stats@, schema_bits(schema), current.stats@, names),
{
    let bits = schema_bits(schema);
    let stat_id = choose|stat_id: u32| #[trigger]
        updated_value(bits, current.stats@, names, stat_id) != value_for(
            current.stats@,
            stat_id,
        );
    assert(updated_value(bits, current.stats@, names, stat_id)
        != value_for(current.stats@, stat_id));
}

/// Nothing is stored without an account, without stats that Steam says are good, or without a
/// readable schema.
pub proof fn unsafe_stores_are_refused(
    steam_id: Option<u64>,
    current: UserStats,
    schema: ReceivedSchema,
    names: Seq<Seq<char>>,
)
    ensures
        steam_id is None ==> store_refusal(steam_id, current, schema, names) == Some(
            AchievementFailure::SteamIdMissing,
        ),
        steam_id is Some && current.eresult != Some(1i32) ==> store_refusal(
            steam_id,
            current,
            schema,
            names,
        ) == Some(AchievementFailure::RefreshFailed { eresult: current.eresult }),
        steam_id is Some && current.eresult == Some(1i32) && schema_refusal(schema) is Some
            ==> store_refusal(steam_id, current, schema, names) == schema_refusal(schema),
        store_refusal(steam_id, current, schema, names) is None ==> forall|k: int|
            0 <= k < names.len() ==> (#[trigger] obstacle(
                schema_bits(schema),
                current.stats@,
                names[k],
            )) is None,
{
    first_obstacle_is_first(
        schema_bits(schema),
        current.stats@,
        names,
        0,
        names.len() as int,
    );
}

/// A store counts only where Steam says that it is good, does not say that the stats were out of
/// date, and accepted every group.
pub proof fn stores_count_where_steam_took_them(response: StoreResponse)
    ensures
        store_rejection(response) is None <==> response.eresult == Some(1i32)
            && response.stats_out_of_date != Some(true) && response.stats_failed_validation == 0,
        response.eresult != Some(1i32) ==> store_rejection(response) == Some(
            AchievementFailure::StoreFailed { eresult: response.eresult },
        ),
        response.eresult == Some(1i32) && response.stats_out_of_date == Some(true)
            ==> store_rejection(response) == Some(AchievementFailure::OutOfDate),
        response.eresult == Some(1i32) && response.stats_out_of_date != Some(true)
            && response.stats_failed_validation > 0 ==> store_rejection(response) == Some(
            AchievementFailure::FailedValidation { groups: response.stats_failed_validation },
        ),
{
}

/// A name of the first `count` is listed as unlocked exactly where one of them has it and is.
pub proof fn unlocked_names_are_listed(
    achievements: Seq<AchievementState>,
    count: int,
    name: Seq<char>,
)
    requires
        0 <= count <= achievements.len(),
    ensures
        achieved_list(achievements, count).contains(name) <==> exists|i: int|
            0 <= i < count && (#[trigger] achievements[i]).apiname == name
                && achievements[i].achieved,
    decreases count,
{
    if count > 0 {
        unlocked_names_are_listed(achievements, count - 1, name);
        let before = achieved_list(achievements, count - 1);
        let after = achieved_list(achievements, count);
        if before.contains(name) {
            let k = choose|k: int| 0 <= k < before.len() && before[k] == name;
            assert(after[k] == name);
        }
        if achievements[count - 1].achieved {
            assert(after[after.len() - 1] == achievements[count - 1].apiname);
            if after.contains(name) && name != achievements[count - 1].apiname {
                let k = choose|k: int| 0 <= k < after.len() && after[k] == name;
                assert(before[k] == name);
            }
        }
    }
}

proof fn counted_names_are_unlocked(
    names: Seq<Seq<char>>,
    verified: Seq<AchievementState>,
    count: int,
)
    requires
        0 <= count <= names.len(),
    ensures
        achieved_count(names, verified, count) <= count,
        achieved_count(names, verified, count) == count <==> forall|k: int|
            0 <= k < count ==> is_achieved(verified, #[trigger] names[k]),
    decreases count,
{
    if count > 0 {
        counted_names_are_unlocked(names, verified, count - 1);
        if achieved_count(names, verified, count) == count {
            assert(is_achieved(verified, names[count - 1]));
        }
    }
}

/// A synchronization of achievements counts exactly where everything that was unlocked before
/// still is, and everything that was added is found unlocked. A loss is told before anything else.
pub proof fn added_unlocks_count_where_nothing_was_lost(
    previously: Seq<Seq<char>>,
    names: Seq<Seq<char>>,
    verified: Seq<AchievementState>,
)
    ensures
        ({
            let kept = all_found(previously, verified);
            let found = forall|k: int|
                0 <= k < names.len() ==> is_achieved(verified, #[trigger] names[k]);
            &&& sync_failure(previously, names, verified) is None <==> kept && found
            &&& !kept ==> sync_failure(previously, names, verified) is Some
                && sync_failure(previously, names, verified).unwrap() is LostUnlocks
            &&& kept && !found ==> sync_failure(previously, names, verified) is Some
                && sync_failure(previously, names, verified).unwrap() is NotAllVerified
        }),
{
    crate::achievements::preservation_check_is_exact(previously, verified);
    counted_names_are_unlocked(names, verified, names.len() as int);
}

/// Whether an achievement is shown as it is: with what Steam reports, and with whether a save on
/// the device has it.
pub open spec fn is_shown_as(
    shown: ShownAchievement,
    state: AchievementState,
    local: Seq<Seq<char>>,
) -> bool {
    &&& shown.api_name == state.apiname && shown.display_name == state.name
    &&& shown.achieved == state.achieved && shown.unlock_time == state.unlocktime
    &&& shown.present_in_local_save == local.contains(state.apiname)
}

/// Whether the achievement at `at` is the last of its name.
pub open spec fn is_last_of_name(achievements: Seq<AchievementState>, at: int) -> bool {
    &&& 0 <= at < achievements.len()
    &&& forall|k: int|
        at < k < achievements.len() ==> (#[trigger] achievements[k]).apiname
            != achievements[at].apiname
}

proof fn last_of_each_name_is_shown(
    achievements: Seq<AchievementState>,
    local: Seq<Seq<char>>,
    count: int,
)
    requires
        0 <= count <= achievements.len(),
    ensures
        ({
            let list = shown_list(achievements, local, count);
            &&& forall|k: int|
                0 <= k < list.len() ==> exists|i: int|
                    i < count && #[trigger] is_last_of_name(achievements, i) && is_shown_as(
                        #[trigger] list[k],
                        achievements[i],
                        local,
                    )
            &&& forall|i: int|
                i < count && #[trigger] is_last_of_name(achievements, i) ==> shows(
                    list,
                    achievements[i],
                    local,
                )
        }),
    decreases count,
{
    if count > 0 {
        last_of_each_name_is_shown(achievements, local, count - 1);
        let before = shown_list(achievements, local, count - 1);
        let list = shown_list(achievements, local, count);
        let last = count - 1;
        assert(is_last_of_name(achievements, last)
            == !crate::achievements::named_later(achievements, last));
        assert forall|k: int| 0 <= k < list.len() implies exists|i: int|
            i < count && #[trigger] is_last_of_name(achievements, i) && is_shown_as(
                #[trigger] list[k],
                achievements[i],
                local,
            ) by {
            if k < before.len() {
                assert(list[k] == before[k]);
                let i = choose|i: int|
                    i < count - 1 && #[trigger] is_last_of_name(achievements, i) && is_shown_as(
                        before[k],
                        achievements[i],
                        local,
                    );
                assert(is_last_of_name(achievements, i));
            } else {
                assert(is_last_of_name(achievements, last));
            }
        }
        assert forall|i: int|
            i < count && #[trigger] is_last_of_name(achievements, i) implies shows(
            list,
            achievements[i],
            local,
        ) by {
            if i < last {
                assert(shows(before, achievements[i], local));
                let k = choose|k: int|
                    0 <= k < before.len() && is_shown_as(
                        #[trigger] before[k],
                        achievements[i],
                        local,
                    );
                assert(list[k] == before[k]);
            } else {
                assert(is_shown_as(list[list.len() - 1], achievements[i], local));
            }
        }
    }
}

/// Whether an achievement is in a list as it is.
pub open spec fn shows(
    list: Seq<ShownAchievement>,
    state: AchievementState,
    local: Seq<Seq<char>>,
) -> bool {
    exists|k: int| 0 <= k < list.len() && is_shown_as(#[trigger] list[k], state, local)
}

/// The list that is shown holds the last achievement of each name as it is, and nothing else. It
/// is ordered by the numbers that the names are, names that are none last, and where those are
/// equal by the names.
pub proof fn achievements_are_shown_by_number(
    achievements: Seq<AchievementState>,
    local: Seq<Seq<char>>,
)
    ensures
        ({
            let list = sorted_form::<AchievementView>(
                shown_list(achievements, local, achievements.len() as int),
            );
            &&& forall|i: int| #[trigger]
                is_last_of_name(achievements, i) ==> shows(list, achievements[i], local)
            &&& forall|k: int|
                0 <= k < list.len() ==> exists|i: int| #[trigger]
                    is_last_of_name(achievements, i) && is_shown_as(
                        #[trigger] list[k],
                        achievements[i],
                        local,
                    )
            &&& forall|k: int, l: int|
                0 <= k < l < list.len() ==> {
                    let (a, b) = (
                        (#[trigger] list[k]).api_name,
                        (#[trigger] list[l]).api_name,
                    );
                    numeric_name(a) < numeric_name(b) || (numeric_name(a) == numeric_name(b)
                        && !text_before(b, a))
                }
        }),
{
    broadcast use vstd::seq_lib::group_to_multiset_ensures;

    let unsorted = shown_list(achievements, local, achievements.len() as int);
    let list = sorted_form::<AchievementView>(unsorted);
    last_of_each_name_is_shown(achievements, local, achievements.len() as int);
    sorting_orders::<AchievementView>(unsorted);
    assert forall|item: ShownAchievement| #[trigger]
        list.contains(item) <==> unsorted.contains(item) by {
        assert(list.contains(item) <==> list.to_multiset().count(item) > 0);
        assert(unsorted.contains(item) <==> unsorted.to_multiset().count(item) > 0);
    }
    assert forall|i: int| #[trigger] is_last_of_name(achievements, i) implies shows(
        list,
        achievements[i],
        local,
    ) by {
        assert(shows(unsorted, achievements[i], local));
        let k = choose|k: int|
            0 <= k < unsorted.len() && is_shown_as(#[trigger] unsorted[k], achievements[i], local);
        assert(unsorted.contains(unsorted[k]));
        assert(list.contains(unsorted[k]));
        let l = choose|l: int| 0 <= l < list.len() && list[l] == unsorted[k];
        assert(is_shown_as(list[l], achievements[i], local));
    }
    assert forall|k: int| 0 <= k < list.len() implies exists|i: int| #[trigger]
        is_last_of_name(achievements, i) && is_shown_as(
            #[trigger] list[k],
            achievements[i],
            local,
        ) by {
        assert(list.contains(list[k]));
        assert(unsorted.contains(list[k]));
        let l = choose|l: int| 0 <= l < unsorted.len() && unsorted[l] == list[k];
        assert(is_shown_as(unsorted[l], achievements[choose|i: int|
            i < achievements.len() && #[trigger] is_last_of_name(achievements, i) && is_shown_as(
                unsorted[l],
                achievements[i],
                local,
            )], local));
    }
    assert forall|k: int, l: int| 0 <= k < l < list.len() implies ({
        let (a, b) = ((#[trigger] list[k]).api_name, (#[trigger] list[l]).api_name);
        numeric_name(a) < numeric_name(b) || (numeric_name(a) == numeric_name(b) && !text_before(
            b,
            a,
        ))
    }) by {
        assert(!<AchievementView as crate::order::Ranked>::precedes(list[l], list[k]));
    }
}

/// A name is ordered by the number that it is in decimal, and behind all numbers where it is none.
pub proof fn names_are_ordered_by_number(name: Seq<char>, n: u64)
    ensures
        parsed(name, 0xffff_ffff_ffff_ffff) == Some(n as int) ==> numeric_name(name) == n,
        parsed(name, 0xffff_ffff_ffff_ffff) is None ==> numeric_name(name)
            == 0xffff_ffff_ffff_ffff,
{
}

/// A store unlocks every name that it is for: the bit of the name is set already, or it is set in
/// the value that the store gives its group. Each group occurs once, in ascending order.
pub proof fn stores_unlock_every_name(
    stats: Seq<StoreStat>,
    definitions: Seq<BitView>,
    current: Seq<CurrentStat>,
    names: Seq<Seq<char>>,
    k: int,
)
    requires
        no_obstacle(definitions, current, names, names.len() as int),
        is_additive_plan(stats, definitions, current, names),
        0 <= k < names.len(),
    ensures
        ({
            let definition = bit_for(definitions, names[k]).unwrap();
            let before = value_for(current, definition.stat_id);
            (before matches Some(value) && has_bit(value, definition.bit)) || exists|i: int|
                0 <= i < stats.len() && (#[trigger] stats[i]).stat_id == Some(definition.stat_id) && (
                stats[i].stat_value matches Some(value) && has_bit(value, definition.bit))
        }),
        forall|i: int, j: int|
            0 <= i < j < stats.len() ==> (#[trigger] stats[i]).stat_id.unwrap() < (
            #[trigger] stats[j]).stat_id.unwrap(),
{
    every_name_is_unlocked(definitions, current, names, k);
    let definition = bit_for(definitions, names[k]).unwrap();
    let after = updated_value(definitions, current, names, definition.stat_id);
    if after != value_for(current, definition.stat_id) {
        let i = choose|i: int|
            0 <= i < stats.len() && (#[trigger] stats[i]).stat_id == Some(definition.stat_id);
        assert(stats[i].stat_value == after);
    }
}

/// The achievements that are reported are those of the schema, one for each, and none without a
/// schema.
pub proof fn reported_achievements_are_those_of_the_schema(
    root: KVValue,
    blocks: Seq<AchievementBlock>,
)
    ensures
        reported_achievements(Some(root), blocks) == achievement_states(definitions(root), blocks),
        reported_achievements(Some(root), blocks).len() == definitions(root).len(),
        reported_achievements(None, blocks).len() == 0,
{
}

} // verus!
