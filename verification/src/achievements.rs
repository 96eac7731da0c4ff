//! Synchronizing achievements: from the saves on the device to Steam, and never back.
use std::collections::BTreeSet;
use vstd::prelude::*;

use crate::achievement_plan::{
    build_additive_stats, first_obstacle, first_obstacle_is_first, gains_a_bit, is_additive_plan,
    no_obstacle, updated_value, value_for, AchievementBit, BitView, CurrentStat, PlanError,
    PlanFailure, StoreStat,
};
use crate::kv::{
    definitions, extract_achievements, find_stats_node, nested, stats_of, AchievementDef, DefView,
    KVValue,
};
use crate::model::STEAM_APP_ID;
use crate::order::{
    is_text_before, sorted_form, stable_sort, text_before, text_order, views, Ranked,
};
use crate::save_achievements::{save_unlocks, unlocked_achievement_ids, UnlocksError};
use crate::text::{
    chars_of, decimal, optional_text, parse_decimal, parsed, same_text, signed_decimal, to_decimal,
    to_signed_decimal,
};

verus! {

/// Steam's result for success.
pub const ERESULT_OK: i32 = 1;

/// How long a request may take.
pub const REQUEST_TIMEOUT_SECS: u64 = 20;

/// How often stored unlocks are looked for.
pub const VERIFY_ATTEMPTS: usize = 4;

/// How long to wait between two looks.
pub const VERIFY_DELAY_MS: u64 = 250;

/// How long Steam is given to register the game as played.
pub const GAMES_PLAYED_RETRY_DELAY_MS: u64 = 500;

/// An achievement as Steam reports it.
#[derive(Debug)]
pub struct ProtocolAchievement {
    pub apiname: String,
    pub achieved: bool,
    /// Seconds since the Unix epoch, 0 where it is locked.
    pub unlocktime: u64,
    pub name: Option<String>,
    pub description: Option<String>,
}

/// What a `ProtocolAchievement` holds.
pub struct AchievementState {
    pub apiname: Seq<char>,
    pub achieved: bool,
    pub unlocktime: u64,
    pub name: Option<Seq<char>>,
    pub description: Option<Seq<char>>,
}

impl View for ProtocolAchievement {
    type V = AchievementState;

    open spec fn view(&self) -> AchievementState {
        AchievementState {
            apiname: self.apiname@,
            achieved: self.achieved,
            unlocktime: self.unlocktime,
            name: optional_text(self.name),
            description: optional_text(self.description),
        }
    }
}

impl Clone for ProtocolAchievement {
    fn clone(&self) -> (copy: Self)
        ensures
            copy@ == self@,
    {
        ProtocolAchievement {
            apiname: self.apiname.clone(),
            achieved: self.achieved,
            unlocktime: self.unlocktime,
            name: self.name.clone(),
            description: self.description.clone(),
        }
    }
}

/// An achievement as it is shown.
#[derive(Debug)]
pub struct AchievementView {
    pub api_name: String,
    pub display_name: Option<String>,
    pub achieved: bool,
    pub unlock_time: u64,
    /// Whether a save on the device has it.
    pub present_in_local_save: bool,
}

/// What an `AchievementView` holds.
pub struct ShownAchievement {
    pub api_name: Seq<char>,
    pub display_name: Option<Seq<char>>,
    pub achieved: bool,
    pub unlock_time: u64,
    pub present_in_local_save: bool,
}

impl View for AchievementView {
    type V = ShownAchievement;

    open spec fn view(&self) -> ShownAchievement {
        ShownAchievement {
            api_name: self.api_name@,
            display_name: optional_text(self.display_name),
            achieved: self.achieved,
            unlock_time: self.unlock_time,
            present_in_local_save: self.present_in_local_save,
        }
    }
}

impl Clone for AchievementView {
    fn clone(&self) -> (copy: Self)
        ensures
            copy@ == self@,
    {
        AchievementView {
            api_name: self.api_name.clone(),
            display_name: self.display_name.clone(),
            achieved: self.achieved,
            unlock_time: self.unlock_time,
            present_in_local_save: self.present_in_local_save,
        }
    }
}

/// Why achievements were not synchronized.
#[derive(Debug)]
pub enum AchievementError {
    /// The session has no account.
    SteamIdMissing,
    /// Steam sent no schema.
    SchemaMissing,
    /// The schema is not readable.
    SchemaUnparsed,
    /// The schema has no stats.
    NoStatsNode,
    /// The stats of the schema are no entries.
    StatsNotNested,
    /// Steam did not say which state of the stats it sent.
    CrcMissing,
    /// The stats changed in between.
    OutOfDate,
    /// Steam did not send the stats.
    RefreshFailed { eresult: Option<i32> },
    /// An unlock cannot be added.
    Plan(PlanError),
    /// The answer to the store is another message.
    UnexpectedMessage { emsg: u32 },
    /// Steam did not store the stats.
    StoreFailed { eresult: Option<i32> },
    /// Steam did not accept some groups.
    FailedValidation { groups: usize },
    /// Achievements that were unlocked before no longer are.
    LostUnlocks { lost: usize },
    /// Not all stored unlocks were found.
    NotAllVerified { verified: usize, requested: usize },
}

/// What an `AchievementError` says.
pub enum AchievementFailure {
    SteamIdMissing,
    SchemaMissing,
    SchemaUnparsed,
    NoStatsNode,
    StatsNotNested,
    CrcMissing,
    OutOfDate,
    RefreshFailed { eresult: Option<i32> },
    Plan(PlanFailure),
    UnexpectedMessage { emsg: u32 },
    StoreFailed { eresult: Option<i32> },
    FailedValidation { groups: usize },
    LostUnlocks { lost: usize },
    NotAllVerified { verified: usize, requested: usize },
}

impl View for AchievementError {
    type V = AchievementFailure;

    open spec fn view(&self) -> AchievementFailure {
        match *self {
            AchievementError::SteamIdMissing => AchievementFailure::SteamIdMissing,
            AchievementError::SchemaMissing => AchievementFailure::SchemaMissing,
            AchievementError::SchemaUnparsed => AchievementFailure::SchemaUnparsed,
            AchievementError::NoStatsNode => AchievementFailure::NoStatsNode,
            AchievementError::StatsNotNested => AchievementFailure::StatsNotNested,
            AchievementError::CrcMissing => AchievementFailure::CrcMissing,
            AchievementError::OutOfDate => AchievementFailure::OutOfDate,
            AchievementError::Plan(error) => AchievementFailure::Plan(error@),
            AchievementError::RefreshFailed { eresult } => AchievementFailure::RefreshFailed { eresult },
            AchievementError::UnexpectedMessage { emsg } => AchievementFailure::UnexpectedMessage { emsg },
            AchievementError::StoreFailed { eresult } => AchievementFailure::StoreFailed { eresult },
            AchievementError::FailedValidation { groups } => AchievementFailure::FailedValidation { groups },
            AchievementError::LostUnlocks { lost } => AchievementFailure::LostUnlocks { lost },
            AchievementError::NotAllVerified { verified, requested } => AchievementFailure::NotAllVerified { verified, requested },
        }
    }
}

/// How a result of Steam is written in messages.
pub open spec fn eresult_text(eresult: Option<i32>) -> Seq<char> {
    match eresult {
        Some(value) => "Some("@ + signed_decimal(value as int) + ")"@,
        None => "None"@,
    }
}

/// Puts a result of Steam behind a message.
fn append_eresult(message: &mut String, eresult: Option<i32>)
    ensures
        final(message)@ == old(message)@ + eresult_text(eresult),
{
    match eresult {
        Some(value) => {
            message.append("Some(");
            message.append(to_signed_decimal(value).as_str());
            message.append(")");
            assert(message@ =~= old(message)@ + eresult_text(eresult));
        },
        None => message.append("None"),
    }
}

impl AchievementFailure {
    /// The message for the user.
    pub open spec fn text(self) -> Seq<char> {
        match self {
            AchievementFailure::SteamIdMissing => "Steam session has no SteamID for achievement store"@,
            AchievementFailure::SchemaMissing => "Steam achievement schema missing before store"@,
            AchievementFailure::SchemaUnparsed => "parse Steam achievement schema"@,
            AchievementFailure::NoStatsNode => "Steam achievement schema has no stats node"@,
            AchievementFailure::StatsNotNested => "Steam achievement stats node is not nested"@,
            AchievementFailure::CrcMissing => "Steam user-stats response omitted its CRC; refusing unsafe write"@,
            AchievementFailure::OutOfDate => "Steam rejected achievement store because stats are out of date"@,
            AchievementFailure::RefreshFailed { eresult } =>
                "Steam user-stats refresh failed with eresult "@ + eresult_text(eresult),
            AchievementFailure::Plan(failure) => failure.text(),
            AchievementFailure::UnexpectedMessage { emsg } => "Steam returned unexpected EMsg "@
                + decimal(emsg as nat) + " for achievement store"@,
            AchievementFailure::StoreFailed { eresult } =>
                "Steam achievement store failed with eresult "@ + eresult_text(eresult),
            AchievementFailure::FailedValidation { groups } => "Steam rejected "@ + decimal(
                groups as nat,
            ) + " achievement stat group(s) during validation"@,
            AchievementFailure::LostUnlocks { lost } => "Steam read-back failed to preserve "@
                + decimal(lost as nat) + " previously unlocked achievement(s)"@,
            AchievementFailure::NotAllVerified { verified, requested } => "Steam verified only "@
                + decimal(verified as nat) + " of "@ + decimal(requested as nat)
                + " save-derived achievement unlocks"@,
        }
    }
}

impl AchievementError {
    /// The message for the user.
    pub fn message(&self) -> (message: String)
        ensures
            message@ == self@.text(),
    {
        match self {
            AchievementError::SteamIdMissing => "Steam session has no SteamID for achievement store".to_owned(),
            AchievementError::SchemaMissing => "Steam achievement schema missing before store".to_owned(),
            AchievementError::SchemaUnparsed => "parse Steam achievement schema".to_owned(),
            AchievementError::NoStatsNode => "Steam achievement schema has no stats node".to_owned(),
            AchievementError::StatsNotNested => "Steam achievement stats node is not nested".to_owned(),
            AchievementError::CrcMissing => "Steam user-stats response omitted its CRC; refusing unsafe write".to_owned(),
            AchievementError::OutOfDate => "Steam rejected achievement store because stats are out of date".to_owned(),
            AchievementError::RefreshFailed { eresult } => {
                let mut message: String = "Steam user-stats refresh failed with eresult ".to_owned();
                append_eresult(&mut message, *eresult);
                message
            },
            AchievementError::Plan(error) => error.message(),
            AchievementError::UnexpectedMessage { emsg } => {
                let mut message: String = "Steam returned unexpected EMsg ".to_owned();
                message.append(to_decimal(*emsg as u64).as_str());
                message.append(" for achievement store");
                message
            },
            AchievementError::StoreFailed { eresult } => {
                let mut message: String = "Steam achievement store failed with eresult ".to_owned();
                append_eresult(&mut message, *eresult);
                message
            },
            AchievementError::FailedValidation { groups } => {
                let mut message: String = "Steam rejected ".to_owned();
                message.append(to_decimal(*groups as u64).as_str());
                message.append(" achievement stat group(s) during validation");
                message
            },
            AchievementError::LostUnlocks { lost } => {
                let mut message: String = "Steam read-back failed to preserve ".to_owned();
                message.append(to_decimal(*lost as u64).as_str());
                message.append(" previously unlocked achievement(s)");
                message
            },
            AchievementError::NotAllVerified { verified, requested } => {
                let mut message: String = "Steam verified only ".to_owned();
                message.append(to_decimal(*verified as u64).as_str());
                message.append(" of ");
                message.append(to_decimal(*requested as u64).as_str());
                message.append(" save-derived achievement unlocks");
                message
            },
        }
    }
}

/// The unlock times of a stat group as Steam reports them.
#[derive(Debug)]
pub struct AchievementBlock {
    pub achievement_id: Option<u32>,
    pub unlock_time: Vec<u32>,
}

/// The group that a block is of, 0 where it does not say.
pub open spec fn block_group(block: AchievementBlock) -> u32 {
    match block.achievement_id {
        Some(id) => id,
        None => 0,
    }
}

/// When a bit of a group was unlocked, by the last of the first `count` blocks that has a time
/// for it; 0 where none has.
pub open spec fn unlock_time_of(
    blocks: Seq<AchievementBlock>,
    stat_id: u32,
    bit: u32,
    count: int,
) -> u64
    decreases count,
{
    if count <= 0 {
        0
    } else {
        let block = blocks[count - 1];
        if block_group(block) == stat_id && bit < block.unlock_time@.len()
            && block.unlock_time@[bit as int] != 0 {
            block.unlock_time@[bit as int] as u64
        } else {
            unlock_time_of(blocks, stat_id, bit, count - 1)
        }
    }
}

/// The state of an achievement of the schema.
pub open spec fn achievement_state(definition: DefView, blocks: Seq<AchievementBlock>) -> AchievementState {
    let time = unlock_time_of(blocks, definition.stat_id, definition.bit, blocks.len() as int);
    AchievementState {
        apiname: definition.api_name,
        achieved: time > 0,
        unlocktime: time,
        name: definition.display_name,
        description: definition.description,
    }
}

/// The states of the achievements of the schema, in its order.
pub open spec fn achievement_states(schema: Seq<DefView>, blocks: Seq<AchievementBlock>) -> Seq<
    AchievementState,
> {
    Seq::new(schema.len(), |i: int| achievement_state(schema[i], blocks))
}

/// When a bit of a group was unlocked.
fn find_unlock_time(blocks: &Vec<AchievementBlock>, stat_id: u32, bit: u32) -> (time: u64)
    ensures
        time == unlock_time_of(blocks@, stat_id, bit, blocks@.len() as int),
{
    let mut i: usize = blocks.len();
    while i > 0
        invariant
            i <= blocks@.len(),
            unlock_time_of(blocks@, stat_id, bit, blocks@.len() as int) == unlock_time_of(
                blocks@,
                stat_id,
                bit,
                i as int,
            ),
        decreases i,
    {
        let block: &AchievementBlock = &blocks[i - 1];
        let group: u32 = match block.achievement_id {
            Some(id) => id,
            None => 0,
        };
        if group == stat_id && (bit as usize) < block.unlock_time.len()
            && block.unlock_time[bit as usize] != 0 {
            return block.unlock_time[bit as usize] as u64;
        }
        i -= 1;
    }
    0
}

/// The achievements that Steam reports: those of the schema, and none without one.
pub open spec fn reported_achievements(
    schema: Option<KVValue>,
    blocks: Seq<AchievementBlock>,
) -> Seq<AchievementState> {
    match schema {
        Some(root) => achievement_states(definitions(root), blocks),
        None => seq![],
    }
}

/// The achievements of a schema with their states; none where the schema is not readable.
pub fn build_achievements(schema: Option<&KVValue>, blocks: &Vec<AchievementBlock>) -> (found: Vec<
    ProtocolAchievement,
>)
    ensures
        views(found@) == reported_achievements(
            match schema {
                Some(root) => Some(*root),
                None => None,
            },
            blocks@,
        ),
{
    let mut found: Vec<ProtocolAchievement> = Vec::new();
    assert(views(found@) =~= Seq::<AchievementState>::empty());
    let root: &KVValue = match schema {
        Some(root) => root,
        None => return found,
    };
    let listed: Vec<AchievementDef> = extract_achievements(root);
    let ghost states = achievement_states(definitions(*root), blocks@);
    let mut i: usize = 0;
    while i < listed.len()
        invariant
            i <= listed@.len(),
            views(listed@) == definitions(*root),
            states == achievement_states(definitions(*root), blocks@),
            views(found@) == states.take(i as int),
        decreases listed@.len() - i,
    {
        let ghost held = found@;
        let definition: &AchievementDef = &listed[i];
        assert(definition@ == views(listed@)[i as int]);
        let unlocktime: u64 = find_unlock_time(blocks, definition.stat_id, definition.bit);
        let achievement: ProtocolAchievement = ProtocolAchievement {
            apiname: definition.api_name.clone(),
            achieved: unlocktime > 0,
            unlocktime,
            name: definition.display_name.clone(),
            description: definition.description.clone(),
        };
        let ghost view = achievement@;
        assert(view == states[i as int]);
        found.push(achievement);
        assert(views(found@) =~= views(held).push(view));
        assert(views(found@) =~= states.take(i + 1));
        i += 1;
    }
    assert(states.take(i as int) =~= states);
    found
}

/// Whether the stats have to be asked for again, with the game marked as played: Steam gives
/// them out only while it is.
pub fn needs_games_played(eresult: Option<i32>) -> (needed: bool)
    ensures
        needed == (eresult != Some(ERESULT_OK)),
{
    match eresult {
        Some(value) => value != ERESULT_OK,
        None => true,
    }
}

/// The unlocks of the first `count` saves together, or the first save that cannot be read.
pub open spec fn joint_unlocks(saves: Seq<Seq<u8>>, count: int) -> Result<
    Set<u32>,
    (int, UnlocksError),
>
    decreases count,
{
    if count <= 0 {
        Ok(Set::empty())
    } else {
        match joint_unlocks(saves, count - 1) {
            Err(failure) => Err(failure),
            Ok(unlocked) => match save_unlocks(saves[count - 1]) {
                Ok(more) => Ok(unlocked.union(more)),
                Err(error) => Err((count - 1, error)),
            },
        }
    }
}

proof fn unreadable_save_persists(saves: Seq<Seq<u8>>, count: int, later: int)
    requires
        0 <= count <= later,
        joint_unlocks(saves, count) is Err,
    ensures
        joint_unlocks(saves, later) == joint_unlocks(saves, count),
    decreases later,
{
    if count < later {
        unreadable_save_persists(saves, count, later - 1);
    }
}

/// Adds all of `more` to `ids`.
fn add_ids(ids: &mut BTreeSet<u32>, more: &BTreeSet<u32>)
    ensures
        final(ids)@ == old(ids)@.union(more@),
{
    let ghost before = ids@;
    let listed: Vec<u32> = crate::achievement_plan::ascending_ids(more);
    let mut i: usize = 0;
    while i < listed.len()
        invariant
            i <= listed@.len(),
            ids@ =~= before.union(listed@.take(i as int).to_set()),
        decreases listed@.len() - i,
    {
        proof {
            assert(listed@.take(i + 1) =~= listed@.take(i as int).push(listed@[i as int]));
            broadcast use vstd::seq_lib::group_seq_properties;

        }
        ids.insert(listed[i]);
        i += 1;
    }
    proof {
        assert(listed@.take(i as int) =~= listed@);
        assert(listed@.to_set() =~= more@) by {
            assert forall|id: u32| listed@.to_set().contains(id) == more@.contains(id) by {
                assert(listed@.contains(id) == more@.contains(id));
            }
        }
    }
}

/// The unlocks of the saves on the device together.
pub fn collect_local_unlocks(saves: &Vec<Vec<u8>>) -> (result: Result<
    BTreeSet<u32>,
    (usize, UnlocksError),
>)
    ensures
        match result {
            Ok(unlocked) => joint_unlocks(views(saves@), saves@.len() as int) == Ok::<
                Set<u32>,
                (int, UnlocksError),
            >(unlocked@),
            Err((at, error)) => joint_unlocks(views(saves@), saves@.len() as int) == Err::<
                Set<u32>,
                (int, UnlocksError),
            >((at as int, error)),
        },
{
    let ghost raws = views(saves@);
    let mut unlocked: BTreeSet<u32> = BTreeSet::new();
    let mut i: usize = 0;
    while i < saves.len()
        invariant
            i <= saves@.len(),
            raws == views(saves@),
            joint_unlocks(raws, i as int) == Ok::<Set<u32>, (int, UnlocksError)>(unlocked@),
        decreases saves@.len() - i,
    {
        assert(raws[i as int] == saves@[i as int]@);
        match unlocked_achievement_ids(&saves[i]) {
            Ok(more) => {
                assert(save_unlocks(raws[i as int]) == Ok::<Set<u32>, UnlocksError>(more@));
                add_ids(&mut unlocked, &more);
            },
            Err(error) => {
                proof {
                    assert(save_unlocks(raws[i as int]) == Err::<Set<u32>, UnlocksError>(error));
                    unreadable_save_persists(raws, i + 1, raws.len() as int);
                }
                return Err((i, error));
            },
        }
        i += 1;
    }
    Ok(unlocked)
}

/// The names of achievements in decimal, as Steam has them.
pub open spec fn unlock_names(ids: Seq<u32>) -> Seq<Seq<char>> {
    Seq::new(ids.len(), |i: int| decimal(ids[i] as nat))
}

/// The names of the given achievements.
pub fn names_of(ids: &Vec<u32>) -> (names: Vec<String>)
    ensures
        views(names@) == unlock_names(ids@),
{
    let mut names: Vec<String> = Vec::new();
    let mut i: usize = 0;
    while i < ids.len()
        invariant
            i <= ids@.len(),
            names@.len() == i,
            forall|k: int| 0 <= k < i ==> (#[trigger] names@[k])@ == decimal(ids@[k] as nat),
        decreases ids@.len() - i,
    {
        names.push(to_decimal(ids[i] as u64));
        i += 1;
    }
    assert(views(names@) =~= unlock_names(ids@));
    names
}

/// The achievement with the given name, the last one where there are several.
pub open spec fn last_named(achievements: Seq<AchievementState>, name: Seq<char>) -> Option<
    AchievementState,
>
    decreases achievements.len(),
{
    if achievements.len() == 0 {
        None
    } else if achievements.last().apiname == name {
        Some(achievements.last())
    } else {
        last_named(achievements.drop_last(), name)
    }
}

/// Whether Steam has an achievement of this name and it is locked.
pub open spec fn is_locked(achievements: Seq<AchievementState>, name: Seq<char>) -> bool {
    last_named(achievements, name) matches Some(state) && !state.achieved
}

/// Whether Steam has an achievement of this name and it is unlocked.
pub open spec fn is_achieved(achievements: Seq<AchievementState>, name: Seq<char>) -> bool {
    last_named(achievements, name) matches Some(state) && state.achieved
}

/// The names among the first `count` that Steam has locked.
pub open spec fn missing_names(
    names: Seq<Seq<char>>,
    achievements: Seq<AchievementState>,
    count: int,
) -> Seq<Seq<char>>
    decreases count,
{
    if count <= 0 {
        seq![]
    } else if is_locked(achievements, names[count - 1]) {
        missing_names(names, achievements, count - 1).push(names[count - 1])
    } else {
        missing_names(names, achievements, count - 1)
    }
}

/// Whether the achievement with the given name is there, and then whether it is unlocked.
fn find_state(achievements: &Vec<ProtocolAchievement>, name: &str) -> (achieved: Option<bool>)
    ensures
        achieved == match last_named(views(achievements@), name@) {
            Some(state) => Some(state.achieved),
            None => None,
        },
{
    let ghost all = views(achievements@);
    let mut i: usize = achievements.len();
    assert(all.take(i as int) =~= all);
    while i > 0
        invariant
            i <= achievements@.len(),
            all == views(achievements@),
            last_named(all, name@) == last_named(all.take(i as int), name@),
        decreases i,
    {
        proof {
            let upto = all.take(i as int);
            assert(upto.last() == achievements@[i - 1]@);
            assert(upto.drop_last() =~= all.take(i - 1));
        }
        if same_text(achievements[i - 1].apiname.as_str(), name) {
            return Some(achievements[i - 1].achieved);
        }
        i -= 1;
    }
    None
}

/// The achievements of the saves that Steam has locked. What Steam has unlocked and what it
/// does not know is left alone.
pub fn names_to_add(ids: &Vec<u32>, known: &Vec<ProtocolAchievement>) -> (names: Vec<String>)
    ensures
        views(names@) == missing_names(
            unlock_names(ids@),
            views(known@),
            ids@.len() as int,
        ),
{
    let all: Vec<String> = names_of(ids);
    let ghost wanted = unlock_names(ids@);
    let mut names: Vec<String> = Vec::new();
    assert(views(names@) =~= Seq::<Seq<char>>::empty());
    let mut i: usize = 0;
    while i < all.len()
        invariant
            i <= all@.len(),
            views(all@) == wanted,
            views(names@) == missing_names(wanted, views(known@), i as int),
        decreases all@.len() - i,
    {
        assert(all@[i as int]@ == wanted[i as int]);
        let locked: bool = match find_state(known, all[i].as_str()) {
            Some(achieved) => !achieved,
            None => false,
        };
        if locked {
            let ghost held = names@;
            let name: String = all[i].clone();
            names.push(name);
            assert(views(names@) =~= views(held).push(wanted[i as int]));
        }
        i += 1;
    }
    assert(views(all@).len() == ids@.len());
    names
}

proof fn missing_names_are_locked(
    names: Seq<Seq<char>>,
    achievements: Seq<AchievementState>,
    count: int,
)
    requires
        0 <= count <= names.len(),
    ensures
        forall|name: Seq<char>| #[trigger]
            missing_names(names, achievements, count).contains(name) <==> is_locked(
                achievements,
                name,
            ) && names.take(count).contains(name),
    decreases count,
{
    if count > 0 {
        missing_names_are_locked(names, achievements, count - 1);
        let shorter = missing_names(names, achievements, count - 1);
        let longer = missing_names(names, achievements, count);
        assert forall|name: Seq<char>| #[trigger] longer.contains(name) <==> is_locked(
            achievements,
            name,
        ) && names.take(count).contains(name) by {
            let (fewer, more) = (names.take(count - 1), names.take(count));
            assert(more =~= fewer.push(names[count - 1]));
            if fewer.contains(name) {
                let i = choose|i: int| 0 <= i < fewer.len() && fewer[i] == name;
                assert(more[i] == name);
            }
            if more.contains(name) && name != names[count - 1] {
                let i = choose|i: int| 0 <= i < more.len() && more[i] == name;
                assert(fewer[i] == name);
            }
            assert(more[count - 1] == names[count - 1]);
            if is_locked(achievements, names[count - 1]) {
                assert(longer[shorter.len() as int] == names[count - 1]);
                if shorter.contains(name) {
                    let i = choose|i: int| 0 <= i < shorter.len() && shorter[i] == name;
                    assert(longer[i] == name);
                }
                if longer.contains(name) && name != names[count - 1] {
                    let i = choose|i: int| 0 <= i < longer.len() && longer[i] == name;
                    assert(shorter[i] == name);
                }
            }
        }
    }
}

/// Only achievements that a save has and Steam has locked are added, and all of them: what is
/// unlocked on Steam or missing in the saves is never touched.
pub proof fn direction_is_one_way(ids: Seq<u32>, known: Seq<AchievementState>, name: Seq<char>)
    ensures
        missing_names(unlock_names(ids), known, ids.len() as int).contains(name) <==> is_locked(
            known,
            name,
        ) && unlock_names(ids).contains(name),
{
    let names = unlock_names(ids);
    missing_names_are_locked(names, known, ids.len() as int);
    assert(names.take(ids.len() as int) =~= names);
}

/// The schema as it came with the stats.
#[derive(Debug)]
pub enum ReceivedSchema {
    /// Steam sent none.
    Missing,
    /// Steam sent one that is not readable.
    Unreadable,
    Read(KVValue),
}

/// The bits of the achievements of a schema.
pub open spec fn bits_of(schema: Seq<DefView>) -> Seq<BitView> {
    Seq::new(
        schema.len(),
        |i: int|
            BitView {
                stat_id: schema[i].stat_id,
                bit: schema[i].bit,
                api_name: schema[i].api_name,
            },
    )
}

/// Why the bits of a schema cannot be had, if they cannot.
pub open spec fn schema_refusal(schema: ReceivedSchema) -> Option<AchievementFailure> {
    match schema {
        ReceivedSchema::Missing => Some(AchievementFailure::SchemaMissing),
        ReceivedSchema::Unreadable => Some(AchievementFailure::SchemaUnparsed),
        ReceivedSchema::Read(root) => match stats_of(root) {
            None => Some(AchievementFailure::NoStatsNode),
            Some(stats) => if nested(stats) is None {
                Some(AchievementFailure::StatsNotNested)
            } else {
                None
            },
        },
    }
}

/// The bits of the achievements of a received schema.
pub open spec fn schema_bits(schema: ReceivedSchema) -> Seq<BitView> {
    match schema {
        ReceivedSchema::Read(root) => bits_of(definitions(root)),
        _ => seq![],
    }
}

/// The bits of the achievements of a received schema.
pub fn parse_achievement_bits(schema: &ReceivedSchema) -> (result: Result<
    Vec<AchievementBit>,
    AchievementError,
>)
    ensures
        match result {
            Ok(bits) => schema_refusal(*schema) is None && views(bits@) == schema_bits(*schema),
            Err(error) => schema_refusal(*schema) == Some(error@),
        },
{
    let root: &KVValue = match schema {
        ReceivedSchema::Missing => return Err(AchievementError::SchemaMissing),
        ReceivedSchema::Unreadable => return Err(AchievementError::SchemaUnparsed),
        ReceivedSchema::Read(root) => root,
    };
    match find_stats_node(root) {
        None => return Err(AchievementError::NoStatsNode),
        Some(stats) => match stats.as_nested() {
            None => return Err(AchievementError::StatsNotNested),
            Some(_) => {},
        },
    }
    let listed: Vec<AchievementDef> = extract_achievements(root);
    let ghost wanted = bits_of(definitions(*root));
    let mut bits: Vec<AchievementBit> = Vec::new();
    let mut i: usize = 0;
    assert(views(bits@) =~= wanted.take(0));
    while i < listed.len()
        invariant
            i <= listed@.len(),
            views(listed@) == definitions(*root),
            wanted == bits_of(definitions(*root)),
            views(bits@) == wanted.take(i as int),
        decreases listed@.len() - i,
    {
        let ghost held = bits@;
        let definition: &AchievementDef = &listed[i];
        assert(definition@ == views(listed@)[i as int]);
        let bit: AchievementBit = AchievementBit {
            stat_id: definition.stat_id,
            bit: definition.bit,
            api_name: definition.api_name.clone(),
        };
        let ghost view = bit@;
        bits.push(bit);
        assert(views(bits@) =~= views(held).push(view));
        assert(views(bits@) =~= wanted.take(i + 1));
        i += 1;
    }
    assert(wanted.take(i as int) =~= wanted);
    Ok(bits)
}

/// The stats of the user as Steam sends them.
#[derive(Debug)]
pub struct UserStats {
    pub eresult: Option<i32>,
    pub crc_stats: Option<u32>,
    pub stats: Vec<CurrentStat>,
}

/// A request to store stats.
#[derive(Debug)]
pub struct StoreRequest {
    pub game_id: Option<u64>,
    pub settor_steam_id: Option<u64>,
    pub settee_steam_id: Option<u64>,
    pub crc_stats: Option<u32>,
    pub explicit_reset: Option<bool>,
    pub stats: Vec<StoreStat>,
}

impl StoreRequest {
    /// Whether two requests are the same.
    pub open spec fn same(self, other: StoreRequest) -> bool {
        &&& self.game_id == other.game_id
        &&& self.settor_steam_id == other.settor_steam_id
        &&& self.settee_steam_id == other.settee_steam_id
        &&& self.crc_stats == other.crc_stats
        &&& self.explicit_reset == other.explicit_reset
        &&& self.stats@ == other.stats@
    }
}

impl Clone for StoreRequest {
    fn clone(&self) -> (copy: Self)
        ensures
            copy.same(*self),
    {
        let mut stats: Vec<StoreStat> = Vec::new();
        let mut i: usize = 0;
        while i < self.stats.len()
            invariant
                i <= self.stats@.len(),
                stats@ =~= self.stats@.take(i as int),
            decreases self.stats@.len() - i,
        {
            stats.push(self.stats[i]);
            i += 1;
        }
        assert(self.stats@.take(i as int) =~= self.stats@);
        StoreRequest {
            game_id: self.game_id,
            settor_steam_id: self.settor_steam_id,
            settee_steam_id: self.settee_steam_id,
            crc_stats: self.crc_stats,
            explicit_reset: self.explicit_reset,
            stats,
        }
    }
}

/// The messages of Steam's protocol that concern achievements.
#[derive(Debug, Clone, Copy, PartialEq, Eq, Structural)]
pub enum EMsg {
    ClientStoreUserStats2,
}

impl EMsg {
    /// The number of the message.
    pub fn raw(self) -> (number: u32)
        ensures
            number == 5466,
    {
        match self {
            EMsg::ClientStoreUserStats2 => 5466,
        }
    }
}

/// Why no stats are stored, if they are refused: without the reported values and their CRC
/// nothing is written.
pub open spec fn store_refusal(
    steam_id: Option<u64>,
    current: UserStats,
    schema: ReceivedSchema,
    names: Seq<Seq<char>>,
) -> Option<AchievementFailure> {
    let bits = schema_bits(schema);
    if steam_id is None {
        Some(AchievementFailure::SteamIdMissing)
    } else if current.eresult != Some(ERESULT_OK) {
        Some(AchievementFailure::RefreshFailed { eresult: current.eresult })
    } else if schema_refusal(schema) is Some {
        schema_refusal(schema)
    } else {
        match first_obstacle(bits, current.stats@, names, names.len() as int) {
            Some(failure) => Some(AchievementFailure::Plan(failure)),
            None => if gains_a_bit(bits, current.stats@, names) && current.crc_stats is None {
                Some(AchievementFailure::CrcMissing)
            } else {
                None
            },
        }
    }
}

/// Whether a request unlocks the named achievements: some group gains a bit by it, nothing is
/// reset, and it stores for the user's own account on the values that Steam reported.
pub open spec fn is_store_request(
    request: StoreRequest,
    steam_id: Option<u64>,
    current: UserStats,
    schema: ReceivedSchema,
    names: Seq<Seq<char>>,
) -> bool {
    let bits = schema_bits(schema);
    &&& gains_a_bit(bits, current.stats@, names)
    &&& request.game_id == Some(STEAM_APP_ID as u64)
    &&& request.settor_steam_id == steam_id
    &&& request.settee_steam_id == steam_id
    &&& request.crc_stats == current.crc_stats && current.crc_stats is Some
    &&& request.explicit_reset == Some(false)
    &&& is_additive_plan(request.stats@, bits, current.stats@, names)
}

/// The request that unlocks the named achievements, if any group gains a bit by it. It never
/// resets, and it stores for the user's own account.
pub fn store_missing_unlocks(
    steam_id: Option<u64>,
    current: &UserStats,
    schema: &ReceivedSchema,
    api_names: &Vec<String>,
) -> (result: Result<Option<StoreRequest>, AchievementError>)
    ensures
        ({
            let bits = schema_bits(*schema);
            let names = views(api_names@);
            let refusal = store_refusal(steam_id, *current, *schema, names);
            match result {
                Ok(Some(request)) => refusal is None && is_store_request(
                    request,
                    steam_id,
                    *current,
                    *schema,
                    names,
                ),
                Ok(None) => refusal is None && !gains_a_bit(bits, current.stats@, names),
                Err(error) => refusal == Some(error@),
            }
        }),
{
    let ghost names = views(api_names@);
    let id: u64 = match steam_id {
        Some(id) => id,
        None => return Err(AchievementError::SteamIdMissing),
    };
    if needs_games_played(current.eresult) {
        return Err(AchievementError::RefreshFailed { eresult: current.eresult });
    }
    let bits: Vec<AchievementBit> = match parse_achievement_bits(schema) {
        Ok(bits) => bits,
        Err(error) => return Err(error),
    };
    let stats: Vec<StoreStat> = match build_additive_stats(&bits, &current.stats, api_names) {
        Ok(stats) => stats,
        Err(error) => {
            proof {
                let at = choose|i: int|
                    0 <= i < names.len() && no_obstacle(views(bits@), current.stats@, names, i)
                        && #[trigger] crate::achievement_plan::obstacle(
                        views(bits@),
                        current.stats@,
                        names[i],
                    ) == Some(error@);
                first_obstacle_is_first(
                    views(bits@),
                    current.stats@,
                    names,
                    at,
                    names.len() as int,
                );
            }
            return Err(AchievementError::Plan(error));
        },
    };
    proof {
        first_obstacle_is_first(views(bits@), current.stats@, names, 0, names.len() as int);
    }
    if stats.len() == 0 {
        proof {
            assert(!gains_a_bit(views(bits@), current.stats@, names));
        }
        return Ok(None);
    }
    proof {
        let stat_id = stats@[0].stat_id.unwrap();
        assert(updated_value(views(bits@), current.stats@, names, stat_id) != value_for(
            current.stats@,
            stat_id,
        ));
    }
    let crc_stats: u32 = match current.crc_stats {
        Some(crc) => crc,
        None => return Err(AchievementError::CrcMissing),
    };
    Ok(
        Some(
            StoreRequest {
                game_id: Some(STEAM_APP_ID as u64),
                settor_steam_id: Some(id),
                settee_steam_id: Some(id),
                crc_stats: Some(crc_stats),
                explicit_reset: Some(false),
                stats,
            },
        ),
    )
}

/// The answer to a request to store stats.
#[derive(Debug, Clone, Copy, PartialEq, Eq, Structural)]
pub struct StoreResponse {
    pub eresult: Option<i32>,
    pub stats_out_of_date: Option<bool>,
    /// How many groups Steam did not accept.
    pub stats_failed_validation: usize,
}

/// Checks that the answer is the expected message.
pub fn check_store_message(emsg: u32, expected: u32) -> (result: Result<(), AchievementError>)
    ensures
        match result {
            Ok(()) => emsg == expected,
            Err(error) => emsg != expected && error@ == (AchievementFailure::UnexpectedMessage {
                emsg,
            }),
        },
{
    if emsg != expected {
        return Err(AchievementError::UnexpectedMessage { emsg });
    }
    Ok(())
}

/// Why a store does not count, if it does not.
pub open spec fn store_rejection(response: StoreResponse) -> Option<AchievementFailure> {
    if response.eresult != Some(ERESULT_OK) {
        Some(AchievementFailure::StoreFailed { eresult: response.eresult })
    } else if response.stats_out_of_date == Some(true) {
        Some(AchievementFailure::OutOfDate)
    } else if response.stats_failed_validation != 0 {
        Some(AchievementFailure::FailedValidation { groups: response.stats_failed_validation })
    } else {
        None
    }
}

/// Checks that Steam stored all stats.
pub fn check_store_response(response: StoreResponse) -> (result: Result<(), AchievementError>)
    ensures
        match result {
            Ok(()) => store_rejection(response) is None,
            Err(error) => store_rejection(response) == Some(error@),
        },
{
    if needs_games_played(response.eresult) {
        return Err(AchievementError::StoreFailed { eresult: response.eresult });
    }
    if let Some(out_of_date) = response.stats_out_of_date {
        if out_of_date {
            return Err(AchievementError::OutOfDate);
        }
    }
    if response.stats_failed_validation != 0 {
        return Err(
            AchievementError::FailedValidation { groups: response.stats_failed_validation },
        );
    }
    Ok(())
}

/// Whether one of the achievements has this name and is unlocked.
pub open spec fn some_achieved(achievements: Seq<AchievementState>, name: Seq<char>) -> bool {
    exists|i: int|
        0 <= i < achievements.len() && (#[trigger] achievements[i]).apiname == name
            && achievements[i].achieved
}

/// Whether one of the achievements has this name and is unlocked.
fn has_achieved(achievements: &Vec<ProtocolAchievement>, name: &str) -> (found: bool)
    ensures
        found == some_achieved(views(achievements@), name@),
{
    let ghost all = views(achievements@);
    let mut i: usize = 0;
    while i < achievements.len()
        invariant
            i <= achievements@.len(),
            all == views(achievements@),
            forall|k: int|
                0 <= k < i ==> !((#[trigger] all[k]).apiname == name@ && all[k].achieved),
        decreases achievements@.len() - i,
    {
        assert(all[i as int] == achievements@[i as int]@);
        if achievements[i].achieved && same_text(achievements[i].apiname.as_str(), name) {
            return true;
        }
        i += 1;
    }
    false
}

/// Whether all names are unlocked.
pub open spec fn all_found(names: Seq<Seq<char>>, verified: Seq<AchievementState>) -> bool {
    forall|k: int| 0 <= k < names.len() ==> some_achieved(verified, #[trigger] names[k])
}

/// Whether all names are unlocked.
pub fn all_verified(api_names: &Vec<String>, verified: &Vec<ProtocolAchievement>) -> (all: bool)
    ensures
        all == all_found(views(api_names@), views(verified@)),
{
    let ghost names = views(api_names@);
    let mut i: usize = 0;
    while i < api_names.len()
        invariant
            i <= api_names@.len(),
            names == views(api_names@),
            forall|k: int| 0 <= k < i ==> some_achieved(views(verified@), #[trigger] names[k]),
        decreases api_names@.len() - i,
    {
        assert(names[i as int] == api_names@[i as int]@);
        if !has_achieved(verified, api_names[i].as_str()) {
            return false;
        }
        i += 1;
    }
    true
}

/// Whether stored unlocks are looked for once more, and after how long.
pub fn verify_again_after_ms(attempt: usize, all_verified: bool) -> (delay: Option<u64>)
    ensures
        delay == if !all_verified && attempt + 1 < VERIFY_ATTEMPTS {
            Some(VERIFY_DELAY_MS)
        } else {
            None
        },
{
    if !all_verified && attempt < VERIFY_ATTEMPTS - 1 {
        Some(VERIFY_DELAY_MS)
    } else {
        None
    }
}

/// The names of the unlocked achievements among the first `count`.
pub open spec fn achieved_list(achievements: Seq<AchievementState>, count: int) -> Seq<Seq<char>>
    decreases count,
{
    if count <= 0 {
        seq![]
    } else if achievements[count - 1].achieved {
        achieved_list(achievements, count - 1).push(achievements[count - 1].apiname)
    } else {
        achieved_list(achievements, count - 1)
    }
}

/// The names of the unlocked achievements.
pub fn achieved_names(achievements: &Vec<ProtocolAchievement>) -> (names: Vec<String>)
    ensures
        views(names@) == achieved_list(views(achievements@), achievements@.len() as int),
{
    let ghost all = views(achievements@);
    let mut names: Vec<String> = Vec::new();
    assert(views(names@) =~= Seq::<Seq<char>>::empty());
    let mut i: usize = 0;
    while i < achievements.len()
        invariant
            i <= achievements@.len(),
            all == views(achievements@),
            views(names@) == achieved_list(all, i as int),
        decreases achievements@.len() - i,
    {
        assert(all[i as int] == achievements@[i as int]@);
        if achievements[i].achieved {
            let ghost held = names@;
            let name: String = achievements[i].apiname.clone();
            names.push(name);
            assert(views(names@) =~= views(held).push(all[i as int].apiname));
        }
        i += 1;
    }
    names
}

/// Whether the name at `at` is the first of its kind.
pub open spec fn is_first(names: Seq<Seq<char>>, at: int) -> bool {
    forall|k: int| 0 <= k < at ==> #[trigger] names[k] != names[at]
}

/// How many different names among the first `count` are no longer unlocked.
pub open spec fn lost_count(
    previously: Seq<Seq<char>>,
    verified: Seq<AchievementState>,
    count: int,
) -> nat
    decreases count,
{
    if count <= 0 {
        0
    } else if is_first(previously, count - 1) && !some_achieved(verified, previously[count - 1]) {
        lost_count(previously, verified, count - 1) + 1
    } else {
        lost_count(previously, verified, count - 1)
    }
}

proof fn lost_count_bound(previously: Seq<Seq<char>>, verified: Seq<AchievementState>, count: int)
    requires
        0 <= count,
    ensures
        lost_count(previously, verified, count) <= count,
    decreases count,
{
    if count > 0 {
        lost_count_bound(previously, verified, count - 1);
    }
}

/// Whether the name at `at` is the first of its kind.
fn occurs_first(names: &Vec<String>, at: usize) -> (first: bool)
    requires
        at < names@.len(),
    ensures
        first == is_first(views(names@), at as int),
{
    let ghost all = views(names@);
    let mut i: usize = 0;
    while i < at
        invariant
            i <= at < names@.len(),
            all == views(names@),
            forall|k: int| 0 <= k < i ==> #[trigger] all[k] != all[at as int],
        decreases at - i,
    {
        assert(all[i as int] == names@[i as int]@);
        if same_text(names[i].as_str(), names[at].as_str()) {
            return false;
        }
        i += 1;
    }
    true
}

/// Checks that every achievement that was unlocked still is.
pub fn ensure_no_existing_unlocks_lost(
    previously_achieved: &Vec<String>,
    verified: &Vec<ProtocolAchievement>,
) -> (result: Result<(), AchievementError>)
    ensures
        ({
            let lost = lost_count(
                views(previously_achieved@),
                views(verified@),
                previously_achieved@.len() as int,
            );
            match result {
                Ok(()) => lost == 0,
                Err(error) => lost != 0 && error@ == (AchievementFailure::LostUnlocks {
                    lost: lost as usize,
                }),
            }
        }),
{
    let ghost names = views(previously_achieved@);
    let ghost states = views(verified@);
    let mut lost: usize = 0;
    let mut i: usize = 0;
    while i < previously_achieved.len()
        invariant
            i <= previously_achieved@.len(),
            names == views(previously_achieved@),
            states == views(verified@),
            lost == lost_count(names, states, i as int),
            lost <= i,
        decreases previously_achieved@.len() - i,
    {
        assert(names[i as int] == previously_achieved@[i as int]@);
        proof {
            lost_count_bound(names, states, i as int);
        }
        if occurs_first(previously_achieved, i) && !has_achieved(
            verified,
            previously_achieved[i].as_str(),
        ) {
            lost += 1;
        }
        i += 1;
    }
    if lost != 0 {
        return Err(AchievementError::LostUnlocks { lost });
    }
    Ok(())
}

proof fn lost_means_named(
    previously: Seq<Seq<char>>,
    verified: Seq<AchievementState>,
    count: int,
)
    requires
        0 <= count <= previously.len(),
    ensures
        lost_count(previously, verified, count) == 0 <==> forall|k: int|
            0 <= k < count ==> some_achieved(verified, #[trigger] previously[k]),
    decreases count,
{
    if count > 0 {
        lost_means_named(previously, verified, count - 1);
        if !is_first(previously, count - 1) {
            let last = previously[count - 1];
            let k = choose|k: int| 0 <= k < count - 1 && #[trigger] previously[k] == last;
            assert(previously[k] == previously[count - 1]);
        }
        if !some_achieved(verified, previously[count - 1]) {
            assert(!(forall|k: int|
                0 <= k < count ==> some_achieved(verified, #[trigger] previously[k])));
        }
    }
}

/// The check that nothing was lost passes exactly where every achievement that was unlocked
/// still is.
pub proof fn preservation_check_is_exact(
    previously: Seq<Seq<char>>,
    verified: Seq<AchievementState>,
)
    ensures
        lost_count(previously, verified, previously.len() as int) == 0 <==> forall|k: int|
            0 <= k < previously.len() ==> some_achieved(verified, #[trigger] previously[k]),
{
    lost_means_named(previously, verified, previously.len() as int);
}

/// How many of the first `count` names are unlocked.
pub open spec fn achieved_count(
    names: Seq<Seq<char>>,
    verified: Seq<AchievementState>,
    count: int,
) -> nat
    decreases count,
{
    if count <= 0 {
        0
    } else if is_achieved(verified, names[count - 1]) {
        achieved_count(names, verified, count - 1) + 1
    } else {
        achieved_count(names, verified, count - 1)
    }
}

/// Why a synchronization does not count, if it does not: an unlock was lost, or not all that
/// were stored are found.
pub open spec fn sync_failure(
    previously: Seq<Seq<char>>,
    names: Seq<Seq<char>>,
    verified: Seq<AchievementState>,
) -> Option<AchievementFailure> {
    let lost = lost_count(previously, verified, previously.len() as int);
    let found = achieved_count(names, verified, names.len() as int);
    if lost != 0 {
        Some(AchievementFailure::LostUnlocks { lost: lost as usize })
    } else if found != names.len() {
        Some(
            AchievementFailure::NotAllVerified {
                verified: found as usize,
                requested: names.len() as usize,
            },
        )
    } else {
        None
    }
}

/// How many achievements a synchronization added, by what Steam reports behind it.
pub fn finish_sync(
    previously_achieved: &Vec<String>,
    api_names: &Vec<String>,
    verified: &Vec<ProtocolAchievement>,
) -> (result: Result<usize, AchievementError>)
    ensures
        ({
            let failure = sync_failure(
                views(previously_achieved@),
                views(api_names@),
                views(verified@),
            );
            match result {
                Ok(added) => failure is None && added == api_names@.len(),
                Err(error) => failure == Some(error@),
            }
        }),
{
    match ensure_no_existing_unlocks_lost(previously_achieved, verified) {
        Ok(()) => {},
        Err(error) => return Err(error),
    }
    let ghost names = views(api_names@);
    let mut found: usize = 0;
    let mut i: usize = 0;
    while i < api_names.len()
        invariant
            i <= api_names@.len(),
            names == views(api_names@),
            found == achieved_count(names, views(verified@), i as int),
            found <= i,
        decreases api_names@.len() - i,
    {
        assert(names[i as int] == api_names@[i as int]@);
        if let Some(achieved) = find_state(verified, api_names[i].as_str()) {
            if achieved {
                found += 1;
            }
        }
        i += 1;
    }
    if found != api_names.len() {
        return Err(
            AchievementError::NotAllVerified { verified: found, requested: api_names.len() },
        );
    }
    Ok(found)
}

/// The number that an achievement's name is, or the largest where it is none.
pub open spec fn numeric_name(name: Seq<char>) -> u64 {
    match parsed(name, u64::MAX as int) {
        Some(number) => number as u64,
        None => u64::MAX,
    }
}

/// The number that an achievement's name is, or the largest where it is none.
pub fn numeric_api_name(value: &str) -> (number: u64)
    ensures
        number == numeric_name(value@),
{
    match parse_decimal(value, u64::MAX) {
        Some(number) => number,
        None => u64::MAX,
    }
}

/// Whether a later achievement has the name of the one at `at`.
pub open spec fn named_later(achievements: Seq<AchievementState>, at: int) -> bool {
    exists|k: int|
        at < k < achievements.len() && (#[trigger] achievements[k]).apiname
            == achievements[at].apiname
}

/// An achievement as it is shown, where `local` are the names that a save has.
pub open spec fn shown(achievement: AchievementState, local: Seq<Seq<char>>) -> ShownAchievement {
    ShownAchievement {
        api_name: achievement.apiname,
        display_name: achievement.name,
        achieved: achievement.achieved,
        unlock_time: achievement.unlocktime,
        present_in_local_save: local.contains(achievement.apiname),
    }
}

/// The achievements among the first `count` as they are shown, the last of each name.
pub open spec fn shown_list(
    achievements: Seq<AchievementState>,
    local: Seq<Seq<char>>,
    count: int,
) -> Seq<ShownAchievement>
    decreases count,
{
    if count <= 0 {
        seq![]
    } else if named_later(achievements, count - 1) {
        shown_list(achievements, local, count - 1)
    } else {
        shown_list(achievements, local, count - 1).push(shown(achievements[count - 1], local))
    }
}

impl Ranked for AchievementView {
    open spec fn precedes(a: ShownAchievement, b: ShownAchievement) -> bool {
        numeric_name(a.api_name) < numeric_name(b.api_name) || (numeric_name(a.api_name)
            == numeric_name(b.api_name) && text_before(a.api_name, b.api_name))
    }

    fn is_before(&self, other: &Self) -> (before: bool) {
        let left: u64 = numeric_api_name(self.api_name.as_str());
        let right: u64 = numeric_api_name(other.api_name.as_str());
        if left != right {
            return left < right;
        }
        is_text_before(&chars_of(self.api_name.as_str()), &chars_of(other.api_name.as_str()))
    }

    proof fn precedes_orders(a: ShownAchievement, b: ShownAchievement, c: ShownAchievement) {
        text_order(a.api_name, b.api_name, c.api_name);
        text_order(c.api_name, b.api_name, a.api_name);
        text_order(a.api_name, c.api_name, a.api_name);
        text_order(c.api_name, a.api_name, c.api_name);
        text_order(b.api_name, a.api_name, c.api_name);
        text_order(a.api_name, b.api_name, a.api_name);
        text_order(b.api_name, c.api_name, b.api_name);
    }
}

/// Whether one of the texts is `name`.
fn contains_name(names: &Vec<String>, name: &str) -> (found: bool)
    ensures
        found == views(names@).contains(name@),
{
    let ghost all = views(names@);
    let mut i: usize = 0;
    while i < names.len()
        invariant
            i <= names@.len(),
            all == views(names@),
            forall|k: int| 0 <= k < i ==> #[trigger] all[k] != name@,
        decreases names@.len() - i,
    {
        assert(all[i as int] == names@[i as int]@);
        if same_text(names[i].as_str(), name) {
            return true;
        }
        i += 1;
    }
    false
}

/// Whether a later achievement has the name of the one at `at`.
fn occurs_later(achievements: &Vec<ProtocolAchievement>, at: usize) -> (later: bool)
    requires
        at < achievements@.len(),
    ensures
        later == named_later(views(achievements@), at as int),
{
    let ghost all = views(achievements@);
    let total: usize = achievements.len();
    let mut i: usize = at + 1;
    while i < total
        invariant
            at < i <= total == achievements@.len(),
            all == views(achievements@),
            forall|k: int| at < k < i ==> (#[trigger] all[k]).apiname != all[at as int].apiname,
        decreases achievements@.len() - i,
    {
        assert(all[i as int] == achievements@[i as int]@);
        if same_text(achievements[i].apiname.as_str(), achievements[at].apiname.as_str()) {
            return true;
        }
        i += 1;
    }
    false
}

/// The achievements as they are shown: one of each name, by number and then by name.
pub fn achievement_views(achievements: &Vec<ProtocolAchievement>, local: &Vec<String>) -> (list: Vec<
    AchievementView,
>)
    ensures
        views(list@) == sorted_form::<AchievementView>(
            shown_list(views(achievements@), views(local@), achievements@.len() as int),
        ),
{
    let ghost all = views(achievements@);
    let mut list: Vec<AchievementView> = Vec::new();
    assert(views(list@) =~= Seq::<ShownAchievement>::empty());
    let mut i: usize = 0;
    while i < achievements.len()
        invariant
            i <= achievements@.len(),
            all == views(achievements@),
            views(list@) == shown_list(all, views(local@), i as int),
        decreases achievements@.len() - i,
    {
        assert(all[i as int] == achievements@[i as int]@);
        if !occurs_later(achievements, i) {
            let achievement: &ProtocolAchievement = &achievements[i];
            let ghost held = list@;
            let view: AchievementView = AchievementView {
                api_name: achievement.apiname.clone(),
                display_name: achievement.name.clone(),
                achieved: achievement.achieved,
                unlock_time: achievement.unlocktime,
                present_in_local_save: contains_name(local, achievement.apiname.as_str()),
            };
            let ghost content = view@;
            list.push(view);
            assert(views(list@) =~= views(held).push(content));
        }
        i += 1;
    }
    stable_sort(list)
}

} // verus!
