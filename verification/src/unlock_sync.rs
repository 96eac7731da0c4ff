//! Bringing the unlocks of the saves to Steam, step by step: Steam's achievements are looked at,
//! what is missing is stored, and Steam is looked at again until the unlocks are found.
use vstd::pervasive::unreached;
use vstd::prelude::*;

use crate::achievement_plan::gains_a_bit;
use crate::achievements::{
    achieved_list, achieved_names, all_found, all_verified, check_store_message,
    check_store_response, direction_is_one_way, finish_sync, is_locked, is_store_request,
    missing_names, names_to_add, schema_bits, store_missing_unlocks, store_refusal,
    store_rejection, sync_failure, unlock_names, verify_again_after_ms, AchievementError,
    AchievementFailure, AchievementState, ProtocolAchievement, ReceivedSchema, StoreRequest,
    StoreResponse, UserStats, VERIFY_ATTEMPTS, VERIFY_DELAY_MS,
};
use crate::order::views;

verus! {

/// What became of what was asked for.
#[derive(Debug)]
pub enum UnlockEvent {
    /// Steam's achievements as they are.
    Received(Vec<ProtocolAchievement>),
    /// The account and the stats that the unlocks are added to.
    Refreshed { steam_id: Option<u64>, stats: UserStats, schema: ReceivedSchema },
    /// The answer to the store.
    Answered { emsg: u32, expected_emsg: u32, response: StoreResponse },
    /// The time has passed.
    Waited,
}

/// What is asked for next.
#[derive(Debug)]
pub enum UnlockAction {
    /// Steam's achievements are requested.
    Request,
    /// The stats are requested anew.
    Refresh,
    /// The stats are stored.
    Store(StoreRequest),
    /// Steam's achievements are requested again, behind a store or without one.
    ReadBack { stored: bool },
    /// So many milliseconds pass.
    Wait(u64),
    /// Nothing is left to do.
    Finish,
}

#[derive(Debug)]
enum Stage {
    RequestNext { ids: Vec<u32> },
    RefreshNext { previously: Vec<String>, names: Vec<String> },
    StoreNext { previously: Vec<String>, names: Vec<String>, request: StoreRequest },
    ReadNext { previously: Vec<String>, names: Vec<String>, stored: bool, attempt: usize },
    WaitNext { previously: Vec<String>, names: Vec<String>, attempt: usize },
    Over(Result<usize, AchievementError>),
}

/// How far the unlocks are on their way. `previously` are the names that were unlocked before,
/// `names` those that are missing.
pub enum UnlockStage {
    /// Steam's achievements are to be looked at for these unlocks of the saves.
    RequestNext { ids: Seq<u32> },
    /// The stats are to be looked at.
    RefreshNext { previously: Seq<Seq<char>>, names: Seq<Seq<char>> },
    /// The stats are to be stored.
    StoreNext { previously: Seq<Seq<char>>, names: Seq<Seq<char>>, request: StoreRequest },
    /// Steam's achievements are to be looked at again, for the `attempt`-th time behind a store.
    ReadNext { previously: Seq<Seq<char>>, names: Seq<Seq<char>>, stored: bool, attempt: int },
    /// Steam is given time before the `attempt`-th look.
    WaitNext { previously: Seq<Seq<char>>, names: Seq<Seq<char>>, attempt: int },
    /// So many unlocks were added, or why they were not.
    Over(Result<usize, AchievementFailure>),
}

/// Unlocks on their way to Steam.
#[derive(Debug)]
pub struct UnlockSync {
    stage: Stage,
    known: Option<Vec<ProtocolAchievement>>,
}

/// What an `UnlockSync` holds.
pub struct UnlockProgress {
    pub stage: UnlockStage,
    /// Steam's achievements as they are shown from now on, where they were received.
    pub known: Option<Seq<AchievementState>>,
}

impl View for UnlockSync {
    type V = UnlockProgress;

    closed spec fn view(&self) -> UnlockProgress {
        UnlockProgress {
            stage: match self.stage {
                Stage::RequestNext { ids } => UnlockStage::RequestNext { ids: ids@ },
                Stage::RefreshNext { previously, names } => UnlockStage::RefreshNext {
                    previously: views(previously@),
                    names: views(names@),
                },
                Stage::StoreNext { previously, names, request } => UnlockStage::StoreNext {
                    previously: views(previously@),
                    names: views(names@),
                    request,
                },
                Stage::ReadNext { previously, names, stored, attempt } => UnlockStage::ReadNext {
                    previously: views(previously@),
                    names: views(names@),
                    stored,
                    attempt: attempt as int,
                },
                Stage::WaitNext { previously, names, attempt } => UnlockStage::WaitNext {
                    previously: views(previously@),
                    names: views(names@),
                    attempt: attempt as int,
                },
                Stage::Over(result) => UnlockStage::Over(
                    match result {
                        Ok(added) => Ok(added),
                        Err(error) => Err(error@),
                    },
                ),
            },
            known: match self.known {
                Some(known) => Some(views(known@)),
                None => None,
            },
        }
    }
}

/// How unlocks set out: without any there is nothing to do.
pub open spec fn unlocks_begun(ids: Seq<u32>) -> UnlockProgress {
    UnlockProgress {
        stage: if ids.len() == 0 {
            UnlockStage::Over(Ok(0))
        } else {
            UnlockStage::RequestNext { ids }
        },
        known: None,
    }
}

/// What Steam's achievements come to: where none of the unlocks is missing, nothing is stored.
pub open spec fn behind_request(ids: Seq<u32>, known: Seq<AchievementState>) -> UnlockProgress {
    let names = missing_names(unlock_names(ids), known, ids.len() as int);
    UnlockProgress {
        stage: if names.len() == 0 {
            UnlockStage::Over(Ok(0))
        } else {
            UnlockStage::RefreshNext {
                previously: achieved_list(known, known.len() as int),
                names,
            }
        },
        known: Some(known),
    }
}

/// Whether `stage` is what the stats come to: a refusal, the additive store, or a look at
/// Steam where no stat would gain anything.
pub open spec fn is_behind_refresh(
    previously: Seq<Seq<char>>,
    names: Seq<Seq<char>>,
    steam_id: Option<u64>,
    stats: UserStats,
    schema: ReceivedSchema,
    stage: UnlockStage,
) -> bool {
    let refusal = store_refusal(steam_id, stats, schema, names);
    match stage {
        UnlockStage::Over(result) => refusal matches Some(failure) && result == Err::<
            usize,
            AchievementFailure,
        >(failure),
        UnlockStage::StoreNext { previously: before, names: missing, request } => before
            == previously && missing == names && refusal is None && is_store_request(
            request,
            steam_id,
            stats,
            schema,
            names,
        ),
        UnlockStage::ReadNext { previously: before, names: missing, stored, attempt } => before
            == previously && missing == names && !stored && attempt == 0 && refusal is None
            && !gains_a_bit(schema_bits(schema), stats.stats@, names),
        _ => false,
    }
}

/// What the answer to the store comes to.
pub open spec fn behind_answer(
    previously: Seq<Seq<char>>,
    names: Seq<Seq<char>>,
    emsg: u32,
    expected_emsg: u32,
    response: StoreResponse,
) -> UnlockStage {
    if emsg != expected_emsg {
        UnlockStage::Over(Err(AchievementFailure::UnexpectedMessage { emsg }))
    } else {
        match store_rejection(response) {
            Some(failure) => UnlockStage::Over(Err(failure)),
            None => UnlockStage::ReadNext { previously, names, stored: true, attempt: 0 },
        }
    }
}

/// What another look at Steam's achievements comes to. Behind a store Steam is given time a few
/// times until all unlocks are found. What Steam reports is shown, unless an unlock was lost.
pub open spec fn behind_read_back(
    progress: UnlockProgress,
    previously: Seq<Seq<char>>,
    names: Seq<Seq<char>>,
    stored: bool,
    attempt: int,
    verified: Seq<AchievementState>,
) -> UnlockProgress {
    if stored && !all_found(names, verified) && attempt + 1 < VERIFY_ATTEMPTS {
        UnlockProgress {
            stage: UnlockStage::WaitNext { previously, names, attempt: attempt + 1 },
            ..progress
        }
    } else {
        match sync_failure(previously, names, verified) {
            None => UnlockProgress {
                stage: UnlockStage::Over(Ok(names.len() as usize)),
                known: Some(verified),
            },
            Some(failure) => UnlockProgress {
                stage: UnlockStage::Over(Err(failure)),
                known: if failure is LostUnlocks {
                    progress.known
                } else {
                    Some(verified)
                },
            },
        }
    }
}

/// Whether `after` is how far the unlocks are behind an event. An event that does not answer
/// what was asked for changes nothing.
pub open spec fn is_next_progress(
    before: UnlockProgress,
    event: UnlockEvent,
    after: UnlockProgress,
) -> bool {
    match (before.stage, event) {
        (UnlockStage::RequestNext { ids }, UnlockEvent::Received(current)) => after
            == behind_request(ids, views(current@)),
        (
            UnlockStage::RefreshNext { previously, names },
            UnlockEvent::Refreshed { steam_id, stats, schema },
        ) => after.known == before.known && is_behind_refresh(
            previously,
            names,
            steam_id,
            stats,
            schema,
            after.stage,
        ),
        (
            UnlockStage::StoreNext { previously, names, .. },
            UnlockEvent::Answered { emsg, expected_emsg, response },
        ) => after == (UnlockProgress {
            stage: behind_answer(previously, names, emsg, expected_emsg, response),
            ..before
        }),
        (
            UnlockStage::ReadNext { previously, names, stored, attempt },
            UnlockEvent::Received(verified),
        ) => after == behind_read_back(
            before,
            previously,
            names,
            stored,
            attempt,
            views(verified@),
        ),
        (UnlockStage::WaitNext { previously, names, attempt }, UnlockEvent::Waited) => after == (
        UnlockProgress {
            stage: UnlockStage::ReadNext { previously, names, stored: true, attempt },
            ..before
        }),
        _ => after == before,
    }
}

/// Whether an action is what is asked for.
pub open spec fn is_next_unlock_action(progress: UnlockProgress, action: UnlockAction) -> bool {
    match (progress.stage, action) {
        (UnlockStage::RequestNext { .. }, UnlockAction::Request) => true,
        (UnlockStage::RefreshNext { .. }, UnlockAction::Refresh) => true,
        (UnlockStage::StoreNext { request, .. }, UnlockAction::Store(sent)) => sent.same(request),
        (UnlockStage::ReadNext { stored, .. }, UnlockAction::ReadBack { stored: behind }) => behind
            == stored,
        (UnlockStage::WaitNext { .. }, UnlockAction::Wait(delay)) => delay == VERIFY_DELAY_MS,
        (UnlockStage::Over(_), UnlockAction::Finish) => true,
        _ => false,
    }
}

impl UnlockSync {
    /// Whether the unlocks are on a way that began with `new`.
    pub closed spec fn wf(&self) -> bool {
        match self.stage {
            Stage::ReadNext { attempt, .. } => attempt < VERIFY_ATTEMPTS,
            Stage::WaitNext { attempt, .. } => attempt < VERIFY_ATTEMPTS,
            _ => true,
        }
    }

    /// The way of the unlocks of the saves to Steam.
    pub fn new(ids: Vec<u32>) -> (sync: UnlockSync)
        ensures
            sync.wf(),
            sync@ == unlocks_begun(ids@),
    {
        let stage: Stage = if ids.len() == 0 {
            Stage::Over(Ok(0))
        } else {
            Stage::RequestNext { ids }
        };
        UnlockSync { stage, known: None }
    }

    /// What is asked for next.
    pub fn action(&self) -> (action: UnlockAction)
        requires
            self.wf(),
        ensures
            is_next_unlock_action(self@, action),
    {
        match &self.stage {
            Stage::RequestNext { .. } => UnlockAction::Request,
            Stage::RefreshNext { .. } => UnlockAction::Refresh,
            Stage::StoreNext { request, .. } => UnlockAction::Store(request.clone()),
            Stage::ReadNext { stored, .. } => UnlockAction::ReadBack { stored: *stored },
            Stage::WaitNext { .. } => UnlockAction::Wait(VERIFY_DELAY_MS),
            Stage::Over(_) => UnlockAction::Finish,
        }
    }

    /// Steam's achievements as they are shown from now on, where they were received.
    pub fn known(&self) -> (known: Option<&Vec<ProtocolAchievement>>)
        ensures
            match known {
                Some(known) => self@.known == Some(views(known@)),
                None => self@.known is None,
            },
    {
        match &self.known {
            Some(known) => Some(known),
            None => None,
        }
    }

    /// What the stats come to.
    fn stage_behind_refresh(
        previously: Vec<String>,
        names: Vec<String>,
        steam_id: Option<u64>,
        stats: &UserStats,
        schema: &ReceivedSchema,
    ) -> (next: UnlockSync)
        ensures
            next.wf(),
            next@.known is None,
            is_behind_refresh(
                views(previously@),
                views(names@),
                steam_id,
                *stats,
                *schema,
                next@.stage,
            ),
    {
        let stage: Stage = match store_missing_unlocks(steam_id, stats, schema, &names) {
            Err(error) => Stage::Over(Err(error)),
            Ok(Some(request)) => Stage::StoreNext { previously, names, request },
            Ok(None) => Stage::ReadNext { previously, names, stored: false, attempt: 0 },
        };
        UnlockSync { stage, known: None }
    }

    /// What another look at Steam's achievements comes to.
    fn behind_read(
        previously: Vec<String>,
        names: Vec<String>,
        stored: bool,
        attempt: usize,
        known: Option<Vec<ProtocolAchievement>>,
        verified: Vec<ProtocolAchievement>,
    ) -> (next: UnlockSync)
        requires
            attempt < VERIFY_ATTEMPTS,
        ensures
            next.wf(),
            forall|progress: UnlockProgress|
                progress.known == (match known {
                    Some(known) => Some(views(known@)),
                    None => None,
                }) ==> next@ == #[trigger] behind_read_back(
                    progress,
                    views(previously@),
                    views(names@),
                    stored,
                    attempt as int,
                    views(verified@),
                ),
    {
        if stored {
            let found: bool = all_verified(&names, &verified);
            if let Some(_) = verify_again_after_ms(attempt, found) {
                return UnlockSync {
                    stage: Stage::WaitNext { previously, names, attempt: attempt + 1 },
                    known,
                };
            }
        }
        match finish_sync(&previously, &names, &verified) {
            Ok(added) => UnlockSync { stage: Stage::Over(Ok(added)), known: Some(verified) },
            Err(error) => {
                let lost: bool = match &error {
                    AchievementError::LostUnlocks { .. } => true,
                    _ => false,
                };
                UnlockSync {
                    stage: Stage::Over(Err(error)),
                    known: if lost {
                        known
                    } else {
                        Some(verified)
                    },
                }
            },
        }
    }

    /// The way behind an event.
    pub fn step(self, event: UnlockEvent) -> (next: UnlockSync)
        requires
            self.wf(),
        ensures
            next.wf(),
            is_next_progress(self@, event, next@),
    {
        let UnlockSync { stage, known } = self;
        match (stage, event) {
            (Stage::RequestNext { ids }, UnlockEvent::Received(current)) => {
                let names: Vec<String> = names_to_add(&ids, &current);
                let stage: Stage = if names.len() == 0 {
                    Stage::Over(Ok(0))
                } else {
                    Stage::RefreshNext { previously: achieved_names(&current), names }
                };
                assert(views(names@).len() == names@.len());
                UnlockSync { stage, known: Some(current) }
            },
            (
                Stage::RefreshNext { previously, names },
                UnlockEvent::Refreshed { steam_id, stats, schema },
            ) => {
                let behind: UnlockSync = Self::stage_behind_refresh(
                    previously,
                    names,
                    steam_id,
                    &stats,
                    &schema,
                );
                UnlockSync { stage: behind.stage, known }
            },
            (
                Stage::StoreNext { previously, names, request: _ },
                UnlockEvent::Answered { emsg, expected_emsg, response },
            ) => {
                let stage: Stage = match check_store_message(emsg, expected_emsg) {
                    Err(error) => Stage::Over(Err(error)),
                    Ok(()) => match check_store_response(response) {
                        Err(error) => Stage::Over(Err(error)),
                        Ok(()) => Stage::ReadNext { previously, names, stored: true, attempt: 0 },
                    },
                };
                UnlockSync { stage, known }
            },
            (
                Stage::ReadNext { previously, names, stored, attempt },
                UnlockEvent::Received(verified),
            ) => Self::behind_read(previously, names, stored, attempt, known, verified),
            (Stage::WaitNext { previously, names, attempt }, UnlockEvent::Waited) => UnlockSync {
                stage: Stage::ReadNext { previously, names, stored: true, attempt },
                known,
            },
            (stage, _) => UnlockSync { stage, known },
        }
    }

    /// How many unlocks were added, or why they were not.
    pub fn outcome(self) -> (result: Result<usize, AchievementError>)
        requires
            self@.stage is Over,
        ensures
            self@.stage == UnlockStage::Over(
                match result {
                    Ok(added) => Ok(added),
                    Err(error) => Err(error@),
                },
            ),
    {
        match self.stage {
            Stage::Over(result) => result,
            _ => unreached(),
        }
    }
}

/// Unlocks that Steam has, and unlocks that it does not know, lead to no store: the stats are
/// looked at only for what a save has and Steam has locked, and whenever there is any of that.
pub proof fn only_missing_unlocks_are_stored(ids: Seq<u32>, known: Seq<AchievementState>)
    ensures
        match behind_request(ids, known).stage {
            UnlockStage::RefreshNext { names, .. } => names.len() > 0 && forall|name: Seq<char>|
                #![trigger names.contains(name)]
                names.contains(name) <==> is_locked(known, name) && unlock_names(ids).contains(
                    name,
                ),
            UnlockStage::Over(result) => result == Ok::<usize, AchievementFailure>(0) && forall|
                name: Seq<char>,
            |
                #![trigger unlock_names(ids).contains(name)]
                unlock_names(ids).contains(name) ==> !is_locked(known, name),
            _ => false,
        },
{
    let names = missing_names(unlock_names(ids), known, ids.len() as int);
    assert forall|name: Seq<char>| #[trigger] names.contains(name) <==> is_locked(known, name)
        && unlock_names(ids).contains(name) by {
        direction_is_one_way(ids, known, name);
    }
    if names.len() == 0 {
        assert forall|name: Seq<char>| #[trigger]
            unlock_names(ids).contains(name) implies !is_locked(known, name) by {
            assert(!names.contains(name));
        }
    }
}

/// Without unlocks in the saves nothing is asked of Steam.
pub proof fn nothing_is_asked_without_unlocks(ids: Seq<u32>)
    ensures
        ids.len() == 0 ==> unlocks_begun(ids).stage == UnlockStage::Over(Ok(0usize)),
        ids.len() > 0 ==> unlocks_begun(ids).stage == (UnlockStage::RequestNext { ids }),
        unlocks_begun(ids).known is None,
{
}

/// What each answer of Steam leads to. What Steam reports is what is known from then on; what it
/// has unlocked is held on to; a store that it did not take is a failure; stored unlocks are
/// looked for up to four times; and what comes out counts by what Steam reports last, which is
/// known from then on unless it lost an unlock.
pub proof fn answers_lead_unlocks_on(
    before: UnlockProgress,
    event: UnlockEvent,
    after: UnlockProgress,
)
    requires
        is_next_progress(before, event, after),
    ensures
        match (before.stage, event) {
            (UnlockStage::RequestNext { ids }, UnlockEvent::Received(current)) => {
                let known = views(current@);
                let missing = missing_names(unlock_names(ids), known, ids.len() as int);
                &&& after.known == Some(known)
                &&& missing.len() == 0 ==> after.stage == UnlockStage::Over(Ok(0usize))
                &&& missing.len() > 0 ==> (after.stage matches UnlockStage::RefreshNext {
                    previously,
                    names,
                } && names == missing && previously == achieved_list(known, known.len() as int))
            },
            (
                UnlockStage::RefreshNext { previously, names },
                UnlockEvent::Refreshed { steam_id, stats, schema },
            ) => {
                &&& after.known == before.known
                &&& store_refusal(steam_id, stats, schema, names) matches Some(failure)
                    ==> after.stage == UnlockStage::Over(Err(failure))
                &&& store_refusal(steam_id, stats, schema, names) is None ==> match after.stage {
                    UnlockStage::StoreNext { previously: p, names: n, request } => p == previously
                        && n == names && is_store_request(request, steam_id, stats, schema, names),
                    UnlockStage::ReadNext { previously: p, names: n, stored, .. } => p == previously
                        && n == names && !stored && !gains_a_bit(
                        schema_bits(schema),
                        stats.stats@,
                        names,
                    ),
                    _ => false,
                }
            },
            (
                UnlockStage::StoreNext { previously, names, .. },
                UnlockEvent::Answered { emsg, expected_emsg, response },
            ) => {
                &&& after.known == before.known
                &&& emsg != expected_emsg ==> after.stage == UnlockStage::Over(
                    Err(AchievementFailure::UnexpectedMessage { emsg }),
                )
                &&& emsg == expected_emsg ==> match store_rejection(response) {
                    Some(failure) => after.stage == UnlockStage::Over(Err(failure)),
                    None => after.stage == (UnlockStage::ReadNext {
                        previously,
                        names,
                        stored: true,
                        attempt: 0,
                    }),
                }
            },
            (
                UnlockStage::ReadNext { previously, names, stored, attempt },
                UnlockEvent::Received(verified),
            ) => {
                let seen = views(verified@);
                let waits = stored && !all_found(names, seen) && attempt < 3;
                &&& waits ==> after.known == before.known && after.stage == (
                UnlockStage::WaitNext { previously, names, attempt: attempt + 1 })
                &&& !waits ==> match sync_failure(previously, names, seen) {
                    None => after.stage == UnlockStage::Over(Ok(names.len() as usize))
                        && after.known == Some(seen),
                    Some(failure) => after.stage == UnlockStage::Over(Err(failure)) && (
                    failure is LostUnlocks ==> after.known == before.known) && (
                    failure !is LostUnlocks ==> after.known == Some(seen)),
                }
            },
            (UnlockStage::WaitNext { previously, names, attempt }, UnlockEvent::Waited) =>
            after.known == before.known && after.stage == (UnlockStage::ReadNext {
                previously,
                names,
                stored: true,
                attempt,
            }),
            _ => after == before,
        },
{
}

/// What is asked for on the way of unlocks: a store is the one that was planned, and between two
/// looks a quarter of a second passes.
pub proof fn unlocks_ask_for_what_is_next(progress: UnlockProgress, action: UnlockAction)
    requires
        is_next_unlock_action(progress, action),
    ensures
        match progress.stage {
            UnlockStage::RequestNext { .. } => action is Request,
            UnlockStage::RefreshNext { .. } => action is Refresh,
            UnlockStage::StoreNext { request, .. } => action matches UnlockAction::Store(sent)
                && sent.stats@ == request.stats@ && sent.crc_stats == request.crc_stats
                && sent.game_id == request.game_id && sent.explicit_reset == request.explicit_reset
                && sent.settor_steam_id == request.settor_steam_id && sent.settee_steam_id
                == request.settee_steam_id,
            UnlockStage::ReadNext { stored, .. } => action == (UnlockAction::ReadBack { stored }),
            UnlockStage::WaitNext { .. } => action == UnlockAction::Wait(250),
            UnlockStage::Over(_) => action is Finish,
        },
{
}

} // verus!
