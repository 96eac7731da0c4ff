//! What the user sees of the synchronization.
use std::collections::BTreeSet;
use vstd::prelude::*;

use crate::order::views;
use crate::slots::ascending;
use crate::text::{decimal, optional_text, same_text, to_decimal};

verus! {

/// What is shown of a save.
#[derive(Debug)]
pub struct SaveSummary {
    pub slot: u8,
    pub filename: String,
    pub size: u64,
    pub modified_unix_ms: Option<u64>,
    pub sha256: Option<String>,
    pub steam_sha1: Option<String>,
}

/// What a `SaveSummary` holds.
pub struct SummaryView {
    pub slot: u8,
    pub filename: Seq<char>,
    pub size: u64,
    pub modified_unix_ms: Option<u64>,
    pub sha256: Option<Seq<char>>,
    pub steam_sha1: Option<Seq<char>>,
}

impl View for SaveSummary {
    type V = SummaryView;

    open spec fn view(&self) -> SummaryView {
        SummaryView {
            slot: self.slot,
            filename: self.filename@,
            size: self.size,
            modified_unix_ms: self.modified_unix_ms,
            sha256: optional_text(self.sha256),
            steam_sha1: optional_text(self.steam_sha1),
        }
    }
}

impl Clone for SaveSummary {
    fn clone(&self) -> (copy: Self)
        ensures
            copy@ == self@,
    {
        SaveSummary {
            slot: self.slot,
            filename: self.filename.clone(),
            size: self.size,
            modified_unix_ms: self.modified_unix_ms,
            sha256: self.sha256.clone(),
            steam_sha1: self.steam_sha1.clone(),
        }
    }
}

/// A slot that waits for the user.
#[derive(Debug)]
pub struct PendingChoice {
    pub slot: u8,
    pub kind: String,
    pub local: SaveSummary,
    pub remote: SaveSummary,
    /// The name by which the save on Steam is or would be requested.
    pub remote_name: String,
}

/// What a `PendingChoice` holds.
pub struct ChoiceView {
    pub slot: u8,
    pub kind: Seq<char>,
    pub local: SummaryView,
    pub remote: SummaryView,
    pub remote_name: Seq<char>,
}

impl View for PendingChoice {
    type V = ChoiceView;

    open spec fn view(&self) -> ChoiceView {
        ChoiceView {
            slot: self.slot,
            kind: self.kind@,
            local: self.local@,
            remote: self.remote@,
            remote_name: self.remote_name@,
        }
    }
}

impl Clone for PendingChoice {
    fn clone(&self) -> (copy: Self)
        ensures
            copy@ == self@,
    {
        PendingChoice {
            slot: self.slot,
            kind: self.kind.clone(),
            local: self.local.clone(),
            remote: self.remote.clone(),
            remote_name: self.remote_name.clone(),
        }
    }
}

/// The state of the synchronization as it is shown.
#[derive(Debug)]
pub struct StatusSnapshot {
    pub phase: String,
    pub detail: String,
    pub authenticated: bool,
    pub account_connected: bool,
    pub steam_id: Option<u64>,
    pub steam_playing: bool,
    pub qr_url: Option<String>,
    pub guard_kind: Option<String>,
    pub last_sync_unix_ms: Option<u64>,
    pub local_saves: Vec<SaveSummary>,
    pub remote_saves: Vec<SaveSummary>,
    pub pending_choices: Vec<PendingChoice>,
    pub backup_count: usize,
    pub offline_play_allowed: bool,
    pub excluded_slots: Vec<u8>,
}

/// What a `StatusSnapshot` holds.
pub struct StatusView {
    pub phase: Seq<char>,
    pub detail: Seq<char>,
    pub authenticated: bool,
    pub account_connected: bool,
    pub steam_id: Option<u64>,
    pub steam_playing: bool,
    pub qr_url: Option<Seq<char>>,
    pub guard_kind: Option<Seq<char>>,
    pub last_sync_unix_ms: Option<u64>,
    pub local_saves: Seq<SummaryView>,
    pub remote_saves: Seq<SummaryView>,
    pub pending_choices: Seq<ChoiceView>,
    pub backup_count: usize,
    pub offline_play_allowed: bool,
    pub excluded_slots: Seq<u8>,
}

impl View for StatusSnapshot {
    type V = StatusView;

    open spec fn view(&self) -> StatusView {
        StatusView {
            phase: self.phase@,
            detail: self.detail@,
            authenticated: self.authenticated,
            account_connected: self.account_connected,
            steam_id: self.steam_id,
            steam_playing: self.steam_playing,
            qr_url: optional_text(self.qr_url),
            guard_kind: optional_text(self.guard_kind),
            last_sync_unix_ms: self.last_sync_unix_ms,
            local_saves: views(self.local_saves@),
            remote_saves: views(self.remote_saves@),
            pending_choices: views(self.pending_choices@),
            backup_count: self.backup_count,
            offline_play_allowed: self.offline_play_allowed,
            excluded_slots: self.excluded_slots@,
        }
    }
}

/// Copies summaries.
fn copy_summaries(items: &Vec<SaveSummary>) -> (copy: Vec<SaveSummary>)
    ensures
        views(copy@) == views(items@),
{
    let mut copy: Vec<SaveSummary> = Vec::new();
    let mut i: usize = 0;
    while i < items.len()
        invariant
            i <= items@.len(),
            copy@.len() == i,
            forall|k: int| 0 <= k < i ==> #[trigger] copy@[k]@ == items@[k]@,
        decreases items@.len() - i,
    {
        copy.push(items[i].clone());
        i += 1;
    }
    assert(views(copy@) =~= views(items@));
    copy
}

/// Copies choices.
pub fn copy_choices(items: &Vec<PendingChoice>) -> (copy: Vec<PendingChoice>)
    ensures
        views(copy@) == views(items@),
{
    let mut copy: Vec<PendingChoice> = Vec::new();
    let mut i: usize = 0;
    while i < items.len()
        invariant
            i <= items@.len(),
            copy@.len() == i,
            forall|k: int| 0 <= k < i ==> #[trigger] copy@[k]@ == items@[k]@,
        decreases items@.len() - i,
    {
        copy.push(items[i].clone());
        i += 1;
    }
    assert(views(copy@) =~= views(items@));
    copy
}

impl Clone for StatusSnapshot {
    fn clone(&self) -> (copy: Self)
        ensures
            copy@ == self@,
    {
        StatusSnapshot {
            phase: self.phase.clone(),
            detail: self.detail.clone(),
            authenticated: self.authenticated,
            account_connected: self.account_connected,
            steam_id: self.steam_id,
            steam_playing: self.steam_playing,
            qr_url: self.qr_url.clone(),
            guard_kind: self.guard_kind.clone(),
            last_sync_unix_ms: self.last_sync_unix_ms,
            local_saves: copy_summaries(&self.local_saves),
            remote_saves: copy_summaries(&self.remote_saves),
            pending_choices: copy_choices(&self.pending_choices),
            backup_count: self.backup_count,
            offline_play_allowed: self.offline_play_allowed,
            excluded_slots: crate::bytes::to_vec(&self.excluded_slots),
        }
    }
}

/// The state before anything happened.
pub open spec fn first_status() -> StatusView {
    StatusView {
        phase: "idle"@,
        detail: "Not connected"@,
        authenticated: false,
        account_connected: false,
        steam_id: None,
        steam_playing: false,
        qr_url: None,
        guard_kind: None,
        last_sync_unix_ms: None,
        local_saves: seq![],
        remote_saves: seq![],
        pending_choices: seq![],
        backup_count: 0,
        offline_play_allowed: true,
        excluded_slots: seq![],
    }
}

impl Default for StatusSnapshot {
    fn default() -> (status: Self)
        ensures
            status@ == first_status(),
    {
        let status: StatusSnapshot = StatusSnapshot {
            phase: "idle".to_owned(),
            detail: "Not connected".to_owned(),
            authenticated: false,
            account_connected: false,
            steam_id: None,
            steam_playing: false,
            qr_url: None,
            guard_kind: None,
            last_sync_unix_ms: None,
            local_saves: Vec::new(),
            remote_saves: Vec::new(),
            pending_choices: Vec::new(),
            backup_count: 0,
            offline_play_allowed: true,
            excluded_slots: Vec::new(),
        };
        assert(status@.local_saves =~= first_status().local_saves);
        assert(status@.remote_saves =~= first_status().remote_saves);
        assert(status@.pending_choices =~= first_status().pending_choices);
        assert(status@.excluded_slots =~= first_status().excluded_slots);
        status
    }
}

/// What the user is asked for during a sign-in with a password.
#[derive(Debug, Clone, Copy, PartialEq, Eq, Structural)]
pub enum CredentialPrompt {
    EmailCode,
    DeviceCode,
    DeviceConfirmation,
}

/// The name of a prompt.
pub open spec fn prompt_kind(prompt: CredentialPrompt) -> Seq<char> {
    match prompt {
        CredentialPrompt::EmailCode => "email_code"@,
        CredentialPrompt::DeviceCode => "device_code"@,
        CredentialPrompt::DeviceConfirmation => "device_confirmation"@,
    }
}

/// The text of a prompt.
pub open spec fn prompt_detail(prompt: CredentialPrompt) -> Seq<char> {
    match prompt {
        CredentialPrompt::EmailCode => "Enter the Steam Guard email code"@,
        CredentialPrompt::DeviceCode => "Enter the Steam Guard code"@,
        CredentialPrompt::DeviceConfirmation => "Approve this sign-in in Steam Mobile"@,
    }
}

/// Whether a phase stays when an operation ends without an error: it waits for the user or
/// for Steam.
pub open spec fn is_lasting_phase(phase: Seq<char>) -> bool {
    phase == "conflict"@ || phase == "first_sync"@ || phase == "offline"@ || phase
        == "restart_required"@ || phase == "upload_required"@
}

/// Whether one of the choices is of the given kind.
pub open spec fn has_kind(choices: Seq<ChoiceView>, kind: Seq<char>) -> bool {
    exists|i: int| 0 <= i < choices.len() && (#[trigger] choices[i]).kind == kind
}

/// The phase behind a synchronization that leaves `choices` and so many uploads to the user.
pub open spec fn final_phase(choices: Seq<ChoiceView>, uploads_waiting: usize) -> Seq<char> {
    if choices.len() == 0 && uploads_waiting == 0 {
        "idle"@
    } else if has_kind(choices, "conflict"@) {
        "conflict"@
    } else if has_kind(choices, "remote_update_restart_required"@) {
        "restart_required"@
    } else if uploads_waiting > 0 {
        "upload_required"@
    } else {
        "first_sync"@
    }
}

/// The text behind a synchronization that leaves `choices` and so many uploads to the user.
pub open spec fn final_detail(choices: Seq<ChoiceView>, uploads_waiting: usize) -> Seq<char> {
    if choices.len() == 0 && uploads_waiting == 0 {
        "Steam Cloud is synchronized"@
    } else if has_kind(choices, "conflict"@) {
        "A true save conflict requires your choice"@
    } else if has_kind(choices, "remote_update_restart_required"@) {
        "Relaunch Isaac to apply the selected Steam save safely"@
    } else if uploads_waiting == 1 {
        "iPhone progress is waiting; tap Sync Now to upload a Windows-compatible save"@
    } else if uploads_waiting > 0 {
        decimal(uploads_waiting as nat)
            + " iPhone saves are waiting; tap Sync Now to upload them"@
    } else {
        "First sync requires your choice"@
    }
}

/// Whether one of the choices is of the given kind.
fn any_of_kind(choices: &Vec<PendingChoice>, kind: &str) -> (found: bool)
    ensures
        found == has_kind(views(choices@), kind@),
{
    let ghost all = views(choices@);
    let mut i: usize = 0;
    while i < choices.len()
        invariant
            i <= choices@.len(),
            all == views(choices@),
            forall|k: int| 0 <= k < i ==> (#[trigger] all[k]).kind != kind@,
        decreases choices@.len() - i,
    {
        assert(all[i as int] == choices@[i as int]@);
        if same_text(choices[i].kind.as_str(), kind) {
            return true;
        }
        i += 1;
    }
    false
}

/// The text for so many achievements that were added to Steam.
pub open spec fn added_detail(added: usize) -> Seq<char> {
    if added == 0 {
        "Steam Cloud and save-derived achievements are synchronized"@
    } else if added == 1 {
        "Steam Cloud synchronized; 1 missing save achievement added to Steam"@
    } else {
        "Steam Cloud synchronized; "@ + decimal(added as nat)
            + " missing save achievements added to Steam"@
    }
}

/// The choices that are not of `slot`.
pub open spec fn without_slot(choices: Seq<ChoiceView>, slot: u8) -> Seq<ChoiceView> {
    choices.filter(|choice: ChoiceView| choice.slot != slot)
}

/// The text for a slot that the user decided.
pub open spec fn resolved_detail(slot: u8, use_local: bool) -> Seq<char> {
    "Slot "@ + decimal(slot as nat) + (if use_local {
        " resolved and verified"@
    } else {
        " Steam save is verified and queued; relaunch Isaac to apply it"@
    })
}

/// The status behind a decision of the user.
pub open spec fn resolved_status(status: StatusView, slot: u8, use_local: bool) -> StatusView {
    StatusView {
        pending_choices: without_slot(status.pending_choices, slot),
        phase: if use_local {
            status.phase
        } else {
            "restart_required"@
        },
        detail: resolved_detail(slot, use_local),
        ..status
    }
}

/// The slots of a set in ascending order.
fn slot_list(slots: &BTreeSet<u8>) -> (list: Vec<u8>)
    ensures
        list@ == ascending(slots@, 256),
{
    let mut list: Vec<u8> = Vec::new();
    let mut number: u16 = 0;
    while number < 256
        invariant
            number <= 256,
            list@ == ascending(slots@, number as nat),
        decreases 256 - number,
    {
        let candidate: u8 = number as u8;
        if slots.contains(&candidate) {
            list.push(candidate);
        }
        number += 1;
    }
    list
}

/// The status when a stored credential was found.
pub open spec fn status_when_account_found(status: StatusView) -> StatusView {
    StatusView {
        account_connected: true,
        detail: "Steam account connected"@,
        ..status
    }
}

/// The status when the excluded slots are known.
pub open spec fn status_when_exclude(status: StatusView, excluded: Set<u8>) -> StatusView {
    StatusView {
        excluded_slots: ascending(excluded, 256),
        ..status
    }
}

/// The status when a sign-in begins, by code or by password.
pub open spec fn status_when_begin_sign_in(status: StatusView, by_password: bool) -> StatusView {
    StatusView {
        detail: if by_password {
            "Signing in to Steam…"@
        } else {
            "Connecting to Steam…"@
        },
        qr_url: None,
        guard_kind: None,
        ..status
    }
}

/// The status when a code waits to be scanned.
pub open spec fn status_when_show_qr(status: StatusView, url: Seq<char>) -> StatusView {
    StatusView {
        phase: "awaiting_steam_guard"@,
        detail: "Approve this sign-in with Steam Mobile"@,
        qr_url: Some(url),
        guard_kind: Some("qr"@),
        ..status
    }
}

/// The status when Steam asks for a confirmation.
pub open spec fn status_when_show_prompt(
    status: StatusView,
    prompt: CredentialPrompt,
) -> StatusView {
    StatusView {
        phase: "awaiting_steam_guard"@,
        detail: prompt_detail(prompt),
        qr_url: None,
        guard_kind: Some(prompt_kind(prompt)),
        ..status
    }
}

/// The status when the sign-in was cancelled.
pub open spec fn status_when_sign_in_cancelled(status: StatusView) -> StatusView {
    StatusView {
        phase: "idle"@,
        detail: "Steam sign-in cancelled"@,
        qr_url: None,
        guard_kind: None,
        ..status
    }
}

/// The status when the sign-in is being cancelled.
pub open spec fn status_when_cancelling_sign_in(status: StatusView) -> StatusView {
    StatusView {
        phase: "cancelling"@,
        detail: "Cancelling Steam sign-in…"@,
        qr_url: None,
        guard_kind: None,
        ..status
    }
}

/// The status when the session stands.
pub open spec fn status_when_connected(status: StatusView, steam_id: u64) -> StatusView {
    StatusView {
        authenticated: true,
        account_connected: true,
        steam_id: Some(steam_id),
        qr_url: None,
        guard_kind: None,
        detail: "Steam connected"@,
        ..status
    }
}

/// The status when Steam shows the game as played or not.
pub open spec fn status_when_presence(status: StatusView, playing: bool) -> StatusView {
    StatusView {
        steam_playing: playing,
        ..status
    }
}

/// The status when Steam is not to be had; the game can be played all the same.
pub open spec fn status_when_offline(status: StatusView, message: Seq<char>) -> StatusView {
    StatusView {
        phase: "offline"@,
        detail: message,
        offline_play_allowed: true,
        ..status
    }
}

/// The status when the session was ended by the user.
pub open spec fn status_when_disconnected(status: StatusView) -> StatusView {
    StatusView { detail: "Disconnected from Steam"@, ..first_status() }
}

/// The status when an operation begins.
pub open spec fn status_when_begin_operation(status: StatusView, phase: Seq<char>) -> StatusView {
    StatusView {
        phase,
        detail: phase,
        ..status
    }
}

/// The status when an operation failed; the game can be played all the same.
pub open spec fn status_when_operation_failed(
    status: StatusView,
    message: Seq<char>,
) -> StatusView {
    StatusView {
        phase: "error"@,
        detail: message,
        offline_play_allowed: true,
        authenticated: false,
        steam_playing: false,
        ..status
    }
}

/// The status when an operation ended without an error.
pub open spec fn status_when_operation_succeeded(status: StatusView) -> StatusView {
    if !is_lasting_phase(status.phase) {
        StatusView {
            phase: "idle"@,
            ..status
        }
    } else {
        status
    }
}

/// The status when a backup waits for the next start of the game.
pub open spec fn status_when_backup_queued(status: StatusView) -> StatusView {
    StatusView {
        phase: "restart_required"@,
        detail: "Backup verified and queued; relaunch Isaac to restore it safely"@,
        ..status
    }
}

/// The status when the achievements are being compared.
pub open spec fn status_when_comparing_achievements(status: StatusView) -> StatusView {
    if status.phase == "idle"@ {
        StatusView {
            phase: "syncing"@,
            detail: "Comparing native save achievements with Steam…"@,
            ..status
        }
    } else {
        status
    }
}

/// The status when so many achievements were added to Steam.
pub open spec fn status_when_report_achievement_result(
    status: StatusView,
    added: usize,
) -> StatusView {
    if status.phase == "idle"@ || status.phase == "syncing"@ {
        StatusView {
            detail: added_detail(added),
            ..status
        }
    } else {
        status
    }
}

/// The status when the saves were synchronized, the achievements were not.
pub open spec fn status_when_achievements_failed(
    status: StatusView,
    message: Seq<char>,
) -> StatusView {
    if status.phase == "idle"@ || status.phase == "syncing"@ {
        StatusView {
            phase: "idle"@,
            detail: "Steam Cloud synchronized; achievement sync failed: "@ + message,
            ..status
        }
    } else {
        status
    }
}

/// The status when a synchronization begins.
pub open spec fn status_when_sync_started(status: StatusView) -> StatusView {
    StatusView {
        phase: "syncing"@,
        detail: "Discovering Isaac saves…"@,
        pending_choices: seq![],
        ..status
    }
}

/// The status when the saves on both sides are known.
pub open spec fn status_when_saves_listed(
    status: StatusView,
    excluded: Set<u8>,
    local: Seq<SummaryView>,
    remote: Seq<SummaryView>,
) -> StatusView {
    StatusView {
        excluded_slots: ascending(excluded, 256),
        local_saves: local,
        remote_saves: remote,
        detail: "Comparing local, Steam, and base hashes…"@,
        ..status
    }
}

/// The status when a synchronization leaves `choices` and so many uploads to the user.
pub open spec fn status_when_sync_finished(
    status: StatusView,
    choices: Seq<ChoiceView>,
    backup_count: usize,
    now: u64,
    uploads_waiting: usize,
) -> StatusView {
    StatusView {
        pending_choices: choices,
        backup_count,
        last_sync_unix_ms: Some(now),
        phase: final_phase(choices, uploads_waiting),
        detail: final_detail(choices, uploads_waiting),
        ..status
    }
}

impl StatusSnapshot {
    /// A stored credential was found.
    pub fn account_found(&mut self)
        ensures
            final(self)@ == status_when_account_found(old(self)@),
    {
        self.account_connected = true;
        self.detail = "Steam account connected".to_owned();
    }

    /// The excluded slots are known.
    pub fn exclude(&mut self, excluded: &BTreeSet<u8>)
        ensures
            final(self)@ == status_when_exclude(old(self)@, excluded@),
    {
        self.excluded_slots = slot_list(excluded);
    }

    /// A sign-in begins, by code or by password.
    pub fn begin_sign_in(&mut self, by_password: bool)
        ensures
            final(self)@ == status_when_begin_sign_in(old(self)@, by_password),
    {
        self.detail = if by_password {
            "Signing in to Steam…".to_owned()
        } else {
            "Connecting to Steam…".to_owned()
        };
        self.qr_url = None;
        self.guard_kind = None;
    }

    /// A code waits to be scanned.
    pub fn show_qr(&mut self, url: &str)
        ensures
            final(self)@ == status_when_show_qr(old(self)@, url@),
    {
        self.phase = "awaiting_steam_guard".to_owned();
        self.detail = "Approve this sign-in with Steam Mobile".to_owned();
        self.qr_url = Some(url.to_owned());
        self.guard_kind = Some("qr".to_owned());
    }

    /// Steam asks for a confirmation.
    pub fn show_prompt(&mut self, prompt: CredentialPrompt)
        ensures
            final(self)@ == status_when_show_prompt(old(self)@, prompt),
    {
        self.phase = "awaiting_steam_guard".to_owned();
        self.qr_url = None;
        match prompt {
            CredentialPrompt::EmailCode => {
                self.guard_kind = Some("email_code".to_owned());
                self.detail = "Enter the Steam Guard email code".to_owned();
            },
            CredentialPrompt::DeviceCode => {
                self.guard_kind = Some("device_code".to_owned());
                self.detail = "Enter the Steam Guard code".to_owned();
            },
            CredentialPrompt::DeviceConfirmation => {
                self.guard_kind = Some("device_confirmation".to_owned());
                self.detail = "Approve this sign-in in Steam Mobile".to_owned();
            },
        }
    }

    /// The sign-in was cancelled.
    pub fn sign_in_cancelled(&mut self)
        ensures
            final(self)@ == status_when_sign_in_cancelled(old(self)@),
    {
        self.phase = "idle".to_owned();
        self.detail = "Steam sign-in cancelled".to_owned();
        self.qr_url = None;
        self.guard_kind = None;
    }

    /// The sign-in is being cancelled.
    pub fn cancelling_sign_in(&mut self)
        ensures
            final(self)@ == status_when_cancelling_sign_in(old(self)@),
    {
        self.phase = "cancelling".to_owned();
        self.detail = "Cancelling Steam sign-in…".to_owned();
        self.qr_url = None;
        self.guard_kind = None;
    }

    /// The session stands.
    pub fn connected(&mut self, steam_id: u64)
        ensures
            final(self)@ == status_when_connected(old(self)@, steam_id),
    {
        self.authenticated = true;
        self.account_connected = true;
        self.steam_id = Some(steam_id);
        self.qr_url = None;
        self.guard_kind = None;
        self.detail = "Steam connected".to_owned();
    }

    /// Steam shows the game as played or not.
    pub fn presence(&mut self, playing: bool)
        ensures
            final(self)@ == status_when_presence(old(self)@, playing),
    {
        self.steam_playing = playing;
    }

    /// Steam is not to be had; the game can be played all the same.
    pub fn offline(&mut self, message: &str)
        ensures
            final(self)@ == status_when_offline(old(self)@, message@),
    {
        self.phase = "offline".to_owned();
        self.detail = message.to_owned();
        self.offline_play_allowed = true;
    }

    /// The session was ended by the user.
    pub fn disconnected(&mut self)
        ensures
            final(self)@ == status_when_disconnected(old(self)@),
    {
        *self = StatusSnapshot::default();
        self.detail = "Disconnected from Steam".to_owned();
    }

    /// An operation begins.
    pub fn begin_operation(&mut self, phase: &str)
        ensures
            final(self)@ == status_when_begin_operation(old(self)@, phase@),
    {
        self.phase = phase.to_owned();
        self.detail = phase.to_owned();
    }

    /// An operation failed; the game can be played all the same.
    pub fn operation_failed(&mut self, message: &str)
        ensures
            final(self)@ == status_when_operation_failed(old(self)@, message@),
    {
        self.phase = "error".to_owned();
        self.detail = message.to_owned();
        self.offline_play_allowed = true;
        self.authenticated = false;
        self.steam_playing = false;
    }

    /// An operation ended without an error.
    pub fn operation_succeeded(&mut self)
        ensures
            final(self)@ == status_when_operation_succeeded(old(self)@),
    {
        let phase: &str = self.phase.as_str();
        if !same_text(phase, "conflict") && !same_text(phase, "first_sync") && !same_text(
            phase,
            "offline",
        ) && !same_text(phase, "restart_required") && !same_text(phase, "upload_required") {
            self.phase = "idle".to_owned();
        }
    }

    /// A backup waits for the next start of the game.
    pub fn backup_queued(&mut self)
        ensures
            final(self)@ == status_when_backup_queued(old(self)@),
    {
        self.phase = "restart_required".to_owned();
        self.detail = "Backup verified and queued; relaunch Isaac to restore it safely".to_owned();
    }

    /// The achievements are being compared.
    pub fn comparing_achievements(&mut self)
        ensures
            final(self)@ == status_when_comparing_achievements(old(self)@),
    {
        if same_text(self.phase.as_str(), "idle") {
            self.phase = "syncing".to_owned();
            self.detail = "Comparing native save achievements with Steam…".to_owned();
        }
    }

    /// So many achievements were added to Steam.
    pub fn report_achievement_result(&mut self, added: usize)
        ensures
            final(self)@ == status_when_report_achievement_result(old(self)@, added),
    {
        if same_text(self.phase.as_str(), "idle") || same_text(self.phase.as_str(), "syncing") {
            self.detail = if added == 0 {
                "Steam Cloud and save-derived achievements are synchronized".to_owned()
            } else if added == 1 {
                "Steam Cloud synchronized; 1 missing save achievement added to Steam".to_owned()
            } else {
                let mut detail: String = "Steam Cloud synchronized; ".to_owned();
                detail.append(to_decimal(added as u64).as_str());
                detail.append(" missing save achievements added to Steam");
                detail
            };
        }
    }

    /// The saves were synchronized, the achievements were not.
    pub fn achievements_failed(&mut self, message: &str)
        ensures
            final(self)@ == status_when_achievements_failed(old(self)@, message@),
    {
        if same_text(self.phase.as_str(), "idle") || same_text(self.phase.as_str(), "syncing") {
            self.phase = "idle".to_owned();
            let mut detail: String =
                "Steam Cloud synchronized; achievement sync failed: ".to_owned();
            detail.append(message);
            self.detail = detail;
        }
    }

    /// A synchronization begins.
    pub fn sync_started(&mut self)
        ensures
            final(self)@ == status_when_sync_started(old(self)@),
    {
        self.phase = "syncing".to_owned();
        self.detail = "Discovering Isaac saves…".to_owned();
        self.pending_choices = Vec::new();
        assert(self@.pending_choices =~= seq![]);
    }

    /// The saves on both sides are known.
    pub fn saves_listed(&mut self, excluded: &BTreeSet<u8>, local: Vec<SaveSummary>, remote: Vec<SaveSummary>)
        ensures
            final(self)@ == status_when_saves_listed(old(self)@, excluded@, views(local@), views(remote@)),
    {
        self.excluded_slots = slot_list(excluded);
        self.local_saves = local;
        self.remote_saves = remote;
        self.detail = "Comparing local, Steam, and base hashes…".to_owned();
    }

    /// A synchronization leaves `choices` and so many uploads to the user.
    pub fn sync_finished(&mut self, choices: Vec<PendingChoice>, backup_count: usize, now: u64, uploads_waiting: usize)
        ensures
            final(self)@ == status_when_sync_finished(old(self)@, views(choices@), backup_count, now, uploads_waiting),
    {
        self.backup_count = backup_count;
        self.last_sync_unix_ms = Some(now);
        if choices.len() == 0 && uploads_waiting == 0 {
            self.phase = "idle".to_owned();
            self.detail = "Steam Cloud is synchronized".to_owned();
        } else if any_of_kind(&choices, "conflict") {
            self.phase = "conflict".to_owned();
            self.detail = "A true save conflict requires your choice".to_owned();
        } else if any_of_kind(&choices, "remote_update_restart_required") {
            self.phase = "restart_required".to_owned();
            self.detail = "Relaunch Isaac to apply the selected Steam save safely".to_owned();
        } else if uploads_waiting > 0 {
            self.phase = "upload_required".to_owned();
            self.detail = if uploads_waiting == 1 {
                "iPhone progress is waiting; tap Sync Now to upload a Windows-compatible save".to_owned()
            } else {
                let mut detail: String = to_decimal(uploads_waiting as u64);
                detail.append(" iPhone saves are waiting; tap Sync Now to upload them");
                detail
            };
        } else {
            self.phase = "first_sync".to_owned();
            self.detail = "First sync requires your choice".to_owned();
        }
        self.pending_choices = choices;
    }

    /// The user decided a slot.
    pub fn resolved(&mut self, slot: u8, use_local: bool)
        ensures
            final(self)@ == resolved_status(old(self)@, slot, use_local),
    {
        let kept: Vec<PendingChoice> = other_slots(&self.pending_choices, slot);
        self.pending_choices = kept;
        let mut detail: String = "Slot ".to_owned();
        detail.append(to_decimal(slot as u64).as_str());
        if use_local {
            detail.append(" resolved and verified");
        } else {
            self.phase = "restart_required".to_owned();
            detail.append(" Steam save is verified and queued; relaunch Isaac to apply it");
        }
        self.detail = detail;
    }
}

/// The choices that are not of `slot`.
fn other_slots(choices: &Vec<PendingChoice>, slot: u8) -> (kept: Vec<PendingChoice>)
    ensures
        views(kept@) == without_slot(views(choices@), slot),
{
    let ghost all = views(choices@);
    let ghost wanted = |choice: ChoiceView| choice.slot != slot;
    let mut kept: Vec<PendingChoice> = Vec::new();
    let mut i: usize = 0;
    proof {
        reveal(Seq::filter);
        assert(views(kept@) =~= all.take(0).filter(wanted));
    }
    while i < choices.len()
        invariant
            i <= choices@.len(),
            all == views(choices@),
            wanted == (|choice: ChoiceView| choice.slot != slot),
            views(kept@) == all.take(i as int).filter(wanted),
        decreases choices@.len() - i,
    {
        let ghost held = kept@;
        proof {
            reveal(Seq::filter);
            let upto = all.take(i + 1);
            assert(upto.drop_last() =~= all.take(i as int));
            assert(upto.last() == choices@[i as int]@);
        }
        if choices[i].slot != slot {
            assert(wanted(choices@[i as int]@));
            let choice: PendingChoice = choices[i].clone();
            kept.push(choice);
            assert(views(kept@) =~= views(held).push(choices@[i as int]@));
        }
        i += 1;
    }
    assert(all.take(i as int) =~= all);
    kept
}

/// A synchronization that leaves nothing to the user ends idle, and one that leaves something
/// ends in a phase that stays.
pub proof fn open_questions_stay_visible(choices: Seq<ChoiceView>, uploads_waiting: usize)
    ensures
        final_phase(choices, uploads_waiting) == "idle"@ || is_lasting_phase(
            final_phase(choices, uploads_waiting),
        ),
        choices.len() > 0 || uploads_waiting > 0 ==> is_lasting_phase(
            final_phase(choices, uploads_waiting),
        ),
        has_kind(choices, "conflict"@) ==> final_phase(choices, uploads_waiting) == "conflict"@,
{
}

} // verus!
