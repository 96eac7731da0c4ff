//! What is found where the first of several is looked for.
use vstd::prelude::*;

use crate::cloud::CloudView;
use crate::engine::remote_of_slot;
use crate::exchange::{chosen_name, file_named, local_of_slot};
use crate::model::{BackupView, FileStateView, LocalView};
use crate::status::ChoiceView;
use crate::sync_state::{backup_with_id, entry_for};

verus! {

/// The save on Steam that belongs to a slot is the first that is of the slot.
pub proof fn remote_save_is_the_first_of_its_slot(files: Seq<CloudView>, slot: u8)
    ensures
        match remote_of_slot(files, slot) {
            Some(found) => exists|i: int|
                0 <= i < files.len() && (#[trigger] files[i]) == found && files[i].save.slot == slot
                    && forall|k: int| 0 <= k < i ==> (#[trigger] files[k]).save.slot != slot,
            None => forall|k: int| 0 <= k < files.len() ==> (#[trigger] files[k]).save.slot != slot,
        },
    decreases files.len(),
{
    if files.len() > 0 {
        let rest = files.drop_first();
        remote_save_is_the_first_of_its_slot(rest, slot);
        if !(files[0].save.slot == slot) {
            match remote_of_slot(rest, slot) {
                Some(found) => {
                    let i = choose|i: int|
                        0 <= i < rest.len() && (#[trigger] rest[i]) == found && rest[i].save.slot == slot && forall|k: int|
                            0 <= k < i ==> (#[trigger] rest[k]).save.slot != slot;
                    assert(files[i + 1] == rest[i]);
                    assert forall|k: int| 0 <= k < i + 1 implies (#[trigger] files[k]).save.slot != slot by {
                        if k > 0 {
                            assert(rest[k - 1] == files[k]);
                        }
                    }
                },
                None => {
                    assert forall|k: int| 0 <= k < files.len() implies (#[trigger] files[k]).save.slot != slot by {
                        if k > 0 {
                            assert(rest[k - 1] == files[k]);
                        }
                    }
                },
            }
        }
    }
}

/// The file of a name is the first that is listed under it.
pub proof fn named_file_is_the_first_of_its_name(files: Seq<CloudView>, name: Seq<char>)
    ensures
        match file_named(files, name) {
            Some(found) => exists|i: int|
                0 <= i < files.len() && (#[trigger] files[i]) == found && files[i].request_name == name
                    && forall|k: int| 0 <= k < i ==> (#[trigger] files[k]).request_name != name,
            None => forall|k: int| 0 <= k < files.len() ==> (#[trigger] files[k]).request_name != name,
        },
    decreases files.len(),
{
    if files.len() > 0 {
        let rest = files.drop_first();
        named_file_is_the_first_of_its_name(rest, name);
        if !(files[0].request_name == name) {
            match file_named(rest, name) {
                Some(found) => {
                    let i = choose|i: int|
                        0 <= i < rest.len() && (#[trigger] rest[i]) == found && rest[i].request_name == name && forall|k: int|
                            0 <= k < i ==> (#[trigger] rest[k]).request_name != name;
                    assert(files[i + 1] == rest[i]);
                    assert forall|k: int| 0 <= k < i + 1 implies (#[trigger] files[k]).request_name != name by {
                        if k > 0 {
                            assert(rest[k - 1] == files[k]);
                        }
                    }
                },
                None => {
                    assert forall|k: int| 0 <= k < files.len() implies (#[trigger] files[k]).request_name != name by {
                        if k > 0 {
                            assert(rest[k - 1] == files[k]);
                        }
                    }
                },
            }
        }
    }
}

/// The save on the device that the user decides about is the first of its slot.
pub proof fn local_save_is_the_first_of_its_slot(saves: Seq<LocalView>, slot: u8)
    ensures
        match local_of_slot(saves, slot) {
            Some(found) => exists|i: int|
                0 <= i < saves.len() && (#[trigger] saves[i]) == found && saves[i].slot == slot
                    && forall|k: int| 0 <= k < i ==> (#[trigger] saves[k]).slot != slot,
            None => forall|k: int| 0 <= k < saves.len() ==> (#[trigger] saves[k]).slot != slot,
        },
    decreases saves.len(),
{
    if saves.len() > 0 {
        let rest = saves.drop_first();
        local_save_is_the_first_of_its_slot(rest, slot);
        if !(saves[0].slot == slot) {
            match local_of_slot(rest, slot) {
                Some(found) => {
                    let i = choose|i: int|
                        0 <= i < rest.len() && (#[trigger] rest[i]) == found && rest[i].slot == slot && forall|k: int|
                            0 <= k < i ==> (#[trigger] rest[k]).slot != slot;
                    assert(saves[i + 1] == rest[i]);
                    assert forall|k: int| 0 <= k < i + 1 implies (#[trigger] saves[k]).slot != slot by {
                        if k > 0 {
                            assert(rest[k - 1] == saves[k]);
                        }
                    }
                },
                None => {
                    assert forall|k: int| 0 <= k < saves.len() implies (#[trigger] saves[k]).slot != slot by {
                        if k > 0 {
                            assert(rest[k - 1] == saves[k]);
                        }
                    }
                },
            }
        }
    }
}

/// The name that a choice has for Steam is that of the first choice about the slot.
pub proof fn chosen_name_is_of_the_first_choice(choices: Seq<ChoiceView>, slot: u8)
    ensures
        match chosen_name(choices, slot) {
            Some(found) => exists|i: int|
                0 <= i < choices.len() && (#[trigger] choices[i]).remote_name == found && choices[i].slot == slot
                    && forall|k: int| 0 <= k < i ==> (#[trigger] choices[k]).slot != slot,
            None => forall|k: int| 0 <= k < choices.len() ==> (#[trigger] choices[k]).slot != slot,
        },
    decreases choices.len(),
{
    if choices.len() > 0 {
        let rest = choices.drop_first();
        chosen_name_is_of_the_first_choice(rest, slot);
        if !(choices[0].slot == slot) {
            match chosen_name(rest, slot) {
                Some(found) => {
                    let i = choose|i: int|
                        0 <= i < rest.len() && (#[trigger] rest[i]).remote_name == found && rest[i].slot == slot && forall|k: int|
                            0 <= k < i ==> (#[trigger] rest[k]).slot != slot;
                    assert(choices[i + 1] == rest[i]);
                    assert forall|k: int| 0 <= k < i + 1 implies (#[trigger] choices[k]).slot != slot by {
                        if k > 0 {
                            assert(rest[k - 1] == choices[k]);
                        }
                    }
                },
                None => {
                    assert forall|k: int| 0 <= k < choices.len() implies (#[trigger] choices[k]).slot != slot by {
                        if k > 0 {
                            assert(rest[k - 1] == choices[k]);
                        }
                    }
                },
            }
        }
    }
}

/// What is remembered of a slot is the first entry of the slot.
pub proof fn entry_is_the_first_of_its_slot(files: Seq<FileStateView>, slot: u8)
    ensures
        match entry_for(files, slot) {
            Some(found) => exists|i: int|
                0 <= i < files.len() && (#[trigger] files[i]) == found && files[i].slot == slot
                    && forall|k: int| 0 <= k < i ==> (#[trigger] files[k]).slot != slot,
            None => forall|k: int| 0 <= k < files.len() ==> (#[trigger] files[k]).slot != slot,
        },
    decreases files.len(),
{
    if files.len() > 0 {
        let rest = files.drop_first();
        entry_is_the_first_of_its_slot(rest, slot);
        if !(files[0].slot == slot) {
            match entry_for(rest, slot) {
                Some(found) => {
                    let i = choose|i: int|
                        0 <= i < rest.len() && (#[trigger] rest[i]) == found && rest[i].slot == slot && forall|k: int|
                            0 <= k < i ==> (#[trigger] rest[k]).slot != slot;
                    assert(files[i + 1] == rest[i]);
                    assert forall|k: int| 0 <= k < i + 1 implies (#[trigger] files[k]).slot != slot by {
                        if k > 0 {
                            assert(rest[k - 1] == files[k]);
                        }
                    }
                },
                None => {
                    assert forall|k: int| 0 <= k < files.len() implies (#[trigger] files[k]).slot != slot by {
                        if k > 0 {
                            assert(rest[k - 1] == files[k]);
                        }
                    }
                },
            }
        }
    }
}

/// The backup of an id is the first that has it.
pub proof fn backup_is_the_first_of_its_id(records: Seq<BackupView>, id: Seq<char>)
    ensures
        match backup_with_id(records, id) {
            Some(found) => exists|i: int|
                0 <= i < records.len() && (#[trigger] records[i]) == found && records[i].backup_id == id
                    && forall|k: int| 0 <= k < i ==> (#[trigger] records[k]).backup_id != id,
            None => forall|k: int| 0 <= k < records.len() ==> (#[trigger] records[k]).backup_id != id,
        },
    decreases records.len(),
{
    if records.len() > 0 {
        let rest = records.drop_first();
        backup_is_the_first_of_its_id(rest, id);
        if !(records[0].backup_id == id) {
            match backup_with_id(rest, id) {
                Some(found) => {
                    let i = choose|i: int|
                        0 <= i < rest.len() && (#[trigger] rest[i]) == found && rest[i].backup_id == id && forall|k: int|
                            0 <= k < i ==> (#[trigger] rest[k]).backup_id != id;
                    assert(records[i + 1] == rest[i]);
                    assert forall|k: int| 0 <= k < i + 1 implies (#[trigger] records[k]).backup_id != id by {
                        if k > 0 {
                            assert(rest[k - 1] == records[k]);
                        }
                    }
                },
                None => {
                    assert forall|k: int| 0 <= k < records.len() implies (#[trigger] records[k]).backup_id != id by {
                        if k > 0 {
                            assert(rest[k - 1] == records[k]);
                        }
                    }
                },
            }
        }
    }
}

} // verus!
