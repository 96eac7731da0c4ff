use isaac_cloud_sync::slots::{
    excluded_in, get_excluded_slots, is_repentance_name, listed_slots, set_slot_excluded,
    slot_filename, slot_for_filename, InvalidSlot,
};
use std::collections::BTreeSet;

fn texts(items: &[&str]) -> Vec<String> {
    items.iter().map(|item| item.to_string()).collect()
}

#[test]
fn recognizes_only_supported_persistent_slot_names() {
    assert_eq!(slot_for_filename("rep_persistentgamedata1.dat"), Some(1));
    assert_eq!(slot_for_filename("rep+persistentgamedata1.dat"), Some(1));
    assert_eq!(slot_for_filename("REP+PERSISTENTGAMEDATA3.DAT"), Some(3));
    assert_eq!(slot_for_filename("REP_PERSISTENTGAMEDATA3.DAT"), Some(3));
    assert_eq!(slot_for_filename("persistentgamedata2.dat"), Some(2));
    assert_eq!(slot_for_filename("rep_gamestate1.dat"), None);
    assert_eq!(slot_for_filename("rep_persistentgamedata4.dat"), None);
}

#[test]
fn runs_in_progress_belong_to_no_slot() {
    assert_eq!(slot_for_filename("rep_rerunstate1.dat"), None);
    assert_eq!(slot_for_filename("rep_gamestate3.dat"), None);
    assert_eq!(slot_for_filename("rep_persistentgamedata1.dat.bak"), None);
    assert_eq!(slot_for_filename(""), None);
}

#[test]
fn case_and_directories_of_names() {
    for prefix in ["", "rep_", "rep+"] {
        for slot in 1..=3 {
            let name = slot_filename(prefix, slot);
            assert_eq!(slot_for_filename(&name), Some(slot));
            assert_eq!(slot_for_filename(&name.to_ascii_uppercase()), Some(slot));
            assert_eq!(slot_for_filename(&format!("a/{name}")), None);
            assert_eq!(slot_for_filename(&format!("a\\{name}")), None);
        }
    }
    assert_eq!(slot_for_filename("rep-persistentgamedata1.dat"), None);
    assert_eq!(slot_for_filename("persistentgamedata0.dat"), None);
}

#[test]
fn generations_are_told_by_name() {
    assert!(is_repentance_name("REP_persistentgamedata1.dat"));
    assert!(is_repentance_name("rep+persistentgamedata2.dat"));
    assert!(!is_repentance_name("persistentgamedata2.dat"));
    assert_eq!(slot_filename("rep+", 2), "rep+persistentgamedata2.dat");
}

#[test]
fn exclusion_files_are_arrays_or_loose_numbers() {
    assert_eq!(excluded_in("[1, 200]"), BTreeSet::from([1, 200]));
    assert_eq!(excluded_in("[]"), BTreeSet::new());
    // A number outside a byte is no array of slots, so the loose form is read.
    assert_eq!(excluded_in("[2, 256]"), BTreeSet::from([2]));
    assert_eq!(excluded_in("slots: 1 and 3\n"), BTreeSet::from([1, 3]));
    assert_eq!(excluded_in("12 0 4 003"), BTreeSet::from([3]));
    assert_eq!(excluded_in("99999999999999999999999 2"), BTreeSet::from([2]));
    assert_eq!(excluded_in("none"), BTreeSet::new());
    assert_eq!(listed_slots("1,2"), BTreeSet::from([1, 2]));
}

#[test]
fn all_exclusion_files_count() {
    assert_eq!(
        get_excluded_slots(&texts(&["1", "[2]", ""])),
        BTreeSet::from([1, 2])
    );
    assert_eq!(get_excluded_slots(&vec![]), BTreeSet::new());
}

#[test]
fn written_exclusions_read_back() {
    let list = set_slot_excluded(&texts(&["1"]), 3, true).unwrap();
    assert_eq!(list, "1\n3");
    assert_eq!(excluded_in(&list), BTreeSet::from([1, 3]));
    let list = set_slot_excluded(&texts(&[&list]), 1, false).unwrap();
    assert_eq!(list, "3");
    assert_eq!(excluded_in(&list), BTreeSet::from([3]));
    assert_eq!(set_slot_excluded(&vec![], 2, false).unwrap(), "");
}

#[test]
fn changes_of_exclusions_take_effect() {
    let mut contents: Vec<String> = vec![];
    let mut expected = BTreeSet::new();
    for (slot, exclude) in [(2, true), (3, true), (2, false), (1, false), (1, true), (3, false)] {
        let list = set_slot_excluded(&contents, slot, exclude).unwrap();
        contents = vec![list.clone(), list];
        if exclude {
            expected.insert(slot);
        } else {
            expected.remove(&slot);
        }
        assert_eq!(get_excluded_slots(&contents), expected);
    }
}

#[test]
fn unknown_slots_cannot_be_excluded() {
    assert_eq!(set_slot_excluded(&vec![], 0, true), Err(InvalidSlot(0)));
    assert_eq!(set_slot_excluded(&vec![], 4, false), Err(InvalidSlot(4)));
    assert_eq!(InvalidSlot(4).message(), "invalid slot 4");
}
