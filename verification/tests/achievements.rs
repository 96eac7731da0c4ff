use isaac_cloud_sync::achievement_plan::{
    build_additive_stats, AchievementBit, CurrentStat, PlanError, StoreStat,
};
use isaac_cloud_sync::achievements::{
    achieved_names, achievement_views, all_verified, build_achievements, check_store_message,
    check_store_response, collect_local_unlocks, ensure_no_existing_unlocks_lost, finish_sync,
    names_of, names_to_add, needs_games_played, numeric_api_name, parse_achievement_bits,
    store_missing_unlocks, verify_again_after_ms, AchievementBlock, AchievementError, EMsg,
    ProtocolAchievement, ReceivedSchema, StoreRequest, StoreResponse, UserStats,
};
use isaac_cloud_sync::isaac_crc::isaac_crc32;
use isaac_cloud_sync::kv::{
    extract_achievements, find_stats_node, get_localized_string, KVEntry, KVValue,
};
use isaac_cloud_sync::model::STEAM_APP_ID;
use isaac_cloud_sync::save_achievements::UnlocksError;
use isaac_cloud_sync::unlock_sync::{UnlockAction, UnlockEvent, UnlockSync};

fn definition(stat_id: u32, bit: u32, api_name: &str) -> AchievementBit {
    AchievementBit {
        stat_id,
        bit,
        api_name: api_name.to_owned(),
    }
}

fn names(items: &[&str]) -> Vec<String> {
    items.iter().map(|item| item.to_string()).collect()
}

#[test]
fn additive_plan_preserves_every_existing_bit() {
    let definitions = vec![
        definition(10, 2, "1"),
        definition(10, 4, "2"),
        definition(20, 1, "3"),
    ];
    let current = vec![
        CurrentStat {
            stat_id: Some(10),
            stat_value: Some(0b1010_0001),
        },
        CurrentStat {
            stat_id: Some(20),
            stat_value: Some(0b0100_0010),
        },
    ];

    let planned = build_additive_stats(
        &definitions,
        &current,
        &vec!["1".to_owned(), "2".to_owned(), "3".to_owned()],
    )
    .unwrap();

    assert_eq!(planned.len(), 1);
    assert_eq!(planned[0].stat_id, Some(10));
    assert_eq!(planned[0].stat_value, Some(0b1011_0101));
}

#[test]
fn additive_plan_refuses_an_unknown_current_group() {
    let error =
        build_additive_stats(&vec![definition(10, 2, "1")], &vec![], &vec!["1".to_owned()])
            .unwrap_err();
    assert!(error.message().contains("refusing unsafe write"));
}

#[test]
fn store_protocol_uses_current_message_and_never_resets() {
    let request = StoreRequest {
        game_id: Some(STEAM_APP_ID as u64),
        settor_steam_id: Some(123),
        settee_steam_id: Some(123),
        crc_stats: Some(456),
        explicit_reset: Some(false),
        stats: vec![StoreStat {
            stat_id: Some(10),
            stat_value: Some(0b100),
        }],
    };

    assert_eq!(EMsg::ClientStoreUserStats2.raw(), 5466);
    assert_eq!(request.explicit_reset, Some(false));
    assert_eq!(request.settor_steam_id, request.settee_steam_id);
    assert_eq!(request.crc_stats, Some(456));
}

#[test]
fn verification_rejects_any_lost_steam_unlock() {
    let prior = vec!["1".to_owned(), "2".to_owned()];
    let verified = vec![ProtocolAchievement {
        apiname: "1".to_owned(),
        achieved: true,
        unlocktime: 1,
        name: None,
        description: None,
    }];

    let error = ensure_no_existing_unlocks_lost(&prior, &verified).unwrap_err();
    assert!(error.message().contains("failed to preserve 1"));
}

#[test]
fn repeated_plans_store_nothing() {
    let definitions = vec![definition(10, 2, "1"), definition(7, 31, "2")];
    let current = vec![
        CurrentStat { stat_id: Some(10), stat_value: Some(1) },
        CurrentStat { stat_id: None, stat_value: Some(9) },
        CurrentStat { stat_id: Some(7), stat_value: Some(0) },
        CurrentStat { stat_id: Some(7), stat_value: None },
    ];
    let planned = build_additive_stats(&definitions, &current, &names(&["1", "2", "1"])).unwrap();
    assert_eq!(
        planned,
        vec![
            StoreStat { stat_id: Some(7), stat_value: Some(0x8000_0000) },
            StoreStat { stat_id: Some(10), stat_value: Some(5) },
        ]
    );
    let later: Vec<CurrentStat> = planned
        .iter()
        .map(|stat| CurrentStat { stat_id: stat.stat_id, stat_value: stat.stat_value })
        .collect();
    assert_eq!(
        build_additive_stats(&definitions, &later, &names(&["1", "2"])).unwrap(),
        vec![]
    );
}

#[test]
fn impossible_unlocks_are_named() {
    let current = vec![CurrentStat { stat_id: Some(1), stat_value: Some(0) }];
    let definitions = vec![definition(1, 32, "a"), definition(1, 1, "b")];
    let error = build_additive_stats(&definitions, &current, &names(&["b", "c"])).unwrap_err();
    assert!(matches!(&error, PlanError::Unknown { api_name } if api_name == "c"));
    assert_eq!(error.message(), "Steam schema no longer contains achievement c");
    let error = build_additive_stats(&definitions, &current, &names(&["a"])).unwrap_err();
    assert_eq!(error.message(), "Steam achievement a uses unsupported bit 32");
    // The last definition of a name and the last report of a group count.
    let twice = vec![definition(1, 0, "b"), definition(1, 3, "b")];
    let reports = vec![
        CurrentStat { stat_id: Some(1), stat_value: Some(1) },
        CurrentStat { stat_id: Some(1), stat_value: Some(2) },
    ];
    assert_eq!(
        build_additive_stats(&twice, &reports, &names(&["b"])).unwrap(),
        vec![StoreStat { stat_id: Some(1), stat_value: Some(0b1010) }]
    );
}

fn text(value: &str) -> KVValue {
    KVValue::Text(value.to_owned())
}

fn nested(entries: Vec<(&str, KVValue)>) -> KVValue {
    KVValue::Nested(
        entries
            .into_iter()
            .map(|(key, value)| KVEntry { key: key.to_owned(), value })
            .collect(),
    )
}

fn schema() -> KVValue {
    nested(vec![(
        "250900",
        nested(vec![(
            "stats",
            nested(vec![
                (
                    "0",
                    nested(vec![
                        ("type", text("4")),
                        (
                            "bits",
                            nested(vec![
                                (
                                    "0",
                                    nested(vec![
                                        ("name", text("1")),
                                        (
                                            "display",
                                            nested(vec![
                                                (
                                                    "name",
                                                    nested(vec![
                                                        ("french", text("Premier")),
                                                        ("english", text("First!")),
                                                    ]),
                                                ),
                                                ("desc", text("Do it")),
                                            ]),
                                        ),
                                    ]),
                                ),
                                ("1", nested(vec![("name", text("2"))])),
                                ("x", nested(vec![("name", text("skipped"))])),
                                ("2", nested(vec![("name", text(""))])),
                                ("3", nested(vec![("name", KVValue::Other)])),
                            ]),
                        ),
                    ]),
                ),
                ("notes", nested(vec![("bits", nested(vec![]))])),
                ("1", nested(vec![("type", text("INT"))])),
                ("+7", nested(vec![("bits", nested(vec![("4", nested(vec![("name", text("3"))]))]))])),
            ]),
        )]),
    )])
}

#[test]
fn schemas_list_achievements_in_order() {
    let found = extract_achievements(&schema());
    let listed: Vec<(u32, u32, &str)> = found
        .iter()
        .map(|item| (item.stat_id, item.bit, item.api_name.as_str()))
        .collect();
    assert_eq!(listed, vec![(0, 0, "1"), (0, 1, "2"), (7, 4, "3")]);
    assert_eq!(found[0].display_name.as_deref(), Some("First!"));
    assert_eq!(found[0].description.as_deref(), Some("Do it"));
    assert_eq!(found[1].display_name, None);
    assert!(find_stats_node(&text("x")).is_none());
    assert!(extract_achievements(&nested(vec![("stats", text("x"))])).is_empty());
}

#[test]
fn localized_texts_fall_back() {
    let node = nested(vec![
        ("a", nested(vec![("english", text("")), ("german", text("")), ("dutch", text("Een"))])),
        ("b", text("")),
        ("c", nested(vec![("english", KVValue::Other)])),
    ]);
    assert_eq!(get_localized_string(&node, "a").as_deref(), Some("Een"));
    assert_eq!(get_localized_string(&node, "b"), None);
    assert_eq!(get_localized_string(&node, "c"), None);
    assert_eq!(get_localized_string(&node, "d"), None);
}

#[test]
fn build_achievements_joins_schema_and_unlock_blocks() {
    let display = nested(vec![("name", nested(vec![("english", text("First!"))]))]);
    let bits = nested(vec![
        ("0", nested(vec![("name", text("ACH_FIRST")), ("display", display)])),
        ("1", nested(vec![("name", text("ACH_SECOND"))])),
    ]);
    let stats = nested(vec![("0", nested(vec![("type", text("4")), ("bits", bits)]))]);
    let schema = nested(vec![("", nested(vec![("stats", stats)]))]);
    let blocks = vec![AchievementBlock {
        achievement_id: Some(0),
        unlock_time: vec![1_700_000_000, 0],
    }];
    let mut achievements = build_achievements(Some(&schema), &blocks);
    achievements.sort_by(|a, b| a.apiname.cmp(&b.apiname));
    assert_eq!(achievements.len(), 2);
    let first = &achievements[0];
    assert_eq!(first.apiname, "ACH_FIRST");
    assert!(first.achieved);
    assert_eq!(first.unlocktime, 1_700_000_000);
    assert_eq!(first.name.as_deref(), Some("First!"));
    let second = &achievements[1];
    assert_eq!(second.apiname, "ACH_SECOND");
    assert!(!second.achieved);
    assert_eq!(second.unlocktime, 0);
}

#[test]
fn unlock_times_join_the_schema() {
    let blocks = vec![
        AchievementBlock { achievement_id: None, unlock_time: vec![1_700_000_000, 0] },
        AchievementBlock { achievement_id: Some(0), unlock_time: vec![0] },
        AchievementBlock { achievement_id: Some(7), unlock_time: vec![0, 0, 0, 0, 5] },
    ];
    let found = build_achievements(Some(&schema()), &blocks);
    assert_eq!(found.len(), 3);
    assert!(found[0].achieved);
    assert_eq!(found[0].unlocktime, 1_700_000_000);
    assert_eq!(found[0].name.as_deref(), Some("First!"));
    assert!(!found[1].achieved);
    assert_eq!(found[1].unlocktime, 0);
    assert!(found[2].achieved);
    assert!(build_achievements(None, &blocks).is_empty());
}

fn achievement(name: &str, achieved: bool) -> ProtocolAchievement {
    ProtocolAchievement {
        apiname: name.to_owned(),
        achieved,
        unlocktime: if achieved { 9 } else { 0 },
        name: None,
        description: None,
    }
}

#[test]
fn only_locked_achievements_of_the_saves_are_added() {
    let known = vec![
        achievement("1", true),
        achievement("2", false),
        achievement("3", true),
        achievement("3", false),
        achievement("9", false),
    ];
    assert_eq!(names_to_add(&vec![1, 2, 3, 4], &known), names(&["2", "3"]));
    assert_eq!(names_of(&vec![1, 20]), names(&["1", "20"]));
    assert_eq!(achieved_names(&known), names(&["1", "3"]));
}

fn stats() -> UserStats {
    UserStats {
        eresult: Some(1),
        crc_stats: Some(456),
        stats: vec![CurrentStat { stat_id: Some(0), stat_value: Some(0b1000) }],
    }
}

#[test]
fn stores_are_additive_and_never_reset() {
    let request =
        store_missing_unlocks(Some(123), &stats(), &ReceivedSchema::Read(schema()), &names(&["2"]))
            .unwrap()
            .unwrap();
    assert_eq!(request.game_id, Some(250_900));
    assert_eq!(request.settor_steam_id, Some(123));
    assert_eq!(request.settee_steam_id, Some(123));
    assert_eq!(request.crc_stats, Some(456));
    assert_eq!(request.explicit_reset, Some(false));
    assert_eq!(
        request.stats,
        vec![StoreStat { stat_id: Some(0), stat_value: Some(0b1010) }]
    );
}

#[test]
fn unsafe_stores_are_refused() {
    let read = ReceivedSchema::Read(schema());
    let refused = |id: Option<u64>, stats: &UserStats, schema: &ReceivedSchema, name: &str| {
        store_missing_unlocks(id, stats, schema, &names(&[name]))
            .unwrap_err()
            .message()
    };
    assert_eq!(
        refused(None, &stats(), &read, "2"),
        "Steam session has no SteamID for achievement store"
    );
    let mut failed = stats();
    failed.eresult = Some(2);
    assert_eq!(
        refused(Some(1), &failed, &read, "2"),
        "Steam user-stats refresh failed with eresult Some(2)"
    );
    failed.eresult = None;
    assert_eq!(
        refused(Some(1), &failed, &read, "2"),
        "Steam user-stats refresh failed with eresult None"
    );
    assert_eq!(
        refused(Some(1), &stats(), &ReceivedSchema::Missing, "2"),
        "Steam achievement schema missing before store"
    );
    assert_eq!(
        refused(Some(1), &stats(), &ReceivedSchema::Unreadable, "2"),
        "parse Steam achievement schema"
    );
    assert_eq!(
        refused(Some(1), &stats(), &ReceivedSchema::Read(text("x")), "2"),
        "Steam achievement schema has no stats node"
    );
    assert_eq!(
        refused(
            Some(1),
            &stats(),
            &ReceivedSchema::Read(nested(vec![("stats", text("x"))])),
            "2"
        ),
        "Steam achievement stats node is not nested"
    );
    assert!(refused(Some(1), &stats(), &read, "3").contains("stat group 7; refusing unsafe write"));
    let mut without_crc = stats();
    without_crc.crc_stats = None;
    assert_eq!(
        refused(Some(1), &without_crc, &read, "2"),
        "Steam user-stats response omitted its CRC; refusing unsafe write"
    );
    // Without a change no CRC is needed, and nothing is stored.
    without_crc.stats[0].stat_value = Some(0b10);
    assert!(store_missing_unlocks(Some(1), &without_crc, &read, &names(&["2"]))
        .unwrap()
        .is_none());
}

#[test]
fn answers_to_a_store_are_checked() {
    assert!(check_store_message(821, 821).is_ok());
    assert_eq!(
        check_store_message(1, 821).unwrap_err().message(),
        "Steam returned unexpected EMsg 1 for achievement store"
    );
    let good = StoreResponse {
        eresult: Some(1),
        stats_out_of_date: Some(false),
        stats_failed_validation: 0,
    };
    assert!(check_store_response(good).is_ok());
    assert_eq!(
        check_store_response(StoreResponse { eresult: Some(-3), ..good })
            .unwrap_err()
            .message(),
        "Steam achievement store failed with eresult Some(-3)"
    );
    assert!(matches!(
        check_store_response(StoreResponse { stats_out_of_date: Some(true), ..good }),
        Err(AchievementError::OutOfDate)
    ));
    assert_eq!(
        check_store_response(StoreResponse { stats_failed_validation: 2, ..good })
            .unwrap_err()
            .message(),
        "Steam rejected 2 achievement stat group(s) during validation"
    );
    assert!(needs_games_played(Some(2)));
    assert!(!needs_games_played(Some(1)));
}

#[test]
fn stored_unlocks_are_looked_for_four_times() {
    let verified = vec![achievement("1", true), achievement("2", false)];
    assert!(all_verified(&names(&["1"]), &verified));
    assert!(!all_verified(&names(&["1", "2"]), &verified));
    assert_eq!(verify_again_after_ms(0, false), Some(250));
    assert_eq!(verify_again_after_ms(2, false), Some(250));
    assert_eq!(verify_again_after_ms(3, false), None);
    assert_eq!(verify_again_after_ms(0, true), None);
}

#[test]
fn synchronizations_count_only_verified_unlocks() {
    let verified = vec![achievement("1", true), achievement("2", false)];
    assert_eq!(finish_sync(&names(&["1"]), &names(&["1"]), &verified).unwrap(), 1);
    assert_eq!(
        finish_sync(&names(&[]), &names(&["1", "2"]), &verified)
            .unwrap_err()
            .message(),
        "Steam verified only 1 of 2 save-derived achievement unlocks"
    );
    assert_eq!(
        finish_sync(&names(&["2", "2", "7"]), &names(&["1"]), &verified)
            .unwrap_err()
            .message(),
        "Steam read-back failed to preserve 2 previously unlocked achievement(s)"
    );
}

#[test]
fn bits_of_the_schema_are_read() {
    let bits = parse_achievement_bits(&ReceivedSchema::Read(schema())).unwrap();
    assert_eq!(bits.len(), 3);
    assert_eq!((bits[2].stat_id, bits[2].bit, bits[2].api_name.as_str()), (7, 4, "3"));
}

#[test]
fn achievements_are_shown_by_number() {
    let mut second = achievement("2", true);
    second.name = Some("Second".to_owned());
    let list = achievement_views(
        &vec![
            achievement("b", false),
            achievement("10", false),
            second,
            achievement("a", false),
            achievement("10", true),
        ],
        &names(&["2", "3"]),
    );
    let order: Vec<&str> = list.iter().map(|item| item.api_name.as_str()).collect();
    assert_eq!(order, vec!["2", "10", "a", "b"]);
    assert!(list[0].present_in_local_save);
    assert_eq!(list[0].display_name.as_deref(), Some("Second"));
    assert_eq!(list[0].unlock_time, 9);
    assert!(list[1].achieved);
    assert!(!list[1].present_in_local_save);
    assert_eq!(numeric_api_name("18446744073709551615"), u64::MAX);
    assert_eq!(numeric_api_name("x"), u64::MAX);
    assert_eq!(numeric_api_name("007"), 7);
}

fn save_with(unlocked: &[usize]) -> Vec<u8> {
    let mut bytes = b"ISAACNGSAVE09R  ".to_vec();
    bytes.extend_from_slice(&1_u32.to_le_bytes());
    for section in 1_u32..=10 {
        let size: u32 = if section == 1 { 20 } else { 0 };
        bytes.extend_from_slice(&section.to_le_bytes());
        bytes.extend_from_slice(&size.to_le_bytes());
        bytes.extend_from_slice(&size.to_le_bytes());
        for id in 0..size as usize {
            bytes.push(unlocked.contains(&id) as u8);
        }
    }
    bytes.extend_from_slice(&11_u32.to_le_bytes());
    bytes.extend_from_slice(&0_u32.to_le_bytes());
    bytes.extend_from_slice(&4_u32.to_le_bytes());
    for subtype in [4_u32, 2, 3, 1] {
        bytes.extend_from_slice(&subtype.to_le_bytes());
        bytes.extend_from_slice(&0_u32.to_le_bytes());
    }
    bytes.extend_from_slice(&[0_u8; 4]);
    let checksum = isaac_crc32(&bytes[16..], 0xfedc_ba76);
    bytes.extend_from_slice(&checksum.to_le_bytes());
    bytes
}

#[test]
fn unlocks_of_all_saves_are_joined() {
    let saves = vec![save_with(&[1, 5]), save_with(&[5, 19])];
    let unlocked = collect_local_unlocks(&saves).unwrap();
    assert_eq!(unlocked.into_iter().collect::<Vec<_>>(), vec![1, 5, 19]);
    assert!(collect_local_unlocks(&vec![]).unwrap().is_empty());
    let broken = vec![save_with(&[1]), b"ISAACNGSAVE09R  ".to_vec()];
    assert!(matches!(
        collect_local_unlocks(&broken),
        Err((1, UnlocksError::Save(_)))
    ));
}

fn refreshed() -> UnlockEvent {
    UnlockEvent::Refreshed {
        steam_id: Some(123),
        stats: stats(),
        schema: ReceivedSchema::Read(schema()),
    }
}

fn answered(eresult: i32) -> UnlockEvent {
    UnlockEvent::Answered {
        emsg: 821,
        expected_emsg: 821,
        response: StoreResponse {
            eresult: Some(eresult),
            stats_out_of_date: None,
            stats_failed_validation: 0,
        },
    }
}

/// Unlocks whose stats were stored.
fn stored() -> UnlockSync {
    UnlockSync::new(vec![1, 2])
        .step(UnlockEvent::Received(vec![achievement("1", true), achievement("2", false)]))
        .step(refreshed())
        .step(answered(1))
}

#[test]
fn unlocks_are_brought_to_steam_step_by_step() {
    let sync = UnlockSync::new(vec![1, 2]);
    assert!(matches!(sync.action(), UnlockAction::Request));
    assert!(sync.known().is_none());
    let before = vec![achievement("1", true), achievement("2", false)];
    let sync = sync.step(UnlockEvent::Received(before));
    assert!(matches!(sync.action(), UnlockAction::Refresh));
    assert!(!sync.known().unwrap()[1].achieved);
    let sync = sync.step(refreshed());
    let UnlockAction::Store(request) = sync.action() else {
        panic!("the missing unlock is stored");
    };
    assert_eq!(request.stats, vec![StoreStat { stat_id: Some(0), stat_value: Some(0b1010) }]);
    assert_eq!((request.crc_stats, request.explicit_reset), (Some(456), Some(false)));
    let sync = sync.step(answered(1));
    assert!(matches!(sync.action(), UnlockAction::ReadBack { stored: true }));
    let after = vec![achievement("1", true), achievement("2", true)];
    let sync = sync.step(UnlockEvent::Received(after));
    assert!(matches!(sync.action(), UnlockAction::Finish));
    assert!(sync.known().unwrap()[1].achieved);
    assert_eq!(sync.outcome().unwrap(), 1);
}

#[test]
fn nothing_is_stored_where_nothing_is_missing() {
    let sync = UnlockSync::new(vec![]);
    assert!(matches!(sync.action(), UnlockAction::Finish));
    assert!(sync.known().is_none());
    assert_eq!(sync.outcome().unwrap(), 0);
    let sync = UnlockSync::new(vec![1, 5]);
    let sync = sync.step(UnlockEvent::Received(vec![achievement("1", true)]));
    assert!(matches!(sync.action(), UnlockAction::Finish));
    assert_eq!(sync.known().unwrap().len(), 1);
    assert_eq!(sync.outcome().unwrap(), 0);
    // Steam's stats have the bit already: Steam is only looked at again.
    let mut reached = stats();
    reached.stats[0].stat_value = Some(0b10);
    let sync = UnlockSync::new(vec![2])
        .step(UnlockEvent::Received(vec![achievement("2", false)]))
        .step(UnlockEvent::Refreshed {
            steam_id: Some(1),
            stats: reached,
            schema: ReceivedSchema::Read(schema()),
        });
    assert!(matches!(sync.action(), UnlockAction::ReadBack { stored: false }));
    let sync = sync.step(UnlockEvent::Received(vec![achievement("2", false)]));
    assert!(matches!(
        sync.outcome(),
        Err(AchievementError::NotAllVerified { verified: 0, requested: 1 })
    ));
}

#[test]
fn stored_unlocks_are_given_time() {
    let missing = || UnlockEvent::Received(vec![achievement("1", true), achievement("2", false)]);
    let mut sync = stored();
    for _ in 0..3 {
        assert!(matches!(sync.action(), UnlockAction::ReadBack { stored: true }));
        sync = sync.step(missing());
        assert!(matches!(sync.action(), UnlockAction::Wait(250)));
        sync = sync.step(UnlockEvent::Waited);
    }
    let sync = sync.step(missing());
    assert!(matches!(sync.action(), UnlockAction::Finish));
    assert!(matches!(
        sync.outcome(),
        Err(AchievementError::NotAllVerified { verified: 0, requested: 1 })
    ));
}

#[test]
fn lost_unlocks_are_not_shown() {
    let sync = stored();
    let lost = vec![achievement("1", false), achievement("2", true)];
    let sync = sync.step(UnlockEvent::Received(lost));
    assert!(sync.known().unwrap()[0].achieved);
    assert!(matches!(sync.outcome(), Err(AchievementError::LostUnlocks { lost: 1 })));
}

#[test]
fn refused_stores_end_the_way_of_unlocks() {
    let asked = || {
        UnlockSync::new(vec![2]).step(UnlockEvent::Received(vec![achievement("2", false)]))
    };
    let sync = asked().step(UnlockEvent::Refreshed {
        steam_id: None,
        stats: stats(),
        schema: ReceivedSchema::Read(schema()),
    });
    assert!(matches!(sync.outcome(), Err(AchievementError::SteamIdMissing)));
    let sync = asked().step(refreshed()).step(answered(2));
    assert!(matches!(
        sync.outcome(),
        Err(AchievementError::StoreFailed { eresult: Some(2) })
    ));
    let sync = asked().step(refreshed()).step(UnlockEvent::Answered {
        emsg: 1,
        expected_emsg: 821,
        response: StoreResponse {
            eresult: Some(1),
            stats_out_of_date: None,
            stats_failed_validation: 0,
        },
    });
    assert!(matches!(
        sync.outcome(),
        Err(AchievementError::UnexpectedMessage { emsg: 1 })
    ));
    // What does not answer the question changes nothing.
    let sync = asked().step(UnlockEvent::Waited).step(answered(1));
    assert!(matches!(sync.action(), UnlockAction::Refresh));
}
