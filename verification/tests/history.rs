use std::collections::HashMap;

use chrono::{DateTime, Duration, Utc};
use hncli::clock::{signed_unix_time, Timestamp, CHRONO_MAX_SECONDS, CHRONO_MIN_SECONDS};
use hncli::history::{
    AppHistory, HistoryPersistCommand, HnItemIdScalar, ResumeItemHistoryData,
    SynchronizedHistory, SynchronizedHistoryItem, SynchronizedHistoryItemStorage,
    TopLevelCommentHistoryData,
};

/// The library's timestamp of a chrono datetime.
fn timestamp_of(datetime: DateTime<Utc>) -> Timestamp {
    Timestamp {
        seconds: datetime.timestamp(),
        nanos: datetime.timestamp_subsec_nanos(),
    }
}

/// Apply the given commands to an in-memory history, without any persistence.
fn applied_history(commands: &[HistoryPersistCommand]) -> AppHistory {
    let mut history = AppHistory {
        synchronized: SynchronizedHistory::empty(),
    };
    for command in commands {
        history.synchronized.apply(command);
    }
    history
}

/// A stable, human-readable label for the given Item, as stored by a `ResumeAdd` command.
fn resume_label(item_id: HnItemIdScalar) -> String {
    format!("Story #{item_id}")
}

/// The stored navigation state IDs, sorted to be compared without any ordering assumption.
fn sorted_stored_ids<T: SynchronizedHistoryItem>(
    storage: &Option<SynchronizedHistoryItemStorage<T>>,
) -> Vec<HnItemIdScalar> {
    let mut stored_ids: Vec<_> = storage
        .as_ref()
        .expect("the storage must be initialized")
        .values()
        .map(|entry| entry.get_value())
        .collect();
    stored_ids.sort_unstable();
    stored_ids
}

#[test]
fn test_simple_item_top_level_persist_comment_id_scenario() {
    let history = applied_history(&[
        // viewed item 1 and left while focused on comment ID 123
        HistoryPersistCommand::TopLevelCommentAdd {
            story_id: 1,
            top_level_comment_id: 123,
        },
        // viewed item 2 and left while focused on comment ID 456
        HistoryPersistCommand::TopLevelCommentAdd {
            story_id: 2,
            top_level_comment_id: 456,
        },
        // viewed item 1 again, left while focused on comment ID 1230
        HistoryPersistCommand::TopLevelCommentAdd {
            story_id: 1,
            top_level_comment_id: 1230,
        },
    ]);

    // basic assertions
    assert_eq!(
        history.restored_top_level_comment_id_for_story(1),
        Some(1230)
    );
    assert_eq!(
        history.restored_top_level_comment_id_for_story(2),
        Some(456)
    );
    assert_eq!(history.restored_top_level_comment_id_for_story(3), None);
}

#[test]
fn test_simple_resume_items_scenario() {
    let history = applied_history(&[
        HistoryPersistCommand::ResumeAdd {
            item_id: 1,
            label: resume_label(1),
        },
        HistoryPersistCommand::ResumeAdd {
            item_id: 2,
            label: resume_label(2),
        },
        // finished reading item 1
        HistoryPersistCommand::ResumeRemove { item_id: 1 },
        // removing an Item never added to the resume list is a no-op
        HistoryPersistCommand::ResumeRemove { item_id: 3 },
    ]);

    let resume_items = history.restored_resume_items();
    assert_eq!(resume_items.len(), 1);
    assert_eq!(resume_items.first().map(|entry| entry.get_value()), Some(2));
    // the label given at insertion is kept alongside the Item ID
    assert_eq!(
        resume_items.first().map(|entry| entry.get_label()),
        Some(resume_label(2).as_str())
    );
}

#[test]
fn test_resume_items_restoring_order() {
    let mut history = applied_history(&[]);
    let resume_items_map = history
        .synchronized
        .latest_resume_items_map
        .get_or_insert_default();
    for (item_id, minutes_ago) in [(1, 5), (2, 37), (3, 1)] {
        resume_items_map.insert(
            item_id,
            ResumeItemHistoryData {
                datetime: timestamp_of(Utc::now() - Duration::minutes(minutes_ago)),
                label: resume_label(item_id),
                item_id,
            },
        );
    }

    // from the most recently visited Item to the oldest one
    let restored_items_ids: Vec<_> = history
        .restored_resume_items()
        .iter()
        .map(|entry| entry.get_value())
        .collect();
    assert_eq!(restored_items_ids, vec![3, 1, 2]);

    // each label stays attached to its own Item through the sorting
    let restored_items_labels: Vec<_> = history
        .restored_resume_items()
        .iter()
        .map(|entry| entry.get_label().to_string())
        .collect();
    assert_eq!(
        restored_items_labels,
        vec![resume_label(3), resume_label(1), resume_label(2)]
    );
}

#[test]
fn test_history_storage_limit_enforcing() {
    let mut storage = SynchronizedHistoryItemStorage::new();
    storage.insert(
        456,
        TopLevelCommentHistoryData {
            datetime: timestamp_of(Utc::now()),
            top_level_comment_id: 4567,
        },
    );
    storage.insert(
        123,
        TopLevelCommentHistoryData {
            datetime: timestamp_of(Utc::now() - Duration::minutes(3)),
            top_level_comment_id: 1231,
        },
    );
    storage.insert(
        789,
        TopLevelCommentHistoryData {
            datetime: timestamp_of(Utc::now() + Duration::seconds(37)),
            top_level_comment_id: 7895,
        },
    );

    let limited_storage = SynchronizedHistory::enforced_history_limit(&storage, 2);

    assert_eq!(limited_storage.len(), 2);
    assert!(!limited_storage.contains_key(&123));
    assert!(limited_storage.contains_key(&456));
    assert!(limited_storage.contains_key(&789));
}

#[test]
fn test_resume_item_upsert_refreshes_the_stored_entry() {
    let mut history = applied_history(&[
        HistoryPersistCommand::ResumeAdd {
            item_id: 1,
            label: resume_label(1),
        },
        HistoryPersistCommand::ResumeAdd {
            item_id: 2,
            label: resume_label(2),
        },
    ]);

    // backdate both entries to get a deterministic ordering
    for (item_id, minutes_ago) in [(1, 10), (2, 5)] {
        history
            .synchronized
            .latest_resume_items_map
            .get_or_insert_default()
            .entry(item_id)
            .and_modify(|entry| {
                entry.datetime = timestamp_of(Utc::now() - Duration::minutes(minutes_ago))
            });
    }
    assert_eq!(
        history
            .restored_resume_items()
            .iter()
            .map(|entry| entry.get_value())
            .collect::<Vec<_>>(),
        vec![2, 1]
    );

    // visiting item 1 again refreshes its entry instead of duplicating it,
    // and stores the label as seen during this latest visit
    history
        .synchronized
        .apply(&HistoryPersistCommand::ResumeAdd {
            item_id: 1,
            label: "Story #1 (renamed)".into(),
        });

    let resume_items = history.restored_resume_items();
    assert_eq!(resume_items.len(), 2);
    assert_eq!(
        resume_items
            .iter()
            .map(|entry| entry.get_value())
            .collect::<Vec<_>>(),
        vec![1, 2]
    );
    assert_eq!(
        resume_items
            .iter()
            .map(|entry| entry.get_label())
            .collect::<Vec<_>>(),
        vec!["Story #1 (renamed)", resume_label(2).as_str()]
    );
}

#[test]
fn test_history_json_file_reading_when_missing() {
    // nothing could be read from the history file
    let history = AppHistory::restored(None).synchronized;

    assert_eq!(
        sorted_stored_ids(&history.latest_resume_items_map),
        Vec::<HnItemIdScalar>::new()
    );
    assert_eq!(
        sorted_stored_ids(&history.latest_top_level_comments_per_item_map),
        Vec::<HnItemIdScalar>::new()
    );
}

#[test]
fn test_history_json_file_reading_without_the_resume_items_storage() {
    // history written by a version predating the "resume Item reading" tab
    let mut comments = HashMap::new();
    comments.insert(
        1,
        TopLevelCommentHistoryData {
            datetime: Timestamp {
                seconds: 1750000000,
                nanos: 0,
            },
            top_level_comment_id: 123,
        },
    );
    let history = AppHistory::restored(Some(SynchronizedHistory {
        latest_resume_items_map: None,
        latest_top_level_comments_per_item_map: Some(comments),
    }));

    assert!(history.synchronized.latest_resume_items_map.is_none());
    assert!(history.restored_resume_items().is_empty());
    assert_eq!(
        history.restored_top_level_comment_id_for_story(1),
        Some(123)
    );
}

#[test]
fn test_history_json_file_writing_enforces_the_entries_limit() {
    let max_entries = ResumeItemHistoryData::max_entries();
    let mut history = applied_history(&[]);
    let resume_items_map = history
        .synchronized
        .latest_resume_items_map
        .get_or_insert_default();
    // the older the Item, the higher its ID here
    for item_id in 0..(max_entries + 20) as HnItemIdScalar {
        resume_items_map.insert(
            item_id,
            ResumeItemHistoryData {
                datetime: timestamp_of(Utc::now() - Duration::minutes(item_id.into())),
                label: resume_label(item_id),
                item_id,
            },
        );
    }

    let persisted = history.persist(&[]);

    let persisted_items_ids = sorted_stored_ids(&persisted.latest_resume_items_map);
    assert_eq!(persisted_items_ids.len(), max_entries);
    // only the most recently visited Items are kept
    assert_eq!(
        persisted_items_ids,
        (0..max_entries as HnItemIdScalar).collect::<Vec<_>>()
    );
    // the in-memory history itself is not trimmed
    assert_eq!(
        history
            .synchronized
            .latest_resume_items_map
            .as_ref()
            .map(|storage| storage.len()),
        Some(max_entries + 20)
    );
}

#[test]
fn test_history_limits() {
    assert_eq!(ResumeItemHistoryData::max_entries(), 100);
    assert_eq!(TopLevelCommentHistoryData::max_entries(), 500);
}

#[test]
fn test_apply_at_stamps_entries_with_the_given_time() {
    let mut history = SynchronizedHistory::empty();
    let at = Timestamp {
        seconds: 1_700_000_000,
        nanos: 42,
    };
    history.apply_at(
        &HistoryPersistCommand::ResumeAdd {
            item_id: 7,
            label: resume_label(7),
        },
        at,
    );
    history.apply_at(
        &HistoryPersistCommand::TopLevelCommentAdd {
            story_id: 7,
            top_level_comment_id: 70,
        },
        at,
    );
    let resume = history.latest_resume_items_map.as_ref().unwrap();
    assert_eq!(resume.len(), 1);
    assert_eq!(*resume[&7].get_timestamp(), at);
    assert_eq!(resume[&7].get_label(), "Story #7");
    let comments = history.latest_top_level_comments_per_item_map.as_ref().unwrap();
    assert_eq!(comments[&7].get_value(), 70);
    assert_eq!(*comments[&7].get_timestamp(), at);
}

#[test]
fn test_adding_to_a_storage_missing_from_the_file_creates_it() {
    let mut history = SynchronizedHistory {
        latest_resume_items_map: None,
        latest_top_level_comments_per_item_map: None,
    };
    // removing from a missing storage leaves it missing
    history.apply(&HistoryPersistCommand::ResumeRemove { item_id: 1 });
    assert!(history.latest_resume_items_map.is_none());
    history.apply(&HistoryPersistCommand::TopLevelCommentAdd {
        story_id: 3,
        top_level_comment_id: 30,
    });
    assert!(history.latest_resume_items_map.is_none());
    assert_eq!(sorted_stored_ids(&history.latest_top_level_comments_per_item_map), vec![30]);
    history.apply(&HistoryPersistCommand::ResumeAdd {
        item_id: 4,
        label: resume_label(4),
    });
    assert_eq!(sorted_stored_ids(&history.latest_resume_items_map), vec![4]);
}

#[test]
fn test_comment_read_after_write_leaves_other_threads() {
    let mut history = applied_history(&[HistoryPersistCommand::TopLevelCommentAdd {
        story_id: 1,
        top_level_comment_id: 10,
    }]);
    let persisted = history.persist(&[
        HistoryPersistCommand::TopLevelCommentAdd {
            story_id: 2,
            top_level_comment_id: 20,
        },
        HistoryPersistCommand::ResumeAdd {
            item_id: 1,
            label: resume_label(1),
        },
    ]);
    assert_eq!(history.restored_top_level_comment_id_for_story(1), Some(10));
    assert_eq!(history.restored_top_level_comment_id_for_story(2), Some(20));
    // under the limits, nothing is dropped from what is persisted
    assert_eq!(sorted_stored_ids(&persisted.latest_top_level_comments_per_item_map), vec![10, 20]);
    assert_eq!(sorted_stored_ids(&persisted.latest_resume_items_map), vec![1]);
}

#[test]
fn test_sorted_by_recency_orders_by_seconds_then_nanoseconds() {
    let mut storage = SynchronizedHistoryItemStorage::new();
    for (story_id, seconds, nanos) in [(1, 100, 5), (2, 100, 900), (3, 99, 999_999_999), (4, 101, 0)] {
        storage.insert(
            story_id,
            TopLevelCommentHistoryData {
                datetime: Timestamp { seconds, nanos },
                top_level_comment_id: story_id * 10,
            },
        );
    }
    let sorted: Vec<HnItemIdScalar> = SynchronizedHistory::sorted_by_recency(&storage)
        .iter()
        .map(|(id, _)| **id)
        .collect();
    assert_eq!(sorted, vec![4, 2, 1, 3]);
    let limited = SynchronizedHistory::enforced_history_limit(&storage, 0);
    assert!(limited.is_empty());
    let limited = SynchronizedHistory::enforced_history_limit(&storage, 10);
    assert_eq!(limited.len(), 4);
}

#[test]
fn test_timestamp_order() {
    let earlier = Timestamp { seconds: 5, nanos: 10 };
    let later = Timestamp { seconds: 5, nanos: 11 };
    assert!(earlier.is_not_after(&later));
    assert!(!later.is_not_after(&earlier));
    assert!(earlier.is_not_after(&earlier));
    assert!(Timestamp { seconds: -1, nanos: 999 }.is_not_after(&Timestamp { seconds: 0, nanos: 0 }));
}

#[test]
fn test_apply_stamps_entries_with_the_current_time() {
    let before = timestamp_of(Utc::now());
    let mut history = SynchronizedHistory::empty();
    assert!(history.apply(&HistoryPersistCommand::TopLevelCommentAdd {
        story_id: 9,
        top_level_comment_id: 90,
    }));
    let after = timestamp_of(Utc::now());
    let comments = history.latest_top_level_comments_per_item_map.as_ref().unwrap();
    let stamped = *comments[&9].get_timestamp();
    assert!(before.is_not_after(&stamped));
    assert!(stamped.is_not_after(&after));
    assert!(stamped.seconds > 0);
}

#[test]
fn test_current_time_matches_the_system_clock() {
    let before = timestamp_of(Utc::now());
    let now = Timestamp::now().expect("the system clock reads a representable time");
    let after = timestamp_of(Utc::now());
    assert!(before.is_not_after(&now));
    assert!(now.is_not_after(&after));
    assert!(now.nanos < 1_000_000_000);
}

#[test]
fn test_signed_unix_time() {
    assert_eq!(signed_unix_time(Ok((1_700_000_000, 250))), Some((1_700_000_000, 250)));
    assert_eq!(signed_unix_time(Ok((0, 0))), Some((0, 0)));
    // before the epoch: negated, borrowing a second for a sub-second part
    assert_eq!(signed_unix_time(Err((5, 0))), Some((-5, 0)));
    assert_eq!(signed_unix_time(Err((5, 250_000_000))), Some((-6, 750_000_000)));
    assert_eq!(signed_unix_time(Err((0, 1))), Some((-1, 999_999_999)));
    // the same instant as chrono sees it
    let before_epoch = chrono::DateTime::<Utc>::from(
        std::time::UNIX_EPOCH - std::time::Duration::new(5, 250_000_000),
    );
    assert_eq!(
        Some((before_epoch.timestamp(), before_epoch.timestamp_subsec_nanos())),
        signed_unix_time(Err((5, 250_000_000)))
    );
    // seconds beyond an i64
    assert_eq!(signed_unix_time(Ok((u64::MAX, 0))), None);
    assert_eq!(signed_unix_time(Err((u64::MAX, 3))), None);
    assert_eq!(
        signed_unix_time(Ok((i64::MAX as u64, 0))),
        Some((i64::MAX, 0))
    );
    assert_eq!(
        signed_unix_time(Err((i64::MAX as u64, 1))),
        Some((i64::MIN, 999_999_999))
    );
}

#[test]
fn test_chrono_range_of_timestamps() {
    assert_eq!(DateTime::<Utc>::MIN_UTC.timestamp(), CHRONO_MIN_SECONDS);
    assert_eq!(DateTime::<Utc>::MAX_UTC.timestamp(), CHRONO_MAX_SECONDS);
    assert!(DateTime::<Utc>::from_timestamp(CHRONO_MIN_SECONDS, 0).is_some());
    assert!(DateTime::<Utc>::from_timestamp(CHRONO_MIN_SECONDS - 1, 999_999_999).is_none());
    assert!(DateTime::<Utc>::from_timestamp(CHRONO_MAX_SECONDS, 1_999_999_999).is_some());
    assert!(DateTime::<Utc>::from_timestamp(CHRONO_MAX_SECONDS + 1, 0).is_none());
    // leap-second nanoseconds only in the last second of a minute
    assert!(DateTime::<Utc>::from_timestamp(59, 1_500_000_000).is_some());
    assert!(DateTime::<Utc>::from_timestamp(58, 1_500_000_000).is_none());
    assert!(DateTime::<Utc>::from_timestamp(-1, 1_500_000_000).is_some());
    assert!(DateTime::<Utc>::from_timestamp(59, 2_000_000_000).is_none());
}

#[test]
fn test_removals_never_depend_on_the_clock() {
    let mut history = applied_history(&[HistoryPersistCommand::ResumeAdd {
        item_id: 1,
        label: resume_label(1),
    }]);
    assert!(history
        .synchronized
        .apply(&HistoryPersistCommand::ResumeRemove { item_id: 1 }));
    assert!(history.restored_resume_items().is_empty());
    // adding then removing an item in one batch leaves it absent
    let persisted = history.persist(&[
        HistoryPersistCommand::ResumeAdd {
            item_id: 2,
            label: resume_label(2),
        },
        HistoryPersistCommand::ResumeRemove { item_id: 2 },
    ]);
    assert!(history.restored_resume_items().is_empty());
    assert_eq!(sorted_stored_ids(&persisted.latest_resume_items_map), Vec::<HnItemIdScalar>::new());
}
