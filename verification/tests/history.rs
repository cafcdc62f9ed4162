use quoteme::config::HistoryConfig;
use quoteme::history::{
    cleanup, entry_with_id, last_text, list_entries, save_entry, HistoryEntry, NewEntry,
};
use quoteme::location::{history_dir, Location};
use quoteme::moments::{nanos_since, show_local, show_utc, shown_or_written, Timestamp};

fn at(secs: i64) -> Timestamp {
    Timestamp { secs, nanos: 0 }
}

fn root() -> Location {
    Location::new("/h".to_string())
}

fn saved(text: &str, secs: i64) -> HistoryEntry {
    save_entry(&root(), at(secs), text, 1.0_f64.to_bits(), false).entry
}

/// What is left of some entries after a cleanup, newest first.
fn after_cleanup(config: &HistoryConfig, now: Timestamp, found: Vec<HistoryEntry>) -> Vec<HistoryEntry> {
    let entries = list_entries(found.into_iter().map(Some).collect());
    let gone = cleanup(config, &now, &entries);
    entries.into_iter().filter(|e| !gone.contains(&e.id)).collect()
}

// ---- history_dir ----

#[test]
fn history_dir_uses_custom_path() {
    let c = HistoryConfig {
        path: "/custom/history".to_string(),
        ..HistoryConfig::default()
    };
    let dir = history_dir(&c, Some("/home/me/.config".to_string()));
    assert_eq!(dir.base, "/custom/history");
    assert!(dir.parts.is_empty());
}

#[test]
fn history_dir_default_contains_quoteme_and_history() {
    let c = HistoryConfig::default();
    let dir = history_dir(&c, Some("/home/me/.config".to_string()));
    assert_eq!(dir.base, "/home/me/.config");
    assert!(dir.parts.contains(&"quoteme".to_string()));
    assert!(dir.parts.contains(&"history".to_string()));
    assert_eq!(history_dir(&c, None).base, ".");
}

// ---- save_entry / list_entries ----

#[test]
fn save_entry_creates_all_three_files() {
    let new: NewEntry = save_entry(&root(), at(0), "hello", 0.01_f64.to_bits(), false);
    let id = new.entry.id.clone();
    assert_eq!(new.dir.base, "/h");
    assert_eq!(new.dir.parts, vec![id.clone()]);
    assert_eq!(new.transcription.parts, vec![id.clone(), "transcription.txt".to_string()]);
    assert_eq!(new.audio.parts, vec![id.clone(), "audio.wav".to_string()]);
    assert_eq!(new.metadata.parts, vec![id, "metadata.json".to_string()]);
}

#[test]
fn save_entry_metadata_fields_round_trip() {
    let new = save_entry(&root(), at(7), "test text", 1.5_f64.to_bits(), false);
    let entries = list_entries(vec![Some(new.entry)]);
    assert_eq!(entries.len(), 1);
    assert_eq!(entries[0].text, "test text");
    assert!((f64::from_bits(entries[0].duration_bits) - 1.5).abs() < 1e-6);
    assert!(!entries[0].cancelled);
    assert!(!entries[0].id.is_empty());
    assert_eq!(entries[0].timestamp, at(7));
}

#[test]
fn save_entry_cancelled_flag_stored() {
    let new = save_entry(&root(), at(0), "", 0.0_f64.to_bits(), true);
    let entries = list_entries(vec![Some(new.entry)]);
    assert_eq!(entries.len(), 1);
    assert!(entries[0].cancelled);
}

#[test]
fn identifiers_are_random_and_well_formed() {
    let a = saved("", 0).id;
    let b = saved("", 0).id;
    assert_ne!(a, b);
    let chars: Vec<char> = a.chars().collect();
    assert_eq!(chars.len(), 36);
    for (i, c) in chars.iter().enumerate() {
        if i == 8 || i == 13 || i == 18 || i == 23 {
            assert_eq!(*c, '-');
        } else {
            assert!(c.is_ascii_digit() || ('a'..='f').contains(c));
        }
    }
    assert_eq!(chars[14], '4');
    assert!("89ab".contains(chars[19]));
}

#[test]
fn an_entry_of_a_given_name_goes_below_that_name() {
    let new = entry_with_id(&root(), "x".to_string(), at(1), "t", 2, true);
    assert_eq!(new.entry.id, "x");
    assert_eq!(new.dir.parts, vec!["x".to_string()]);
    assert_eq!(new.entry.duration_bits, 2);
    assert!(new.entry.cancelled);
}

#[test]
fn list_entries_nonexistent_dir_returns_empty() {
    assert!(list_entries(Vec::new()).is_empty());
}

#[test]
fn list_entries_sorted_newest_first() {
    let entries = list_entries(vec![Some(saved("first", 10)), Some(saved("second", 11))]);
    assert_eq!(entries.len(), 2);
    assert_eq!(entries[0].text, "second", "newest entry must come first");
    assert_eq!(entries[1].text, "first");
}

#[test]
fn entries_of_the_same_moment_stay_in_order() {
    let mut late = saved("late", 5);
    late.timestamp.nanos = 1;
    let entries = list_entries(vec![
        Some(saved("a", 5)),
        Some(saved("old", 4)),
        Some(saved("b", 5)),
        Some(late),
        Some(saved("c", 5)),
    ]);
    let texts: Vec<&str> = entries.iter().map(|e| e.text.as_str()).collect();
    assert_eq!(texts, vec!["late", "a", "b", "c", "old"]);
}

#[test]
fn list_entries_ignores_dirs_without_metadata() {
    let entries = list_entries(vec![None, Some(saved("real entry", 1))]);
    assert_eq!(entries.len(), 1);
    assert_eq!(entries[0].text, "real entry");
}

#[test]
fn the_newest_text_is_pasted_again() {
    let entries = list_entries(vec![
        Some(saved("old", 1)),
        Some(saved("new", 2)),
        Some(saved("", 3)),
    ]);
    assert_eq!(last_text(&entries), Some("new".to_string()));
    assert_eq!(last_text(&list_entries(vec![Some(saved("", 3))])), None);
}

// ---- cleanup ----

#[test]
fn cleanup_noop_when_dir_missing() {
    let c = HistoryConfig {
        max_recordings: 1,
        ..HistoryConfig::default()
    };
    assert!(cleanup(&c, &at(0), &Vec::new()).is_empty());
}

#[test]
fn cleanup_zero_limits_deletes_nothing() {
    let c = HistoryConfig::default();
    let found = (0..5).map(|i| saved(&format!("entry {}", i), i)).collect();
    assert_eq!(after_cleanup(&c, at(1_000_000_000), found).len(), 5);
}

#[test]
fn cleanup_enforces_max_recordings() {
    let c_limited = HistoryConfig {
        max_recordings: 3,
        ..HistoryConfig::default()
    };
    let found = (0..5).map(|i| saved(&format!("entry {}", i), 20 * i)).collect();
    let remaining = after_cleanup(&c_limited, at(1_000), found);
    assert_eq!(remaining.len(), 3, "should keep only 3 newest entries");
    assert_eq!(remaining[0].text, "entry 4");
    assert_eq!(remaining[1].text, "entry 3");
    assert_eq!(remaining[2].text, "entry 2");
}

#[test]
fn cleanup_max_age_days_removes_old_entries() {
    let c_limited = HistoryConfig {
        max_age_days: 7,
        ..HistoryConfig::default()
    };
    let now = 1_700_000_000;
    let found = vec![saved("old entry", now - 10 * 86_400), saved("new entry", now)];
    let remaining = after_cleanup(&c_limited, at(now), found);
    assert_eq!(remaining.len(), 1, "10-day-old entry should be deleted");
    assert_eq!(remaining[0].text, "new entry");
}

#[test]
fn an_entry_goes_just_after_its_last_day() {
    let c = HistoryConfig {
        max_age_days: 2,
        ..HistoryConfig::default()
    };
    let entries = list_entries(vec![Some(saved("x", 0))]);
    assert!(cleanup(&c, &at(172_800), &entries).is_empty());
    let just_after = Timestamp { secs: 172_800, nanos: 1 };
    assert_eq!(cleanup(&c, &just_after, &entries), vec![entries[0].id.clone()]);
}

#[test]
fn cleaning_up_twice_removes_nothing_more() {
    let c = HistoryConfig {
        max_recordings: 2,
        max_age_days: 1,
        ..HistoryConfig::default()
    };
    let now = at(1_000_000);
    let found = vec![saved("a", 999_999), saved("b", 1), saved("c", 999_998), saved("d", 999_997)];
    let left = after_cleanup(&c, now, found);
    let texts: Vec<&str> = left.iter().map(|e| e.text.as_str()).collect();
    assert_eq!(texts, vec!["a", "c"]);
    assert!(cleanup(&c, &now, &left).is_empty());
}

#[test]
fn an_age_limit_beyond_all_time_removes_nothing() {
    let c = HistoryConfig {
        max_age_days: u64::MAX,
        ..HistoryConfig::default()
    };
    let found = vec![saved("x", i64::MIN)];
    assert_eq!(after_cleanup(&c, at(i64::MAX), found).len(), 1);
}

// ---- moments ----

#[test]
fn time_between_moments() {
    let a = Timestamp { secs: 10, nanos: 900_000_000 };
    let b = Timestamp { secs: 12, nanos: 100_000_000 };
    assert_eq!(nanos_since(&a, &b), 1_200_000_000);
    assert_eq!(nanos_since(&b, &a), -1_200_000_000);
}

#[test]
fn time_between_moments_agrees_with_chrono() {
    // 2016-12-31T23:59:60.5Z was in a leap second.
    let secs = [1_483_228_799_i64, 1_483_228_800, 1_483_142_400, -5, 0, 86_399];
    let nanos = [0_u32, 500_000_000, 1_500_000_000];
    for s in secs {
        for n in nanos {
            for t in secs {
                for m in nanos {
                    let (Some(from), Some(to)) = (
                        chrono::DateTime::from_timestamp(s, n),
                        chrono::DateTime::from_timestamp(t, m),
                    ) else {
                        continue;
                    };
                    let delta = to.signed_duration_since(from);
                    let expected =
                        delta.num_seconds() as i128 * 1_000_000_000 + delta.subsec_nanos() as i128;
                    let from = Timestamp { secs: s, nanos: n };
                    let to = Timestamp { secs: t, nanos: m };
                    assert_eq!(nanos_since(&from, &to), expected);
                }
            }
        }
    }
}

#[test]
fn moments_are_shown_in_utc() {
    assert_eq!(show_utc(&at(0)), Some("1970-01-01 00:00:00".to_string()));
    assert_eq!(
        show_utc(&Timestamp { secs: 1_431_648_000, nanos: 5 }),
        Some("2015-05-15 00:00:00".to_string())
    );
    assert_eq!(show_utc(&at(i64::MAX)), None);
}

#[test]
fn a_written_moment_is_shown_in_local_time_if_it_can_be_read() {
    assert_eq!(show_local("yesterday"), "yesterday");
    let shown = show_local("2024-05-06T07:08:09Z");
    assert_eq!(shown.len(), 19);
    assert!(shown.starts_with("2024-05-0"));
    assert!(shown.ends_with(":09"));
    let moment = 1_714_979_289;
    let quarters = -95..96_i64;
    assert!(quarters
        .map(|q| show_utc(&at(moment + q * 900)))
        .any(|text| text == Some(shown.clone())));
    assert_eq!(show_local("2024-05-06T09:08:09+02:00"), shown);
    // A leap second.
    let leap = show_local("2016-12-31T23:59:60.5Z");
    assert_eq!(leap.len(), 19);
    assert!((-95..96_i64)
        .map(|q| show_utc(&Timestamp { secs: 1_483_228_799 + q * 900, nanos: 1_500_000_000 }))
        .any(|text| text == Some(leap.clone())));
    assert!(leap.ends_with(":60"));
    assert_eq!(shown_or_written(Some("a".to_string()), "b"), "a");
    assert_eq!(shown_or_written(None, "b"), "b");
}
