use janitor::Generation;
use janitor::GenerationSet;
use janitor::Timestamp;

fn ts(year: i32, month: u8, day: u8, hour: u8, minute: u8, second: u8) -> Timestamp {
    Timestamp { year, month, day, hour, minute, second }
}

const INPUT_WITH_CURRENT: &str = r#" 661   2023-06-01 08:10:47
    662   2023-06-05 21:35:55
    663   2023-06-06 13:17:20
    664   2023-06-06 18:29:49
    665   2023-06-07 07:57:08
    666   2023-06-08 07:42:25
    667   2023-06-13 22:13:13
    668   2023-06-14 09:03:01
    669   2023-06-15 12:21:00
    670   2023-06-16 09:59:25
    671   2023-06-19 18:54:32
    672   2023-06-20 07:09:24
    673   2023-07-03 08:56:50
    674   2023-07-05 18:26:11
    675   2023-07-10 08:56:27
    676   2023-07-12 23:32:24
    677   2023-07-13 12:55:34
    678   2023-07-14 11:46:59
    679   2023-07-15 10:32:58
    680   2023-07-15 22:40:41
    681   2023-07-16 11:35:46   (current)"#;

fn parsed() -> GenerationSet {
    GenerationSet::from_generations(Generation::parse_many(INPUT_WITH_CURRENT).unwrap())
}

fn ids_of(set: &GenerationSet) -> Vec<u32> {
    set.ids()
}

fn range_ids(lo: u32, hi: u32) -> Vec<u32> {
    (lo..=hi).collect()
}

#[test]
fn test_get_last_n_generations() {
    let cases: Vec<(usize, Vec<u32>)> = vec![
        (1, range_ids(681, 681)),
        (5, range_ids(677, 681)),
        (10, range_ids(672, 681)),
        (21, range_ids(661, 681)),
        (22, range_ids(661, 681)),
        (31, range_ids(661, 681)),
    ];
    let set = parsed();
    for (n, expected) in cases {
        assert_eq!(ids_of(&set.get_last_n_generations(n)), expected, "n = {}", n);
    }
}

#[test]
fn test_get_last_n_generations_empty_set() {
    let set = GenerationSet::from_generations(vec![]);
    assert_eq!(ids_of(&set.get_last_n_generations(0)), Vec::<u32>::new());
    assert_eq!(ids_of(&set.get_last_n_generations(5)), Vec::<u32>::new());
}

#[test]
fn test_get_active_on_or_after() {
    let cases: Vec<(Timestamp, Vec<u32>)> = vec![
        (ts(2023, 6, 1, 0, 0, 0), range_ids(661, 681)),
        (ts(2023, 6, 10, 0, 0, 0), range_ids(666, 681)),
        (ts(2023, 6, 20, 0, 0, 0), range_ids(671, 681)),
        (ts(2023, 7, 1, 0, 0, 0), range_ids(672, 681)),
        (ts(2023, 7, 15, 12, 0, 0), range_ids(679, 681)),
    ];
    let set = parsed();
    for (date, expected) in cases {
        assert_eq!(ids_of(&set.get_active_on_or_after(date)), expected);
    }
}

#[test]
fn test_generations_to_delete() {
    let cases: Vec<(usize, Timestamp, Vec<u32>)> = vec![
        (1, ts(2023, 6, 1, 0, 0, 0), vec![]),
        (1, ts(2023, 7, 1, 0, 0, 0), range_ids(661, 671)),
        (1, ts(2023, 7, 15, 12, 0, 0), range_ids(661, 678)),
        (5, ts(2023, 6, 1, 0, 0, 0), vec![]),
        (5, ts(2023, 7, 1, 0, 0, 0), range_ids(661, 671)),
        (5, ts(2023, 7, 15, 12, 0, 0), range_ids(661, 676)),
        (10, ts(2023, 6, 1, 0, 0, 0), vec![]),
        (10, ts(2023, 7, 1, 0, 0, 0), range_ids(661, 671)),
        (10, ts(2023, 7, 15, 12, 0, 0), range_ids(661, 671)),
        (21, ts(2023, 6, 1, 0, 0, 0), vec![]),
        (21, ts(2023, 7, 1, 0, 0, 0), vec![]),
        (21, ts(2023, 7, 15, 12, 0, 0), vec![]),
        (22, ts(2023, 6, 1, 0, 0, 0), vec![]),
        (22, ts(2023, 7, 1, 0, 0, 0), vec![]),
        (22, ts(2023, 7, 15, 12, 0, 0), vec![]),
        (31, ts(2023, 6, 1, 0, 0, 0), vec![]),
        (31, ts(2023, 7, 1, 0, 0, 0), vec![]),
        (31, ts(2023, 7, 15, 12, 0, 0), vec![]),
    ];
    let set = parsed();
    for (keep, date, expected) in cases {
        assert_eq!(ids_of(&set.generations_to_delete(keep, date)), expected, "keep = {}", keep);
    }
}

#[test]
fn scenario_keep_one_cutoff_july_first() {
    let set = parsed();
    let to_delete = set.generations_to_delete(1, ts(2023, 7, 1, 0, 0, 0));
    assert_eq!(ids_of(&to_delete), range_ids(661, 671));
    assert_eq!(to_delete.len(), 11);
    let retained_by_count = set.get_last_n_generations(1);
    let retained_by_age = set.get_active_on_or_after(ts(2023, 7, 1, 0, 0, 0));
    for id in 661..=681u32 {
        let deleted = to_delete.contains(id);
        let kept = retained_by_count.contains(id) || retained_by_age.contains(id);
        assert!(deleted != kept, "id {} must be deleted or kept, never both", id);
    }
}

#[test]
fn scenario_keep_all_deletes_nothing() {
    let set = parsed();
    let to_delete = set.generations_to_delete(21, ts(2023, 7, 1, 0, 0, 0));
    assert!(to_delete.is_empty());
    assert_eq!(to_delete.len(), 0);
}

#[test]
fn selection_is_idempotent() {
    let set = parsed();
    let first = set.generations_to_delete(5, ts(2023, 7, 1, 0, 0, 0));
    let second = set.generations_to_delete(5, ts(2023, 7, 1, 0, 0, 0));
    assert_eq!(first, second);
}

#[test]
fn keep_zero_with_early_cutoff_still_keeps_age_floor() {
    let set = parsed();
    let to_delete = set.generations_to_delete(0, ts(2023, 6, 1, 0, 0, 0));
    assert!(to_delete.is_empty());
}

#[test]
fn keep_zero_with_late_cutoff_keeps_only_latest_before() {
    let set = parsed();
    let to_delete = set.generations_to_delete(0, ts(2024, 1, 1, 0, 0, 0));
    assert_eq!(ids_of(&to_delete), range_ids(661, 680));
}

#[test]
fn age_floor_keeps_latest_before_cutoff_when_all_are_older() {
    let set = parsed();
    let active = set.get_active_on_or_after(ts(2024, 1, 1, 0, 0, 0));
    assert_eq!(ids_of(&active), vec![681]);
}

#[test]
fn test_get() {
    let set = parsed();
    let cases: Vec<(u32, Timestamp, bool)> = vec![
        (661, ts(2023, 6, 1, 8, 10, 47), false),
        (666, ts(2023, 6, 8, 7, 42, 25), false),
        (671, ts(2023, 6, 19, 18, 54, 32), false),
        (678, ts(2023, 7, 14, 11, 46, 59), false),
        (681, ts(2023, 7, 16, 11, 35, 46), true),
    ];
    for (id, date, current) in cases {
        assert_eq!(set.get(id), Some(Generation { id, date, current }));
    }
    assert_eq!(set.get(650), None);
}

#[test]
fn test_contains() {
    let set = parsed();
    for id in [661, 666, 671, 678, 681] {
        assert!(set.contains(id));
    }
    for id in [650, 100, 800, 1000] {
        assert!(!set.contains(id));
    }
}

#[test]
fn test_len() {
    assert_eq!(GenerationSet::from_generations(vec![]).len(), 0);
    let one = GenerationSet::from_generations(vec![Generation {
        id: 1,
        date: ts(2020, 1, 1, 0, 0, 0),
        current: false,
    }]);
    assert_eq!(one.len(), 1);
    assert_eq!(parsed().len(), 21);
}

#[test]
fn test_empty() {
    assert!(GenerationSet::from_generations(vec![]).is_empty());
    let one = GenerationSet::from_generations(vec![Generation {
        id: 1,
        date: ts(2020, 1, 1, 0, 0, 0),
        current: false,
    }]);
    assert!(!one.is_empty());
    assert!(!parsed().is_empty());
}

#[test]
fn from_generations_sorts_and_deduplicates() {
    let a = Generation { id: 3, date: ts(2020, 1, 3, 0, 0, 0), current: false };
    let b = Generation { id: 1, date: ts(2020, 1, 1, 0, 0, 0), current: false };
    let c = Generation { id: 2, date: ts(2020, 1, 2, 0, 0, 0), current: false };
    let dup = Generation { id: 1, date: ts(2021, 5, 5, 0, 0, 0), current: true };
    let set = GenerationSet::from_generations(vec![a, b, c, dup]);
    assert_eq!(set.ids(), vec![1, 2, 3]);
    assert_eq!(set.get(1), Some(b), "the first occurrence of an id wins");
}

#[test]
fn iter_yields_entries_in_ascending_id_order() {
    let set = parsed();
    let entries = set.iter();
    assert_eq!(entries.len(), 21);
    for (k, g) in entries.iter().enumerate() {
        assert_eq!(g.id, 661 + k as u32);
    }
}

#[test]
fn current_flag_does_not_protect_a_generation() {
    let current_old = Generation { id: 1, date: ts(2020, 1, 1, 0, 0, 0), current: true };
    let newer_a = Generation { id: 2, date: ts(2020, 6, 1, 0, 0, 0), current: false };
    let newer_b = Generation { id: 3, date: ts(2023, 6, 1, 0, 0, 0), current: false };
    let set = GenerationSet::from_generations(vec![current_old, newer_a, newer_b]);
    let to_delete = set.generations_to_delete(1, ts(2023, 1, 1, 0, 0, 0));
    assert_eq!(to_delete.ids(), vec![1]);
}
