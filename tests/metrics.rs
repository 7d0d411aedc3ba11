use filament::metrics::{daily_offsets, instant_or, issue_number, plan_page, rate_limit_pause, sync_since};

#[test]
fn rfc3339_timestamps_become_instants() {
    assert_eq!(instant_or("1970-01-01T00:00:01Z", -1), 1_000_000_000);
    assert_eq!(instant_or("2024-01-01T00:00:00+01:00", -1), 1_704_063_600_000_000_000);
    assert_eq!(instant_or("not a date", 42), 42);
    assert_eq!(instant_or("", 7), 7);
}

#[test]
fn sync_starts_at_the_earlier_instant() {
    assert_eq!(sync_since(Some(5), 10), 5);
    assert_eq!(sync_since(Some(15), 10), 10);
    assert_eq!(sync_since(None, 10), 10);
}

#[test]
fn rate_limit_pauses_only_when_low() {
    assert_eq!(rate_limit_pause(10, 100, 40), None);
    assert_eq!(rate_limit_pause(9, 100, 40), Some(65));
    assert_eq!(rate_limit_pause(0, 30, 40), Some(5));
    assert_eq!(rate_limit_pause(0, u64::MAX, 0), Some(u64::MAX));
}

#[test]
fn page_plan_stops_at_first_old_item() {
    let updated = vec![Some(50), None, Some(40), Some(9), Some(60)];
    let skip = vec![false, false, true, false, false];
    assert_eq!(plan_page(&updated, &skip, 10), (vec![0, 1], false));
    let all_new = vec![Some(50), Some(40)];
    assert_eq!(plan_page(&all_new, &vec![false, false], 10), (vec![0, 1], true));
    assert_eq!(plan_page(&vec![], &vec![], 10), (vec![], true));
}

#[test]
fn daily_offsets_count_down_to_today() {
    assert_eq!(daily_offsets(3), vec![3, 2, 1, 0]);
    assert_eq!(daily_offsets(0), vec![0]);
    assert_eq!(daily_offsets(-1), Vec::<i64>::new());
}

#[test]
fn issue_number_from_url() {
    assert_eq!(issue_number("https://api.github.com/repos/o/r/issues/1234"), 1234);
    assert_eq!(issue_number("https://api.github.com/repos/o/r/issues/"), 0);
    assert_eq!(issue_number("https://api.github.com/repos/o/r/issues/12a"), 0);
    assert_eq!(issue_number("77"), 77);
    assert_eq!(issue_number("x/-5"), -5);
    assert_eq!(issue_number("x/+5"), 5);
    assert_eq!(issue_number("x/9223372036854775807"), i64::MAX);
    assert_eq!(issue_number("x/9223372036854775808"), 0);
    assert_eq!(issue_number("x/-9223372036854775808"), i64::MIN);
    assert_eq!(issue_number("x/-"), 0);
}
