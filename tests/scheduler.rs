use chrono::{TimeZone, Utc};
use leitner_core::scheduler::{cycle_position, due_facts, levels_include};
use leitner_core::{Fact, FactRepository, InMemoryFactRepository, LeitnerSchedule, SpacedSchedule, Timestamp};

fn reference_start() -> chrono::DateTime<Utc> {
    Utc.with_ymd_and_hms(2014, 7, 8, 9, 10, 11).unwrap() // `2014-07-08T09:10:11Z`
}

fn stamp(date: chrono::DateTime<Utc>) -> Timestamp {
    Timestamp::from_unix_seconds(date.timestamp())
}

fn days_after_start(days: i64) -> Timestamp {
    stamp(reference_start() + chrono::Duration::days(days))
}

#[test]
fn schedule_with_one_card_shows_full_schedule() {
    let mut schedule = LeitnerSchedule::new();

    // given
    let start_date = reference_start();
    schedule.set_start_date(stamp(start_date));

    // day 1
    assert_eq!(schedule.get_levels_for_date(stamp(start_date + chrono::Duration::days(0))),
               vec![2, 1]);

    // day 2
    assert_eq!(schedule.get_levels_for_date(stamp(start_date + chrono::Duration::days(1))),
               vec![3, 1]);

    // day 13
    assert_eq!(schedule.get_levels_for_date(stamp(start_date + chrono::Duration::days(12))),
               vec![4, 2, 1]);

    // day 28
    assert_eq!(schedule.get_levels_for_date(stamp(start_date + chrono::Duration::days(27))),
               vec![5, 1]);
}

#[test]
fn get_todays_cards() {
    let mut repository = InMemoryFactRepository::new();
    repository.add_fact(Fact::new("Fact 1".to_string(), "Answer 1".to_string()).with_level(1));
    repository.add_fact(Fact::new("Fact 2".to_string(), "Answer 2".to_string()).with_level(2));
    repository.add_fact(Fact::new("Fact 3".to_string(), "Answer 2".to_string()).with_level(3));
}

#[test]
fn reference_scenarios() {
    let schedule = LeitnerSchedule::starting_at(stamp(reference_start()));
    assert_eq!(schedule.get_levels_for_date(days_after_start(0)), vec![2, 1]);
    assert_eq!(schedule.get_levels_for_date(days_after_start(1)), vec![3, 1]);
    assert_eq!(schedule.get_levels_for_date(days_after_start(12)), vec![4, 2, 1]);
    assert_eq!(schedule.get_levels_for_date(days_after_start(27)), vec![5, 1]);
    assert_eq!(schedule.get_levels_for_date(days_after_start(55)), vec![7, 1]);
    assert_eq!(schedule.get_levels_for_date(days_after_start(64)), vec![2, 1]);
}

#[test]
fn schedule_size_and_levels() {
    let schedule = LeitnerSchedule::new();
    assert_eq!(schedule.len(), 64);
    assert_eq!(schedule.num_levels(), 7);
}

#[test]
fn every_day_contains_first_level() {
    let schedule = LeitnerSchedule::new();
    for day in 0u8..=255 {
        let levels = schedule.get_levels_for_day(day);
        assert!(!levels.is_empty());
        assert_eq!(*levels.last().unwrap(), 1);
    }
}

#[test]
fn levels_for_day_wrap_around_cycle() {
    let schedule = LeitnerSchedule::new();
    assert_eq!(schedule.get_levels_for_day(55), vec![7, 1]);
    assert_eq!(schedule.get_levels_for_day(58), vec![6, 2, 1]);
    assert_eq!(schedule.get_levels_for_day(63), vec![1]);
    assert_eq!(schedule.get_levels_for_day(64 + 55), vec![7, 1]);
    assert_eq!(schedule.get_levels_for_day(128 + 12), vec![4, 2, 1]);
}

#[test]
fn day_of_schedule_is_periodic() {
    let schedule = LeitnerSchedule::starting_at(stamp(reference_start()));
    for d in [0i64, 1, 12, 27, 55, 63, 300] {
        let first = schedule.get_day_of_schedule(days_after_start(d));
        for k in 0i64..5 {
            assert_eq!(schedule.get_day_of_schedule(days_after_start(d + k * 64)), first);
        }
    }
    assert_eq!(schedule.get_day_of_schedule(days_after_start(300)), (300 % 64) as u8);
}

#[test]
fn day_of_schedule_beyond_byte_range() {
    let schedule = LeitnerSchedule::starting_at(stamp(reference_start()));
    // 256 days: a narrow day counter would wrap to 0 here and still agree,
    // 257 + 64 must give day 1 either way, 1000 days gives 1000 mod 64.
    assert_eq!(schedule.get_day_of_schedule(days_after_start(256)), 0);
    assert_eq!(schedule.get_day_of_schedule(days_after_start(1000)), (1000 % 64) as u8);
    assert_eq!(schedule.get_levels_for_date(days_after_start(1000)), schedule.get_levels_for_day(40));
}

#[test]
fn partial_days_round_down() {
    let schedule = LeitnerSchedule::starting_at(stamp(reference_start()));
    let almost_a_day = Timestamp::from_unix_seconds(reference_start().timestamp() + 86_399);
    assert_eq!(schedule.get_day_of_schedule(almost_a_day), 0);
    let one_day = Timestamp::from_unix_seconds(reference_start().timestamp() + 86_400);
    assert_eq!(schedule.get_day_of_schedule(one_day), 1);
}

#[test]
fn dates_before_start_count_backwards() {
    let schedule = LeitnerSchedule::starting_at(stamp(reference_start()));
    let one_second_before = Timestamp::from_unix_seconds(reference_start().timestamp() - 1);
    assert_eq!(schedule.get_day_of_schedule(one_second_before), 63);
    assert_eq!(schedule.get_levels_for_date(one_second_before), vec![1]);
    assert_eq!(schedule.get_day_of_schedule(days_after_start(-9)), 55);
    assert_eq!(schedule.get_levels_for_date(days_after_start(-9)), vec![7, 1]);
    assert_eq!(schedule.get_day_of_schedule(days_after_start(-64)), 0);
}

#[test]
fn days_until_rounds_down() {
    let a = Timestamp::from_unix_seconds(0);
    assert_eq!(a.days_until(&Timestamp::from_unix_seconds(86_400 * 3 + 5)), 3);
    assert_eq!(a.days_until(&Timestamp::from_unix_seconds(-1)), -1);
    assert_eq!(a.days_until(&Timestamp::from_unix_seconds(-86_400)), -1);
    assert_eq!(a.days_until(&Timestamp::from_unix_seconds(-86_401)), -2);
    let lo = Timestamp::from_unix_seconds(i64::MIN);
    let hi = Timestamp::from_unix_seconds(i64::MAX);
    assert_eq!(lo.days_until(&hi), (u64::MAX / 86_400) as i64);
    assert_eq!(hi.days_until(&lo), -((u64::MAX / 86_400) as i64) - 1);
}

#[test]
fn cycle_position_is_euclidean() {
    assert_eq!(cycle_position(0, 64), 0);
    assert_eq!(cycle_position(65, 64), 1);
    assert_eq!(cycle_position(-1, 64), 63);
    assert_eq!(cycle_position(-64, 64), 0);
    assert_eq!(cycle_position(-65, 64), 63);
    assert_eq!(cycle_position(i64::MIN, 64), 0);
    assert_eq!(cycle_position(i64::MIN, 7), ((i64::MIN as i128).rem_euclid(7)) as u8);
}

#[test]
fn levels_for_date_are_idempotent() {
    let start = stamp(reference_start());
    let a = LeitnerSchedule::starting_at(start);
    let b = LeitnerSchedule::starting_at(start);
    for d in [0i64, 12, 55, 99] {
        let day = days_after_start(d);
        assert_eq!(a.get_levels_for_date(day), a.get_levels_for_date(day));
        assert_eq!(a.get_levels_for_date(day), b.get_levels_for_date(day));
    }
}

#[test]
fn levels_include_checks_membership() {
    let levels = vec![4u8, 2, 1];
    assert!(levels_include(&levels, 2));
    assert!(!levels_include(&levels, 3));
    assert!(!levels_include(&Vec::new(), 1));
}

#[test]
fn due_facts_filters_by_level() {
    let schedule = LeitnerSchedule::starting_at(stamp(reference_start()));
    let facts = vec![
        Fact::new("Fact 1".to_string(), "Answer 1".to_string()).with_level(1),
        Fact::new("Fact 2".to_string(), "Answer 2".to_string()).with_level(2),
        Fact::new("Fact 3".to_string(), "Answer 2".to_string()).with_level(3),
        Fact::new("Fact 4".to_string(), "Answer 4".to_string()).with_level(8),
    ];
    // day 0: levels 2 and 1
    let due = due_facts(&schedule, &facts, days_after_start(0));
    let questions: Vec<&str> = due.iter().map(|f| f.question.as_str()).collect();
    assert_eq!(questions, vec!["Fact 1", "Fact 2"]);
    // day 1: levels 3 and 1
    let due = due_facts(&schedule, &facts, days_after_start(1));
    let questions: Vec<&str> = due.iter().map(|f| f.question.as_str()).collect();
    assert_eq!(questions, vec!["Fact 1", "Fact 3"]);
    // day 7: level 1 only
    let due = due_facts(&schedule, &facts, days_after_start(7));
    assert_eq!(due.len(), 1);
    assert!(due_facts(&schedule, &Vec::new(), days_after_start(7)).is_empty());
}

#[test]
fn fresh_fact_due_every_day() {
    let schedule = LeitnerSchedule::starting_at(stamp(reference_start()));
    let facts = vec![Fact::new("Q".to_string(), "A".to_string())];
    for d in -70i64..140 {
        assert_eq!(due_facts(&schedule, &facts, days_after_start(d)).len(), 1);
    }
}

#[test]
fn retired_fact_is_never_due() {
    let schedule = LeitnerSchedule::starting_at(stamp(reference_start()));
    let facts = vec![Fact::new("Q".to_string(), "A".to_string()).with_level(8)];
    for d in 0i64..64 {
        assert!(due_facts(&schedule, &facts, days_after_start(d)).is_empty());
    }
}

#[test]
fn new_schedule_starts_now() {
    let schedule = LeitnerSchedule::new();
    // 2020-01-01T00:00:00Z: any clock running this test is past it.
    assert!(schedule.get_start_date().secs > 1_577_836_800);
}
