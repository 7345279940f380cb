use drive_time::duration::{format_duration, round_duration, round_duration_carrying, RoundedDuration};
use drive_time::route::{Leg, Route};

fn rounded(hours: u128, minutes: u8) -> RoundedDuration {
    RoundedDuration { hours, minutes }
}

#[test]
fn ninety_minutes_need_no_rounding() {
    assert_eq!(round_duration(5400), rounded(1, 30));
    assert_eq!(format_duration(5400), "Total time: 1 hours and 30 minutes");
}

#[test]
fn thirty_one_seconds_round_up() {
    assert_eq!(round_duration(5431), rounded(1, 31));
    assert_eq!(format_duration(5431), "Total time: 1 hours and 31 minutes");
}

#[test]
fn thirty_seconds_round_down() {
    assert_eq!(round_duration(5430), rounded(1, 30));
    assert_eq!(round_duration(30), rounded(0, 0));
    assert_eq!(round_duration(31), rounded(0, 1));
    assert_eq!(round_duration(90), rounded(0, 1));
    assert_eq!(round_duration(91), rounded(0, 2));
}

#[test]
fn last_half_minute_of_an_hour_reads_sixty_minutes() {
    assert_eq!(round_duration(3599), rounded(0, 60));
    assert_eq!(format_duration(3599), "Total time: 0 hours and 60 minutes");
    assert_eq!(round_duration(3570), rounded(0, 59));
    assert_eq!(round_duration(3571), rounded(0, 60));
    assert_eq!(round_duration(3600), rounded(1, 0));
    assert_eq!(round_duration(7199), rounded(1, 60));
}

#[test]
fn carrying_turns_sixty_minutes_into_an_hour() {
    assert_eq!(round_duration_carrying(3599), rounded(1, 0));
    assert_eq!(round_duration_carrying(3570), rounded(0, 59));
    assert_eq!(round_duration_carrying(3571), rounded(1, 0));
    assert_eq!(round_duration_carrying(7199), rounded(2, 0));
    assert_eq!(round_duration_carrying(5400), rounded(1, 30));
    assert_eq!(round_duration_carrying(5431), rounded(1, 31));
    assert_eq!(round_duration_carrying(0), rounded(0, 0));
}

#[test]
fn both_roundings_agree_on_the_minutes_in_all() {
    for total in (0u128..20_000).chain([u128::MAX - 60, u128::MAX]) {
        let plain = round_duration(total);
        let carried = round_duration_carrying(total);
        assert!(plain.minutes <= 60);
        assert!(carried.minutes < 60);
        assert_eq!(
            60 * plain.hours + plain.minutes as u128,
            60 * carried.hours + carried.minutes as u128
        );
    }
}

#[test]
fn zero_seconds() {
    assert_eq!(round_duration(0), rounded(0, 0));
    assert_eq!(format_duration(0), "Total time: 0 hours and 0 minutes");
}

#[test]
fn long_durations_keep_all_their_hours() {
    assert_eq!(round_duration(360_000), rounded(100, 0));
    assert_eq!(format_duration(360_000 + 45 * 60 + 31), "Total time: 100 hours and 46 minutes");
    assert_eq!(round_duration(u128::MAX).hours, u128::MAX / 3600);
}

#[test]
fn sentence_shows_the_parts_as_they_are() {
    assert_eq!(rounded(12, 5).text(), "Total time: 12 hours and 5 minutes");
    assert_eq!(rounded(0, 60).text(), "Total time: 0 hours and 60 minutes");
}

#[test]
fn total_sums_every_leg() {
    let route = Route {
        legs: vec![
            Leg { duration_seconds: 1800 },
            Leg { duration_seconds: 3000 },
            Leg { duration_seconds: 631 },
        ],
    };
    assert_eq!(route.total_duration(), 5431);
    assert_eq!(Route { legs: vec![] }.total_duration(), 0);
}

#[test]
fn leg_takes_no_negative_duration() {
    assert_eq!(Leg::from_seconds(0), Some(Leg { duration_seconds: 0 }));
    assert_eq!(Leg::from_seconds(5400), Some(Leg { duration_seconds: 5400 }));
    assert_eq!(Leg::from_seconds(i64::MAX), Some(Leg { duration_seconds: i64::MAX as u64 }));
    assert_eq!(Leg::from_seconds(-1), None);
    assert_eq!(Leg::from_seconds(i64::MIN), None);
}

#[test]
fn total_does_not_overflow() {
    let route = Route { legs: vec![Leg { duration_seconds: u64::MAX }; 3] };
    assert_eq!(route.total_duration(), 3 * (u64::MAX as u128));
}
