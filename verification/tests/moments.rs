use chrono::{DateTime, FixedOffset, Timelike, Utc};
use daydream_memory::moment::{elapsed_seconds, time_distance, LocalMoment, Moment};

fn at(secs: i64, nanos: u32) -> Moment {
    Moment::new(secs, nanos).unwrap()
}

fn calendar(secs: i64, nanos: u32) -> Option<DateTime<Utc>> {
    let second = DateTime::from_timestamp(secs, 0)?.naive_utc();
    Some(second.with_nanosecond(nanos)?.and_utc())
}

#[test]
fn moments_are_what_a_calendar_can_name() {
    let secs = [
        i64::MIN,
        -8_334_601_228_801,
        -8_334_601_228_800,
        -8_334_601_228_741,
        -61,
        -60,
        -2,
        -1,
        0,
        58,
        59,
        60,
        1_483_228_799,
        8_210_266_876_799,
        8_210_266_876_800,
        i64::MAX,
    ];
    let nanos = [0, 1, 999_999_999, 1_000_000_000, 1_999_999_999, 2_000_000_000, u32::MAX];
    for s in secs {
        for n in nanos {
            let moment = Moment::new(s, n);
            assert_eq!(moment.is_some(), calendar(s, n).is_some());
            if let Some(m) = moment {
                let time = calendar(s, n).unwrap();
                assert_eq!((time.timestamp(), time.timestamp_subsec_nanos()), (s, n));
                assert_eq!((m.secs(), m.nanos()), (s, n));
            }
        }
    }
}

#[test]
fn spans_are_those_of_the_calendar() {
    let mut moments = Vec::new();
    for s in [-8_334_601_228_800, -86_401, -1, 0, 59, 86_399, 1_483_228_799, 1_483_228_800, 8_210_266_876_799] {
        for n in [0, 1, 500_000_000, 999_999_999, 1_000_000_000, 1_500_000_000, 1_999_999_999] {
            moments.push(at(s, n));
        }
    }
    for a in &moments {
        for b in &moments {
            let da = calendar(a.secs(), a.nanos()).unwrap();
            let db = calendar(b.secs(), b.nanos()).unwrap();
            let delta = da.signed_duration_since(db);
            assert_eq!(elapsed_seconds(a, b), delta.num_seconds());
            let whole = delta.abs();
            let expected = whole.num_seconds() as i128 * 1_000_000_000 + whole.subsec_nanos() as i128;
            assert_eq!(time_distance(a, b), expected);
            assert_eq!(time_distance(a, b), time_distance(b, a));
            assert_eq!(elapsed_seconds(a, b), -elapsed_seconds(b, a));
            for c in &moments {
                let dc = calendar(c.secs(), c.nanos()).unwrap();
                let nearer = time_distance(a, c) < time_distance(b, c);
                assert_eq!(nearer, (da - dc).abs() < (db - dc).abs());
            }
        }
    }
}

fn span(to: &Moment, from: &Moment) -> i128 {
    let day = |m: &Moment| m.secs().rem_euclid(86_400);
    let leap = if day(to) > day(from) && from.nanos() >= 1_000_000_000 {
        1
    } else if day(to) < day(from) && to.nanos() >= 1_000_000_000 {
        -1
    } else {
        0
    };
    (to.secs() - from.secs() + leap) as i128 * 1_000_000_000 + to.nanos() as i128
        - from.nanos() as i128
}

#[test]
fn spans_count_a_leap_second_by_the_time_of_day() {
    let mut moments = Vec::new();
    for s in [-8_334_601_228_741, -86_401, -61, -1, 0, 58, 59, 60, 86_399, 86_459, 1_483_228_799] {
        for n in [0, 1, 999_999_999, 1_000_000_000, 1_500_000_000, 1_999_999_999] {
            moments.push(at(s, n));
        }
    }
    for to in &moments {
        for from in &moments {
            assert_eq!(time_distance(to, from), span(to, from).abs());
            assert_eq!(elapsed_seconds(to, from) as i128, span(to, from) / 1_000_000_000);
        }
    }
}

#[test]
fn spans_of_chosen_moments() {
    assert_eq!(elapsed_seconds(&at(100, 0), &at(40, 0)), 60);
    assert_eq!(elapsed_seconds(&at(100, 0), &at(40, 1)), 59);
    assert_eq!(elapsed_seconds(&at(40, 1), &at(100, 0)), -59);
    assert_eq!(time_distance(&at(1, 250_000_000), &at(3, 0)), 1_750_000_000);
    // From within a leap second to the second after it.
    assert_eq!(time_distance(&at(1_483_228_799, 1_500_000_000), &at(1_483_228_799, 0)), 1_500_000_000);
}

#[test]
fn a_leap_second_may_follow_any_second() {
    let leap = at(0, 1_500_000_000);
    assert_eq!((leap.secs(), leap.nanos()), (0, 1_500_000_000));
    assert_eq!(time_distance(&leap, &at(0, 0)), 1_500_000_000);
    assert_eq!(time_distance(&at(1, 0), &leap), 500_000_000);
    assert_eq!(elapsed_seconds(&at(10, 0), &leap), 9);
    assert_eq!(elapsed_seconds(&leap, &at(10, 0)), -9);
    assert_eq!(LocalMoment::new(leap, 0).unwrap().stamp(), "70/01/01，00:00");
    assert!(Moment::new(0, 2_000_000_000).is_none());
}

#[test]
fn stamps_follow_the_local_clock() {
    let moment = at(1_700_000_000, 0);
    assert_eq!(LocalMoment::new(moment, 0).unwrap().stamp(), "23/11/14，22:13");
    assert_eq!(LocalMoment::new(moment, 8 * 3600).unwrap().stamp(), "23/11/15，06:13");
    assert_eq!(LocalMoment::new(moment, -23 * 3600).unwrap().stamp(), "23/11/13，23:13");
    assert_eq!(LocalMoment::new(at(0, 0), 0).unwrap().stamp(), "70/01/01，00:00");
}

#[test]
fn stamps_are_there_for_every_moment_and_offset() {
    for secs in [-8_334_601_228_800, -1, 30, 59, 8_210_266_876_799] {
        for nanos in [0, 1_999_999_999] {
            for offset in [-86_399, -1, 0, 1, 86_399] {
                let zone = FixedOffset::east_opt(offset).unwrap();
                let expected = calendar(secs, nanos)
                    .unwrap()
                    .with_timezone(&zone)
                    .format("%y/%m/%d，%H:%M")
                    .to_string();
                assert_eq!(LocalMoment::new(at(secs, nanos), offset).unwrap().stamp(), expected);
            }
        }
    }
}

#[test]
fn offsets_are_shorter_than_a_day() {
    let moment = at(0, 0);
    assert!(LocalMoment::new(moment, 86_399).is_some());
    assert!(LocalMoment::new(moment, -86_399).is_some());
    assert!(LocalMoment::new(moment, 86_400).is_none());
    assert!(LocalMoment::new(moment, -86_400).is_none());
    assert!(LocalMoment::new(moment, i32::MIN).is_none());
}
