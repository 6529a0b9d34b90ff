use thread2channel::clock::{civil_from_unix, format_label, timestamp_label, CivilTime};

#[test]
fn epoch_is_the_first_of_january_1970() {
    assert_eq!(
        civil_from_unix(0, 0),
        CivilTime { year: 1970, month: 1, day: 1, hour: 0, minute: 0, second: 0 }
    );
    assert_eq!(timestamp_label(0, 0), "1970/01/01 00:00:00");
}

#[test]
fn label_of_a_known_instant() {
    assert_eq!(timestamp_label(1_700_000_000, 0), "2023/11/14 22:13:20");
}

#[test]
fn label_in_a_zone_east_of_utc() {
    assert_eq!(timestamp_label(1_700_000_000, 9 * 3600), "2023/11/15 07:13:20");
}

#[test]
fn label_in_a_zone_west_of_utc() {
    assert_eq!(timestamp_label(0, -3600), "1969/12/31 23:00:00");
    assert_eq!(timestamp_label(1_700_000_000, -5 * 3600), "2023/11/14 17:13:20");
}

#[test]
fn leap_days() {
    assert_eq!(timestamp_label(951_782_400, 0), "2000/02/29 00:00:00");
    assert_eq!(timestamp_label(1_709_208_000, 0), "2024/02/29 12:00:00");
    assert_eq!(timestamp_label(1_709_251_199, 0), "2024/02/29 23:59:59");
    assert_eq!(timestamp_label(1_709_251_200, 0), "2024/03/01 00:00:00");
}

#[test]
fn century_years_that_are_not_leap_years() {
    assert_eq!(timestamp_label(-2_208_988_800, 0), "1900/01/01 00:00:00");
    // 1900-02-28 23:59:59 is followed by the first of March.
    assert_eq!(timestamp_label(-2_208_988_800 + 59 * 86_400 - 1, 0), "1900/02/28 23:59:59");
    assert_eq!(timestamp_label(-2_208_988_800 + 59 * 86_400, 0), "1900/03/01 00:00:00");
    assert_eq!(timestamp_label(4_107_542_400, 0), "2100/03/01 00:00:00");
}

#[test]
fn instants_before_the_epoch() {
    assert_eq!(timestamp_label(-1, 0), "1969/12/31 23:59:59");
    assert_eq!(timestamp_label(-86_400, 0), "1969/12/31 00:00:00");
    assert_eq!(timestamp_label(-86_401, 0), "1969/12/30 23:59:59");
}

#[test]
fn ends_of_years() {
    assert_eq!(timestamp_label(1_704_067_199, 0), "2023/12/31 23:59:59");
    assert_eq!(timestamp_label(1_704_067_200, 0), "2024/01/01 00:00:00");
    assert_eq!(timestamp_label(1_735_689_599, 0), "2024/12/31 23:59:59");
}

#[test]
fn years_of_more_or_fewer_than_four_digits() {
    assert_eq!(timestamp_label(253_402_300_799, 0), "9999/12/31 23:59:59");
    assert_eq!(timestamp_label(253_402_300_800, 0), "10000/01/01 00:00:00");
    assert_eq!(timestamp_label(-62_167_219_200, 0), "0000/01/01 00:00:00");
    assert_eq!(timestamp_label(-62_167_219_201, 0), "-0001/12/31 23:59:59");
    assert_eq!(timestamp_label(-30_610_224_000, 0), "1000/01/01 00:00:00");
    assert_eq!(timestamp_label(-30_610_224_001, 0), "0999/12/31 23:59:59");
}

#[test]
fn the_ends_of_the_time_line() {
    assert_eq!(timestamp_label(i64::MAX, 0), "292277026596/12/04 15:30:07");
    assert_eq!(timestamp_label(i64::MIN, 0), "-292277022657/01/27 08:29:52");
    let late = civil_from_unix(i64::MAX, i32::MAX);
    assert!(late.month >= 1 && late.month <= 12 && late.day >= 1 && late.day <= 31);
    let early = civil_from_unix(i64::MIN, i32::MIN);
    assert!(early.month >= 1 && early.month <= 12 && early.day >= 1 && early.day <= 31);
}

#[test]
fn format_label_pads_with_zeros() {
    let t = CivilTime { year: 2024, month: 1, day: 2, hour: 3, minute: 4, second: 5 };
    assert_eq!(format_label(&t), "2024/01/02 03:04:05");
    let t = CivilTime { year: 7, month: 12, day: 31, hour: 23, minute: 59, second: 59 };
    assert_eq!(format_label(&t), "0007/12/31 23:59:59");
}

#[test]
fn every_day_of_four_years_follows_the_day_before() {
    let lengths = [31u8, 28, 31, 30, 31, 30, 31, 31, 30, 31, 30, 31];
    let mut seconds: i64 = 1_672_531_200; // 2023-01-01
    for year in 2023i64..2027 {
        for month in 1u8..=12 {
            let mut length = lengths[(month - 1) as usize];
            if month == 2 && year == 2024 {
                length = 29;
            }
            for day in 1u8..=length {
                assert_eq!(
                    civil_from_unix(seconds, 0),
                    CivilTime { year, month, day, hour: 0, minute: 0, second: 0 }
                );
                seconds += 86_400;
            }
        }
    }
}
