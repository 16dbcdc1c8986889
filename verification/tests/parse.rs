use janitor::Generation;
use janitor::ParseError;
use janitor::Timestamp;

fn ts(year: i32, month: u8, day: u8, hour: u8, minute: u8, second: u8) -> Timestamp {
    Timestamp { year, month, day, hour, minute, second }
}

const INPUT_WITHOUT_CURRENT: &str = r#" 661   2023-06-01 08:10:47
     662   2023-06-05 21:35:55
     663   2023-06-06 13:17:20
     664   2023-06-06 18:29:49
     665   2023-06-07 07:57:08
     666   2023-06-08 07:42:25
     667   2023-06-13 22:13:13
     668   2023-06-14 09:03:01
     669   2023-06-15 12:21:00
     670   2023-06-16 09:59:25
     671   2023-06-19 18:54:32
     672   2023-06-20 07:09:24
     673   2023-07-03 08:56:50
     674   2023-07-05 18:26:11
     675   2023-07-10 08:56:27
     676   2023-07-12 23:32:24
     677   2023-07-13 12:55:34
     678   2023-07-14 11:46:59
     679   2023-07-15 10:32:58
     680   2023-07-15 22:40:41
     681   2023-07-16 11:35:46"#;

const INPUT_WITH_CURRENT_IN_THE_MIDDLE: &str = r#" 661   2023-06-01 08:10:47
     662   2023-06-05 21:35:55
     663   2023-06-06 13:17:20
     664   2023-06-06 18:29:49
     665   2023-06-07 07:57:08
     666   2023-06-08 07:42:25
     667   2023-06-13 22:13:13
     668   2023-06-14 09:03:01
     669   2023-06-15 12:21:00
     670   2023-06-16 09:59:25
     671   2023-06-19 18:54:32   (current)
     672   2023-06-20 07:09:24
     673   2023-07-03 08:56:50
     674   2023-07-05 18:26:11
     675   2023-07-10 08:56:27
     676   2023-07-12 23:32:24
     677   2023-07-13 12:55:34
     678   2023-07-14 11:46:59
     679   2023-07-15 10:32:58
     680   2023-07-15 22:40:41
     681   2023-07-16 11:35:46"#;

#[test]
fn parse_single_without_current() {
    let parsed = Generation::parse("681   2023-07-16 11:35:46").unwrap();
    assert_eq!(parsed.id, 681);
    assert_eq!(parsed.date, ts(2023, 7, 16, 11, 35, 46));
    assert!(!parsed.current);
}

#[test]
fn parse_single_with_current() {
    let parsed = Generation::parse("681   2023-07-16 11:35:46  (current)").unwrap();
    assert_eq!(parsed.id, 681);
    assert_eq!(parsed.date, ts(2023, 7, 16, 11, 35, 46));
    assert!(parsed.current);
}

#[test]
fn parse_scenario_line() {
    let parsed = Generation::parse("681   2023-07-16 11:35:46    (current)").unwrap();
    assert_eq!(
        parsed,
        Generation { id: 681, date: ts(2023, 7, 16, 11, 35, 46), current: true }
    );
}

#[test]
fn parse_errors_invalid_time() {
    assert_eq!(
        Generation::parse("123 2023-01-01 25:61:00"),
        Err(ParseError::InvalidTimestamp)
    );
}

#[test]
fn parse_errors_missing_time() {
    assert_eq!(Generation::parse("123 2023-01-01 "), Err(ParseError::InvalidTimestamp));
}

#[test]
fn parse_errors_invalid_date() {
    assert_eq!(
        Generation::parse("123 2023-01-32 00:00:00"),
        Err(ParseError::InvalidTimestamp)
    );
}

#[test]
fn parse_errors_missing_date() {
    assert_eq!(Generation::parse("123"), Err(ParseError::InvalidTimestamp));
}

#[test]
fn parse_errors_invalid_id() {
    assert_eq!(Generation::parse("abc 2023-01-01 00:00:00"), Err(ParseError::InvalidId));
}

#[test]
fn parse_errors_id_overflow() {
    assert_eq!(
        Generation::parse("99999999999 2023-01-01 00:00:00"),
        Err(ParseError::InvalidId)
    );
}

#[test]
fn parse_errors_invalid_current() {
    assert_eq!(
        Generation::parse("123 2023-01-01 00:00:00 (invalid)"),
        Err(ParseError::InvalidMarker)
    );
}

#[test]
fn parse_many_without_current() {
    let parsed = Generation::parse_many(INPUT_WITHOUT_CURRENT).unwrap();
    assert_eq!(parsed.len(), 21);
    for (k, g) in parsed.iter().enumerate() {
        assert_eq!(g.id, 661 + k as u32);
        assert!(!g.current);
    }
    assert_eq!(parsed[0].date, ts(2023, 6, 1, 8, 10, 47));
    assert_eq!(parsed[20].date, ts(2023, 7, 16, 11, 35, 46));
}

#[test]
fn parse_many_with_current_in_the_middle() {
    let parsed = Generation::parse_many(INPUT_WITH_CURRENT_IN_THE_MIDDLE).unwrap();
    assert_eq!(parsed.len(), 21);
    for g in &parsed {
        assert_eq!(g.current, g.id == 671);
    }
}

#[test]
fn parse_many_skips_blank_lines() {
    let parsed = Generation::parse_many(
        "\n 661 2023-06-01 08:10:47\n   \n 662 2023-06-05 21:35:55  \n\n",
    )
    .unwrap();
    assert_eq!(parsed.len(), 2);
    assert_eq!(parsed[0].id, 661);
    assert_eq!(parsed[1].id, 662);
}

#[test]
fn parse_many_first_error_wins() {
    let r = Generation::parse_many(
        " 661 2023-06-01 08:10:47\n abc 2023-06-05 21:35:55\n 663 2023-13-06 13:17:20\n",
    );
    assert_eq!(r, Err(ParseError::InvalidId));
}

#[test]
fn parse_empty_line_is_an_id_error() {
    assert_eq!(Generation::parse(""), Err(ParseError::InvalidId));
    assert_eq!(Generation::parse("   "), Err(ParseError::InvalidId));
}
