use rrconverter::decoder::{decode_line, DecodedLine};
use rrconverter::text::{decimal, signed_decimal, split_on, zero_padded};

fn passing_of(line: &str) -> rrconverter::passing::Passing {
    match decode_line(line) {
        DecodedLine::Passing(p) => p,
        DecodedLine::Rejected => panic!("rejected: {}", line),
        DecodedLine::Ignored => panic!("ignored: {}", line),
    }
}

#[test]
fn full_passing_line_maps_every_field() {
    let p = passing_of("#P;12;TAG1;2024-01-01;10:00:00;EVT;1;99;AB;1;1;0;3.7;20;CD;25;BOX1");
    assert_eq!(p.passing_number, "12");
    assert_eq!(p.transponder, "TAG1");
    assert_eq!(p.date, "2024-01-01T10:00:00");
    assert_eq!(p.time, "10:00:00");
    assert_eq!(p.event_id, "EVT");
    assert_eq!(p.hits, "1");
    assert_eq!(p.max_rssi, "99");
    assert_eq!(p.internal_data, "AB");
    assert_eq!(p.is_active, "1");
    assert_eq!(p.channel, "1");
    assert_eq!(p.loop_id, "0");
    assert_eq!(p.loop_id_wakeup, "3.7");
    assert_eq!(p.battery, "20");
    assert_eq!(p.temperature, "CD");
    assert_eq!(p.internal_active_data, "25");
    assert_eq!(p.box_temp, "BOX1");
    assert_eq!(p.box_reader_id, "");
}

#[test]
fn minimal_passing_line_defaults_missing_fields() {
    let p = passing_of("#P;7;T9;2024-02-03;11:22:33");
    assert_eq!(p.passing_number, "7");
    assert_eq!(p.transponder, "T9");
    assert_eq!(p.date, "2024-02-03T11:22:33");
    assert_eq!(p.time, "11:22:33");
    assert_eq!(p.event_id, "");
    assert_eq!(p.hits, "");
    assert_eq!(p.box_reader_id, "");
}

#[test]
fn empty_fields_are_kept_by_position() {
    let p = passing_of("#P;;;;");
    assert_eq!(p.passing_number, "");
    assert_eq!(p.date, "T");
    assert_eq!(p.time, "");
}

#[test]
fn short_passing_line_is_rejected() {
    assert!(matches!(decode_line("#P;1;TAG;2024-01-01"), DecodedLine::Rejected));
    assert!(matches!(decode_line("#P"), DecodedLine::Rejected));
}

#[test]
fn ping_and_unknown_lines_are_ignored() {
    assert!(matches!(decode_line("PING"), DecodedLine::Ignored));
    assert!(matches!(decode_line("#X;1;2;3;4;5"), DecodedLine::Ignored));
    assert!(matches!(decode_line(""), DecodedLine::Ignored));
    assert!(matches!(decode_line("#p;1;2;3;4"), DecodedLine::Ignored));
}

#[test]
fn split_keeps_empty_pieces() {
    assert_eq!(split_on("a;;b;", ';'), vec!["a".to_string(), "".to_string(), "b".to_string(), "".to_string()]);
    assert_eq!(split_on("", ';'), vec!["".to_string()]);
    assert_eq!(split_on("é;ü", ';'), vec!["é".to_string(), "ü".to_string()]);
}

#[test]
fn numbers_are_written_in_decimal() {
    assert_eq!(decimal(0), "0");
    assert_eq!(decimal(47217), "47217");
    assert_eq!(decimal(u64::MAX), "18446744073709551615");
    assert_eq!(signed_decimal(-5), "-5");
    assert_eq!(signed_decimal(i64::MIN), "-9223372036854775808");
    assert_eq!(zero_padded(7, 2), "07");
    assert_eq!(zero_padded(7, 3), "007");
    assert_eq!(zero_padded(1234, 2), "1234");
}
