use rrconverter::json_ingest::{
    clock_text, normalize_json, normalize_json_now, split_stamp, uses_today, Connectivity, JsonPassing,
    SecondsOfDay,
};
use rrconverter::passing::WsMessage;

fn raw(utc: &str, time: Option<SecondsOfDay>) -> JsonPassing {
    JsonPassing {
        transponder: "A1".to_string(),
        hits: None,
        rssi: None,
        battery: None,
        temperature: None,
        loop_id: None,
        channel: None,
        internal_data: None,
        passing_no: Some(5),
        utc_time: utc.to_string(),
        time,
    }
}

#[test]
fn seconds_since_midnight_win_over_the_stamp_time() {
    let r = raw("2024-01-12T09:06:35.944Z", Some(SecondsOfDay { seconds: 47217, millis: 234 }));
    assert!(!uses_today(&r));
    let p = normalize_json(&r, "2025-03-04");
    assert_eq!(p.time, "13:06:57.234");
    assert_eq!(p.date, "2024-01-12T13:06:57.234");
    assert_eq!(p.passing_number, "5");
    assert_eq!(p.is_active, "1");
    assert_eq!(p.transponder, "A1");
    assert_eq!(p.event_id, "");
    assert_eq!(p.box_reader_id, "");
}

#[test]
fn clock_reads_the_system_date_when_needed() {
    let r = raw("T09:06:35.944Z", Some(SecondsOfDay { seconds: 47217, millis: 234 }));
    assert!(uses_today(&r));
    let p = normalize_json_now(&r);
    assert_eq!(p.time, "13:06:57.234");
    assert!(p.date.ends_with("T13:06:57.234"));
    assert_eq!(p.date.len(), "2024-01-12T13:06:57.234".len());
}

#[test]
fn missing_date_is_replaced_by_today() {
    let r = raw("no separator", Some(SecondsOfDay { seconds: 47217, millis: 234 }));
    let p = normalize_json(&r, "2025-03-04");
    assert_eq!(p.date, "2025-03-04T13:06:57.234");
}

#[test]
fn zero_date_is_replaced_by_today() {
    let r = raw("0001-01-01T00:00:00Z", Some(SecondsOfDay { seconds: 5, millis: 7 }));
    let p = normalize_json(&r, "2024-05-06");
    assert_eq!(p.date, "2024-05-06T00:00:05.007");
}

#[test]
fn timestamp_is_split_without_seconds() {
    let r = raw("2024-01-12T09:06:35.944Z", None);
    assert!(!uses_today(&r));
    let p = normalize_json(&r, "ignored");
    assert_eq!(p.date, "2024-01-12T09:06:35.944");
    assert_eq!(p.time, "09:06:35.944");
    let q = normalize_json_now(&r);
    assert_eq!(q.date, "2024-01-12T09:06:35.944");
}

#[test]
fn timestamp_without_separator_is_kept_whole() {
    let r = raw("garbage", None);
    let p = normalize_json(&r, "2024-01-01");
    assert_eq!(p.date, "garbage");
    assert_eq!(p.time, "");
}

#[test]
fn numeric_fields_are_written_as_text() {
    let mut r = raw("2024-01-12T09:06:35Z", None);
    r.hits = Some(3);
    r.rssi = Some(-71);
    r.loop_id = Some(2);
    r.channel = Some(4);
    r.battery = Some("3.7".to_string());
    r.temperature = Some("21.5".to_string());
    r.internal_data = Some("0A1B".to_string());
    r.passing_no = None;
    let p = normalize_json(&r, "");
    assert_eq!(p.hits, "3");
    assert_eq!(p.max_rssi, "-71");
    assert_eq!(p.loop_id, "2");
    assert_eq!(p.channel, "4");
    assert_eq!(p.battery, "3.7");
    assert_eq!(p.temperature, "21.5");
    assert_eq!(p.internal_data, "0A1B");
    assert_eq!(p.passing_number, "");
    assert_eq!(p.time, "09:06:35");
}

#[test]
fn stamp_split_and_clock() {
    assert_eq!(split_stamp("a T bZZ"), ("a ".to_string(), " b".to_string()));
    assert_eq!(split_stamp("noT"), ("no".to_string(), "".to_string()));
    assert_eq!(split_stamp("none"), ("".to_string(), "".to_string()));
    assert_eq!(clock_text(0, 0), "00:00:00.000");
    assert_eq!(clock_text(86399, 999), "23:59:59.999");
    assert_eq!(clock_text(400000, 5), "111:06:40.005");
}

#[test]
fn json_clients_attach_and_detach() {
    let mut c = Connectivity::new();
    assert!(!c.connected);
    assert!(matches!(c.attach(), WsMessage::Status { event } if event == "connected"));
    assert!(c.connected);
    assert!(matches!(c.detach(), WsMessage::Status { event } if event == "disconnected"));
    assert!(matches!(c.detach(), WsMessage::Status { event } if event == "disconnected"));
    assert!(!c.connected);
}
