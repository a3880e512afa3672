use messagehub_core::error::CoreError;
use messagehub_core::id::{stable_channel_id, Uuid};
use messagehub_core::id_map::IdMap;
use messagehub_core::text::{
    decimal_i64, decimal_string, excerpt_str, is_blank, order_by_weight,
};
use messagehub_core::text_map::TextMap;
use messagehub_core::time::Timestamp;
use messagehub_core::types::{Channel, PriorityScore};

#[test]
fn same_input_same_id() {
    let a = stable_channel_id("email", "Personal Gmail");
    let b = stable_channel_id("email", "Personal Gmail");
    assert_eq!(a, b);
}

#[test]
fn different_kind_different_id() {
    let a = stable_channel_id("email", "x");
    let b = stable_channel_id("telegram", "x");
    assert_ne!(a, b);
}

#[test]
fn different_label_different_id() {
    let a = stable_channel_id("email", "a");
    let b = stable_channel_id("email", "b");
    assert_ne!(a, b);
}

#[test]
fn format_pinned() {
    let got = stable_channel_id("email", "Personal Gmail");
    assert_eq!(got.text(), "232ba225-0606-595e-8eee-3a15949591bd");
}

#[test]
fn a_colon_in_the_kind_blurs_the_seed() {
    assert_ne!(stable_channel_id("a", "b:c"), stable_channel_id("ab", "c"));
    assert_eq!(stable_channel_id("a", "b:c"), stable_channel_id("a:b", "c"));
}

#[test]
fn identifiers_are_written_and_read() {
    let id = Uuid { bits: 0x0123_4567_89ab_cdef_0123_4567_89ab_cdef };
    assert_eq!(id.text(), "01234567-89ab-cdef-0123-456789abcdef");
    assert_eq!(Uuid::parse(&id.text()).unwrap(), id);
    assert!(Uuid::parse("nothing").is_err());
    assert_ne!(Uuid::random(), Uuid::random());
}

#[test]
fn times_are_written_and_read() {
    let t = Timestamp::new(1_700_000_000, 250_000_000).unwrap();
    assert_eq!(t.rfc3339(), "2023-11-14T22:13:20.250+00:00");
    assert_eq!(Timestamp::parse_rfc3339(&t.rfc3339()).unwrap(), t);
    assert_eq!(t.imap_date(), "14-Nov-2023");
    assert_eq!(t.secs(), 1_700_000_000);
    assert_eq!(t.nanos(), 250_000_000);
    let z = Timestamp::parse_rfc3339("1970-01-01T02:00:00+02:00").unwrap();
    assert_eq!(z.secs(), 0);
    assert!(Timestamp::parse_rfc3339("1970-01-01").is_err());
    assert!(t.is_after(&z));
    assert!(!z.is_after(&t));
    assert!(!z.is_after(&z));
    assert!(Timestamp::new(i64::MAX, 0).is_none());
    assert!(Timestamp::new(0, 2_000_000_000).is_none());
}

#[test]
fn channels_are_named_and_stored() {
    for c in [Channel::Email, Channel::Sms, Channel::WhatsApp, Channel::Teams, Channel::Telegram] {
        assert_eq!(Channel::from_db_str(c.to_db_str()), Some(c));
    }
    assert_eq!(Channel::Sms.display_name(), "SMS");
    assert_eq!(Channel::from_db_str("SMS"), None);
}

#[test]
fn priorities_go_from_one_to_five() {
    assert!(PriorityScore::new(0).is_none());
    assert_eq!(PriorityScore::new(1).unwrap().value(), 1);
    assert_eq!(PriorityScore::new(5).unwrap().value(), 5);
    assert!(PriorityScore::new(6).is_none());
}

#[test]
fn errors_say_what_they_are() {
    let s = || "x".to_string();
    assert_eq!(CoreError::Database(s()).message(), "database error: x");
    assert_eq!(CoreError::Serialization(s()).message(), "serialization error: x");
    assert_eq!(
        CoreError::NotFound { entity: s(), id: "7".to_string() }.message(),
        "not found: x with id 7"
    );
    assert_eq!(CoreError::InvalidInput(s()).message(), "invalid input: x");
    assert_eq!(CoreError::Channel(s()).message(), "channel error: x");
    assert_eq!(CoreError::Connection(s()).message(), "connection error: x");
    assert_eq!(CoreError::Auth(s()).message(), "auth error: x");
    assert_eq!(CoreError::Parse(s()).message(), "parse error: x");
    assert_eq!(CoreError::Ai(s()).message(), "ai error: x");
    assert_eq!(CoreError::Cloud(s()).message(), "cloud error: x");
}

#[test]
fn texts_map_to_texts() {
    let mut m = TextMap::new();
    m.insert("a".to_string(), "1".to_string());
    m.insert("b".to_string(), "2".to_string());
    m.insert("a".to_string(), "3".to_string());
    assert_eq!(m.len(), 2);
    assert_eq!(m.get("a"), Some("3"));
    assert_eq!(m.key(1), "b");
    assert_eq!(m.value(1), "2");
    assert_eq!(m.to_json().unwrap(), "{\"a\":\"3\",\"b\":\"2\"}");
    let back = TextMap::from_json(&m.copy().to_json().unwrap()).unwrap();
    assert_eq!(back.get("b"), Some("2"));
    assert!(TextMap::from_json("{\"a\":1}").is_err());
    assert_eq!(TextMap::from_json("{\"a\":\"1\",\"a\":\"2\"}").unwrap().get("a"), Some("2"));
}

#[test]
fn identifiers_map_to_values() {
    let mut m: IdMap<u8> = IdMap::new();
    let (a, b) = (Uuid { bits: 1 }, Uuid { bits: 2 });
    m.insert(a, 1);
    m.insert(b, 2);
    m.insert(a, 3);
    assert_eq!(m.get(a), Some(&3));
    assert_eq!(m.ids(), vec![a, b]);
    assert_eq!(m.remove(a), Some(3));
    assert_eq!(m.remove(a), None);
    assert_eq!(m.ids(), vec![b]);
}

#[test]
fn texts_are_cut_and_written() {
    assert_eq!(excerpt_str("héllo", 2), "hé");
    assert_eq!(excerpt_str("hi", 9), "hi");
    assert!(is_blank(" \u{a0}\n"));
    assert!(!is_blank(" x "));
    assert_eq!(decimal_string(0), "0");
    assert_eq!(decimal_string(u128::MAX), u128::MAX.to_string());
    assert_eq!(decimal_i64(i64::MIN), i64::MIN.to_string());
    assert_eq!(order_by_weight(&vec![1, 5, 5, 2]), vec![1, 2, 3, 0]);
}
