use monosend::json::{parse_json, Json};
use monosend::localsend::ids::fresh_ids;
use monosend::localsend::protocol::{
    host_port, peer_of, register_self, DeviceType, LOCALSEND_DEFAULT_PORT,
    LOCALSEND_MULTICAST_ADDR, PROTOCOL_VERSION,
};
use monosend::path::{extension, file_name, file_stem};
use monosend::sizes::sum_up;
use monosend::table::Table;
use monosend::text::{
    after_prefix, chars_of, decimal_text, join, parse_number, same, same_lowered, trim,
};

#[test]
fn decimals_are_written_and_read() {
    for n in [0, 7, 10, 99, 100, 53317, u64::MAX] {
        let text = decimal_text(n);
        assert_eq!(text, n.to_string());
        assert_eq!(parse_number(&chars_of(&text), u64::MAX), Some(n));
    }
}

#[test]
fn numbers_are_read_strictly() {
    let read = |text: &str, max: u64| parse_number(&chars_of(text), max);
    assert_eq!(read("+5", 9), Some(5));
    assert_eq!(read("007", 9), Some(7));
    assert_eq!(read("10", 9), None);
    assert_eq!(read("", 9), None);
    assert_eq!(read("+", 9), None);
    assert_eq!(read("++5", 9), None);
    assert_eq!(read("-5", 9), None);
    assert_eq!(read("5x", 9), None);
    assert_eq!(read("18446744073709551615", u64::MAX), Some(u64::MAX));
    assert_eq!(read("18446744073709551616", u64::MAX), None);
    assert_eq!(read("\u{0665}", 9), None);
}

#[test]
fn texts_are_trimmed_like_std_does() {
    for text in ["", " ", " a b \n", "\u{a0}x\u{2029}", "\u{200b}x", "\u{3000}\t\u{85}", "x"] {
        assert_eq!(trim(text), text.trim());
    }
}

#[test]
fn texts_are_compared_and_joined() {
    assert!(same("a\u{e4}", "a\u{e4}"));
    assert!(!same("a", "A"));
    assert!(same_lowered("TxT", "txt"));
    assert!(!same_lowered("\u{c4}", "\u{e4}"));
    assert_eq!(after_prefix("--port=1", "--port="), Some("1".to_string()));
    assert_eq!(after_prefix("--por", "--port="), None);
    let parts = vec!["a".to_string(), "b".to_string(), "c".to_string()];
    assert_eq!(join(&parts, "; "), "a; b; c");
    assert_eq!(join(&Vec::new(), "; "), "");
}

#[test]
fn paths_are_taken_apart_like_std_does() {
    for path in [
        "", "/", "a", "a/", "a//", "a/.", "a/..", "..", ".", "/a/b.txt", "./a", "a/./b", "...",
        ".hidden", ".hidden.txt", "a.tar.gz", "a.", "..a", "a..", "x/../y.z", "\u{e4}.\u{f6}",
    ] {
        let std_path = std::path::Path::new(path);
        let name = std_path.file_name().map(|s| s.to_string_lossy().into_owned());
        let ending = std_path.extension().map(|s| s.to_string_lossy().into_owned());
        let stem = std_path.file_stem().map(|s| s.to_string_lossy().into_owned());
        assert_eq!(file_name(path), name, "{path}");
        assert_eq!(extension(path), ending, "{path}");
        assert_eq!(file_stem(path), stem.unwrap_or_default(), "{path}");
    }
}

#[test]
fn tables_keep_one_value_for_a_key() {
    let mut table = Table::new();
    assert!(table.is_empty());
    table.insert("a".to_string(), 1);
    table.insert("b".to_string(), 2);
    table.insert("a".to_string(), 3);
    assert_eq!(table.len(), 2);
    assert_eq!(table.get("a"), Some(&3));
    assert_eq!(table.get("c"), None);
    assert!(table.contains_key("b"));
    assert_eq!(table.remove("a"), Some(3));
    assert_eq!(table.remove("a"), None);
    assert_eq!(table.len(), 1);
    let (key, value) = table.entry(0);
    assert_eq!((key.as_str(), *value), ("b", 2));
}

#[test]
fn sizes_are_summed_up() {
    assert_eq!(sum_up(&vec![]), Some(0));
    assert_eq!(sum_up(&vec![1, 2, 3]), Some(6));
    assert_eq!(sum_up(&vec![u64::MAX, 0]), Some(u64::MAX));
    assert_eq!(sum_up(&vec![u64::MAX, 1, 0]), None);
}

#[test]
fn copies_hold_the_same() {
    let mut table = Table::new();
    table.insert("a".to_string(), "x".to_string());
    table.insert("b".to_string(), "y".to_string());
    let copy = table.clone();
    table.remove("a");
    assert_eq!(copy.len(), 2);
    assert_eq!(copy.entry(0), (&"a".to_string(), &"x".to_string()));
    assert_eq!(copy.get("b"), Some(&"y".to_string()));
    let document = parse_json(r#"{"a": [1, {"b": null}], "c": "d", "e": true}"#).unwrap();
    assert_eq!(document.clone(), document);
}

#[test]
fn json_documents_are_read() {
    let document = parse_json(r#"{"a": [1, -1, 1.5, "x", null, true], "b": {"c": "d"}}"#).unwrap();
    match document.get("a") {
        Some(Json::Array(items)) => {
            assert_eq!(items.len(), 6);
            assert_eq!(items[0].as_u64(), Some(1));
            assert_eq!(items[1].as_u64(), None);
            assert_eq!(items[2].as_u64(), None);
            assert_eq!(items[3].as_str(), Some(&"x".to_string()));
            assert!(matches!(items[4], Json::Null));
            assert!(matches!(items[5], Json::Bool(true)));
        }
        _ => panic!("an array was written"),
    }
    let inner = document.get("b").unwrap();
    assert_eq!(inner.get("c").unwrap().as_str(), Some(&"d".to_string()));
    assert!(inner.get("a").is_none());
    assert!(document.as_str().is_none());
    assert!(parse_json(r#"{"a": 1, "a": 2}"#).unwrap().get("a").unwrap().as_u64() == Some(2));
    for text in ["", "{", "{} {}", "'a'", "nul"] {
        assert!(parse_json(text).is_none());
    }
}

#[test]
fn identifiers_are_random() {
    let ids = fresh_ids(3);
    assert_eq!(ids.len(), 3);
    for id in &ids {
        assert_eq!(id.len(), 36);
        assert_eq!(&id[14..15], "4");
        assert!(["8", "9", "a", "b"].contains(&&id[19..20]));
        assert!(id
            .chars()
            .all(|c| c == '-' || c.is_ascii_digit() || ('a'..='f').contains(&c)));
    }
    assert_ne!(ids[0], ids[1]);
}

#[test]
fn devices_register_under_their_name() {
    assert_eq!(LOCALSEND_MULTICAST_ADDR, "224.0.0.167");
    assert_eq!(LOCALSEND_DEFAULT_PORT, 53317);
    let message = register_self("desk", "FP", 4000, None);
    assert_eq!(message.version, PROTOCOL_VERSION);
    assert_eq!(message.device_model.as_deref(), Some("monosend CLI"));
    assert_eq!(message.device_type, Some(DeviceType::Desktop));
    let peer = peer_of(&message, "10.0.0.7");
    assert_eq!(peer.alias, "desk");
    assert_eq!(peer.ip, "10.0.0.7");
    assert_eq!(peer.clone(), peer);
    assert_eq!(host_port("10.0.0.7", 80), "10.0.0.7:80");
}
