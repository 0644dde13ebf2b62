use codex_mimo_shim::json::{members_insert, Json, Number};

fn text_value(v: &serde_json::Value) -> Json {
    match v {
        serde_json::Value::Null => Json::Null,
        serde_json::Value::Bool(b) => Json::Bool(*b),
        serde_json::Value::Number(n) => {
            if let Some(u) = n.as_u64() {
                Json::Number(Number::PosInt(u))
            } else if let Some(i) = n.as_i64() {
                Json::Number(Number::NegInt(i))
            } else {
                Json::Number(Number::Float(n.to_string()))
            }
        }
        serde_json::Value::String(s) => Json::Str(s.clone()),
        serde_json::Value::Array(a) => Json::Array(a.iter().map(text_value).collect()),
        serde_json::Value::Object(m) => {
            Json::object(m.iter().map(|(k, v)| (k.clone(), text_value(v))).collect())
        }
    }
}

#[test]
fn compact_text_matches_serde_json() {
    let samples = [
        r#"null"#,
        r#"[true, false, 0, 18446744073709551615, -9223372036854775808, 1.5, -0.25]"#,
        r#"{"z": 1, "a": {"y": [], "b": {}}, "m": "quote \" backslash \\ slash /"}"#,
        "\"controls \\u0000 \\u0001 \\b \\f \\n \\r \\t \\u001f end\"",
        r#""unicode é 漢字 🎉""#,
        r#"{"": "", "A": "upper before lower", "a": "lower"}"#,
    ];
    for sample in samples {
        let value: serde_json::Value = serde_json::from_str(sample).unwrap();
        let ours = text_value(&value).to_text();
        assert_eq!(ours, serde_json::to_string(&value).unwrap(), "sample {sample}");
    }
}

#[test]
fn objects_keep_keys_sorted_and_unique() {
    let mut members = Vec::new();
    members_insert(&mut members, "b".to_string(), Json::text("1"));
    members_insert(&mut members, "a".to_string(), Json::text("2"));
    members_insert(&mut members, "b".to_string(), Json::text("3"));
    let keys: Vec<&str> = members.iter().map(|(k, _)| k.as_str()).collect();
    assert_eq!(keys, vec!["a", "b"]);
    assert_eq!(members[1].1.as_str(), Some("3"));

    let object = Json::object(vec![
        ("k".to_string(), Json::Bool(true)),
        ("c".to_string(), Json::Null),
        ("k".to_string(), Json::Bool(false)),
    ]);
    assert_eq!(object.to_text(), "{\"c\":null,\"k\":false}");
}

#[test]
fn insert_then_get_reads_back_the_value() {
    let mut object = Json::object(vec![("x".to_string(), Json::text("old"))]);
    object.insert("x", Json::text("new"));
    object.insert("y", Json::Number(Number::PosInt(2)));
    assert_eq!(object.get_str("x"), Some("new"));
    assert_eq!(object.get_u64("y"), Some(2));
    assert!(object.get("z").is_none());
    assert!(object.is_object());
    assert!(object.get("y").unwrap().is_number());
}

#[test]
fn deep_copies_are_equal_in_text() {
    let value: serde_json::Value =
        serde_json::from_str(r#"{"a": [1, {"b": null}], "c": "d"}"#).unwrap();
    let original = text_value(&value);
    let copy = original.deep_copy();
    assert_eq!(copy.to_text(), original.to_text());
}

#[test]
fn typed_accessors_reject_other_kinds() {
    let value = text_value(&serde_json::from_str(r#"{"s": "t", "n": -1, "b": true, "o": {}}"#).unwrap());
    assert_eq!(value.get_str("n"), None);
    assert_eq!(value.get_u64("n"), None);
    assert_eq!(value.get_bool("b"), Some(true));
    assert!(value.get_object("o").is_some());
    assert!(value.get_array("o").is_none());
    assert_eq!(Json::text("t").get("s").is_none(), true);
}

#[test]
fn white_space_matches_std_for_every_char() {
    for n in 0u32..=0x10FFFF {
        if let Some(c) = char::from_u32(n) {
            assert_eq!(codex_mimo_shim::text::char_is_whitespace(c), c.is_whitespace(), "U+{n:04X}");
        }
    }
}
