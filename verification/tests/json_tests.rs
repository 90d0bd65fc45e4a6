// The persisted config is JSON written and read at the process edge; these
// tests check that the building blocks of that round trip are byte-stable:
// pretty-printed JSON survives a parse/serialize cycle unchanged, and an
// RFC3339 date survives a parse/format cycle unchanged.

#[test]
fn config_json_round_trip_is_byte_stable() {
    let mut first = serde_json::Map::new();
    first.insert(
        "label".to_string(),
        serde_json::Value::String("Moon landing".to_string()),
    );
    first.insert(
        "date".to_string(),
        serde_json::Value::String("1969-07-20T20:17:40+00:00".to_string()),
    );
    let mut second = serde_json::Map::new();
    second.insert(
        "label".to_string(),
        serde_json::Value::String("Berlin Wall Fall".to_string()),
    );
    second.insert(
        "date".to_string(),
        serde_json::Value::String("1989-11-09T18:53:00+01:00".to_string()),
    );
    let mut root = serde_json::Map::new();
    root.insert(
        "days".to_string(),
        serde_json::Value::Array(vec![
            serde_json::Value::Object(first),
            serde_json::Value::Object(second),
        ]),
    );
    let value = serde_json::Value::Object(root);

    let saved_once = serde_json::to_string_pretty(&value).expect("serialize");
    let loaded: serde_json::Value = serde_json::from_str(&saved_once).expect("parse");
    let saved_twice = serde_json::to_string_pretty(&loaded).expect("serialize again");
    assert_eq!(saved_once, saved_twice);
}

#[test]
fn rfc3339_date_round_trip_is_byte_stable() {
    let format = time::format_description::well_known::Rfc3339;
    for text in ["1969-07-20T20:17:40Z", "1989-11-09T18:53:00+01:00"] {
        let parsed = time::OffsetDateTime::parse(text, &format).expect("parse date");
        let formatted = parsed.format(&format).expect("format date");
        assert_eq!(formatted, text);
    }
}
