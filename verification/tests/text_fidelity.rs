use sotf_save::save::Save;

const SD_PLAIN: &str = r#"{"Version":"1","Data":{}}"#;

#[test]
fn escaped_strings_round_trip() {
    // Residual strings with escapes, control characters and non-ASCII text
    // come back exactly as values, however they are spelled as bytes.
    let weird = "line\nbreak\ttab \"quotes\" back\\slash \u{00fc}nic\u{00f6}de \u{0001}";
    let mut data = serde_json::Map::new();
    data.insert("Weird".to_string(), serde_json::Value::String(weird.to_string()));
    let mut top = serde_json::Map::new();
    top.insert("Version".to_string(), serde_json::Value::String("1".to_string()));
    top.insert("Data".to_string(), serde_json::Value::Object(data));
    let gs = serde_json::to_string(&serde_json::Value::Object(top)).unwrap();

    let save = Save::from_texts(&gs, SD_PLAIN).unwrap();
    let (gs2, _) = save.to_texts();
    let v: serde_json::Value = serde_json::from_str(&gs2).unwrap();
    assert_eq!(v["Data"]["Weird"].as_str().unwrap(), weird);
}

#[test]
fn residual_document_order_is_kept() {
    let gs = r#"{"Version":"1","Data":{"Zed":1,"Alpha":2,"Mid":3}}"#;
    let save = Save::from_texts(gs, SD_PLAIN).unwrap();
    let (gs2, _) = save.to_texts();
    let z = gs2.find("\"Zed\"").unwrap();
    let a = gs2.find("\"Alpha\"").unwrap();
    let m = gs2.find("\"Mid\"").unwrap();
    assert!(z < a && a < m);
}

#[test]
fn known_field_extraction_takes_precedence() {
    // A known field name never lands in the residual, so re-encoding never
    // duplicates it.
    let inner = r#"{"GameDays":7}"#;
    let gs = format!(
        r#"{{"Version":"1","Data":{{"GameState":{}}}}}"#,
        serde_json::to_string(inner).unwrap()
    );
    let save = Save::from_texts(&gs, SD_PLAIN).unwrap();
    assert!(save.game_state.data.game_state.other.is_empty());
    assert!(save.game_state.data.other.is_empty());
    let (gs2, _) = save.to_texts();
    assert_eq!(gs2.matches("GameDays").count(), 1);
}
