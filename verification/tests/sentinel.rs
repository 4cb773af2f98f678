use sotf_save::save::Save;
use sotf_save::save_data::Health;

fn sd_with_health(health_json: &str) -> String {
    let inner = format!(
        r#"{{"Actors":[{{"TypeId":9,"State":2,"Stats":{{"Health":{}}}}}]}}"#,
        health_json
    );
    format!(
        r#"{{"Version":"1","Data":{{"VailWorldSim":{}}}}}"#,
        serde_json::to_string(inner.as_str()).unwrap()
    )
}

const GS_PLAIN: &str = r#"{"Version":"1","Data":{}}"#;

#[test]
fn nan_string_decodes_to_sentinel() {
    let save = Save::from_texts(GS_PLAIN, &sd_with_health("\"NaN\"")).unwrap();
    let actor = save.find_actor(9).unwrap();
    assert_eq!(actor.stats.as_ref().unwrap().health, Health::NaN);
}

#[test]
fn sentinel_encodes_as_nan_string() {
    let save = Save::from_texts(GS_PLAIN, &sd_with_health("\"NaN\"")).unwrap();
    let (_, sd2) = save.to_texts();
    let v: serde_json::Value = serde_json::from_str(&sd2).unwrap();
    let inner: serde_json::Value =
        serde_json::from_str(v["Data"]["VailWorldSim"].as_str().unwrap()).unwrap();
    let health = &inner["Actors"][0]["Stats"]["Health"];
    // The sentinel is the string "NaN": not null, not a number.
    assert_eq!(health, &serde_json::Value::String("NaN".to_string()));
}

#[test]
fn finite_health_encodes_as_number() {
    let save = Save::from_texts(GS_PLAIN, &sd_with_health("37.25")).unwrap();
    let (_, sd2) = save.to_texts();
    let v: serde_json::Value = serde_json::from_str(&sd2).unwrap();
    let inner: serde_json::Value =
        serde_json::from_str(v["Data"]["VailWorldSim"].as_str().unwrap()).unwrap();
    let health = &inner["Actors"][0]["Stats"]["Health"];
    assert!(health.is_number());
    assert_eq!(health.as_f64().unwrap(), 37.25);
}

#[test]
fn integer_health_is_accepted() {
    let save = Save::from_texts(GS_PLAIN, &sd_with_health("50")).unwrap();
    let actor = save.find_actor(9).unwrap();
    assert_eq!(
        actor.stats.as_ref().unwrap().health,
        Health::from_text("50".to_string()).unwrap()
    );
}

#[test]
fn other_strings_are_schema_errors() {
    assert!(Save::from_texts(GS_PLAIN, &sd_with_health("\"nan\"")).is_err());
    assert!(Save::from_texts(GS_PLAIN, &sd_with_health("\"Infinity\"")).is_err());
    assert!(Save::from_texts(GS_PLAIN, &sd_with_health("true")).is_err());
    assert!(Save::from_texts(GS_PLAIN, &sd_with_health("[1]")).is_err());
}

#[test]
fn health_from_text_validates_tokens() {
    assert!(Health::from_text("100.0".to_string()).is_some());
    assert!(Health::from_text("12".to_string()).is_some());
    assert!(Health::from_text("-3.5".to_string()).is_some());
    assert!(Health::from_text("1e+5".to_string()).is_some());
    assert!(Health::from_text("1E5".to_string()).is_none());
    assert!(Health::from_text("-0".to_string()).is_none());
    assert!(Health::from_text("-0.0".to_string()).is_some());
    assert!(Health::from_text("01".to_string()).is_none());
    assert!(Health::from_text("x".to_string()).is_none());
    assert!(Health::from_text("".to_string()).is_none());
}

#[test]
fn dead_health_values() {
    assert!(Health::NaN.is_dead_value());
    assert!(Health::from_text("0".to_string()).unwrap().is_dead_value());
    assert!(Health::from_text("0.0".to_string()).unwrap().is_dead_value());
    assert!(Health::from_text("-12.5".to_string()).unwrap().is_dead_value());
    assert!(Health::from_text("0.00e+7".to_string()).unwrap().is_dead_value());
    assert!(!Health::from_text("0.5".to_string()).unwrap().is_dead_value());
    assert!(!Health::from_text("100.0".to_string()).unwrap().is_dead_value());
}
