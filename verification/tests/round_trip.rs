use sotf_save::save::Save;

fn embed(inner: &str) -> String {
    // The nested document is stored as a JSON string value; serde_json
    // produces the escaped form.
    serde_json::to_string(inner).unwrap()
}

fn gs_text_with_extras() -> String {
    let inner = r#"{"GameType":"Normal","GameDays":12,"GameHours":3,"IsRobbyDead":true,"Mystery":[1,2,{"deep":"yes"}],"Spare":null}"#;
    format!(
        r#"{{"Version":"1.0","Data":{{"GameState":{},"ExtraTop":{{"a":1.5}},"Tail":"end"}}}}"#,
        embed(inner)
    )
}

fn sd_text_with_extras() -> String {
    let inner = r#"{"Actors":[{"TypeId":9,"State":2,"Stats":{"Health":"NaN","Extra":7},"Keep":"me"}],"KillStatsList":[{"TypeId":9,"PlayerKilled":0,"Note":false}],"PlayerStats":{"CutTrees":5,"SeenInVillageCount":0,"LastSightedTimeHours":12.5,"More":[]},"WorldExtra":null}"#;
    format!(
        r#"{{"Version":"2","Data":{{"VailWorldSim":{},"Sibling":42}}}}"#,
        embed(inner)
    )
}

#[test]
fn decode_encode_decode_is_identity() {
    let gs = gs_text_with_extras();
    let sd = sd_text_with_extras();
    let save1 = Save::from_texts(&gs, &sd).unwrap();
    let (gs2, sd2) = save1.to_texts();
    let save2 = Save::from_texts(&gs2, &sd2).unwrap();
    assert_eq!(save1, save2);
}

#[test]
fn re_encoding_is_idempotent_bytewise() {
    let gs = gs_text_with_extras();
    let sd = sd_text_with_extras();
    let save1 = Save::from_texts(&gs, &sd).unwrap();
    let (gs2, sd2) = save1.to_texts();
    let save2 = Save::from_texts(&gs2, &sd2).unwrap();
    let (gs3, sd3) = save2.to_texts();
    assert_eq!(gs2, gs3);
    assert_eq!(sd2, sd3);
}

#[test]
fn residual_fields_survive_value_equal() {
    // Cross-check with an independent JSON reader: the rewritten file is
    // value-equal to the source file, nested documents included.
    let gs = gs_text_with_extras();
    let sd = sd_text_with_extras();
    let save = Save::from_texts(&gs, &sd).unwrap();
    let (gs2, sd2) = save.to_texts();

    let v_in: serde_json::Value = serde_json::from_str(&gs).unwrap();
    let v_out: serde_json::Value = serde_json::from_str(&gs2).unwrap();
    // The nested document is compared as a document, not as a string.
    let n_in: serde_json::Value =
        serde_json::from_str(v_in["Data"]["GameState"].as_str().unwrap()).unwrap();
    let n_out: serde_json::Value =
        serde_json::from_str(v_out["Data"]["GameState"].as_str().unwrap()).unwrap();
    assert_eq!(n_in["Mystery"], n_out["Mystery"]);
    assert_eq!(n_in["Spare"], n_out["Spare"]);
    assert_eq!(n_in["GameType"], n_out["GameType"]);
    assert_eq!(v_in["Data"]["ExtraTop"], v_out["Data"]["ExtraTop"]);
    assert_eq!(v_in["Data"]["Tail"], v_out["Data"]["Tail"]);
    assert_eq!(v_in["Version"], v_out["Version"]);

    let w_in: serde_json::Value = serde_json::from_str(&sd).unwrap();
    let w_out: serde_json::Value = serde_json::from_str(&sd2).unwrap();
    let m_in: serde_json::Value =
        serde_json::from_str(w_in["Data"]["VailWorldSim"].as_str().unwrap()).unwrap();
    let m_out: serde_json::Value =
        serde_json::from_str(w_out["Data"]["VailWorldSim"].as_str().unwrap()).unwrap();
    assert_eq!(m_in["Actors"], m_out["Actors"]);
    assert_eq!(m_in["KillStatsList"], m_out["KillStatsList"]);
    assert_eq!(m_in["WorldExtra"], m_out["WorldExtra"]);
    assert_eq!(w_in["Data"]["Sibling"], w_out["Data"]["Sibling"]);
}

#[test]
fn number_tokens_survive_verbatim() {
    // A residual value with a non-canonical significand keeps its exact
    // token text across a read-modify-write cycle.
    let gs = format!(
        r#"{{"Version":"1","Data":{{"GameState":{},"Precise":1.50,"Big":0.0123456789000000012345678900000001234567890000123456789}}}}"#,
        serde_json::to_string(r#"{"GameDays":1}"#).unwrap()
    );
    let sd = sd_text_with_extras();
    let save = Save::from_texts(&gs, &sd).unwrap();
    let (gs2, _) = save.to_texts();
    assert!(gs2.contains("\"Precise\":1.50"));
    assert!(gs2.contains(
        "\"Big\":0.0123456789000000012345678900000001234567890000123456789"
    ));
}

#[test]
fn defaults_fill_missing_known_fields() {
    let gs = format!(
        r#"{{"Version":"1","Data":{{"GameState":{}}}}}"#,
        serde_json::to_string("{}").unwrap()
    );
    let sd = format!(
        r#"{{"Version":"1","Data":{{"VailWorldSim":{}}}}}"#,
        serde_json::to_string("{}").unwrap()
    );
    let save = Save::from_texts(&gs, &sd).unwrap();
    assert_eq!(save.game_state.data.game_state.game_type, "");
    assert_eq!(save.game_state.data.game_state.game_days, 0);
    assert!(!save.game_state.data.game_state.is_robby_dead);
    assert!(save.save_data.data.vail_world_sim.actors.is_empty());
    assert!(save.save_data.data.vail_world_sim.kill_stats_list.is_empty());
    assert_eq!(save.save_data.data.vail_world_sim.player_stats.cut_trees, 0);
}

#[test]
fn absent_nested_document_defaults() {
    let gs = r#"{"Version":"1","Data":{"OnlyExtra":true}}"#;
    let sd = r#"{"Version":"1","Data":{}}"#;
    let save = Save::from_texts(gs, sd).unwrap();
    assert_eq!(save.game_state.data.game_state.game_days, 0);
    assert!(save.save_data.data.vail_world_sim.actors.is_empty());
    // A write after such a read materializes the nested documents.
    let (gs2, sd2) = save.to_texts();
    let save2 = Save::from_texts(&gs2, &sd2).unwrap();
    assert_eq!(save, save2);
}
