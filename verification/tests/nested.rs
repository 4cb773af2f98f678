use sotf_save::save::Save;

#[test]
fn mutating_nested_document_leaves_parent_residual_bytes() {
    let inner = r#"{"GameType":"Normal","GameDays":3}"#;
    let gs = format!(
        r#"{{"Version":"1","Data":{{"GameState":{},"Keep":1.50,"Also":["x",null]}}}}"#,
        serde_json::to_string(inner).unwrap()
    );
    let sd = r#"{"Version":"1","Data":{}}"#;

    let save_a = Save::from_texts(&gs, sd).unwrap();
    let mut save_b = Save::from_texts(&gs, sd).unwrap();
    save_b.game_state.data.game_state.game_days = 99;
    save_b.game_state.data.game_state.is_robby_dead = true;

    let (ta, _) = save_a.to_texts();
    let (tb, _) = save_b.to_texts();

    // The parent's residual fields trail the nested entry; from the first
    // residual key on, the two texts are byte-identical.
    let tail_a = &ta[ta.find("\"Keep\"").unwrap()..];
    let tail_b = &tb[tb.find("\"Keep\"").unwrap()..];
    assert_eq!(tail_a, tail_b);
    assert!(tail_a.contains("\"Keep\":1.50"));
    assert!(tail_a.contains("\"Also\":[\"x\",null]"));

    // And only the nested document differs.
    let va: serde_json::Value = serde_json::from_str(&ta).unwrap();
    let vb: serde_json::Value = serde_json::from_str(&tb).unwrap();
    assert_eq!(va["Data"]["Keep"], vb["Data"]["Keep"]);
    assert_eq!(va["Data"]["Also"], vb["Data"]["Also"]);
    assert_ne!(va["Data"]["GameState"], vb["Data"]["GameState"]);
}

#[test]
fn mutating_world_sim_leaves_save_data_residual_bytes() {
    let inner = r#"{"Actors":[{"TypeId":9,"State":2,"Stats":{"Health":50}}]}"#;
    let sd = format!(
        r#"{{"Version":"1","Data":{{"VailWorldSim":{},"Sibling":{{"deep":[1,2]}}}}}}"#,
        serde_json::to_string(inner).unwrap()
    );
    let gs = r#"{"Version":"1","Data":{}}"#;

    let save_a = Save::from_texts(gs, &sd).unwrap();
    let mut save_b = Save::from_texts(gs, &sd).unwrap();
    save_b.resurrect(
        9,
        sotf_save::save_data::Health::from_text("100.0".to_string()).unwrap(),
    );

    let (_, ta) = save_a.to_texts();
    let (_, tb) = save_b.to_texts();
    let tail_a = &ta[ta.find("\"Sibling\"").unwrap()..];
    let tail_b = &tb[tb.find("\"Sibling\"").unwrap()..];
    assert_eq!(tail_a, tail_b);
}
