use sotf_save::save::Save;

fn build(
    is_robby_dead: bool,
    state: u32,
    health_json: &str,
    player_killed: i32,
) -> Save {
    let gs_inner = format!(r#"{{"IsRobbyDead":{}}}"#, is_robby_dead);
    let gs = format!(
        r#"{{"Version":"1","Data":{{"GameState":{}}}}}"#,
        serde_json::to_string(gs_inner.as_str()).unwrap()
    );
    let sd_inner = format!(
        r#"{{"Actors":[{{"TypeId":9,"State":{},"Stats":{{"Health":{}}}}}],"KillStatsList":[{{"TypeId":9,"PlayerKilled":{}}}]}}"#,
        state, health_json, player_killed
    );
    let sd = format!(
        r#"{{"Version":"1","Data":{{"VailWorldSim":{}}}}}"#,
        serde_json::to_string(sd_inner.as_str()).unwrap()
    );
    Save::from_texts(&gs, &sd).unwrap()
}

#[test]
fn all_signals_alive_reads_alive() {
    let save = build(false, 2, "50", 0);
    assert!(!save.is_dead(9));
}

#[test]
fn flag_signal_alone_reads_dead() {
    let save = build(true, 2, "50", 0);
    assert!(save.is_dead(9));
}

#[test]
fn state_signal_alone_reads_dead() {
    let save = build(false, 6, "50", 0);
    assert!(save.is_dead(9));
}

#[test]
fn zero_health_alone_reads_dead() {
    let save = build(false, 2, "0", 0);
    assert!(save.is_dead(9));
}

#[test]
fn nan_health_alone_reads_dead() {
    let save = build(false, 2, "\"NaN\"", 0);
    assert!(save.is_dead(9));
}

#[test]
fn kill_stat_alone_reads_dead() {
    let save = build(false, 2, "50", 7);
    assert!(save.is_dead(9));
}

#[test]
fn other_type_id_is_not_affected() {
    let save = build(true, 6, "0", 7);
    // The rows all carry type id 9; another id has no rows and no flag.
    assert!(!save.is_dead(10));
    assert!(!save.is_dead(11));
}

#[test]
fn missing_stats_reads_alive() {
    let gs = r#"{"Version":"1","Data":{}}"#;
    let sd_inner = r#"{"Actors":[{"TypeId":9,"State":2}]}"#;
    let sd = format!(
        r#"{{"Version":"1","Data":{{"VailWorldSim":{}}}}}"#,
        serde_json::to_string(sd_inner).unwrap()
    );
    let save = Save::from_texts(gs, &sd).unwrap();
    assert!(!save.is_dead(9));
}

#[test]
fn missing_rows_flag_decides() {
    let gs_inner = r#"{"IsRobbyDead":true}"#;
    let gs = format!(
        r#"{{"Version":"1","Data":{{"GameState":{}}}}}"#,
        serde_json::to_string(gs_inner).unwrap()
    );
    let sd = r#"{"Version":"1","Data":{}}"#;
    let mut save = Save::from_texts(&gs, sd).unwrap();
    assert!(save.is_dead(9));
    // Resurrection with no rows clears the flag and does not crash.
    save.resurrect(
        9,
        sotf_save::save_data::Health::from_text("100.0".to_string()).unwrap(),
    );
    assert!(!save.is_dead(9));
    assert!(!save.game_state.data.game_state.is_robby_dead);
    assert!(save.save_data.data.vail_world_sim.actors.is_empty());
}

#[test]
fn virginia_uses_her_own_flag() {
    let gs_inner = r#"{"IsVirginiaDead":true}"#;
    let gs = format!(
        r#"{{"Version":"1","Data":{{"GameState":{}}}}}"#,
        serde_json::to_string(gs_inner).unwrap()
    );
    let sd = r#"{"Version":"1","Data":{}}"#;
    let save = Save::from_texts(&gs, sd).unwrap();
    assert!(save.is_dead(10));
    assert!(!save.is_dead(9));
}

#[test]
fn lookup_finds_first_match() {
    let gs = r#"{"Version":"1","Data":{}}"#;
    let sd_inner = r#"{"Actors":[{"TypeId":7,"State":1},{"TypeId":9,"State":3},{"TypeId":9,"State":4}],"KillStatsList":[{"TypeId":9,"PlayerKilled":5}]}"#;
    let sd = format!(
        r#"{{"Version":"1","Data":{{"VailWorldSim":{}}}}}"#,
        serde_json::to_string(sd_inner).unwrap()
    );
    let save = Save::from_texts(gs, &sd).unwrap();
    assert_eq!(save.find_actor(9).unwrap().state, 3);
    assert_eq!(save.find_kill_stat(9).unwrap().player_killed, 5);
    assert!(save.find_actor(8).is_none());
    assert!(save.find_kill_stat(8).is_none());
}
