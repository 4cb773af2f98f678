use sotf_save::save::Save;
use sotf_save::save_data::Health;
use sotf_save::tools::{SaveTools, ToolKelvin, ToolVirginia};

fn dead_kelvin_save() -> Save {
    let gs_inner = r#"{"IsRobbyDead":true}"#;
    let gs = format!(
        r#"{{"Version":"1","Data":{{"GameState":{}}}}}"#,
        serde_json::to_string(gs_inner).unwrap()
    );
    let sd_inner = r#"{"Actors":[{"TypeId":9,"State":6,"Stats":{"Health":"NaN","Morale":3}}],"KillStatsList":[{"TypeId":9,"PlayerKilled":2}]}"#;
    let sd = format!(
        r#"{{"Version":"1","Data":{{"VailWorldSim":{}}}}}"#,
        serde_json::to_string(sd_inner).unwrap()
    );
    Save::from_texts(&gs, &sd).unwrap()
}

#[test]
fn resurrect_clears_all_three_signals() {
    let mut save = dead_kelvin_save();
    assert!(save.is_dead(9));
    save.resurrect(9, Health::from_text("100.0".to_string()).unwrap());
    assert!(!save.is_dead(9));
    assert!(!save.game_state.data.game_state.is_robby_dead);
    let actor = save.find_actor(9).unwrap();
    assert_eq!(actor.state, 2);
    assert_eq!(
        actor.stats.as_ref().unwrap().health,
        Health::from_text("100.0".to_string()).unwrap()
    );
    assert_eq!(save.find_kill_stat(9).unwrap().player_killed, 0);
}

#[test]
fn resurrect_twice_equals_once() {
    let mut once = dead_kelvin_save();
    once.resurrect(9, Health::from_text("100.0".to_string()).unwrap());
    let mut twice = dead_kelvin_save();
    twice.resurrect(9, Health::from_text("100.0".to_string()).unwrap());
    twice.resurrect(9, Health::from_text("100.0".to_string()).unwrap());
    assert_eq!(once, twice);
    let (g1, s1) = once.to_texts();
    let (g2, s2) = twice.to_texts();
    assert_eq!(g1, g2);
    assert_eq!(s1, s2);
}

#[test]
fn resurrect_keeps_actor_residual() {
    let mut save = dead_kelvin_save();
    save.resurrect(9, Health::from_text("100.0".to_string()).unwrap());
    let (_, sd2) = save.to_texts();
    let v: serde_json::Value = serde_json::from_str(&sd2).unwrap();
    let inner: serde_json::Value =
        serde_json::from_str(v["Data"]["VailWorldSim"].as_str().unwrap()).unwrap();
    assert_eq!(inner["Actors"][0]["Stats"]["Morale"], 3);
    assert_eq!(inner["Actors"][0]["Stats"]["Health"].as_f64().unwrap(), 100.0);
}

#[test]
fn kelvin_tool_resurrects_at_100() {
    let mut save = dead_kelvin_save();
    let mut tool = ToolKelvin::new(&save);
    assert!(tool.is_dead);
    tool.resurrect(&mut save);
    assert!(!tool.is_dead);
    assert!(!save.is_dead(9));
    let actor = save.find_actor(9).unwrap();
    assert_eq!(
        actor.stats.as_ref().unwrap().health,
        Health::from_text("100.0".to_string()).unwrap()
    );
}

#[test]
fn virginia_tool_resurrects_at_120() {
    let gs_inner = r#"{"IsVirginiaDead":true}"#;
    let gs = format!(
        r#"{{"Version":"1","Data":{{"GameState":{}}}}}"#,
        serde_json::to_string(gs_inner).unwrap()
    );
    let sd_inner = r#"{"Actors":[{"TypeId":10,"State":6,"Stats":{"Health":0}}]}"#;
    let sd = format!(
        r#"{{"Version":"1","Data":{{"VailWorldSim":{}}}}}"#,
        serde_json::to_string(sd_inner).unwrap()
    );
    let mut save = Save::from_texts(&gs, &sd).unwrap();
    let mut tool = ToolVirginia::new(&save);
    assert!(tool.is_dead);
    tool.resurrect(&mut save);
    assert!(!save.is_dead(10));
    let actor = save.find_actor(10).unwrap();
    assert_eq!(
        actor.stats.as_ref().unwrap().health,
        Health::from_text("120.0".to_string()).unwrap()
    );
}

#[test]
fn save_tools_report_both_companions() {
    let save = dead_kelvin_save();
    let tools = SaveTools::new(&save);
    assert!(tools.kelvin.is_dead);
    assert!(!tools.virginia.is_dead);
}

#[test]
fn resurrect_only_touches_matching_rows() {
    let gs = r#"{"Version":"1","Data":{}}"#;
    let sd_inner = r#"{"Actors":[{"TypeId":7,"State":6,"Stats":{"Health":0}},{"TypeId":9,"State":6}],"KillStatsList":[{"TypeId":7,"PlayerKilled":3}]}"#;
    let sd = format!(
        r#"{{"Version":"1","Data":{{"VailWorldSim":{}}}}}"#,
        serde_json::to_string(sd_inner).unwrap()
    );
    let mut save = Save::from_texts(gs, &sd).unwrap();
    save.resurrect(9, Health::from_text("100.0".to_string()).unwrap());
    // The other character's rows are untouched.
    assert_eq!(save.find_actor(7).unwrap().state, 6);
    assert_eq!(save.find_kill_stat(7).unwrap().player_killed, 3);
    // Kelvin's actor had no stats: none are invented.
    assert!(save.find_actor(9).unwrap().stats.is_none());
    assert_eq!(save.find_actor(9).unwrap().state, 2);
}
