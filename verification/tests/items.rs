use sotf_save::inventory::{inventory_from_text, inventory_to_text, ItemId};

#[test]
fn unknown_item_id_renders_placeholder() {
    assert_eq!(ItemId(9999).name(), "Unknown Item (ID 9999)");
    assert_eq!(ItemId(0).name(), "Unknown Item (ID 0)");
    assert_eq!(ItemId(65535).name(), "Unknown Item (ID 65535)");
}

#[test]
fn known_item_ids_render_their_names() {
    assert_eq!(ItemId(414).name(), "Alcohol");
    assert_eq!(ItemId(78).name(), "Log");
    assert_eq!(ItemId(364).name(), "Buckshot (Shotgun Ammo)");
    assert_eq!(ItemId(523).name(), "Zipline Rope");
}

fn inventory_text() -> String {
    let inner = r#"{"ItemInstanceManagerData":{"ItemBlocks":[{"ItemId":414,"TotalCount":3,"Tag":"x"},{"ItemId":9999,"TotalCount":1}],"Extra":true},"QuickSelect":[1,2]}"#;
    format!(
        r#"{{"Version":"7","Data":{{"PlayerInventory":{},"Side":null}}}}"#,
        serde_json::to_string(inner).unwrap()
    )
}

#[test]
fn inventory_round_trips() {
    let text = inventory_text();
    let inv1 = inventory_from_text(&text).unwrap();
    let text2 = inventory_to_text(&inv1);
    let inv2 = inventory_from_text(&text2).unwrap();
    assert_eq!(inv1, inv2);
    let text3 = inventory_to_text(&inv2);
    assert_eq!(text2, text3);
}

#[test]
fn inventory_blocks_decode() {
    let inv = inventory_from_text(&inventory_text()).unwrap();
    let blocks = &inv.data.player_inventory.item_instance_manager_data.item_blocks;
    assert_eq!(blocks.len(), 2);
    assert_eq!(blocks[0].item_id, ItemId(414));
    assert_eq!(blocks[0].total_count, 3);
    assert_eq!(blocks[0].item_id.name(), "Alcohol");
    assert_eq!(blocks[1].item_id.name(), "Unknown Item (ID 9999)");
}

#[test]
fn item_block_requires_its_fields() {
    let inner = r#"{"ItemInstanceManagerData":{"ItemBlocks":[{"TotalCount":1}]}}"#;
    let text = format!(
        r#"{{"Version":"7","Data":{{"PlayerInventory":{}}}}}"#,
        serde_json::to_string(inner).unwrap()
    );
    assert!(inventory_from_text(&text).is_err());
    let inner2 = r#"{"ItemInstanceManagerData":{"ItemBlocks":[{"ItemId":70000,"TotalCount":1}]}}"#;
    let text2 = format!(
        r#"{{"Version":"7","Data":{{"PlayerInventory":{}}}}}"#,
        serde_json::to_string(inner2).unwrap()
    );
    assert!(inventory_from_text(&text2).is_err());
}

#[test]
fn inventory_residuals_survive() {
    let inv = inventory_from_text(&inventory_text()).unwrap();
    let text2 = inventory_to_text(&inv);
    let v: serde_json::Value = serde_json::from_str(&text2).unwrap();
    assert_eq!(v["Data"]["Side"], serde_json::Value::Null);
    let inner: serde_json::Value =
        serde_json::from_str(v["Data"]["PlayerInventory"].as_str().unwrap()).unwrap();
    assert_eq!(inner["QuickSelect"][1], 2);
    assert_eq!(inner["ItemInstanceManagerData"]["Extra"], true);
    assert_eq!(inner["ItemInstanceManagerData"]["ItemBlocks"][0]["Tag"], "x");
}
