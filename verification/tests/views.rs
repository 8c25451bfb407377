use squaremap_server::views::player_uuid_text;
use squaremap_server::views::{
    epoch_changes, epoch_key, icon_asset_path, is_orphan_marker_output, is_stale_tile_output,
    legacy_world_identity_name, reject_stale, stale_error, validate_player_epoch, validate_world_epoch, world_name,
    unlisted, validate_marker_epoch, world_output_path, EpochTable,
};
use squaremap_server::sorting::{key_precedes, stable_order, text_precedes};
use squaremap_server::wire::WorldIdentity;

fn world(value: &str, epoch: u64) -> WorldIdentity {
    WorldIdentity { namespace: "minecraft".to_string(), value: value.to_string(), epoch }
}

#[test]
fn stale_revisions_are_refused() {
    assert_eq!(reject_stale(3, 3, "players"), Err("stale players replacement".to_string()));
    assert_eq!(reject_stale(2, 3, "icons"), Err("stale icons replacement".to_string()));
    assert_eq!(reject_stale(4, 3, "players"), Ok(()));
    assert_eq!(reject_stale(0, 3, "players"), Ok(()));
    assert_eq!(stale_error("world epoch"), "stale world epoch replacement");
}

#[test]
fn world_names_and_keys() {
    assert_eq!(legacy_world_identity_name(&world("overworld", 1)), "minecraft_overworld");
    assert_eq!(world_name(None), "");
    assert_eq!(world_name(Some(&world("nether", 1))), "minecraft_nether");
    assert_eq!(epoch_key(&world("nether", 1)), "minecraft/nether");
    assert_eq!(world_output_path("minecraft_nether", "markers.json"), "tiles/minecraft_nether/markers.json");
    assert_eq!(icon_asset_path("spawn"), "images/icon/registered/spawn.png");
}

fn table() -> EpochTable {
    let mut t = EpochTable::new();
    t.insert("minecraft/overworld".to_string(), 2);
    t
}

#[test]
fn world_epochs_are_checked_against_the_published_ones() {
    let empty = EpochTable::new();
    assert_eq!(validate_world_epoch(&empty, &world("anything", 0)), Ok(()));
    let t = table();
    assert_eq!(validate_world_epoch(&t, &world("overworld", 2)), Ok(()));
    assert_eq!(validate_world_epoch(&t, &world("overworld", 1)), Err("stale world epoch replacement".to_string()));
    assert_eq!(
        validate_world_epoch(&t, &world("overworld", 3)),
        Err("world epoch does not match canonical world".to_string())
    );
    assert_eq!(
        validate_world_epoch(&t, &world("nether", 2)),
        Err("world is not present in canonical state".to_string())
    );
    assert_eq!(validate_player_epoch(&t, None), Err("player has no world identity".to_string()));
    assert_eq!(validate_player_epoch(&empty, None), Ok(()));
}

#[test]
fn epoch_changes_find_reloaded_worlds() {
    let t = table();
    let changes = epoch_changes(&t, &vec![Some(world("overworld", 5)), None, Some(world("nether", 1))]).unwrap();
    assert_eq!(changes.reloaded, vec!["minecraft_overworld".to_string()]);
    assert_eq!(changes.epochs.get("minecraft/overworld"), Some(5));
    assert_eq!(changes.epochs.get("minecraft/nether"), Some(1));
    assert_eq!(changes.epochs.get("minecraft/end"), None);
    assert_eq!(
        epoch_changes(&t, &vec![Some(world("overworld", 1))]).err(),
        Some("stale world epoch replacement".to_string())
    );
}

#[test]
fn stale_outputs_are_found() {
    let reloaded = vec!["minecraft_overworld".to_string()];
    let current = vec!["minecraft_overworld".to_string(), "minecraft_nether".to_string()];
    assert!(is_stale_tile_output("tiles/minecraft_overworld/markers.json", &reloaded, &current));
    assert!(!is_stale_tile_output("tiles/minecraft_overworld/settings.json", &reloaded, &current));
    assert!(is_stale_tile_output("tiles/minecraft_end/settings.json", &reloaded, &current));
    assert!(!is_stale_tile_output("tiles/minecraft_end/0/0_0.png", &reloaded, &current));
    assert!(!is_stale_tile_output("tiles/players.json", &reloaded, &current));
    assert!(!is_stale_tile_output("images/x/markers.json", &reloaded, &current));
    assert!(is_orphan_marker_output("tiles/minecraft_end/markers.json", &current));
    assert!(!is_orphan_marker_output("tiles/minecraft_nether/markers.json", &current));
    assert!(!is_orphan_marker_output("tiles/minecraft_end/settings.json", &current));
}

#[test]
fn player_uuids_are_hex() {
    assert_eq!(player_uuid_text(&vec![0x00, 0x0f, 0xab, 0xff]), "000fabff");
    assert_eq!(player_uuid_text(&vec![]), "");
}

fn key(first: &str, second: &str) -> (String, String) {
    (first.to_string(), second.to_string())
}

#[test]
fn views_are_listed_in_stable_key_order() {
    let keys = vec![key("b", ""), key("a", "z"), key("a", ""), key("b", ""), key("", "q")];
    assert_eq!(stable_order(&keys), vec![4, 2, 1, 0, 3]);
    let words = vec![key("é", ""), key("z", ""), key("Z", ""), key("za", "")];
    assert_eq!(stable_order(&words), vec![2, 1, 3, 0]);
    assert!(stable_order(&Vec::new()).is_empty());
    assert!(text_precedes("ab", "abc"));
    assert!(!text_precedes("abc", "abc"));
    assert!(key_precedes(&key("a", "b"), &key("a", "c")));
}

#[test]
fn dropped_outputs_are_those_no_longer_listed() {
    let previous = vec!["tiles/a/settings.json".to_string(), "tiles/b/settings.json".to_string(), "tiles/c/settings.json".to_string()];
    let kept = vec!["tiles/c/settings.json".to_string(), "tiles/a/settings.json".to_string()];
    assert_eq!(unlisted(&previous, &kept), vec!["tiles/b/settings.json".to_string()]);
    assert!(unlisted(&previous, &previous).is_empty());
    assert_eq!(unlisted(&previous, &Vec::new()), previous);
}

#[test]
fn markers_without_a_world_are_refused_once_worlds_are_published() {
    let empty = EpochTable::new();
    assert_eq!(validate_marker_epoch(&empty, None), Ok(()));
    let mut published = EpochTable::new();
    published.insert(epoch_key(&world("overworld", 2)), 2);
    assert_eq!(
        validate_marker_epoch(&published, None),
        Err("marker replacement has no world identity".to_string())
    );
    assert_eq!(validate_marker_epoch(&published, Some(&world("overworld", 2))), Ok(()));
    assert!(validate_marker_epoch(&published, Some(&world("overworld", 1))).is_err());
}
