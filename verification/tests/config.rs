use squaremap_server::config::{
    validate_and_stage, AdvancedSettings, ConfigError, ConfigReplace, ConfigStore, GlobalSettings, LocaleSettings,
    Point, RenderSettings, UiSettings, VisibilityLimit, VisibilityLimitKind, WorldConfig, WorldSettings,
};
use squaremap_server::wire::WorldIdentity;

fn settings() -> WorldSettings {
    WorldSettings {
        map_biomes_blend: 0,
        zoom_max: 3,
        zoom_default: 3,
        zoom_extra: 0,
        max_render_threads: 0,
        background_render_max_threads: 0,
        background_render_interval_seconds: 1,
        background_render_max_chunks_per_interval: 1,
        background_render_enabled: false,
        player_tracker_update_interval: 1,
        marker_api_update_interval_seconds: 1,
        visibility_limits: vec![],
    }
}

fn identity(value: &str, epoch: u64) -> WorldIdentity {
    WorldIdentity { namespace: "minecraft".to_string(), value: value.to_string(), epoch }
}

fn valid(revision: u64) -> ConfigReplace {
    ConfigReplace {
        revision,
        global: Some(GlobalSettings {
            http_port: 8080,
            http_enabled: false,
            compress_images: false,
            compression_ratio_in_range: true,
        }),
        advanced: Some(AdvancedSettings {}),
        world: Some(settings()),
        locale: Some(LocaleSettings { language: "lang-en.yml".to_string() }),
        render: Some(RenderSettings {
            progress_logging_interval_seconds: 1,
            background_interval_seconds: 1,
            background_max_chunks_per_interval: 1,
            background_max_threads: 0,
            background_enabled: false,
        }),
        ui: Some(UiSettings { sidebar_pinned: "unpinned".to_string() }),
        worlds: vec![WorldConfig { identity: Some(identity("overworld", 1)), settings: Some(settings()) }],
        player_privacy_enabled: Some(false),
        event_capture_enabled: Some(true),
    }
}

#[test]
fn validates_two_worlds_and_swaps_atomically() {
    let mut store = ConfigStore::default();
    let mut candidate = valid(1);
    candidate.worlds.push(WorldConfig { identity: Some(identity("nether", 2)), settings: candidate.worlds[0].settings.clone() });
    let policy = store.stage_and_swap(candidate).unwrap();
    assert_eq!(policy.revision, 1);
    assert!(!policy.player_privacy_enabled);
    assert!(store.active().unwrap().config.worlds.len() == 2);
}

#[test]
fn rejects_invalid_without_mutating_active_state() {
    let mut store = ConfigStore::default();
    store.stage_and_swap(valid(1)).unwrap();
    let before = store.active().unwrap().clone();
    let mut invalid = valid(2);
    invalid.worlds[0].identity = None;
    assert_eq!(store.stage_and_swap(invalid), Err(ConfigError::MissingWorldIdentity));
    assert_eq!(store.active(), Some(&before));
}

#[test]
fn rejects_missing_groups_visibility_geometry_and_duplicate_identity() {
    let mut missing = valid(1);
    missing.advanced = None;
    assert_eq!(validate_and_stage(missing), Err(ConfigError::MissingGroup("advanced")));
    let mut circle = valid(2);
    circle.worlds[0].settings.as_mut().unwrap().visibility_limits.push(VisibilityLimit {
        kind: Some(VisibilityLimitKind::Circle),
        points: vec![],
        radius_is_zero: true,
        radius_is_positive: false,
    });
    assert_eq!(validate_and_stage(circle), Err(ConfigError::InvalidGeometry("circle")));
    let mut duplicate = valid(3);
    duplicate.worlds.push(duplicate.worlds[0].clone());
    assert_eq!(validate_and_stage(duplicate), Err(ConfigError::DuplicateWorldIdentity));
}

#[test]
fn rejects_reversed_rectangle_without_mutating_active_state() {
    let mut store = ConfigStore::default();
    store.stage_and_swap(valid(1)).unwrap();
    let before = store.active().unwrap().clone();
    let mut invalid = valid(2);
    invalid.worlds[0].settings.as_mut().unwrap().visibility_limits.push(VisibilityLimit {
        kind: Some(VisibilityLimitKind::Rectangle),
        points: vec![Point { x: 5, z: 0 }, Point { x: 5, z: 10 }],
        radius_is_zero: true,
        radius_is_positive: false,
    });
    assert_eq!(store.stage_and_swap(invalid), Err(ConfigError::InvalidGeometry("rectangle")));
    assert_eq!(store.active(), Some(&before));
}

#[test]
fn first_configuration_needs_a_positive_revision() {
    let mut store = ConfigStore::default();
    assert!(store.stage_and_swap(valid(0)).is_err());
    assert!(store.active().is_none());
}

#[test]
fn config_errors_read_as_their_messages() {
    assert_eq!(ConfigError::MissingGroup("global").display_text(), "global settings are required");
    assert_eq!(ConfigError::MissingWorldIdentity.display_text(), "every world config requires an identity");
    assert_eq!(ConfigError::DuplicateWorldIdentity.display_text(), "world identities must be unique");
    assert_eq!(ConfigError::InvalidRevision.display_text(), "config revision must be positive");
    assert_eq!(ConfigError::InvalidBounds("zoom").display_text(), "invalid bounds for zoom");
    assert_eq!(ConfigError::InvalidValue("port").display_text(), "invalid value for port");
    assert_eq!(ConfigError::InvalidGeometry("circle").display_text(), "invalid visibility geometry for circle");
}
