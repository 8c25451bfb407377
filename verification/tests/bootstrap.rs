use squaremap_server::bootstrap::{plan_installer, read_token, tile_prefix, token_from_decoded, token_line_of, BootstrapError};
use squaremap_server::config::should_bind_http;
use squaremap_server::config::{
    AdvancedSettings, BridgePolicyReplace, ConfigReplace, GlobalSettings, LocaleSettings, RenderSettings,
    UiSettings, WorldConfig, WorldSettings,
};
use squaremap_server::wire::WorldIdentity;

#[test]
fn requires_one_base64_line_of_exactly_32_bytes() {
    let encoded = "AAAAAAAAAAAAAAAAAAAAAAAAAAAAAAAAAAAAAAAAAAA=";
    let token = read_token(&format!("{encoded}\n").into_bytes()).unwrap();
    assert_eq!(token.len(), 32);
    assert!(read_token(&"AAAA\n".to_string().into_bytes()).is_err());
}

#[test]
fn rejects_overlong_token_line() {
    let line = format!("{}\n", "A".repeat(89));
    assert!(read_token(&line.into_bytes()).is_err());
}

#[test]
fn token_line_errors_name_their_cause() {
    let missing_newline = read_token(&b"AAAA".to_vec()).unwrap_err();
    assert_eq!(
        missing_newline,
        BootstrapError::Token("expected one newline-terminated line of at most 88 characters".to_string())
    );
    let non_ascii = read_token(&vec![0xC3, 0xA9, b'\n']).unwrap_err();
    assert_eq!(non_ascii, BootstrapError::Token("token line is too long or non-ASCII".to_string()));
    let short = read_token(&b"AAAA\r\n".to_vec()).unwrap_err();
    assert_eq!(short, BootstrapError::Token("token must decode to exactly 32 bytes".to_string()));
    let bad = read_token(&b"!!!!\n".to_vec()).unwrap_err();
    assert!(matches!(bad, BootstrapError::Token(_)));
}

#[test]
fn token_accepts_carriage_return_and_decodes_bytes() {
    let bytes: Vec<u8> = (0u8..32).collect();
    let encoded = "AAECAwQFBgcICQoLDA0ODxAREhMUFRYXGBkaGxwdHh8=";
    let token = read_token(&format!("{encoded}\r\n").into_bytes()).unwrap();
    assert_eq!(token, bytes);
}

#[test]
fn bootstrap_error_text() {
    assert_eq!(BootstrapError::Token("x".to_string()).display_text(), "invalid bootstrap token: x");
    assert_eq!(BootstrapError::ConnectTimeout.display_text(), "bridge connection timed out");
    assert_eq!(
        BootstrapError::Rejected("no".to_string()).display_text(),
        "bridge rejected handshake: no"
    );
}

fn world(value: &str) -> WorldIdentity {
    WorldIdentity { namespace: "minecraft".to_string(), value: value.to_string(), epoch: 1 }
}

#[test]
fn tile_prefix_joins_namespace_and_value() {
    assert_eq!(tile_prefix(&world("overworld")), "tiles/minecraft_overworld");
    let absolute = WorldIdentity { namespace: "/abs".to_string(), value: "v".to_string(), epoch: 0 };
    assert_eq!(tile_prefix(&absolute), "/abs_v");
}

fn settings(zoom_max: i32) -> WorldSettings {
    WorldSettings {
        map_biomes_blend: 0,
        zoom_max,
        zoom_default: 0,
        zoom_extra: 0,
        max_render_threads: 0,
        background_render_max_threads: 0,
        background_render_interval_seconds: 15,
        background_render_max_chunks_per_interval: 64,
        background_render_enabled: true,
        player_tracker_update_interval: 1,
        marker_api_update_interval_seconds: 1,
        visibility_limits: vec![],
    }
}

fn config(worlds: Vec<WorldConfig>) -> ConfigReplace {
    ConfigReplace {
        revision: 1,
        global: Some(GlobalSettings { http_port: 8080, http_enabled: true, compress_images: true, compression_ratio_in_range: true }),
        advanced: Some(AdvancedSettings {}),
        world: Some(settings(3)),
        locale: Some(LocaleSettings { language: "en".to_string() }),
        render: Some(RenderSettings {
            progress_logging_interval_seconds: 1,
            background_interval_seconds: 1,
            background_max_chunks_per_interval: 1,
            background_max_threads: 0,
            background_enabled: true,
        }),
        ui: Some(UiSettings { sidebar_pinned: "pinned".to_string() }),
        worlds,
        player_privacy_enabled: Some(false),
        event_capture_enabled: Some(false),
    }
}

fn policy() -> BridgePolicyReplace {
    BridgePolicyReplace {
        revision: 1,
        max_control_frame_bytes: 1,
        max_snapshot_frame_bytes: 1,
        max_uncompressed_snapshot_bytes: 1,
        max_pending_dirty_chunks: 1,
        snapshot_credits: 12,
        player_privacy_enabled: false,
        event_capture_enabled: false,
    }
}

#[test]
fn installer_plan_sets_up_each_world_and_scheduler_limits() {
    let worlds = vec![
        WorldConfig { identity: Some(world("overworld")), settings: Some(settings(9)) },
        WorldConfig { identity: Some(world("nether")), settings: Some(settings(2)) },
    ];
    let plan = plan_installer(&config(worlds), &policy());
    assert_eq!(plan.worlds.len(), 2);
    assert_eq!(plan.worlds[1].index, 1);
    assert_eq!(plan.worlds[1].max_zoom, 2);
    assert_eq!(plan.worlds[1].tile_prefix, "tiles/minecraft_nether");
    assert!(plan.worlds[0].compress_images);
    let (limits, background) = plan.outcome.unwrap();
    assert_eq!(limits.max_active_snapshots, 12);
    assert_eq!(limits.dirty_page_size, 64);
    assert_eq!(limits.background_interval_seconds, 15);
    assert_eq!(limits.transient_retry_delay_millis, 25);
    assert!(background);
}

#[test]
fn installer_plan_stops_at_the_first_refused_world() {
    let worlds = vec![
        WorldConfig { identity: Some(world("overworld")), settings: Some(settings(4)) },
        WorldConfig { identity: Some(world("nether")), settings: Some(settings(10)) },
        WorldConfig { identity: None, settings: Some(settings(1)) },
    ];
    let plan = plan_installer(&config(worlds), &policy());
    assert_eq!(plan.worlds.len(), 1);
    assert_eq!(
        plan.outcome.err(),
        Some("maximum zoom exceeds the tile pyramid limit for minecraft:nether".to_string())
    );
    let negative = vec![WorldConfig { identity: Some(world("end")), settings: Some(settings(-1)) }];
    assert_eq!(
        plan_installer(&config(negative), &policy()).outcome.err(),
        Some("maximum zoom is outside platform bounds for minecraft:end".to_string())
    );
    let mut missing = config(vec![]);
    missing.render = None;
    let plan = plan_installer(&missing, &policy());
    assert!(plan.worlds.is_empty());
    assert_eq!(plan.outcome.err(), Some("render settings are missing".to_string()));
}

#[test]
fn the_token_line_ends_at_its_newline() {
    assert_eq!(token_line_of(&b"abc\n".to_vec()), Ok(b"abc".to_vec()));
    assert_eq!(token_line_of(&b"abc\r\n".to_vec()), Ok(b"abc".to_vec()));
    assert_eq!(
        token_line_of(&b"abc".to_vec()),
        Err(BootstrapError::Token("expected one newline-terminated line of at most 88 characters".to_string()))
    );
    assert_eq!(
        token_line_of(&vec![0xc3, 0xa9, b'\n']),
        Err(BootstrapError::Token("token line is too long or non-ASCII".to_string()))
    );
    let mut longest = vec![b'A'; 88];
    longest.push(b'\n');
    assert_eq!(token_line_of(&longest).map(|line| line.len()), Ok(88));
    let mut longer = vec![b'A'; 89];
    longer.push(b'\n');
    assert!(token_line_of(&longer).is_err());
}

#[test]
fn the_decoded_token_has_thirty_two_bytes() {
    assert_eq!(token_from_decoded(Ok(vec![7; 32])), Ok(vec![7; 32]));
    assert_eq!(
        token_from_decoded(Ok(vec![7; 31])),
        Err(BootstrapError::Token("token must decode to exactly 32 bytes".to_string()))
    );
    assert_eq!(token_from_decoded(Err("bad symbol".to_string())), Err(BootstrapError::Token("bad symbol".to_string())));
    assert!(matches!(read_token(&b"@@@@\n".to_vec()), Err(BootstrapError::Token(_))));
}

#[test]
fn bootstrap_errors_read_as_their_messages() {
    assert_eq!(BootstrapError::ConnectTimeout.display_text(), "bridge connection timed out");
    assert_eq!(BootstrapError::Rejected("no".to_string()).display_text(), "bridge rejected handshake: no");
    assert_eq!(BootstrapError::Token("t".to_string()).display_text(), "invalid bootstrap token: t");
    assert_eq!(BootstrapError::Io("i".to_string()).display_text(), "I/O error: i");
    assert_eq!(BootstrapError::Frame("f".to_string()).display_text(), "bridge frame error: f");
    assert_eq!(BootstrapError::InvalidConnect("c".to_string()).display_text(), "invalid loopback connect address: c");
}

#[test]
fn http_is_bound_only_where_enabled() {
    let enabled = GlobalSettings { http_port: 8080, http_enabled: true, compress_images: false, compression_ratio_in_range: true };
    let disabled = GlobalSettings { http_enabled: false, ..enabled.clone() };
    assert!(should_bind_http(Some(&enabled)));
    assert!(!should_bind_http(Some(&disabled)));
    assert!(!should_bind_http(None));
}
