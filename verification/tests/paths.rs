use squaremap_server::paths::validate_tile_prefix;
use squaremap_server::paths::{
    content_type, decode_path, hex, is_hop_by_hop, is_static_exclusion, is_temp_name, is_tile, validate_relative,
    PathError,
};

#[test]
fn relative_paths_are_cleaned() {
    assert_eq!(validate_relative("tiles//world/./0/1.png"), Ok("tiles/world/0/1.png".to_string()));
    assert_eq!(validate_relative("a/"), Ok("a".to_string()));
}

#[test]
fn relative_paths_that_escape_are_refused() {
    assert_eq!(validate_relative("/etc/passwd"), Err(PathError::Escapes));
    assert_eq!(validate_relative("./a"), Err(PathError::Escapes));
    assert_eq!(validate_relative("a/../b"), Err(PathError::Escapes));
    assert_eq!(validate_relative("a\\b"), Err(PathError::Backslash));
    assert_eq!(validate_relative(""), Err(PathError::Invalid));
    assert_eq!(validate_relative("a\0b"), Err(PathError::Invalid));
    assert_eq!(validate_relative(".squaremap-owner.lock"), Err(PathError::Invalid));
    assert_eq!(validate_relative("tiles/.squaremap-tmp-1-2"), Err(PathError::Invalid));
    assert_eq!(validate_relative(".squaremap-x/../a"), Err(PathError::Invalid));
}

#[test]
fn error_messages() {
    assert_eq!(PathError::Escapes.message(), "path escapes output root");
    assert_eq!(PathError::EncodedSeparator.message(), "encoded separator");
    assert_eq!(PathError::MalformedPercent.message(), "malformed percent encoding");
}

#[test]
fn hex_digits() {
    assert_eq!(hex(b'0'), Ok(0));
    assert_eq!(hex(b'9'), Ok(9));
    assert_eq!(hex(b'a'), Ok(10));
    assert_eq!(hex(b'F'), Ok(15));
    assert_eq!(hex(b'g'), Err(PathError::MalformedPercent));
}

#[test]
fn request_paths_decode() {
    assert_eq!(decode_path("/"), Ok(String::new()));
    assert_eq!(decode_path(""), Ok(String::new()));
    assert_eq!(decode_path("/tiles/minecraft_overworld/0/0_0.png"), Ok("tiles/minecraft_overworld/0/0_0.png".to_string()));
    assert_eq!(decode_path("/a%20b.txt"), Ok("a b.txt".to_string()));
    assert_eq!(decode_path("/caf%C3%A9"), Ok("café".to_string()));
}

#[test]
fn request_paths_refused() {
    assert_eq!(decode_path("/a%2"), Err(PathError::MalformedPercent));
    assert_eq!(decode_path("/a%zz"), Err(PathError::MalformedPercent));
    assert_eq!(decode_path("/a%00"), Err(PathError::Nul));
    assert_eq!(decode_path("/a%FF"), Err(PathError::NotUtf8));
    assert_eq!(decode_path("/a%2Fb"), Err(PathError::EncodedSeparator));
    assert_eq!(decode_path("/a/b%20"), Err(PathError::EncodedSeparator));
    assert_eq!(decode_path("/a%5Cb"), Err(PathError::EncodedSeparator));
    assert_eq!(decode_path("/../x"), Err(PathError::Escapes));
    assert_eq!(decode_path("//x"), Err(PathError::Escapes));
}

#[test]
fn tile_paths() {
    assert!(is_tile("tiles/a/0/0_0.png"));
    assert!(is_tile("tiles"));
    assert!(!is_tile("tilesx/a"));
    assert!(!is_tile("/tiles/a"));
    assert!(!is_tile("index.html"));
}

#[test]
fn static_exclusions() {
    assert!(is_static_exclusion("tiles/settings.json"));
    assert!(is_static_exclusion("images/icon/registered/a.png"));
    assert!(is_static_exclusion("images//icon/./registered"));
    assert!(!is_static_exclusion("images/icon/other.png"));
    assert!(!is_static_exclusion("images"));
    assert!(!is_static_exclusion("./tiles"));
}

#[test]
fn content_types() {
    assert_eq!(content_type("tiles/0/0_0.png"), "image/png");
    assert_eq!(content_type("index.html"), "text/html; charset=utf-8");
    assert_eq!(content_type("app.mjs"), "application/javascript");
    assert_eq!(content_type("a/b.tar.gz"), "application/octet-stream");
    assert_eq!(content_type("site.webmanifest"), "application/manifest+json");
    assert_eq!(content_type(".json"), "application/octet-stream");
    assert_eq!(content_type("x.json/"), "application/json");
    assert_eq!(content_type("a/.."), "application/octet-stream");
    assert_eq!(content_type("README"), "application/octet-stream");
}

#[test]
fn temp_names() {
    assert!(is_temp_name(".squaremap-tmp-123-456"));
    assert!(!is_temp_name(".squaremap-tmp-123"));
    assert!(!is_temp_name(".squaremap-tmp--456"));
    assert!(!is_temp_name(".squaremap-tmp-123-"));
    assert!(!is_temp_name(".squaremap-tmp-1-2-3"));
    assert!(!is_temp_name(".squaremap-tmp-1a-2"));
    assert!(!is_temp_name("squaremap-tmp-1-2"));
}

#[test]
fn hop_by_hop_headers() {
    assert!(is_hop_by_hop("connection"));
    assert!(is_hop_by_hop("transfer-encoding"));
    assert!(!is_hop_by_hop("content-type"));
    assert!(!is_hop_by_hop("Connection"));
}

#[test]
fn tile_prefixes() {
    assert_eq!(validate_tile_prefix("tiles/minecraft_overworld"), Ok(()));
    assert_eq!(validate_tile_prefix("a//./b"), Ok(()));
    assert!(validate_tile_prefix("").is_err());
    assert!(validate_tile_prefix("/abs").is_err());
    assert!(validate_tile_prefix("./x").is_err());
    assert_eq!(validate_tile_prefix("a/../b"), Err("tile store prefix must be a non-empty relative path"));
}
