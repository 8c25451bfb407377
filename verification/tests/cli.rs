use squaremap_server::cli::{parse_command, usage, Command};

fn args(list: &[&str]) -> Vec<String> {
    list.iter().map(|s| s.to_string()).collect()
}

#[test]
fn no_arguments_print_help() {
    assert_eq!(parse_command(&args(&[])), Command::Help);
    assert_eq!(parse_command(&args(&["-h"])), Command::Help);
    assert_eq!(parse_command(&args(&["bridge", "--help"])), Command::Help);
    assert!(usage().starts_with("Usage: squaremap-server bridge"));
}

#[test]
fn bridge_command() {
    assert_eq!(
        parse_command(&args(&["bridge", "--connect", "127.0.0.1:25", "--plugin-version", "1.2"])),
        Command::Bridge { connect: "127.0.0.1:25".to_string(), plugin_version: "1.2".to_string() }
    );
    assert_eq!(
        parse_command(&args(&["bridge", "--plugin-version", "1.2"])),
        Command::Fail { message: "bridge requires --connect".to_string(), code: 2 }
    );
    assert_eq!(
        parse_command(&args(&["bridge", "--connect", "a"])),
        Command::Fail { message: "bridge requires --plugin-version".to_string(), code: 2 }
    );
    assert_eq!(
        parse_command(&args(&["bridge", "--connect", "a", "--plugin-version"])),
        Command::Fail { message: "bridge requires --plugin-version".to_string(), code: 2 }
    );
    assert_eq!(
        parse_command(&args(&["bridge", "--verbose"])),
        Command::Fail { message: "unknown bridge argument: --verbose".to_string(), code: 2 }
    );
    assert_eq!(
        parse_command(&args(&["bridge", "--connect", "a", "--connect", "b", "--plugin-version", "v"])),
        Command::Bridge { connect: "b".to_string(), plugin_version: "v".to_string() }
    );
}

#[test]
fn serve_fixture_command() {
    assert_eq!(
        parse_command(&args(&["serve-fixture", "--root", "/tmp/out", "--bind", "127.0.0.1:8080"])),
        Command::ServeFixture { root: "/tmp/out".to_string(), bind: "127.0.0.1:8080".to_string() }
    );
    assert_eq!(
        parse_command(&args(&["serve-fixture", "--bind", "x"])),
        Command::Fail { message: "serve-fixture requires --root".to_string(), code: 2 }
    );
    assert_eq!(
        parse_command(&args(&["serve-fixture", "--root", "--bind"])),
        Command::Fail { message: "serve-fixture requires --bind".to_string(), code: 2 }
    );
    assert_eq!(
        parse_command(&args(&["serve", "x"])),
        Command::Fail { message: "unknown command: serve".to_string(), code: 2 }
    );
}
