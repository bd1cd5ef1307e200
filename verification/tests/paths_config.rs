use filecrab::authorization::{check_permission, Permission};
use filecrab::configuration::{
    sandbox_root_or_default, App, Application, Database, Localization, LocalizationSortMethod,
    Settings,
};
use filecrab::paths::{join_path, resolve_user_path};
use filecrab::UserPathRequest;

#[test]
fn join_inserts_exactly_one_separator() {
    assert_eq!(join_path("/root", "docs"), "/root/docs");
    assert_eq!(join_path("/root/", "docs"), "/root/docs");
    assert_eq!(join_path("", "docs"), "docs");
}

#[test]
fn absolute_segment_replaces_the_base() {
    assert_eq!(join_path("/root", "/etc"), "/etc");
}

#[test]
fn resolves_directory_and_file_beneath_the_root() {
    let request = UserPathRequest {
        directory: "docs".to_string(),
        file: Some("notes.txt".to_string()),
    };
    let path = resolve_user_path("/sandbox", &request);
    assert_eq!(path.path, "/sandbox/docs/notes.txt");
    assert_eq!(path.directory, "docs");
    assert_eq!(path.file, Some("notes.txt".to_string()));
}

#[test]
fn resolves_directory_alone_when_no_file_is_given() {
    let request = UserPathRequest { directory: "photos".to_string(), file: None };
    let path = resolve_user_path("/sandbox", &request);
    assert_eq!(path.path, "/sandbox/photos");
    assert_eq!(path.directory, "photos");
    assert_eq!(path.file, None);
}

#[test]
fn traversal_segments_are_not_rejected_by_resolution() {
    // Resolution is pure concatenation; escapes surface later as
    // filesystem errors.
    let request = UserPathRequest { directory: "../outside".to_string(), file: None };
    let path = resolve_user_path("/sandbox", &request);
    assert_eq!(path.path, "/sandbox/../outside");
}

fn settings(host: &str, port: u16) -> Settings {
    Settings {
        application: Application {
            host: host.to_string(),
            port,
            date_format: "%Y-%m-%d".to_string(),
        },
        localization: Localization {
            default: "en".to_string(),
            method: vec![LocalizationSortMethod::Header],
        },
        database: Database { url: "postgres://localhost/filecrab".to_string() },
    }
}

#[test]
fn app_captures_host_and_port() {
    let app = App::new(settings("127.0.0.1", 8080));
    assert_eq!(app.host, "127.0.0.1");
    assert_eq!(app.port, 8080);
}

#[test]
fn address_joins_host_and_port() {
    let app = App::new(settings("127.0.0.1", 8080));
    assert_eq!(app.address(), "127.0.0.1:8080");
    let app = App::new(settings("0.0.0.0", 65535));
    assert_eq!(app.address(), "0.0.0.0:65535");
    let app = App::new(settings("localhost", 0));
    assert_eq!(app.address(), "localhost:0");
}

#[test]
fn sandbox_root_defaults_to_current_directory() {
    assert_eq!(sandbox_root_or_default(Some("/srv/files".to_string())), "/srv/files");
    assert_eq!(sandbox_root_or_default(None), ".");
}

#[test]
fn the_stub_policy_allows_every_request() {
    assert!(check_permission("anyone", &Permission::Create));
    assert!(check_permission("", &Permission::NoAccess));
}
