use std::path::Path;
use this_app::config::{ConfigThis, CorsSetting};
use this_app::paths::{absolute_path_unresolved, is_absolute, PathParentExt, PathToAbsoluteUnresolvedExt};
use this_app::server::{alpn_protocols, select_private_key};
use this_app::text::{replace_newlines, to_hex_lower};
use this_app::watch::{is_change, AccessKind, AccessMode, EventKind};

#[test]
fn cors_defaults_to_default() {
    assert_eq!(CorsSetting::default(), CorsSetting::Default);
    assert_eq!(CorsSetting::Default.as_ref(), "default");
    assert_eq!(CorsSetting::VeryPermissive.as_ref(), "very_permissive");
}

#[test]
fn config_files_for_development() {
    assert_eq!(
        ConfigThis::source_files(None),
        vec!["./configs/base.toml", "./configs/development.toml", "./configs/local.toml"]
    );
}

#[test]
fn config_files_for_a_run_mode() {
    assert_eq!(
        ConfigThis::source_files(Some("production".to_string())),
        vec!["./configs/base.toml", "./configs/production.toml", "./configs/local.toml"]
    );
}

#[test]
fn newlines_become_commas() {
    assert_eq!(replace_newlines("a\nb\n\nc"), "a, b, , c");
    assert_eq!(replace_newlines(""), "");
    assert_eq!(replace_newlines("no break"), "no break");
}

#[test]
fn hex_is_lowercase_two_digits_per_byte() {
    assert_eq!(to_hex_lower(&[0x00, 0x0f, 0xbe, 0xef, 0xff]), "000fbeefff");
    assert_eq!(to_hex_lower(&[]), "");
}

#[test]
fn absolute_paths_start_at_root() {
    assert!(is_absolute("/srv"));
    assert!(!is_absolute("srv/public"));
    assert!(!is_absolute(""));
}

#[test]
fn relative_path_made_absolute_and_cleaned() {
    assert_eq!(absolute_path_unresolved("public/../data//x", "/home/app"), "/home/app/data/x");
    assert_eq!("./public".absolute_path_unresolved("/home/app"), "/home/app/public");
}

#[test]
fn absolute_path_ignores_working_directory() {
    assert_eq!(absolute_path_unresolved("/srv/./a/../b", "/home/app"), "/srv/b");
    assert_eq!(absolute_path_unresolved("/srv/./a/../b", "/elsewhere"), "/srv/b");
}

#[test]
fn parent_drops_last_component() {
    assert_eq!("/var/www/site/index.html".path_parent(), "/var/www/site");
    assert_eq!("/".path_parent(), "/");
    assert_eq!("file.txt".path_parent(), "");
    assert_eq!("a/b/".path_parent(), "a");
}

#[test]
fn parent_agrees_with_std() {
    for p in ["/a/b/c", "a", "/", "a/./b", "../x", ""] {
        let expected = Path::new(p).parent().map(|x| x.to_string_lossy().into_owned()).unwrap_or_else(|| p.to_string());
        assert_eq!(p.path_parent(), expected);
    }
}

#[test]
fn alpn_prefers_http2() {
    assert_eq!(alpn_protocols(), vec![b"h2".to_vec(), b"http/1.1".to_vec()]);
}

#[test]
fn first_private_key_is_used() {
    assert_eq!(select_private_key(vec![vec![1, 2], vec![3]]), Some(vec![1, 2]));
    assert_eq!(select_private_key(vec![]), None);
}

#[test]
fn only_changes_are_changes() {
    assert!(is_change(&EventKind::Access(AccessKind::Close(AccessMode::Write))));
    assert!(is_change(&EventKind::Create));
    assert!(is_change(&EventKind::Modify));
    assert!(is_change(&EventKind::Remove));
    assert!(!is_change(&EventKind::Access(AccessKind::Close(AccessMode::Read))));
    assert!(!is_change(&EventKind::Access(AccessKind::Open(AccessMode::Write))));
    assert!(!is_change(&EventKind::Any));
    assert!(!is_change(&EventKind::Other));
}

#[test]
fn absolute_path_twice_is_once() {
    for (p, cwd) in [("public/../data//x/", "/home/app"), ("/srv/./a/../b", "/"), ("..", "/home/app"), ("/", "/x")] {
        let once = absolute_path_unresolved(p, cwd);
        assert!(once.starts_with('/'));
        assert_eq!(absolute_path_unresolved(&once, "/elsewhere"), once);
    }
}
