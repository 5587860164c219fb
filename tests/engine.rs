use rshare::auth::{gate, session_cookie_name, validate, AuthError, ConfigError, GateDecision, Route, SessionStore};
use rshare::download::{plan_download, DownloadError};
use rshare::listing::{list_files, DirEntry};
use rshare::names::{is_forbidden_char, is_safe_name};
use rshare::store::{entry_path, staging_dir, staging_path};
use rshare::upload::{begin_part, ChunkStep, PartStart, UploadError, UploadSession, DEFAULT_MAX_UPLOAD};

fn store() -> SessionStore {
    SessionStore::new("hunter2".to_string()).unwrap()
}

#[test]
fn empty_secret_is_refused() {
    assert!(matches!(SessionStore::new(String::new()), Err(ConfigError::EmptySecret)));
}

#[test]
fn matching_password_issues_marker_that_validates() {
    let token = store().issue("hunter2").unwrap();
    assert_eq!(token, "ok");
    assert!(validate(Some(token.as_str())));
}

#[test]
fn wrong_password_is_refused() {
    assert_eq!(store().issue("hunter3"), Err(AuthError::InvalidCredentials));
    assert_eq!(store().issue(""), Err(AuthError::InvalidCredentials));
    assert_eq!(store().issue("hunter22"), Err(AuthError::InvalidCredentials));
}

#[test]
fn login_sets_cookie_only_on_match() {
    let ok = store().login("hunter2");
    assert_eq!(ok.set_cookie.as_deref(), Some("ok"));
    assert_eq!(ok.redirect, "/");
    let bad = store().login("nope");
    assert!(bad.set_cookie.is_none());
    assert_eq!(bad.redirect, "/login");
    assert_eq!(session_cookie_name(), "auth");
}

#[test]
fn validate_rejects_other_values() {
    assert!(!validate(None));
    assert!(!validate(Some("")));
    assert!(!validate(Some("OK")));
    assert!(!validate(Some("ok ")));
    assert!(validate(Some("ok")));
}

#[test]
fn gate_blocks_every_protected_route_without_session() {
    for route in [Route::Index, Route::Upload, Route::Files, Route::Download] {
        assert!(route.requires_session());
        assert_eq!(gate(route, None), GateDecision::Unauthorized);
        assert_eq!(gate(route, Some("bad")), GateDecision::Unauthorized);
        assert_eq!(gate(route, Some("ok")), GateDecision::Proceed);
    }
    assert_eq!(GateDecision::Unauthorized.status_code(), Some(401));
    assert_eq!(GateDecision::Proceed.status_code(), None);
}

#[test]
fn login_routes_are_open() {
    for route in [Route::LoginPage, Route::LoginSubmit] {
        assert!(!route.requires_session());
        assert_eq!(gate(route, None), GateDecision::Proceed);
    }
}

#[test]
fn upload_within_bound_accepts_every_chunk() {
    let mut s = UploadSession::start("a.txt", 10).unwrap();
    assert_eq!(s.accept(b"hello"), ChunkStep::Write);
    assert_eq!(s.accept(b""), ChunkStep::Write);
    assert_eq!(s.accept(b"world"), ChunkStep::Write);
    assert_eq!(s.written(), 10);
    assert_eq!(s.name(), "a.txt");
    assert_eq!(s.finish(), Ok(10));
}

#[test]
fn upload_one_byte_over_bound_is_too_large() {
    let mut s = UploadSession::start("a.txt", 10).unwrap();
    assert_eq!(s.accept(b"hello"), ChunkStep::Write);
    assert_eq!(s.accept(b"world!"), ChunkStep::TooLarge);
    assert_eq!(s.accept(b""), ChunkStep::TooLarge);
    assert_eq!(s.written(), 5);
    assert_eq!(s.finish(), Err(UploadError::PayloadTooLarge));
    assert_eq!(UploadError::PayloadTooLarge.status_code(), 413);
}

#[test]
fn upload_of_empty_part_succeeds() {
    let s = UploadSession::start("empty.bin", DEFAULT_MAX_UPLOAD).unwrap();
    assert_eq!(s.finish(), Ok(0));
    assert_eq!(DEFAULT_MAX_UPLOAD, 1024 * 1024 * 1024);
}

#[test]
fn upload_with_unsafe_name_is_refused() {
    for name in ["", "..", ".", "../x", "a/b", "a\\b", "/etc/passwd", "a\0b"] {
        assert!(matches!(UploadSession::start(name, 10), Err(UploadError::InvalidName)), "{name:?}");
    }
    for name in [".profile", "c:x", "a\"b", "...", "..x"] {
        assert!(UploadSession::start(name, 10).is_ok(), "{name:?}");
    }
    assert_eq!(UploadError::InvalidName.status_code(), 400);
    assert_eq!(UploadError::Io.status_code(), 500);
}

#[test]
fn escaping_download_is_not_found() {
    for name in ["../../secret", "..", "/etc/passwd", "..\\secret", "a/../../b", "\\secret"] {
        assert!(matches!(plan_download(name), Err(DownloadError::NotFound)), "{name:?}");
    }
    // Still percent-encoded, the name is one plain entry of the store.
    assert_eq!(plan_download("..%2f..%2fsecret").unwrap().file_name, "..%2f..%2fsecret");
    assert_eq!(DownloadError::NotFound.status_code(), 404);
    assert_eq!(DownloadError::Io.status_code(), 500);
}

#[test]
fn download_plan_sets_headers() {
    let p = plan_download("photo.png").unwrap();
    assert_eq!(p.file_name, "photo.png");
    assert_eq!(p.content_type, "image/png");
    assert_eq!(p.disposition, "attachment; filename=\"photo.png\"");
    let q = plan_download("notes").unwrap();
    assert_eq!(q.content_type, "application/octet-stream");
    let r = plan_download("page.html").unwrap();
    assert_eq!(r.content_type, "text/html");
    let h = plan_download(".notes.txt").unwrap();
    assert_eq!(h.content_type, "text/plain");
    assert_eq!(h.disposition, "attachment; filename=\".notes.txt\"");
    let q = plan_download("say \"hi\".txt").unwrap();
    assert_eq!(q.disposition, "attachment; filename=\"say \\\"hi\\\".txt\"");
}

#[test]
fn names_policy() {
    assert!(is_safe_name("a.txt"));
    assert!(is_safe_name("report 2024 (final).pdf"));
    assert!(is_safe_name("ünïcødé.txt"));
    assert!(is_safe_name(".profile"));
    assert!(is_safe_name("a:b"));
    assert!(!is_safe_name(".."));
    assert!(!is_safe_name("."));
    assert!(is_forbidden_char('/'));
    assert!(is_forbidden_char('\\'));
    assert!(is_forbidden_char('\0'));
    assert!(!is_forbidden_char(':'));
    assert!(!is_forbidden_char('a'));
}

#[test]
fn listing_shows_exactly_uploaded_files() {
    let entries = vec![
        DirEntry { name: "b.txt".to_string(), is_file: true },
        DirEntry { name: "sub".to_string(), is_file: false },
        DirEntry { name: "a.txt".to_string(), is_file: true },
    ];
    let mut names = list_files(&entries);
    names.sort();
    assert_eq!(names, vec!["a.txt".to_string(), "b.txt".to_string()]);
}

#[test]
fn listing_keeps_hidden_and_unusual_names() {
    let entries = vec![
        DirEntry { name: "a:b".to_string(), is_file: true },
        DirEntry { name: ".profile".to_string(), is_file: true },
        DirEntry { name: ".cache".to_string(), is_file: false },
    ];
    assert_eq!(list_files(&entries), vec!["a:b".to_string(), ".profile".to_string()]);
}

#[test]
fn listing_of_empty_store_is_empty() {
    assert!(list_files(&Vec::new()).is_empty());
}

#[test]
fn staging_and_entry_paths() {
    assert_eq!(staging_dir("uploads"), "uploads.partial");
    assert_eq!(staging_path("uploads", 0), "uploads.partial/upload-0");
    assert_eq!(staging_path("uploads", 42), "uploads.partial/upload-42");
    assert_eq!(staging_path("uploads", u64::MAX), "uploads.partial/upload-18446744073709551615");
    assert_eq!(entry_path("uploads", "a.txt"), "uploads/a.txt");
}

#[test]
fn paths_map_to_routes() {
    assert_eq!(Route::of_path("/login"), Route::LoginPage);
    assert_eq!(Route::of_path("/"), Route::Index);
    assert_eq!(Route::of_path("/upload"), Route::Upload);
    assert_eq!(Route::of_path("/files"), Route::Files);
    assert_eq!(Route::of_path("/download/a.txt"), Route::Download);
}

#[test]
fn listing_keeps_names_with_backslash() {
    let entries = vec![
        DirEntry { name: "a\\b".to_string(), is_file: true },
        DirEntry { name: "c".to_string(), is_file: true },
    ];
    assert_eq!(list_files(&entries), vec!["a\\b".to_string(), "c".to_string()]);
}

#[test]
fn parts_begin_by_file_name() {
    assert!(matches!(begin_part(None, 10), PartStart::Skip));
    assert!(matches!(begin_part(Some("../x"), 10), PartStart::Refuse(UploadError::InvalidName)));
    match begin_part(Some("a.txt"), 10) {
        PartStart::Stream(mut s) => {
            assert_eq!(s.name(), "a.txt");
            assert_eq!(s.accept(b"0123456789"), ChunkStep::Write);
            assert_eq!(s.accept(b"x"), ChunkStep::TooLarge);
            assert_eq!(s.written(), 10);
            assert_eq!(s.finish(), Err(UploadError::PayloadTooLarge));
        }
        _ => panic!("a plain file name is streamed"),
    }
}
