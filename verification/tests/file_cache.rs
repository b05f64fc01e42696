use this_app::fallback::{
    file_for_url_path, normalize_uri, resolve_file_path, CacheCommand, Fallback, FileEvent, FileRequest,
    HandleFile, CACHE_CONTROL_VALUE, CACHE_FILE_STATE_HASHING,
};
use this_app::hashing::{FileHasher, READ_BUFFER_LEN};

fn fallback() -> Fallback {
    Fallback { path_public: "/srv/public".to_string() }
}

fn expected_hash(chunks: &[&[u8]]) -> String {
    let mut buf = vec![0u8; 1024 * 64];
    let mut hasher = blake3::Hasher::new();
    for c in chunks {
        buf[..c.len()].copy_from_slice(c);
        hasher.update(&buf);
    }
    hasher.finalize().to_string()
}

#[test]
fn uri_without_scheme_gets_local_base() {
    assert_eq!(normalize_uri("/index.html?x=1"), "http://a.b/index.html?x=1");
    assert_eq!(normalize_uri("https://example.com/a"), "https://example.com/a");
}

#[test]
fn uri_names_file_under_public_dir() {
    assert_eq!(resolve_file_path("/srv/public", "/pkg/app.js?v=3"), Some("/srv/public/pkg/app.js".to_string()));
    assert_eq!(resolve_file_path("/srv/public", "http://host:3000/favicon.ico"), Some("/srv/public/favicon.ico".to_string()));
    assert_eq!(resolve_file_path("/srv/public", "/"), Some("/srv/public/".to_string()));
}

#[test]
fn doubled_slash_escapes_public_dir() {
    assert_eq!(resolve_file_path("/srv/public", "//etc/hosts"), Some("/etc/hosts".to_string()));
}

#[test]
fn unparsable_uri_names_no_file() {
    assert_eq!(resolve_file_path("/srv/public", "http://[::1"), None);
}

#[test]
fn empty_url_path_names_no_file() {
    assert_eq!(file_for_url_path("/srv/public", ""), None);
    assert_eq!(file_for_url_path("/srv/public", "/a/b"), Some("/srv/public/a/b".to_string()));
}

#[test]
fn hash_of_one_read() {
    let mut h = FileHasher::new();
    h.feed(b"hello");
    let hash = h.finish();
    assert_eq!(hash, expected_hash(&[b"hello"]));
    assert_eq!(hash.len(), 64);
    assert_ne!(hash, blake3::hash(b"hello").to_string());
}

#[test]
fn hash_feeds_the_whole_buffer_each_read() {
    let mut h = FileHasher::new();
    h.feed(b"abcdef");
    h.feed(b"xy");
    assert_eq!(h.finish(), expected_hash(&[b"abcdef", b"xy"]));
    assert_eq!(READ_BUFFER_LEN, 65536);
}

#[test]
fn hash_of_nothing_read() {
    let h = FileHasher::new();
    assert_eq!(h.finish(), blake3::hash(b"").to_string());
}

fn start(uri: &str) -> (HandleFile, Vec<CacheCommand>, FileRequest) {
    let (state, step) = fallback().handle_file(uri.to_string());
    (state, step.commands, step.request)
}

fn step(state: HandleFile, event: FileEvent) -> (HandleFile, Vec<CacheCommand>, FileRequest) {
    assert!(state.accepts(&event));
    let (state, step) = state.step(event);
    (state, step.commands, step.request)
}

#[test]
fn uri_cache_hit_is_answered() {
    let (s, cmds, req) = start("/a.css");
    assert!(cmds.is_empty());
    assert!(matches!(req, FileRequest::UriEntry(ref k) if k == "/a.css"));
    let (s, cmds, req) = step(s, FileEvent::UriEntry(Some("abc".to_string())));
    assert!(matches!(s, HandleFile::Done));
    assert!(cmds.is_empty());
    assert!(matches!(req, FileRequest::Respond(Some(ref h)) if h == "abc"));
}

#[test]
fn file_being_hashed_has_no_answer() {
    let (s, _, _) = start("/a.css");
    let (s, _, req) = step(s, FileEvent::UriEntry(None));
    assert!(matches!(req, FileRequest::PathEntry(ref k) if k == "/srv/public/a.css"));
    let (s, cmds, req) = step(s, FileEvent::PathEntry(Some(CACHE_FILE_STATE_HASHING.to_string())));
    assert!(matches!(s, HandleFile::Done));
    assert!(cmds.is_empty());
    assert!(matches!(req, FileRequest::Respond(None)));
}

#[test]
fn path_cache_hit_goes_into_uri_cache() {
    let (s, _, _) = start("/a.css?v=2");
    let (s, _, _) = step(s, FileEvent::UriEntry(None));
    let (s, cmds, req) = step(s, FileEvent::PathEntry(Some("0123".to_string())));
    assert!(matches!(s, HandleFile::Done));
    assert_eq!(cmds.len(), 1);
    assert!(matches!(cmds[0], CacheCommand::InsertByUri(ref k, ref v) if k == "/a.css?v=2" && v == "0123"));
    assert!(matches!(req, FileRequest::Respond(Some(ref h)) if h == "0123"));
}

#[test]
fn missing_file_has_no_answer() {
    let (s, _, _) = start("/missing.txt");
    let (s, _, _) = step(s, FileEvent::UriEntry(None));
    let (s, _, req) = step(s, FileEvent::PathEntry(None));
    assert!(matches!(req, FileRequest::Open(ref p) if p == "/srv/public/missing.txt"));
    let (s, cmds, req) = step(s, FileEvent::Opened(false));
    assert!(matches!(s, HandleFile::Done));
    assert!(cmds.is_empty());
    assert!(matches!(req, FileRequest::Respond(None)));
}

#[test]
fn read_file_is_hashed_and_cached_twice() {
    let (s, _, _) = start("/app.js");
    let (s, _, _) = step(s, FileEvent::UriEntry(None));
    let (s, _, _) = step(s, FileEvent::PathEntry(None));
    let (s, cmds, req) = step(s, FileEvent::Opened(true));
    assert_eq!(cmds.len(), 1);
    assert!(matches!(cmds[0], CacheCommand::InsertByPath(ref k, ref v) if k == "/srv/public/app.js" && v == CACHE_FILE_STATE_HASHING));
    assert!(matches!(req, FileRequest::Read));
    let (s, cmds, req) = step(s, FileEvent::Chunk(b"console.log(1)".to_vec()));
    assert!(cmds.is_empty());
    assert!(matches!(req, FileRequest::Read));
    let (s, cmds, req) = step(s, FileEvent::EndOfInput);
    let hash = expected_hash(&[b"console.log(1)"]);
    assert!(matches!(s, HandleFile::Done));
    assert_eq!(cmds.len(), 2);
    assert!(matches!(cmds[0], CacheCommand::InsertByUri(ref k, ref v) if k == "/app.js" && *v == hash));
    assert!(matches!(cmds[1], CacheCommand::InsertByPath(ref k, ref v) if k == "/srv/public/app.js" && *v == hash));
    assert!(matches!(req, FileRequest::Respond(Some(ref h)) if *h == hash));
    assert_ne!(hash, CACHE_FILE_STATE_HASHING);
}

#[test]
fn unparsable_uri_has_no_answer() {
    let (s, _, _) = start("http://[::1");
    let (s, cmds, req) = step(s, FileEvent::UriEntry(None));
    assert!(matches!(s, HandleFile::Done));
    assert!(cmds.is_empty());
    assert!(matches!(req, FileRequest::Respond(None)));
}

#[test]
fn finished_machine_accepts_nothing() {
    let (s, _, _) = start("/a");
    let (s, _, _) = step(s, FileEvent::UriEntry(Some("h".to_string())));
    assert!(!s.accepts(&FileEvent::EndOfInput));
}

#[test]
fn reading_refuses_oversized_chunk() {
    let (s, _, _) = start("/a");
    let (s, _, _) = step(s, FileEvent::UriEntry(None));
    let (s, _, _) = step(s, FileEvent::PathEntry(None));
    let (s, _, _) = step(s, FileEvent::Opened(true));
    assert!(!s.accepts(&FileEvent::Chunk(vec![0u8; 65537])));
    assert!(!s.accepts(&FileEvent::Chunk(vec![])));
    assert!(s.accepts(&FileEvent::Chunk(vec![7u8; 65536])));
}

#[test]
fn changed_files_empty_uri_cache_then_drop_paths() {
    let cmds = Fallback::watch_file_changes(&vec!["/srv/public/a.css".to_string(), "/srv/public/b.js".to_string()]);
    assert_eq!(cmds.len(), 3);
    assert!(matches!(cmds[0], CacheCommand::InvalidateAllByUri));
    assert!(matches!(cmds[1], CacheCommand::InvalidateByPath(ref k) if k == "/srv/public/a.css"));
    assert!(matches!(cmds[2], CacheCommand::InvalidateByPath(ref k) if k == "/srv/public/b.js"));
}

#[test]
fn cache_headers_for_hash() {
    let headers = Fallback::handle_file_cache_headers("abc123");
    assert_eq!(
        headers,
        vec![
            ("cache-control".to_string(), "public, max-age=31536000 ".to_string()),
            ("etag".to_string(), "abc123".to_string())
        ]
    );
    assert_eq!(CACHE_CONTROL_VALUE, "public, max-age=31536000 ");
}

#[test]
fn fallback_file_is_index_html() {
    assert_eq!(fallback().fallback_file_path(), "/srv/public/index.html");
}

struct Caches {
    by_uri: std::collections::HashMap<String, String>,
    by_path: std::collections::HashMap<String, String>,
}

impl Caches {
    fn apply(&mut self, cmds: Vec<CacheCommand>) {
        for c in cmds {
            match c {
                CacheCommand::InsertByUri(k, v) => {
                    self.by_uri.insert(k, v);
                }
                CacheCommand::InsertByPath(k, v) => {
                    self.by_path.insert(k, v);
                }
                CacheCommand::InvalidateByPath(k) => {
                    self.by_path.remove(&k);
                }
                CacheCommand::InvalidateAllByUri => self.by_uri.clear(),
            }
        }
    }
}

/// Runs one request against the caches and a file of `content` (read in
/// one chunk); returns the answer and whether the file was opened.
fn run(caches: &mut Caches, uri: &str, content: &[u8]) -> (Option<String>, bool) {
    let (mut state, mut step) = fallback().handle_file(uri.to_string());
    let mut opened = false;
    let mut read = false;
    loop {
        caches.apply(std::mem::take(&mut step.commands));
        let event = match step.request {
            FileRequest::UriEntry(k) => FileEvent::UriEntry(caches.by_uri.get(&k).cloned()),
            FileRequest::PathEntry(k) => FileEvent::PathEntry(caches.by_path.get(&k).cloned()),
            FileRequest::Open(_) => {
                opened = true;
                FileEvent::Opened(true)
            }
            FileRequest::Read => {
                if read {
                    FileEvent::EndOfInput
                } else {
                    read = true;
                    FileEvent::Chunk(content.to_vec())
                }
            }
            FileRequest::Respond(r) => return (r, opened),
        };
        assert!(state.accepts(&event));
        let next = state.step(event);
        state = next.0;
        step = next.1;
    }
}

#[test]
fn answered_uri_is_answered_again_from_cache() {
    let mut caches = Caches { by_uri: Default::default(), by_path: Default::default() };
    let (first, opened) = run(&mut caches, "/app.css", b"body{}");
    assert!(opened);
    assert_eq!(first, Some(expected_hash(&[b"body{}"])));
    let (second, opened) = run(&mut caches, "/app.css", b"changed but not notified");
    assert!(!opened);
    assert_eq!(second, first);
}

#[test]
fn change_notification_forces_fresh_hash() {
    let mut caches = Caches { by_uri: Default::default(), by_path: Default::default() };
    let (first, _) = run(&mut caches, "/app.css", b"body{}");
    caches.apply(Fallback::watch_file_changes(&vec!["/srv/public/app.css".to_string()]));
    assert!(caches.by_uri.is_empty());
    let (second, opened) = run(&mut caches, "/app.css", b"body{color:red}");
    assert!(opened);
    assert_eq!(second, Some(expected_hash(&[b"body{color:red}"])));
    assert_ne!(second, first);
    assert!(caches.by_uri.values().all(|v| v != CACHE_FILE_STATE_HASHING));
}
