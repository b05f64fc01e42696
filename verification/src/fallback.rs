use vstd::prelude::*;
use vstd::string::StringExecFns;
use crate::hashing::{FileHasher, file_hash_text, valid_chunk};
use crate::text::{is_lower_hex_char, lemma_hex_lower_shape};
use crate::paths::{joined_path, join_path};

verus! {

/// What the cache of paths holds for a file while it is being hashed.
pub const CACHE_FILE_STATE_HASHING: &'static str = "$___hashing___$";

/// The marker text of a file being hashed.
pub open spec fn hashing_marker() -> Seq<char> {
    CACHE_FILE_STATE_HASHING@
}

/// The value of an optional text.
pub open spec fn opt_text(o: Option<String>) -> Option<Seq<char>> {
    match o {
        Some(s) => Some(s@),
        None => None,
    }
}

/// The path of the URL that `url::Url::parse` makes of `input`, or `None`
/// where it refuses the input.
pub uninterp spec fn parsed_url_path(input: Seq<char>) -> Option<Seq<char>>;

/// `url::Url::parse` followed by `Url::path`: the path of the URL, or `None`
/// where parsing fails. Which inputs parse and what path they have is only
/// named.
#[verifier::external_body]
fn url_path(input: &str) -> (res: Option<String>)
    ensures
        opt_text(res) == parsed_url_path(input@),
{
    match url::Url::parse(input) {
        Ok(url) => Some(url.path().to_string()),
        Err(_) => None,
    }
}

/// Whether a request URI already names a scheme starting with `http`.
pub open spec fn starts_with_http(uri: Seq<char>) -> bool {
    uri.len() >= 4 && uri.subrange(0, 4) == seq!['h', 't', 't', 'p']
}

/// The base put before a URI that names no scheme, so that it parses.
pub open spec fn local_base() -> Seq<char> {
    "http://a.b"@
}

/// A request URI as it is parsed: unchanged where it starts with `http`,
/// else put after a made-up local base.
pub open spec fn normalized_uri(uri: Seq<char>) -> Seq<char> {
    if starts_with_http(uri) {
        uri
    } else {
        local_base() + uri
    }
}

/// The file that a URL path names under `public_dir`: the path without its
/// first character (its leading `/`), adjoined to the directory. An empty
/// path names no file.
pub open spec fn url_path_file(public_dir: Seq<char>, path: Seq<char>) -> Option<Seq<char>> {
    if path.len() == 0 {
        None
    } else {
        Some(joined_path(public_dir, path.drop_first()))
    }
}

/// The file that a request URI names under `public_dir`, if its URI parses.
pub open spec fn resolved_file_path(public_dir: Seq<char>, uri: Seq<char>) -> Option<Seq<char>> {
    match parsed_url_path(normalized_uri(uri)) {
        None => None,
        Some(path) => url_path_file(public_dir, path),
    }
}

/// Puts the local base before a URI that does not start with `http`.
pub fn normalize_uri(uri: &str) -> (res: String)
    ensures
        res@ == normalized_uri(uri@),
{
    let n = uri.unicode_len();
    let is_http = n >= 4 && uri.get_char(0) == 'h' && uri.get_char(1) == 't' && uri.get_char(2) == 't'
        && uri.get_char(3) == 'p';
    if is_http {
        assert(uri@.subrange(0, 4) =~= seq!['h', 't', 't', 'p']);
        String::from_str(uri)
    } else {
        assert(!starts_with_http(uri@)) by {
            if starts_with_http(uri@) {
                assert(uri@.subrange(0, 4)[1] == uri@[1]);
                assert(uri@.subrange(0, 4)[2] == uri@[2]);
                assert(uri@.subrange(0, 4)[3] == uri@[3]);
                assert(uri@.subrange(0, 4)[0] == uri@[0]);
            }
        }
        String::from_str("http://a.b").concat(uri)
    }
}

/// The file that a parsed URL path names under `public_dir`; `None` for an
/// empty path.
pub fn file_for_url_path(public_dir: &str, path: &str) -> (res: Option<String>)
    ensures
        opt_text(res) == url_path_file(public_dir@, path@),
{
    let n = path.unicode_len();
    if n == 0 {
        None
    } else {
        let rest = path.substring_char(1, n);
        assert(rest@ =~= path@.drop_first());
        Some(join_path(public_dir, rest))
    }
}

/// The file that a request URI names under `public_dir`; `None` where the
/// URI does not parse.
pub fn resolve_file_path(public_dir: &str, uri: &str) -> (res: Option<String>)
    ensures
        opt_text(res) == resolved_file_path(public_dir@, uri@),
{
    let target = normalize_uri(uri);
    match url_path(target.as_str()) {
        None => None,
        Some(path) => file_for_url_path(public_dir, path.as_str()),
    }
}

/// A change to one of the two caches of file hashes: the one keyed by the
/// request URI as it came, and the one keyed by the file's path.
#[derive(Debug)]
pub enum CacheCommand {
    InsertByUri(String, String),
    InsertByPath(String, String),
    InvalidateByPath(String),
    InvalidateAllByUri,
}

/// What the hashing of a requested file waits for next.
#[derive(Debug)]
pub enum FileRequest {
    /// The entry of the URI cache for this key.
    UriEntry(String),
    /// The entry of the path cache for this key.
    PathEntry(String),
    /// Whether the file at this path opens.
    Open(String),
    /// The next read of the open file.
    Read,
    /// Nothing more: this is the answer, a hash or none.
    Respond(Option<String>),
}

/// One step of the hashing of a requested file: cache changes to make, in
/// order, then a request.
#[derive(Debug)]
pub struct FileStep {
    pub commands: Vec<CacheCommand>,
    pub request: FileRequest,
}

/// What came back for the last request.
#[derive(Debug)]
pub enum FileEvent {
    UriEntry(Option<String>),
    PathEntry(Option<String>),
    Opened(bool),
    /// A read that handed over at least one byte.
    Chunk(Vec<u8>),
    /// A read that handed over nothing, or failed.
    EndOfInput,
}

/// The hashing of the file that a request names, for its ETag.
pub enum HandleFile {
    AwaitUriEntry { uri: String, public_dir: String },
    AwaitPathEntry { uri: String, path_file: String },
    AwaitOpen { uri: String, path_file: String },
    Reading { uri: String, path_file: String, hasher: FileHasher },
    Done,
}

/// Whether a step makes no cache change.
pub open spec fn no_commands(out: FileStep) -> bool {
    out.commands@.len() == 0
}

/// Whether a step ends with the answer `result`.
pub open spec fn responds(out: FileStep, result: Option<Seq<char>>) -> bool {
    out.request matches FileRequest::Respond(r) && opt_text(r) == result
}

/// Whether a command puts `value` under `key` in the URI cache.
pub open spec fn inserts_by_uri(c: CacheCommand, key: Seq<char>, value: Seq<char>) -> bool {
    c matches CacheCommand::InsertByUri(k, v) && k@ == key && v@ == value
}

/// Whether a command puts `value` under `key` in the path cache.
pub open spec fn inserts_by_path(c: CacheCommand, key: Seq<char>, value: Seq<char>) -> bool {
    c matches CacheCommand::InsertByPath(k, v) && k@ == key && v@ == value
}

/// Whether the machine is ready for `event`.
pub open spec fn accepts(s: HandleFile, event: FileEvent) -> bool {
    match s {
        HandleFile::AwaitUriEntry { .. } => event is UriEntry,
        HandleFile::AwaitPathEntry { .. } => event is PathEntry,
        HandleFile::AwaitOpen { .. } => event is Opened,
        HandleFile::Reading { .. } => match event {
            FileEvent::Chunk(c) => valid_chunk(c@),
            FileEvent::EndOfInput => true,
            _ => false,
        },
        HandleFile::Done => false,
    }
}

/// One step of the hashing of a requested file, from state `s` and event
/// `e` to state `t` and step `out`:
/// - a hash in the URI cache is the answer;
/// - else the URI names a file, or the answer is none;
/// - a file being hashed has no answer yet; a hash in the path cache is the
///   answer and goes into the URI cache;
/// - else a file that does not open has no answer; one that opens is marked
///   as being hashed and read to its end;
/// - its hash goes into both caches and is the answer.
pub open spec fn transition(s: HandleFile, e: FileEvent, t: HandleFile, out: FileStep) -> bool {
    match s {
        HandleFile::AwaitUriEntry { uri, public_dir } => match e {
            FileEvent::UriEntry(Some(h)) => t is Done && no_commands(out) && responds(out, Some(h@)),
            FileEvent::UriEntry(None) => match resolved_file_path(public_dir@, uri@) {
                None => t is Done && no_commands(out) && responds(out, None),
                Some(p) => {
                    &&& t matches HandleFile::AwaitPathEntry { uri: u, path_file: f }
                    &&& u@ == uri@
                    &&& f@ == p
                    &&& no_commands(out)
                    &&& out.request matches FileRequest::PathEntry(k)
                    &&& k@ == p
                },
            },
            _ => false,
        },
        HandleFile::AwaitPathEntry { uri, path_file } => match e {
            FileEvent::PathEntry(Some(v)) => if v@ == hashing_marker() {
                t is Done && no_commands(out) && responds(out, None)
            } else {
                &&& t is Done
                &&& out.commands@.len() == 1
                &&& inserts_by_uri(out.commands@[0], uri@, v@)
                &&& responds(out, Some(v@))
            },
            FileEvent::PathEntry(None) => {
                &&& t matches HandleFile::AwaitOpen { uri: u, path_file: f }
                &&& u@ == uri@
                &&& f@ == path_file@
                &&& no_commands(out)
                &&& out.request matches FileRequest::Open(k)
                &&& k@ == path_file@
            },
            _ => false,
        },
        HandleFile::AwaitOpen { uri, path_file } => match e {
            FileEvent::Opened(false) => t is Done && no_commands(out) && responds(out, None),
            FileEvent::Opened(true) => {
                &&& t matches HandleFile::Reading { uri: u, path_file: f, hasher }
                &&& u@ == uri@
                &&& f@ == path_file@
                &&& hasher.chunks() == Seq::<Seq<u8>>::empty()
                &&& out.commands@.len() == 1
                &&& inserts_by_path(out.commands@[0], path_file@, hashing_marker())
                &&& out.request is Read
            },
            _ => false,
        },
        HandleFile::Reading { uri, path_file, hasher } => match e {
            FileEvent::Chunk(c) => {
                &&& t matches HandleFile::Reading { uri: u, path_file: f, hasher: h }
                &&& u@ == uri@
                &&& f@ == path_file@
                &&& h.chunks() == hasher.chunks().push(c@)
                &&& no_commands(out)
                &&& out.request is Read
            },
            FileEvent::EndOfInput => {
                let hash = file_hash_text(hasher.chunks());
                &&& t is Done
                &&& out.commands@.len() == 2
                &&& inserts_by_uri(out.commands@[0], uri@, hash)
                &&& inserts_by_path(out.commands@[1], path_file@, hash)
                &&& responds(out, Some(hash))
            },
            _ => false,
        },
        HandleFile::Done => false,
    }
}

impl HandleFile {
    /// The hasher of a file being read is sound.
    pub closed spec fn wf(&self) -> bool {
        match self {
            HandleFile::Reading { hasher, .. } => hasher.wf(),
            _ => true,
        }
    }

    /// Whether the machine is ready for `event`.
    pub fn accepts(&self, event: &FileEvent) -> (res: bool)
        ensures
            res == accepts(*self, *event),
    {
        match self {
            HandleFile::AwaitUriEntry { .. } => matches!(event, FileEvent::UriEntry(_)),
            HandleFile::AwaitPathEntry { .. } => matches!(event, FileEvent::PathEntry(_)),
            HandleFile::AwaitOpen { .. } => matches!(event, FileEvent::Opened(_)),
            HandleFile::Reading { .. } => match event {
                FileEvent::Chunk(c) => 1 <= c.len() && c.len() <= crate::hashing::READ_BUFFER_LEN,
                FileEvent::EndOfInput => true,
                _ => false,
            },
            HandleFile::Done => false,
        }
    }

    /// Takes the event that came back for the last request and gives the
    /// next state and step.
    pub fn step(self, event: FileEvent) -> (res: (HandleFile, FileStep))
        requires
            self.wf(),
            accepts(self, event),
        ensures
            res.0.wf(),
            transition(self, event, res.0, res.1),
    {
        match self {
            HandleFile::AwaitUriEntry { uri, public_dir } => match event {
                FileEvent::UriEntry(Some(h)) => (
                    HandleFile::Done,
                    FileStep { commands: Vec::new(), request: FileRequest::Respond(Some(h)) },
                ),
                FileEvent::UriEntry(None) => match resolve_file_path(public_dir.as_str(), uri.as_str()) {
                    None => (HandleFile::Done, FileStep { commands: Vec::new(), request: FileRequest::Respond(None) }),
                    Some(p) => {
                        let key = p.clone();
                        (
                            HandleFile::AwaitPathEntry { uri, path_file: p },
                            FileStep { commands: Vec::new(), request: FileRequest::PathEntry(key) },
                        )
                    },
                },
                _ => (HandleFile::Done, FileStep { commands: Vec::new(), request: FileRequest::Read }),
            },
            HandleFile::AwaitPathEntry { uri, path_file } => match event {
                FileEvent::PathEntry(Some(v)) => {
                    let marker = String::from_str(CACHE_FILE_STATE_HASHING);
                    if v == marker {
                        (HandleFile::Done, FileStep { commands: Vec::new(), request: FileRequest::Respond(None) })
                    } else {
                        let mut commands = Vec::new();
                        commands.push(CacheCommand::InsertByUri(uri, v.clone()));
                        (HandleFile::Done, FileStep { commands, request: FileRequest::Respond(Some(v)) })
                    }
                },
                FileEvent::PathEntry(None) => {
                    let key = path_file.clone();
                    (HandleFile::AwaitOpen { uri, path_file }, FileStep { commands: Vec::new(), request: FileRequest::Open(key) })
                },
                _ => (HandleFile::Done, FileStep { commands: Vec::new(), request: FileRequest::Read }),
            },
            HandleFile::AwaitOpen { uri, path_file } => match event {
                FileEvent::Opened(false) => (
                    HandleFile::Done,
                    FileStep { commands: Vec::new(), request: FileRequest::Respond(None) },
                ),
                FileEvent::Opened(true) => {
                    let mut commands = Vec::new();
                    commands.push(CacheCommand::InsertByPath(path_file.clone(), String::from_str(CACHE_FILE_STATE_HASHING)));
                    let hasher = FileHasher::new();
                    (HandleFile::Reading { uri, path_file, hasher }, FileStep { commands, request: FileRequest::Read })
                },
                _ => (HandleFile::Done, FileStep { commands: Vec::new(), request: FileRequest::Read }),
            },
            HandleFile::Reading { uri, path_file, hasher } => match event {
                FileEvent::Chunk(c) => {
                    let mut hasher = hasher;
                    hasher.feed(c.as_slice());
                    (HandleFile::Reading { uri, path_file, hasher }, FileStep { commands: Vec::new(), request: FileRequest::Read })
                },
                FileEvent::EndOfInput => {
                    let hash = hasher.finish();
                    let mut commands = Vec::new();
                    commands.push(CacheCommand::InsertByUri(uri, hash.clone()));
                    commands.push(CacheCommand::InsertByPath(path_file, hash.clone()));
                    (HandleFile::Done, FileStep { commands, request: FileRequest::Respond(Some(hash)) })
                },
                _ => (HandleFile::Done, FileStep { commands: Vec::new(), request: FileRequest::Read }),
            },
            HandleFile::Done => (HandleFile::Done, FileStep { commands: Vec::new(), request: FileRequest::Read }),
        }
    }
}

/// Serves the files of the public directory, with their hashes as ETags.
#[derive(Debug, Clone)]
pub struct Fallback {
    pub path_public: String,
}

/// The value of the `Cache-Control` header of a hashed file.
pub const CACHE_CONTROL_VALUE: &'static str = "public, max-age=31536000 ";

/// Whether `s` may stand as an HTTP header value: no control character but
/// the tab, and no DEL.
pub open spec fn valid_header_value(s: Seq<char>) -> bool {
    forall|i: int| 0 <= i < s.len() ==> (#[trigger] s[i] == '\t' || (' ' <= s[i] && s[i] != '\x7f'))
}

/// Whether `c` is the command that empties the URI cache.
pub open spec fn invalidates_all_by_uri(c: CacheCommand) -> bool {
    c is InvalidateAllByUri
}

/// Whether `c` drops `key` from the path cache.
pub open spec fn invalidates_by_path(c: CacheCommand, key: Seq<char>) -> bool {
    c matches CacheCommand::InvalidateByPath(k) && k@ == key
}

impl Fallback {
    /// Starts hashing the file that the request URI `uri` names: the first
    /// request is the URI cache's entry for the URI.
    pub fn handle_file(&self, uri: String) -> (res: (HandleFile, FileStep))
        ensures
            res.0.wf(),
            res.0 matches HandleFile::AwaitUriEntry { uri: u, public_dir: d } && u@ == uri@ && d@ == self.path_public@,
            no_commands(res.1),
            res.1.request matches FileRequest::UriEntry(k) && k@ == uri@,
    {
        let key = uri.clone();
        (
            HandleFile::AwaitUriEntry { uri, public_dir: self.path_public.clone() },
            FileStep { commands: Vec::new(), request: FileRequest::UriEntry(key) },
        )
    }

    /// The file served where the public directory has none for a request:
    /// `index.html` in it.
    pub fn fallback_file_path(&self) -> (res: String)
        ensures
            res@ == joined_path(self.path_public@, "index.html"@),
    {
        join_path(self.path_public.as_str(), "index.html")
    }

    /// The headers of a file whose hash is `etag`: it may be cached for a
    /// year, under that ETag.
    pub fn handle_file_cache_headers(etag: &str) -> (res: Vec<(String, String)>)
        requires
            valid_header_value(etag@),
        ensures
            res@.len() == 2,
            res@[0].0@ == "cache-control"@,
            res@[0].1@ == CACHE_CONTROL_VALUE@,
            res@[1].0@ == "etag"@,
            res@[1].1@ == etag@,
    {
        let mut res = Vec::new();
        res.push((String::from_str("cache-control"), String::from_str(CACHE_CONTROL_VALUE)));
        res.push((String::from_str("etag"), String::from_str(etag)));
        res
    }

    /// The cache changes for files that changed: the URI cache is emptied,
    /// then each changed path is dropped from the path cache, in order.
    pub fn watch_file_changes(paths: &Vec<String>) -> (res: Vec<CacheCommand>)
        ensures
            res@.len() == paths@.len() + 1,
            invalidates_all_by_uri(res@[0]),
            forall|i: int| 0 <= i < paths@.len() ==> invalidates_by_path(#[trigger] res@[i + 1], paths@[i]@),
    {
        let mut res = Vec::new();
        res.push(CacheCommand::InvalidateAllByUri);
        let mut i: usize = 0;
        while i < paths.len()
            invariant
                i <= paths@.len(),
                res@.len() == i + 1,
                invalidates_all_by_uri(res@[0]),
                forall|j: int| 0 <= j < i ==> invalidates_by_path(#[trigger] res@[j + 1], paths@[j]@),
            decreases paths@.len() - i,
        {
            res.push(CacheCommand::InvalidateByPath(paths[i].clone()));
            i = i + 1;
        }
        res
    }
}

/// Lowercase hexadecimal text, such as a file's hash, may stand as a header
/// value, so it can always be sent as an ETag.
pub proof fn lemma_hex_is_valid_header_value(s: Seq<char>)
    requires
        forall|i: int| 0 <= i < s.len() ==> is_lower_hex_char(#[trigger] s[i]),
    ensures
        valid_header_value(s),
{
    assert forall|i: int| 0 <= i < s.len() implies (#[trigger] s[i] == '\t' || (' ' <= s[i] && s[i] != '\x7f')) by {
        assert(is_lower_hex_char(s[i]));
    }
}

/// A file's hash is never the marker of a file being hashed.
pub proof fn lemma_hash_is_not_marker(chunks: Seq<Seq<u8>>)
    ensures
        file_hash_text(chunks) != hashing_marker(),
{
    reveal_strlit("$___hashing___$");
    let h = file_hash_text(chunks);
    lemma_hex_lower_shape(crate::hashing::blake3_digest(crate::hashing::hashed_input(chunks)));
    if h.len() > 0 {
        assert(is_lower_hex_char(h[0]));
        assert(hashing_marker()[0] == '$');
    } else {
        assert(hashing_marker().len() == 15);
    }
}

/// The request URI that a machine works for (empty once it is done).
pub open spec fn request_uri(s: HandleFile) -> Seq<char> {
    match s {
        HandleFile::AwaitUriEntry { uri, .. } => uri@,
        HandleFile::AwaitPathEntry { uri, .. } => uri@,
        HandleFile::AwaitOpen { uri, .. } => uri@,
        HandleFile::Reading { uri, .. } => uri@,
        HandleFile::Done => Seq::empty(),
    }
}

/// Whatever a miss of the URI cache is answered with also goes into the
/// URI cache under the request's URI, in the same step.
pub proof fn lemma_answer_is_cached(s: HandleFile, e: FileEvent, t: HandleFile, out: FileStep, h: Seq<char>)
    requires
        transition(s, e, t, out),
        !(s is AwaitUriEntry),
        responds(out, Some(h)),
    ensures
        exists|i: int| 0 <= i < out.commands@.len() && inserts_by_uri(#[trigger] out.commands@[i], request_uri(s), h),
{
    match s {
        HandleFile::AwaitPathEntry { .. } => {
            assert(inserts_by_uri(out.commands@[0], request_uri(s), h));
        },
        HandleFile::Reading { .. } => {
            assert(inserts_by_uri(out.commands@[0], request_uri(s), h));
        },
        _ => {},
    }
}

/// A file that was read to its end is answered with the same hash that
/// goes into both caches, and that hash depends on nothing but the reads.
pub proof fn lemma_hash_written_to_both_caches(s: HandleFile, t: HandleFile, out: FileStep)
    requires
        transition(s, FileEvent::EndOfInput, t, out),
    ensures
        s is Reading,
        out.commands@.len() == 2,
        inserts_by_uri(out.commands@[0], s->Reading_uri@, file_hash_text(s->Reading_hasher.chunks())),
        inserts_by_path(out.commands@[1], s->Reading_path_file@, file_hash_text(s->Reading_hasher.chunks())),
        responds(out, Some(file_hash_text(s->Reading_hasher.chunks()))),
{
}

/// The machine answers exactly when it is done: a step either finishes
/// with an answer or goes on with a request for more.
pub proof fn lemma_done_iff_responds(s: HandleFile, e: FileEvent, t: HandleFile, out: FileStep)
    requires
        transition(s, e, t, out),
    ensures
        t is Done <==> out.request is Respond,
{
}

/// What the two caches of file hashes hold: hashes by request URI, and
/// hashes (or the marker) by file path.
pub struct CacheState {
    pub by_uri: Map<Seq<char>, Seq<char>>,
    pub by_path: Map<Seq<char>, Seq<char>>,
}

/// The caches after one change.
pub open spec fn apply_command(c: CacheState, cmd: CacheCommand) -> CacheState {
    match cmd {
        CacheCommand::InsertByUri(k, v) => CacheState { by_uri: c.by_uri.insert(k@, v@), by_path: c.by_path },
        CacheCommand::InsertByPath(k, v) => CacheState { by_uri: c.by_uri, by_path: c.by_path.insert(k@, v@) },
        CacheCommand::InvalidateByPath(k) => CacheState { by_uri: c.by_uri, by_path: c.by_path.remove(k@) },
        CacheCommand::InvalidateAllByUri => CacheState { by_uri: Map::empty(), by_path: c.by_path },
    }
}

/// The caches after changes made in order.
pub open spec fn apply_commands(c: CacheState, cmds: Seq<CacheCommand>) -> CacheState
    decreases cmds.len(),
{
    if cmds.len() == 0 {
        c
    } else {
        apply_command(apply_commands(c, cmds.drop_last()), cmds.last())
    }
}

/// Whether no entry of the URI cache is the marker.
pub open spec fn uri_cache_free_of_marker(c: CacheState) -> bool {
    forall|k: Seq<char>| #[trigger] c.by_uri.contains_key(k) ==> c.by_uri[k] != hashing_marker()
}

/// Whether the event answers a request with what the caches hold.
pub open spec fn event_read_from(c: CacheState, e: FileEvent) -> bool {
    &&& (e matches FileEvent::UriEntry(Some(h)) ==> exists|k: Seq<char>| #[trigger] c.by_uri.contains_key(k) && c.by_uri[k] == h@)
    &&& (e matches FileEvent::PathEntry(Some(h)) ==> exists|k: Seq<char>| #[trigger] c.by_path.contains_key(k) && c.by_path[k] == h@)
}

/// Every step keeps the URI cache free of the marker, and never answers
/// with it, when its event was read from the caches: a file being hashed
/// is never served under the marker as its ETag.
pub proof fn lemma_steps_keep_uri_cache_free_of_marker(
    c: CacheState,
    s: HandleFile,
    e: FileEvent,
    t: HandleFile,
    out: FileStep,
)
    requires
        uri_cache_free_of_marker(c),
        event_read_from(c, e),
        transition(s, e, t, out),
    ensures
        uri_cache_free_of_marker(apply_commands(c, out.commands@)),
        !responds(out, Some(hashing_marker())),
{
    let cmds = out.commands@;
    if let HandleFile::Reading { hasher, .. } = s {
        lemma_hash_is_not_marker(hasher.chunks());
    }
    if let FileEvent::UriEntry(Some(h)) = e {
        let k = choose|k: Seq<char>| #[trigger] c.by_uri.contains_key(k) && c.by_uri[k] == h@;
        assert(c.by_uri.contains_key(k));
    }
    if cmds.len() == 0 {
        assert(apply_commands(c, cmds) == c);
    } else if cmds.len() == 1 {
        assert(cmds.drop_last() =~= Seq::<CacheCommand>::empty());
        assert(apply_commands(c, cmds.drop_last()) == c);
        assert(cmds.last() == cmds[0]);
        let after = apply_commands(c, cmds);
        assert(after == apply_command(c, cmds[0]));
        if let CacheCommand::InsertByUri(k, v) = cmds[0] {
            assert(v@ != hashing_marker());
            assert forall|key: Seq<char>| #[trigger] after.by_uri.contains_key(key) implies after.by_uri[key] != hashing_marker() by {
                if key != k@ {
                    assert(c.by_uri.contains_key(key));
                }
            }
        } else {
            assert(after.by_uri == c.by_uri);
        }
    } else {
        assert(cmds.len() == 2);
        assert(cmds.drop_last().drop_last() =~= Seq::<CacheCommand>::empty());
        let mid = apply_command(c, cmds[0]);
        assert(apply_commands(c, cmds.drop_last().drop_last()) == c);
        assert(cmds.drop_last().last() == cmds[0]);
        assert(apply_commands(c, cmds.drop_last()) == mid);
        assert(cmds.last() == cmds[1]);
        let after = apply_commands(c, cmds);
        assert(after == apply_command(mid, cmds[1]));
        assert(after.by_uri == mid.by_uri);
        if let CacheCommand::InsertByUri(k, v) = cmds[0] {
            assert(v@ != hashing_marker());
            assert forall|key: Seq<char>| #[trigger] after.by_uri.contains_key(key) implies after.by_uri[key] != hashing_marker() by {
                if key != k@ {
                    assert(c.by_uri.contains_key(key));
                }
            }
        }
    }
}

/// After a change notification's commands, the URI cache is empty and no
/// changed path is left in the path cache, whatever the caches held.
pub proof fn lemma_changes_clear_caches(c: CacheState, paths: Seq<Seq<char>>, cmds: Seq<CacheCommand>)
    requires
        cmds.len() == paths.len() + 1,
        invalidates_all_by_uri(cmds[0]),
        forall|i: int| 0 <= i < paths.len() ==> invalidates_by_path(#[trigger] cmds[i + 1], paths[i]),
    ensures
        apply_commands(c, cmds).by_uri.dom() == Set::<Seq<char>>::empty(),
        forall|i: int| 0 <= i < paths.len() ==> !(#[trigger] apply_commands(c, cmds).by_path.contains_key(paths[i])),
{
    lemma_changes_clear_prefix(c, paths, cmds, cmds.len() as int);
    assert(cmds.take(cmds.len() as int) =~= cmds);
}

proof fn lemma_changes_clear_prefix(c: CacheState, paths: Seq<Seq<char>>, cmds: Seq<CacheCommand>, n: int)
    requires
        cmds.len() == paths.len() + 1,
        invalidates_all_by_uri(cmds[0]),
        forall|i: int| 0 <= i < paths.len() ==> invalidates_by_path(#[trigger] cmds[i + 1], paths[i]),
        1 <= n <= cmds.len(),
    ensures
        apply_commands(c, cmds.take(n)).by_uri.dom() == Set::<Seq<char>>::empty(),
        forall|i: int| 0 <= i < n - 1 ==> !(#[trigger] apply_commands(c, cmds.take(n)).by_path.contains_key(paths[i])),
    decreases n,
{
    let pre = cmds.take(n);
    assert(pre.drop_last() =~= cmds.take(n - 1));
    if n == 1 {
        assert(cmds.take(0) =~= Seq::<CacheCommand>::empty());
        assert(apply_commands(c, pre).by_uri.dom() =~= Set::<Seq<char>>::empty());
    } else {
        lemma_changes_clear_prefix(c, paths, cmds, n - 1);
        assert(invalidates_by_path(cmds[(n - 2) + 1], paths[n - 2]));
        assert(pre.last() == cmds[n - 1]);
        let before = apply_commands(c, cmds.take(n - 1));
        let after = apply_commands(c, pre);
        assert(after.by_uri == before.by_uri);
        assert forall|i: int| 0 <= i < n - 1 implies !(#[trigger] after.by_path.contains_key(paths[i])) by {
            if i < n - 2 {
                assert(!before.by_path.contains_key(paths[i]));
            }
        }
    }
}

/// What a cache holds under `key`, if anything.
pub open spec fn cache_lookup(m: Map<Seq<char>, Seq<char>>, key: Seq<char>) -> Option<Seq<char>> {
    if m.contains_key(key) {
        Some(m[key])
    } else {
        None
    }
}

/// Whether `e` is what the caches `c` answer to the request that state `s`
/// waits on: the URI cache's entry for the URI, or the path cache's entry
/// for the file.
pub open spec fn event_matches_caches(c: CacheState, s: HandleFile, e: FileEvent) -> bool {
    match s {
        HandleFile::AwaitUriEntry { uri, .. } => e matches FileEvent::UriEntry(o) && opt_text(o) == cache_lookup(
            c.by_uri,
            uri@,
        ),
        HandleFile::AwaitPathEntry { path_file, .. } => e matches FileEvent::PathEntry(o) && opt_text(o)
            == cache_lookup(c.by_path, path_file@),
        _ => true,
    }
}

/// Step `i` of a run: a transition whose event the caches answered, after
/// which the caches hold what the step's commands made of them.
pub open spec fn run_step(
    caches: Seq<CacheState>,
    states: Seq<HandleFile>,
    events: Seq<FileEvent>,
    outs: Seq<FileStep>,
    i: int,
) -> bool {
    &&& transition(states[i], events[i], states[i + 1], outs[i])
    &&& event_matches_caches(caches[i], states[i], events[i])
    &&& caches[i + 1] == apply_commands(caches[i], outs[i].commands@)
}

/// A run of the hashing of one requested file: states, the events that
/// came back, the steps taken, and the caches before each step.
pub open spec fn is_run(
    caches: Seq<CacheState>,
    states: Seq<HandleFile>,
    events: Seq<FileEvent>,
    outs: Seq<FileStep>,
) -> bool {
    &&& states.len() == events.len() + 1
    &&& outs.len() == events.len()
    &&& caches.len() == events.len() + 1
    &&& forall|i: int| 0 <= i < events.len() ==> #[trigger] run_step(caches, states, events, outs, i)
}

proof fn lemma_matching_event_is_read(c: CacheState, s: HandleFile, e: FileEvent, t: HandleFile, out: FileStep)
    requires
        transition(s, e, t, out),
        event_matches_caches(c, s, e),
    ensures
        event_read_from(c, e),
{
    match s {
        HandleFile::AwaitUriEntry { uri, .. } => {
            if let FileEvent::UriEntry(Some(h)) = e {
                assert(c.by_uri.contains_key(uri@) && c.by_uri[uri@] == h@);
            }
        },
        HandleFile::AwaitPathEntry { path_file, .. } => {
            if let FileEvent::PathEntry(Some(h)) = e {
                assert(c.by_path.contains_key(path_file@) && c.by_path[path_file@] == h@);
            }
        },
        _ => {},
    }
}

/// Over a whole run, the URI cache stays free of the marker and the marker
/// is never an answer, when it started free of it.
pub proof fn lemma_run_keeps_uri_cache_free_of_marker(
    caches: Seq<CacheState>,
    states: Seq<HandleFile>,
    events: Seq<FileEvent>,
    outs: Seq<FileStep>,
)
    requires
        is_run(caches, states, events, outs),
        uri_cache_free_of_marker(caches[0]),
    ensures
        forall|i: int| 0 <= i < caches.len() ==> uri_cache_free_of_marker(#[trigger] caches[i]),
        forall|i: int| 0 <= i < outs.len() ==> !responds(#[trigger] outs[i], Some(hashing_marker())),
{
    assert forall|i: int| 0 <= i < caches.len() implies uri_cache_free_of_marker(#[trigger] caches[i]) by {
        lemma_run_prefix_free_of_marker(caches, states, events, outs, i);
    }
    assert forall|i: int| 0 <= i < outs.len() implies !responds(#[trigger] outs[i], Some(hashing_marker())) by {
        lemma_run_prefix_free_of_marker(caches, states, events, outs, i);
        assert(run_step(caches, states, events, outs, i));
        lemma_matching_event_is_read(caches[i], states[i], events[i], states[i + 1], outs[i]);
        lemma_steps_keep_uri_cache_free_of_marker(caches[i], states[i], events[i], states[i + 1], outs[i]);
    }
}

proof fn lemma_run_prefix_free_of_marker(
    caches: Seq<CacheState>,
    states: Seq<HandleFile>,
    events: Seq<FileEvent>,
    outs: Seq<FileStep>,
    n: int,
)
    requires
        is_run(caches, states, events, outs),
        uri_cache_free_of_marker(caches[0]),
        0 <= n < caches.len(),
    ensures
        uri_cache_free_of_marker(caches[n]),
    decreases n,
{
    if n > 0 {
        lemma_run_prefix_free_of_marker(caches, states, events, outs, n - 1);
        assert(run_step(caches, states, events, outs, n - 1));
        lemma_matching_event_is_read(caches[n - 1], states[n - 1], events[n - 1], states[n], outs[n - 1]);
        lemma_steps_keep_uri_cache_free_of_marker(caches[n - 1], states[n - 1], events[n - 1], states[n], outs[n - 1]);
    }
}

/// A URI that was answered with a hash is answered with the same hash again
/// by the next request for it, straight from the URI cache and without
/// opening any file, so long as the caches were not changed in between.
pub proof fn lemma_answer_served_again(
    c: CacheState,
    s: HandleFile,
    e: FileEvent,
    t: HandleFile,
    out: FileStep,
    h: Seq<char>,
    s2: HandleFile,
    e2: FileEvent,
    t2: HandleFile,
    out2: FileStep,
)
    requires
        transition(s, e, t, out),
        event_matches_caches(c, s, e),
        responds(out, Some(h)),
        s2 is AwaitUriEntry,
        request_uri(s2) == request_uri(s),
        event_matches_caches(apply_commands(c, out.commands@), s2, e2),
        transition(s2, e2, t2, out2),
    ensures
        t2 is Done,
        no_commands(out2),
        responds(out2, Some(h)),
{
    let cmds = out.commands@;
    let after = apply_commands(c, cmds);
    let uri = request_uri(s);
    if cmds.len() == 0 {
        assert(after == c);
    } else if cmds.len() == 1 {
        assert(cmds.drop_last() =~= Seq::<CacheCommand>::empty());
        assert(apply_commands(c, cmds.drop_last()) == c);
        assert(cmds.last() == cmds[0]);
        assert(after == apply_command(c, cmds[0]));
    } else {
        assert(cmds.drop_last().drop_last() =~= Seq::<CacheCommand>::empty());
        let mid = apply_command(c, cmds[0]);
        assert(apply_commands(c, cmds.drop_last().drop_last()) == c);
        assert(cmds.drop_last().last() == cmds[0]);
        assert(apply_commands(c, cmds.drop_last()) == mid);
        assert(cmds.last() == cmds[1]);
        assert(after == apply_command(mid, cmds[1]));
        assert(after.by_uri == mid.by_uri);
    }
    assert(after.by_uri.contains_key(uri) && after.by_uri[uri] == h);
}

/// After a change notification that names a file, the next request whose
/// URI names that file misses both caches and opens the file, so its hash
/// is made afresh from what is read (see `lemma_hash_written_to_both_caches`)
/// instead of coming from a cache.
pub proof fn lemma_change_forces_fresh_hash(
    c: CacheState,
    paths: Seq<Seq<char>>,
    cmds: Seq<CacheCommand>,
    i: int,
    s0: HandleFile,
    e0: FileEvent,
    s1: HandleFile,
    out0: FileStep,
    e1: FileEvent,
    s2: HandleFile,
    out1: FileStep,
)
    requires
        cmds.len() == paths.len() + 1,
        invalidates_all_by_uri(cmds[0]),
        forall|j: int| 0 <= j < paths.len() ==> invalidates_by_path(#[trigger] cmds[j + 1], paths[j]),
        0 <= i < paths.len(),
        s0 matches HandleFile::AwaitUriEntry { uri, public_dir } && resolved_file_path(public_dir@, uri@) == Some(
            paths[i],
        ),
        event_matches_caches(apply_commands(c, cmds), s0, e0),
        transition(s0, e0, s1, out0),
        event_matches_caches(apply_commands(apply_commands(c, cmds), out0.commands@), s1, e1),
        transition(s1, e1, s2, out1),
    ensures
        s2 matches HandleFile::AwaitOpen { path_file, .. } && path_file@ == paths[i],
        out1.request matches FileRequest::Open(k) && k@ == paths[i],
{
    let c1 = apply_commands(c, cmds);
    lemma_changes_clear_caches(c, paths, cmds);
    assert(!c1.by_uri.contains_key(request_uri(s0)));
    assert(!c1.by_path.contains_key(paths[i]));
    assert(out0.commands@ =~= Seq::<CacheCommand>::empty());
    assert(apply_commands(c1, out0.commands@) == c1);
}

/// Step `i` of a chain of steps: a transition from state `i` to state
/// `i + 1` on event `i`.
pub open spec fn chain_step(states: Seq<HandleFile>, events: Seq<FileEvent>, outs: Seq<FileStep>, i: int) -> bool {
    transition(states[i], events[i], states[i + 1], outs[i])
}

/// A chain of steps of one machine: states, the events taken, the steps
/// given.
pub open spec fn is_step_chain(states: Seq<HandleFile>, events: Seq<FileEvent>, outs: Seq<FileStep>) -> bool {
    &&& states.len() == events.len() + 1
    &&& outs.len() == events.len()
    &&& forall|i: int| 0 <= i < events.len() ==> #[trigger] chain_step(states, events, outs, i)
}

/// The file that a machine waiting to open a file, or reading one, works on.
pub open spec fn file_path_of(s: HandleFile) -> Seq<char> {
    match s {
        HandleFile::AwaitPathEntry { path_file, .. } => path_file@,
        HandleFile::AwaitOpen { path_file, .. } => path_file@,
        HandleFile::Reading { path_file, .. } => path_file@,
        _ => Seq::empty(),
    }
}

proof fn lemma_reading_holds_reads_so_far(
    states: Seq<HandleFile>,
    events: Seq<FileEvent>,
    outs: Seq<FileStep>,
    chunks: Seq<Seq<u8>>,
    i: int,
)
    requires
        is_step_chain(states, events, outs),
        states[0] is AwaitOpen,
        events.len() == chunks.len() + 2,
        events[0] == FileEvent::Opened(true),
        forall|r: int| 0 <= r < chunks.len() ==> (#[trigger] events[r + 1] matches FileEvent::Chunk(c) && c@ == chunks[r]),
        1 <= i <= chunks.len() + 1,
    ensures
        states[i] is Reading,
        states[i]->Reading_hasher.chunks() == chunks.take(i - 1),
        request_uri(states[i]) == request_uri(states[0]),
        file_path_of(states[i]) == file_path_of(states[0]),
    decreases i,
{
    if i == 1 {
        assert(chain_step(states, events, outs, 0));
        assert(chunks.take(0) =~= Seq::<Seq<u8>>::empty());
    } else {
        lemma_reading_holds_reads_so_far(states, events, outs, chunks, i - 1);
        assert(chain_step(states, events, outs, i - 1));
        assert(events[(i - 2) + 1] matches FileEvent::Chunk(c) && c@ == chunks[i - 2]);
        assert(chunks.take(i - 1) =~= chunks.take(i - 2).push(chunks[i - 2]));
    }
}

/// A file that opens and is read to its end is answered with the hash of
/// all its reads, in order, from the first after opening to the last before
/// the end; that same hash goes into the URI cache under the request's URI
/// and into the path cache under the file's path. No read is dropped and
/// the hash is not restarted by a read.
pub proof fn lemma_run_hashes_every_read(
    states: Seq<HandleFile>,
    events: Seq<FileEvent>,
    outs: Seq<FileStep>,
    chunks: Seq<Seq<u8>>,
)
    requires
        is_step_chain(states, events, outs),
        states[0] is AwaitOpen,
        events.len() == chunks.len() + 2,
        events[0] == FileEvent::Opened(true),
        forall|r: int| 0 <= r < chunks.len() ==> (#[trigger] events[r + 1] matches FileEvent::Chunk(c) && c@ == chunks[r]),
        events.last() == FileEvent::EndOfInput,
    ensures
        states.last() is Done,
        responds(outs.last(), Some(file_hash_text(chunks))),
        outs.last().commands@.len() == 2,
        inserts_by_uri(outs.last().commands@[0], request_uri(states[0]), file_hash_text(chunks)),
        inserts_by_path(outs.last().commands@[1], file_path_of(states[0]), file_hash_text(chunks)),
{
    let n = chunks.len() as int;
    lemma_reading_holds_reads_so_far(states, events, outs, chunks, n + 1);
    assert(chunks.take(n) =~= chunks);
    assert(chain_step(states, events, outs, n + 1));
}

} // verus!
