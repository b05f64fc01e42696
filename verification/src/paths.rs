use vstd::prelude::*;

verus! {

/// Whether a path is absolute: on Unix, whether it starts at the root `/`.
pub open spec fn is_absolute_path(path: Seq<char>) -> bool {
    path.len() > 0 && path[0] == '/'
}

/// Whether the name that starts at `start` in `path` is sound for a clean
/// path: not empty (no doubled `/`), and neither `.` nor `..`. At the end of
/// the path there is no name to check.
pub open spec fn clean_name_at(path: Seq<char>, start: int) -> bool {
    start < path.len() ==> {
        &&& path[start] != '/'
        &&& !(path[start] == '.' && (start + 1 == path.len() || path[start + 1] == '/'))
        &&& !(path[start] == '.' && start + 1 < path.len() && path[start + 1] == '.' && (start + 2
            == path.len() || path[start + 2] == '/'))
    }
}

/// Whether a path is absolute and clean: the root `/` alone, or names after
/// single `/`s, none of them `.` or `..`, with no `/` at the end.
pub open spec fn is_clean_absolute(path: Seq<char>) -> bool {
    &&& is_absolute_path(path)
    &&& path.len() > 1 ==> path.last() != '/'
    &&& forall|i: int| 0 <= i < path.len() && #[trigger] path[i] == '/' ==> clean_name_at(path, i + 1)
}

/// The path that `Path::join` gives for `rel` adjoined to `base`.
pub uninterp spec fn joined_path(base: Seq<char>, rel: Seq<char>) -> Seq<char>;

/// The path that `PathBuf::pop` leaves of `path`: its parent, or the path
/// itself where it has none.
pub uninterp spec fn popped_path(path: Seq<char>) -> Seq<char>;

/// The path that `path_clean::clean` makes of `path`.
pub uninterp spec fn cleaned_path(path: Seq<char>) -> Seq<char>;

/// `std::path::Path::join`. What the documentation of `PathBuf::push` says:
/// an absolute `rel` replaces `base`, and a relative `rel` extends a base that
/// does not end in `/` with a separator and `rel`; either way an absolute
/// base gives an absolute path. For other inputs (an empty base, a base that
/// ends in `/`) the exact path is only named.
#[verifier::external_body]
pub(crate) fn join_path(base: &str, rel: &str) -> (res: String)
    ensures
        res@ == joined_path(base@, rel@),
        is_absolute_path(rel@) ==> res@ == rel@,
        !is_absolute_path(rel@) && base@.len() > 0 && base@.last() != '/' ==> res@ == base@ + seq!['/'] + rel@,
        is_absolute_path(base@) ==> is_absolute_path(res@),
{
    std::path::Path::new(base).join(rel).to_string_lossy().into_owned()
}

/// `std::path::PathBuf::pop` on a copy of `path`; its result is only named.
#[verifier::external_body]
fn pop_path(path: &str) -> (res: String)
    ensures
        res@ == popped_path(path@),
{
    let mut owned = std::path::PathBuf::from(path);
    owned.pop();
    owned.to_string_lossy().into_owned()
}

/// `path_clean::clean`. What its documentation says of rooted paths: the
/// result is rooted, with doubled `/`s reduced, `.` names gone, `..` names
/// gone with the names before them, and `..` right after the root gone, so
/// it is clean; a path that is already clean has nothing to change. The
/// result for other paths is only named.
#[verifier::external_body]
fn clean_path(path: &str) -> (res: String)
    ensures
        res@ == cleaned_path(path@),
        is_absolute_path(path@) ==> is_clean_absolute(res@),
        is_clean_absolute(path@) ==> res@ == path@,
{
    path_clean::clean(path).to_string_lossy().into_owned()
}

/// Whether `path` is absolute, as `Path::is_absolute` decides on Unix.
pub fn is_absolute(path: &str) -> (res: bool)
    ensures
        res == is_absolute_path(path@),
{
    if path.is_empty() {
        false
    } else {
        path.get_char(0) == '/'
    }
}

/// The absolute form of `path` against the working directory `current_dir`,
/// cleaned lexically, without resolving links.
pub open spec fn absolute_unresolved(path: Seq<char>, current_dir: Seq<char>) -> Seq<char> {
    if is_absolute_path(path) {
        cleaned_path(path)
    } else {
        cleaned_path(joined_path(current_dir, path))
    }
}

/// Makes `path` absolute against `current_dir` and cleans it lexically.
/// Against an absolute working directory the result is absolute and clean,
/// and a clean absolute path comes back unchanged, so doing it twice gives
/// what doing it once gave.
pub fn absolute_path_unresolved(path: &str, current_dir: &str) -> (res: String)
    ensures
        res@ == absolute_unresolved(path@, current_dir@),
        is_absolute_path(path@) || is_absolute_path(current_dir@) ==> is_clean_absolute(res@),
        is_clean_absolute(path@) ==> res@ == path@,
{
    if is_absolute(path) {
        clean_path(path)
    } else {
        let joined = join_path(current_dir, path);
        clean_path(joined.as_str())
    }
}

/// The parent of a path, by `PathBuf::pop`.
pub trait PathParentExt {
    fn path_parent(&self) -> String;
}

impl PathParentExt for str {
    /// The path with its last component removed, or unchanged where it has none.
    fn path_parent(&self) -> (res: String)
        ensures
            res@ == popped_path(self@),
    {
        pop_path(self)
    }
}

/// The absolute, cleaned form of a path.
pub trait PathToAbsoluteUnresolvedExt {
    fn absolute_path_unresolved(&self, current_dir: &str) -> String;
}

impl PathToAbsoluteUnresolvedExt for str {
    /// The path made absolute against `current_dir` and cleaned lexically.
    fn absolute_path_unresolved(&self, current_dir: &str) -> (res: String)
        ensures
            res@ == absolute_unresolved(self@, current_dir@),
            is_absolute_path(self@) || is_absolute_path(current_dir@) ==> is_clean_absolute(res@),
            is_clean_absolute(self@) ==> res@ == self@,
    {
        absolute_path_unresolved(self, current_dir)
    }
}

/// An absolute path is made absolute without regard to the working
/// directory: any two working directories give the same result.
pub proof fn lemma_absolute_ignores_current_dir(path: Seq<char>, dir1: Seq<char>, dir2: Seq<char>)
    requires
        is_absolute_path(path),
    ensures
        absolute_unresolved(path, dir1) == absolute_unresolved(path, dir2),
        absolute_unresolved(path, dir1) == cleaned_path(path),
{
}

} // verus!
