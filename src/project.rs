//! The client's project file: connections to servers through a proxy, and
//! folders opened from the local disk or from a connected server; and the
//! helpers that name and classify paths.
use vstd::prelude::*;
use vstd::string::StrSliceExecFns;
use crate::wire::Id;

verus! {

#[derive(Debug, Clone)]
pub struct ProjectConnection {
    pub name: String,
    pub proxy_addr: String,
    pub proxy_password: String,
    pub server_name: String,
    pub server_password: String,
    pub prefer_p2p: bool,
}

#[derive(Debug, Clone)]
pub enum FolderSource {
    Local { path: String },
    Remote { connection_name: String, path: String },
}

#[derive(Debug, Clone)]
pub struct ProjectFolder {
    pub name: String,
    pub source: FolderSource,
}

#[derive(Debug, Clone, Default)]
pub struct ProjectFile {
    pub connections: Vec<ProjectConnection>,
    pub folders: Vec<ProjectFolder>,
}

#[derive(Debug, Clone)]
pub enum EditorSource {
    Local,
    Remote { connection_name: String },
}

#[derive(Debug, Clone)]
pub struct EditorTab {
    pub title: String,
    pub path: String,
    pub source: EditorSource,
    pub content: String,
    pub dirty: bool,
}

#[derive(Debug, Clone)]
pub struct TerminalTab {
    pub id: Id,
    pub connection_name: String,
    pub title: String,
    pub input: String,
    pub output: String,
}

/// The proxy address that a new connection form starts with.
pub fn default_connection_form_addr() -> (r: String)
    ensures
        r@ == "ws://127.0.0.1:9000/ws"@,
{
    "ws://127.0.0.1:9000/ws".to_string()
}

/// The final component of a path, as `std::path::Path::file_name` finds it
/// on the target: components are split at `/` on Unix, and at `\` as well on
/// Windows.
pub uninterp spec fn file_name_of(path: Seq<char>) -> Option<Seq<char>>;

/// The index of the last `.` of `name`, or -1 when it has none.
pub open spec fn last_dot(name: Seq<char>) -> int
    decreases name.len(),
{
    if name.len() == 0 {
        -1
    } else if name.last() == '.' {
        name.len() - 1
    } else {
        last_dot(name.drop_last())
    }
}

/// The extension of a file name: what follows its last `.`; none when it
/// has no `.`, or only a leading one.
pub open spec fn extension_in(name: Seq<char>) -> Option<Seq<char>> {
    if last_dot(name) <= 0 {
        None
    } else {
        Some(name.subrange(last_dot(name) + 1, name.len() as int))
    }
}

/// The extension of a path: that of its final component, if it has one.
pub open spec fn extension_of(path: Seq<char>) -> Option<Seq<char>> {
    match file_name_of(path) {
        Some(name) => extension_in(name),
        None => None,
    }
}

/// Relies on std's `Path::file_name`: the final component of the path, if
/// it is a normal one. A `&str` path is valid UTF-8, so the lossy
/// conversion back keeps it.
#[verifier::external_body]
fn path_file_name(path: &str) -> (r: Option<String>)
    ensures
        match r {
            Some(s) => file_name_of(path@) == Some(s@),
            None => file_name_of(path@) is None,
        },
{
    std::path::Path::new(path).file_name().map(|name| name.to_string_lossy().to_string())
}

/// Relies on std's `Path::extension`: none without a file name, none when
/// the file name has no `.` or only a leading one, else what follows its
/// last `.`. A `&str` path is valid UTF-8, so `to_str` keeps it.
#[verifier::external_body]
fn path_extension(path: &str) -> (r: Option<String>)
    ensures
        match r {
            Some(s) => extension_of(path@) == Some(s@),
            None => extension_of(path@) is None,
        },
{
    std::path::Path::new(path).extension().and_then(|ext| ext.to_str()).map(|ext| ext.to_string())
}

/// The name shown for `path`, given its final component `file_name`: that
/// component, or the whole path when it has none.
pub fn display_name_or_path(path: &str, file_name: Option<String>) -> (r: String)
    ensures
        r@ == match file_name {
            Some(n) => n@,
            None => path@,
        },
{
    match file_name {
        Some(n) => n,
        None => path.to_string(),
    }
}

/// The name shown for `path`: its final component, or the whole path when
/// it has none.
pub fn display_name_for_path(path: &str) -> (r: String)
    ensures
        r@ == match file_name_of(path@) {
            Some(n) => n,
            None => path@,
        },
{
    let name = path_file_name(path);
    display_name_or_path(path, name)
}

/// `c` is the lower-case ASCII letter or character `lower`, in either case.
pub open spec fn char_ci_eq(c: char, lower: char) -> bool {
    c == lower || ('a' <= lower && lower <= 'z' && (c as u32) + 32 == (lower as u32))
}

/// `s` is `lower` up to ASCII case.
pub open spec fn ascii_ci_eq(s: Seq<char>, lower: Seq<char>) -> bool {
    &&& s.len() == lower.len()
    &&& forall|i: int| 0 <= i < s.len() ==> char_ci_eq(s[i], lower[i])
}

/// The extensions of text files: `txt`, `py` and `m`, in any ASCII case.
pub open spec fn text_extension(ext: Seq<char>) -> bool {
    ascii_ci_eq(ext, seq!['t', 'x', 't']) || ascii_ci_eq(ext, seq!['p', 'y']) || ascii_ci_eq(
        ext,
        seq!['m'],
    )
}

fn eq_ascii_ci(s: &str, lower: &[char]) -> (r: bool)
    ensures
        r == ascii_ci_eq(s@, lower@),
{
    let n = s.unicode_len();
    if n != lower.len() {
        return false;
    }
    let mut i: usize = 0;
    while i < n
        invariant
            n == s@.len(),
            n == lower@.len(),
            i <= n,
            forall|j: int| 0 <= j < i ==> char_ci_eq(s@[j], lower@[j]),
        decreases n - i,
    {
        let c = s.get_char(i);
        let l = lower[i];
        let same = c == l || ('a' <= l && l <= 'z' && (c as u32) + 32 == (l as u32));
        if !same {
            return false;
        }
        i = i + 1;
    }
    true
}

/// Whether a file with extension `ext` is opened as text.
pub fn is_text_extension(ext: &str) -> (r: bool)
    ensures
        r == text_extension(ext@),
{
    let txt = ['t', 'x', 't'];
    let py = ['p', 'y'];
    let m = ['m'];
    proof {
        assert(txt@ =~= seq!['t', 'x', 't']);
        assert(py@ =~= seq!['p', 'y']);
        assert(m@ =~= seq!['m']);
    }
    eq_ascii_ci(ext, txt.as_slice()) || eq_ascii_ci(ext, py.as_slice()) || eq_ascii_ci(
        ext,
        m.as_slice(),
    )
}

/// Whether the file at `path` is opened as text: by its extension.
pub fn is_text_file(path: &str) -> (r: bool)
    ensures
        r == match extension_of(path@) {
            Some(e) => text_extension(e),
            None => false,
        },
{
    match path_extension(path) {
        Some(ext) => is_text_extension(ext.as_str()),
        None => false,
    }
}

} // verus!
