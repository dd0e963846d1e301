//! Resolving the project and workspace directory paths from the directory of
//! the crate's manifest.

use vstd::prelude::*;

verus! {

/// What `std::path::Path::parent` gives for a path, as text.
pub uninterp spec fn path_parent_of(path: Seq<char>) -> Option<Seq<char>>;

/// What `std::path::Path::join` gives for a base path and a relative part, as text.
pub uninterp spec fn path_join_of(base: Seq<char>, part: Seq<char>) -> Seq<char>;

/// `std::path::Path::parent` on a path given as text; the parent, a part of
/// that text, is handed back as text. Claimed of it: the result is a function
/// of the path alone (`path_parent_of`); what that parent is (the path without
/// its last component, `None` for a root, a prefix or the empty path) is left
/// unsaid.
#[verifier::external_body]
fn path_parent(path: &str) -> (r: Option<String>)
    ensures
        match r {
            Some(p) => path_parent_of(path@) == Some(p@),
            None => path_parent_of(path@) is None,
        },
{
    match std::path::Path::new(path).parent() {
        Some(p) => Some(p.to_string_lossy().into_owned()),
        None => None,
    }
}

/// A plain file name: ASCII letters, digits and underscores, not empty. It is
/// a relative path of one component on every platform.
pub open spec fn is_plain_name(s: Seq<char>) -> bool {
    s.len() > 0 && forall|i: int|
        0 <= i < s.len() ==> ('a' <= #[trigger] s[i] && s[i] <= 'z') || ('A' <= s[i] && s[i]
            <= 'Z') || ('0' <= s[i] && s[i] <= '9') || s[i] == '_'
}

/// Whether `s` ends with `tail`.
pub open spec fn ends_with(s: Seq<char>, tail: Seq<char>) -> bool {
    s.len() >= tail.len() && s.skip(s.len() - tail.len()) == tail
}

/// `std::path::Path::join` on paths given as text, the result handed back as
/// text. Claimed of it: the result is a function of the two paths alone
/// (`path_join_of`), and joining a plain file name (a relative path) extends
/// the base, so the result ends with that name, as the documentation of
/// `PathBuf::push` says. Where a separator goes, which differs between
/// platforms, is left unsaid.
#[verifier::external_body]
fn path_join(base: &str, part: &str) -> (r: String)
    ensures
        r@ == path_join_of(base@, part@),
        is_plain_name(part@) ==> ends_with(r@, part@),
{
    std::path::Path::new(base).join(part).to_string_lossy().into_owned()
}

/// The project root: the parent of the workspace root.
pub open spec fn project_root_of(manifest_dir: Seq<char>) -> Option<Seq<char>> {
    match path_parent_of(manifest_dir) {
        Some(w) => path_parent_of(w),
        None => None,
    }
}

/// Returns the workspace root directory path: the parent of the manifest
/// directory, which must have one.
pub fn get_workspace_root_path(manifest_dir: &str) -> (r: String)
    requires
        path_parent_of(manifest_dir@) is Some,
    ensures
        r@ == path_parent_of(manifest_dir@)->0,
{
    match path_parent(manifest_dir) {
        Some(p) => p,
        None => String::new(),
    }
}

/// Returns the project root directory path: the parent of the workspace root.
pub fn get_project_root_path(manifest_dir: &str) -> (r: String)
    requires
        project_root_of(manifest_dir@) is Some,
    ensures
        r@ == project_root_of(manifest_dir@)->0,
{
    let workspace = get_workspace_root_path(manifest_dir);
    match path_parent(workspace.as_str()) {
        Some(p) => p,
        None => String::new(),
    }
}

/// Returns the tests root directory path: "tests" under the project root.
pub fn get_tests_root_path(manifest_dir: &str) -> (r: String)
    requires
        project_root_of(manifest_dir@) is Some,
    ensures
        r@ == path_join_of(project_root_of(manifest_dir@)->0, "tests"@),
        ends_with(r@, "tests"@),
{
    let project = get_project_root_path(manifest_dir);
    proof {
        reveal_strlit("tests");
    }
    path_join(project.as_str(), "tests")
}

/// Returns the test data directory path: "test_data" under the directory that
/// `test_data_root` names (relative to the project root), or "tests/test_data"
/// under the project root when it names none.
pub fn get_test_data_path(manifest_dir: &str, test_data_root: Option<&str>) -> (r: String)
    requires
        project_root_of(manifest_dir@) is Some,
    ensures
        r@ == match test_data_root {
            Some(t) => path_join_of(
                path_join_of(project_root_of(manifest_dir@)->0, t@),
                "test_data"@,
            ),
            None => path_join_of(
                path_join_of(project_root_of(manifest_dir@)->0, "tests"@),
                "test_data"@,
            ),
        },
        ends_with(r@, "test_data"@),
{
    let project = get_project_root_path(manifest_dir);
    proof {
        reveal_strlit("test_data");
    }
    match test_data_root {
        Some(t) => {
            let root = path_join(project.as_str(), t);
            path_join(root.as_str(), "test_data")
        },
        None => {
            let tests = path_join(project.as_str(), "tests");
            path_join(tests.as_str(), "test_data")
        },
    }
}

/// The tests root directory path, if the manifest directory has a
/// grandparent (`None` where resolving the project root would fail).
pub fn try_get_tests_root_path(manifest_dir: &str) -> (r: Option<String>)
    ensures
        match project_root_of(manifest_dir@) {
            Some(p) => r matches Some(s) && s@ == path_join_of(p, "tests"@),
            None => r is None,
        },
{
    match path_parent(manifest_dir) {
        Some(w) => match path_parent(w.as_str()) {
            Some(_) => Some(get_tests_root_path(manifest_dir)),
            None => None,
        },
        None => None,
    }
}

/// The test data directory path, if the manifest directory has a
/// grandparent (`None` where resolving the project root would fail).
pub fn try_get_test_data_path(manifest_dir: &str, test_data_root: Option<&str>) -> (r: Option<
    String,
>)
    ensures
        match project_root_of(manifest_dir@) {
            Some(p) => r matches Some(s) && s@ == match test_data_root {
                Some(t) => path_join_of(path_join_of(p, t@), "test_data"@),
                None => path_join_of(path_join_of(p, "tests"@), "test_data"@),
            },
            None => r is None,
        },
{
    match path_parent(manifest_dir) {
        Some(w) => match path_parent(w.as_str()) {
            Some(_) => Some(get_test_data_path(manifest_dir, test_data_root)),
            None => None,
        },
        None => None,
    }
}

} // verus!
