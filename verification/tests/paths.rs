use nice_trader::paths::{
    get_project_root_path, get_test_data_path, get_tests_root_path, get_workspace_root_path,
    try_get_test_data_path, try_get_tests_root_path,
};

#[test]
fn test_paths() {
    let manifest = "/home/me/project/crates/core";
    assert_eq!(get_workspace_root_path(manifest), "/home/me/project/crates");
    assert_eq!(get_project_root_path(manifest), "/home/me/project");
    assert_eq!(get_tests_root_path(manifest), "/home/me/project/tests");
    assert_eq!(get_test_data_path(manifest, None), "/home/me/project/tests/test_data");
    assert_eq!(get_test_data_path(manifest, Some("data")), "/home/me/project/data/test_data");
}

#[test]
fn test_try_paths() {
    assert_eq!(try_get_tests_root_path("/a/b/c").as_deref(), Some("/a/tests"));
    assert_eq!(try_get_tests_root_path("/"), None);
    assert_eq!(try_get_test_data_path("a", None), None);
    assert_eq!(try_get_test_data_path("/x/y/z", None).as_deref(), Some("/x/tests/test_data"));
}
