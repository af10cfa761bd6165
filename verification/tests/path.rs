use remote_fs::path::{
    build_request_url, join_child, strip_leading_slashes, strip_trailing_slashes, to_remote_path,
};

#[test]
fn strip_leading_removes_every_leading_separator() {
    assert_eq!(strip_leading_slashes("/a/b"), "a/b");
    assert_eq!(strip_leading_slashes("///a/b/"), "a/b/");
    assert_eq!(strip_leading_slashes("a/b"), "a/b");
}

#[test]
fn strip_leading_of_only_separators_is_empty() {
    assert_eq!(strip_leading_slashes("/"), "");
    assert_eq!(strip_leading_slashes("////"), "");
    assert_eq!(strip_leading_slashes(""), "");
}

#[test]
fn strip_trailing_removes_every_trailing_separator() {
    assert_eq!(strip_trailing_slashes("/a/b/"), "/a/b");
    assert_eq!(strip_trailing_slashes("/a/b///"), "/a/b");
    assert_eq!(strip_trailing_slashes("/a/b"), "/a/b");
}

#[test]
fn strip_trailing_of_only_separators_is_empty() {
    assert_eq!(strip_trailing_slashes("/"), "");
    assert_eq!(strip_trailing_slashes("//"), "");
    assert_eq!(strip_trailing_slashes(""), "");
}

#[test]
fn strip_keeps_characters_outside_ascii() {
    assert_eq!(strip_leading_slashes("/données/été"), "données/été");
    assert_eq!(strip_trailing_slashes("/données/été/"), "/données/été");
}

#[test]
fn join_child_under_root() {
    assert_eq!(join_child("/", "image.jpg"), "/image.jpg");
    assert_eq!(join_child("/", "Documents"), "/Documents");
}

#[test]
fn join_child_under_directory() {
    assert_eq!(join_child("/folder1", "file1.txt"), "/folder1/file1.txt");
    assert_eq!(join_child("/a/b", "c"), "/a/b/c");
}

#[test]
fn join_child_drops_trailing_separators_of_parent() {
    assert_eq!(join_child("/folder1/", "file1.txt"), "/folder1/file1.txt");
    assert_eq!(join_child("/folder1//", "file1.txt"), "/folder1/file1.txt");
}

#[test]
fn join_child_with_empty_name_names_the_directory_with_a_separator() {
    assert_eq!(join_child("/", ""), "/");
    assert_eq!(join_child("/a", ""), "/a/");
}

#[test]
fn remote_path_of_root_is_empty() {
    assert_eq!(to_remote_path("/"), "");
}

#[test]
fn remote_path_has_no_leading_separator() {
    assert_eq!(to_remote_path("/folder1"), "folder1");
    assert_eq!(to_remote_path("/folder1/sub"), "folder1/sub");
}

#[test]
fn request_url_of_root() {
    assert_eq!(build_request_url("http://localhost:3000", "/"), "http://localhost:3000/list/");
    assert_eq!(build_request_url("http://localhost:3000", ""), "http://localhost:3000/list/");
}

#[test]
fn request_url_of_path() {
    assert_eq!(
        build_request_url("http://localhost:3000", "/folder1"),
        "http://localhost:3000/list/folder1"
    );
    assert_eq!(
        build_request_url("http://localhost:3000", "folder1/sub"),
        "http://localhost:3000/list/folder1/sub"
    );
}

#[test]
fn request_url_drops_trailing_separators_of_base() {
    assert_eq!(
        build_request_url("http://localhost:3000/", "/folder1"),
        "http://localhost:3000/list/folder1"
    );
    assert_eq!(
        build_request_url("http://localhost:3000//", "folder1"),
        "http://localhost:3000/list/folder1"
    );
}
