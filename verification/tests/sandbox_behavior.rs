use agent_runtime::sandbox::{abs_path_of, normalize_segments, safe_path, split_segments};

#[test]
fn test_safe_path_accepts_inside_workspace() {
    assert_eq!(
        safe_path("notes/a.txt", "/ws"),
        Some("/ws/notes/a.txt".to_string())
    );
    assert_eq!(safe_path("a/./b.txt", "/ws"), Some("/ws/a/b.txt".to_string()));
    assert_eq!(safe_path("a/../b.txt", "/ws"), Some("/ws/b.txt".to_string()));
    assert_eq!(safe_path("", "/ws"), Some("/ws".to_string()));
}

#[test]
fn test_safe_path_rejects_escapes() {
    // Any resolved path that escapes the workspace root is rejected.
    assert_eq!(safe_path("../etc/passwd", "/ws"), None);
    assert_eq!(safe_path("a/../../etc/passwd", "/ws"), None);
    assert_eq!(safe_path("../../..", "/ws"), None);
    assert_eq!(safe_path("..", "/ws"), None);
}

#[test]
fn test_safe_path_absolute_requests() {
    assert_eq!(
        safe_path("/ws/inner/file.txt", "/ws"),
        Some("/ws/inner/file.txt".to_string())
    );
    assert_eq!(safe_path("/etc/passwd", "/ws"), None);
    assert_eq!(safe_path("/home/user/file", "/ws"), None);
    // A path that dips below the root and comes back up to somewhere else.
    assert_eq!(safe_path("/ws/../other/file", "/ws"), None);
}

#[test]
fn test_safe_path_nested_root() {
    assert_eq!(
        safe_path("x.txt", "/srv/data/workspace"),
        Some("/srv/data/workspace/x.txt".to_string())
    );
    assert_eq!(safe_path("../../x.txt", "/srv/data/workspace"), None);
}

#[test]
fn test_split_and_normalize() {
    let segs = split_segments("/a//b/./c/../d/");
    let names: Vec<&str> = segs.iter().map(|s| s.as_str()).collect();
    assert_eq!(names, vec!["a", "b", ".", "c", "..", "d"]);

    let norm = normalize_segments(&segs).unwrap();
    let names: Vec<&str> = norm.iter().map(|s| s.as_str()).collect();
    assert_eq!(names, vec!["a", "b", "d"]);

    assert_eq!(abs_path_of(&norm), "/a/b/d");

    // Climbing above the root fails to normalize.
    let segs = split_segments("a/../../b");
    assert!(normalize_segments(&segs).is_none());
}
