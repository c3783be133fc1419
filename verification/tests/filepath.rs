use edt::filepath::{path_components, same_path_text};

fn comps(s: &str) -> Vec<String> {
    path_components(s).into_iter().map(|c| c.into_iter().collect()).collect()
}

#[test]
fn components_skip_repeated_slashes_and_dots() {
    assert_eq!(comps("/a//b/./c/"), vec!["/", "a", "b", "c"]);
    assert_eq!(comps("./a/b"), vec![".", "a", "b"]);
    assert_eq!(comps("."), vec!["."]);
    assert_eq!(comps("a/../b"), vec!["a", "..", "b"]);
    assert_eq!(comps(""), Vec::<String>::new());
    assert_eq!(comps("//"), vec!["/"]);
}

#[test]
fn same_path_compares_components() {
    assert!(same_path_text("a//b.mp4", "a/b.mp4"));
    assert!(same_path_text("/tmp/./clip.mp4", "/tmp/clip.mp4"));
    assert!(same_path_text("/tmp/clips/", "/tmp/clips"));
    assert!(!same_path_text("./a", "a"));
    assert!(!same_path_text("/a", "a"));
    assert!(!same_path_text("a/../b", "b"));
    assert!(!same_path_text("/tmp/a.mp4", "/tmp/b.mp4"));
}
