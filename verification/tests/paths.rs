use symsight_core::paths::{
    parent_path, path_file_name, path_file_stem, relative_to, sorted_path_set,
};

#[test]
fn relative_paths() {
    assert_eq!(relative_to("/root/content/drafts/a.md", "/root"), "content/drafts/a.md");
    assert_eq!(relative_to("/elsewhere/a.md", "/root"), "/elsewhere/a.md");
    assert_eq!(relative_to("/root/./x//y", "/root/"), "x/y");
}

#[test]
fn names_stems_and_parents() {
    assert_eq!(path_file_name("/a/b.md"), Some("b.md".to_string()));
    assert_eq!(path_file_name("/a/.."), None);
    assert_eq!(path_file_stem("/a/b.meta.json"), Some("b.meta".to_string()));
    assert_eq!(path_file_stem("/a/.hidden"), Some(".hidden".to_string()));
    assert_eq!(parent_path("/a/b"), Some("/a".to_string()));
    assert_eq!(parent_path("/a"), Some("/".to_string()));
    assert_eq!(parent_path("/"), None);
    assert_eq!(parent_path("a"), Some(String::new()));
}

#[test]
fn path_order_is_by_components() {
    let paths: Vec<String> = ["/r/a-b.md", "/r/a/z.md", "/r/README", "/r/a-b.md"]
        .iter()
        .map(|s| s.to_string())
        .collect();
    assert_eq!(sorted_path_set(&paths), ["/r/README", "/r/a/z.md", "/r/a-b.md"]);
}
