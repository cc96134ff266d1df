use news::resolver::resolve_static_path;

#[test]
fn stylesheet_resolves_to_fixed_location() {
    assert_eq!(
        resolve_static_path(b"/style.css"),
        Some(b"/opt/news/static/style.css".to_vec())
    );
}

#[test]
fn entry_resolves_into_entries_directory() {
    assert_eq!(
        resolve_static_path(b"/entries/today.html"),
        Some(b"/opt/news/static/entries/today.html".to_vec())
    );
}

#[test]
fn empty_entry_name_is_refused() {
    assert_eq!(resolve_static_path(b"/entries/"), None);
}

#[test]
fn dotdot_in_entry_name_is_refused() {
    assert_eq!(resolve_static_path(b"/entries/../secret.html"), None);
    assert_eq!(resolve_static_path(b"/entries/a..b.html"), None);
    assert_eq!(resolve_static_path(b"/entries/..html"), None);
}

#[test]
fn nested_entry_path_is_refused() {
    assert_eq!(resolve_static_path(b"/entries/sub/dir.html"), None);
}

#[test]
fn entry_without_html_suffix_is_refused() {
    assert_eq!(resolve_static_path(b"/entries/today.htm"), None);
    assert_eq!(resolve_static_path(b"/entries/today.txt"), None);
    assert_eq!(resolve_static_path(b"/entries/today"), None);
}

#[test]
fn root_and_strangers_do_not_resolve() {
    assert_eq!(resolve_static_path(b"/"), None);
    assert_eq!(resolve_static_path(b""), None);
    assert_eq!(resolve_static_path(b"/index.html"), None);
    assert_eq!(resolve_static_path(b"/entrie/today.html"), None);
    assert_eq!(resolve_static_path(b"/style.css2"), None);
}

#[test]
fn suffix_only_entry_name_resolves() {
    // five bytes, exactly the suffix: non-empty, no doubled dots, ends right
    assert_eq!(
        resolve_static_path(b"/entries/.html"),
        Some(b"/opt/news/static/entries/.html".to_vec())
    );
}
