use winbundle::search::{candidates, join, SearchRoot};

fn strings(items: &[&str]) -> Vec<String> {
    items.iter().map(|s| s.to_string()).collect()
}

#[test]
fn tree_probes_top_then_bin_then_lib() {
    let root = SearchRoot::select("/opt/x", None);
    assert_eq!(root, SearchRoot::Tree("/opt/x".to_string()));
    assert_eq!(
        candidates("foo.lib", &root),
        strings(&["/opt/x/foo.lib", "/opt/x/bin/foo.lib", "/opt/x/lib/foo.lib"])
    );
}

#[test]
fn tree_with_trailing_separator_gives_the_same_probes() {
    let root = SearchRoot::select("/opt/x/", Some(strings(&["/usr/bin"])));
    assert_eq!(
        candidates("foo.lib", &root),
        strings(&["/opt/x/foo.lib", "/opt/x/bin/foo.lib", "/opt/x/lib/foo.lib"])
    );
}

#[test]
fn candidates_are_the_same_when_asked_again() {
    let root = SearchRoot::select("/opt/x", None);
    assert_eq!(candidates("foo.lib", &root), candidates("foo.lib", &root));
}

#[test]
fn search_path_is_walked_in_declared_order() {
    let root = SearchRoot::select("", Some(strings(&["/usr/local/bin", "/usr/bin", "/bin"])));
    assert_eq!(
        candidates("a.dll", &root),
        strings(&["/usr/local/bin/a.dll", "/usr/bin/a.dll", "/bin/a.dll"])
    );
}

#[test]
fn empty_search_path_gives_no_candidate() {
    let root = SearchRoot::select("", Some(Vec::new()));
    assert_eq!(candidates("a.dll", &root), Vec::<String>::new());
}

#[test]
fn without_search_path_the_name_itself_is_the_candidate() {
    let root = SearchRoot::select("", None);
    assert_eq!(root, SearchRoot::WorkingDir);
    assert_eq!(candidates("a.dll", &root), strings(&["a.dll"]));
}

#[test]
fn join_puts_one_separator() {
    assert_eq!(join("/opt/x", "foo"), "/opt/x/foo");
    assert_eq!(join("/opt/x/", "foo"), "/opt/x/foo");
    assert_eq!(join("", "foo"), "foo");
    assert_eq!(join("/opt/x", ""), "/opt/x/");
}

#[test]
fn join_lets_a_rooted_part_replace_the_base() {
    assert_eq!(join("/opt/x", "/abs/foo"), "/abs/foo");
    let root = SearchRoot::select("/opt/x", None);
    assert_eq!(candidates("/abs/foo", &root), strings(&["/abs/foo", "/abs/foo", "/abs/foo"]));
}

#[test]
fn join_keeps_characters_outside_ascii() {
    assert_eq!(join("/opt/\u{e9}t\u{e9}", "b\u{fc}cher.dll"), "/opt/\u{e9}t\u{e9}/b\u{fc}cher.dll");
}
