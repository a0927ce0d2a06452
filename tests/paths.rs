use renameplus::path::{file_name, join, last_name, parent, split_name};

fn b(s: &str) -> Vec<u8> {
    s.as_bytes().to_vec()
}

#[test]
fn file_names() {
    assert_eq!(file_name(b"a/b.txt"), Some(b("b.txt")));
    assert_eq!(file_name(b"a/b/"), Some(b("b")));
    assert_eq!(file_name(b"b"), Some(b("b")));
    assert_eq!(file_name(b"a/.."), None);
    assert_eq!(file_name(b"a/."), None);
    assert_eq!(file_name(b"/"), None);
    assert_eq!(file_name(b""), None);
}

#[test]
fn parents() {
    assert_eq!(parent(b"a/b.txt"), Some(b("a")));
    assert_eq!(parent(b"/a"), Some(b("/")));
    assert_eq!(parent(b"a"), Some(b("")));
    assert_eq!(parent(b"a/b//"), Some(b("a")));
    assert_eq!(parent(b"/"), None);
    assert_eq!(parent(b""), None);
}

#[test]
fn stems_and_extensions() {
    assert_eq!(split_name(b"a.tar.gz"), (b("a.tar"), b(".gz")));
    assert_eq!(split_name(b".bashrc"), (b(".bashrc"), b("")));
    assert_eq!(split_name(b"noext"), (b("noext"), b("")));
    assert_eq!(split_name(b"end."), (b("end"), b(".")));
}

#[test]
fn joins() {
    assert_eq!(join(b"a", b"b"), b("a/b"));
    assert_eq!(join(b"a/", b"b"), b("a/b"));
    assert_eq!(join(b"", b"b"), b("b"));
    assert_eq!(join(b"/", b"b"), b("/b"));
    assert_eq!(last_name(b"a/b/"), b("b"));
}
