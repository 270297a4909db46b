use light_server::fs::FsNode;

/// A known layout:
/// ```text
/// /
/// ├── index.html        "<h1>home</h1>"
/// ├── file.txt          "hello"
/// ├── assets/
/// │   └── style.css     "body{}"
/// └── a/
///     └── b/
///         └── c/
///             └── file.txt   "deep"
/// ```
fn sample_tree() -> FsNode {
    let c = FsNode::empty_dir().with_entry(
        "file.txt".to_string(),
        FsNode::file("file.txt", b"deep".to_vec()),
    );
    let b = FsNode::empty_dir().with_entry("c".to_string(), c);
    let a = FsNode::empty_dir().with_entry("b".to_string(), b);
    let assets = FsNode::empty_dir().with_entry(
        "style.css".to_string(),
        FsNode::file("style.css", b"body{}".to_vec()),
    );
    FsNode::empty_dir()
        .with_entry("index.html".to_string(), FsNode::file("index.html", b"<h1>home</h1>".to_vec()))
        .with_entry("file.txt".to_string(), FsNode::file("file.txt", b"hello".to_vec()))
        .with_entry("assets".to_string(), assets)
        .with_entry("a".to_string(), a)
}

fn segs(parts: &[&str]) -> Vec<String> {
    parts.iter().map(|s| s.to_string()).collect()
}

#[test]
fn tree_fidelity() {
    let tree = sample_tree();
    assert!(tree.is_dir());

    // Every known file resolves to exactly its original bytes.
    let (_, body) = tree.get(&segs(&["file.txt"])).unwrap();
    assert_eq!(body, &b"hello".to_vec());
    let (_, body) = tree.get(&segs(&["index.html"])).unwrap();
    assert_eq!(body, &b"<h1>home</h1>".to_vec());
    let (_, body) = tree.get(&segs(&["assets", "style.css"])).unwrap();
    assert_eq!(body, &b"body{}".to_vec());
    let (_, body) = tree.get(&segs(&["a", "b", "c", "file.txt"])).unwrap();
    assert_eq!(body, &b"deep".to_vec());

    // Every known subdirectory appears as a directory entry.
    assert!(tree.entry("assets").unwrap().is_dir());
    assert!(tree.entry("a").unwrap().is_dir());
    assert!(tree.entry("a").unwrap().entry("b").unwrap().is_dir());
    assert!(tree.entry("file.txt").unwrap().is_file());
    assert!(tree.entry("missing").is_none());
}

#[test]
fn index_substitution() {
    let tree = sample_tree();
    // The empty segment looks up index.html.
    let (mime, body) = tree.get(&segs(&[""])).unwrap();
    assert_eq!(mime, "text/html");
    assert_eq!(body, &b"<h1>home</h1>".to_vec());

    // Without an index.html, the empty segment fails to resolve.
    let bare = FsNode::empty_dir().with_entry(
        "file.txt".to_string(),
        FsNode::file("file.txt", b"hello".to_vec()),
    );
    assert!(bare.get(&segs(&[""])).is_none());

    // The substitution applies below the root as well.
    assert!(tree.get(&segs(&["assets", ""])).is_none());
}

#[test]
fn depth_handling() {
    let tree = sample_tree();
    assert!(tree.get(&segs(&["a", "b", "c", "file.txt"])).is_some());
    // A missing intermediate directory fails, never a partial match.
    assert!(tree.get(&segs(&["a", "x", "c", "file.txt"])).is_none());
    // A missing final file fails.
    assert!(tree.get(&segs(&["a", "b", "c", "other.txt"])).is_none());
    // Stopping early on a directory fails.
    assert!(tree.get(&segs(&["a", "b"])).is_none());
    // Going too deep fails.
    assert!(tree.get(&segs(&["a", "b", "c", "file.txt", "more"])).is_none());
}

#[test]
fn type_mismatch() {
    let tree = sample_tree();
    // A directory matched on the final segment is not served.
    assert!(tree.get(&segs(&["a"])).is_none());
    assert!(tree.get(&segs(&["assets"])).is_none());
}

#[test]
fn file_as_directory_rejection() {
    let tree = sample_tree();
    assert!(tree.get(&segs(&["file.txt", "extra"])).is_none());
    assert!(tree.get(&segs(&["a", "b", "c", "file.txt", "extra"])).is_none());
}

#[test]
fn file_on_empty_path() {
    // A lone file node resolves exactly on the empty segment list.
    let file = FsNode::file("note.txt", b"n".to_vec());
    let (mime, body) = file.get(&segs(&[])).unwrap();
    assert_eq!(mime, "text/plain");
    assert_eq!(body, &b"n".to_vec());
    assert!(file.get(&segs(&["x"])).is_none());
}

#[test]
fn mime_guessing() {
    // The MIME essence comes from the content-type table, by extension.
    let tree = sample_tree();
    let (mime, _) = tree.get(&segs(&["assets", "style.css"])).unwrap();
    assert_eq!(mime, "text/css");
    let (mime, _) = tree.get(&segs(&["index.html"])).unwrap();
    assert_eq!(mime, "text/html");
    // An unknown extension falls back to text/plain.
    let odd = FsNode::empty_dir().with_entry(
        "data.qqzz".to_string(),
        FsNode::file("data.qqzz", b"?".to_vec()),
    );
    let (mime, _) = odd.get(&segs(&["data.qqzz"])).unwrap();
    assert_eq!(mime, "text/plain");
}

#[test]
fn shadowing_insert() {
    // A later insertion for the same name wins, as in a map overwrite.
    let tree = FsNode::empty_dir()
        .with_entry("f".to_string(), FsNode::file("f", b"old".to_vec()))
        .with_entry("f".to_string(), FsNode::file("f", b"new".to_vec()));
    let (_, body) = tree.get(&segs(&["f"])).unwrap();
    assert_eq!(body, &b"new".to_vec());
}
