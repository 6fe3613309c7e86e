use channels_console::{extract_filename, resolve_label};

#[test]
fn extract_filename_keeps_last_directory_and_file() {
    assert_eq!(extract_filename("src/main.rs"), "src/main.rs");
    assert_eq!(extract_filename("crates/demo/examples/basic.rs"), "examples/basic.rs");
    assert_eq!(extract_filename("main.rs"), "main.rs");
    assert_eq!(extract_filename(""), "");
    assert_eq!(extract_filename("/abs/path/to/file.rs"), "to/file.rs");
    assert_eq!(extract_filename("a/b/"), "b/");
    assert_eq!(extract_filename("/file.rs"), "/file.rs");
}

#[test]
fn resolve_label_prefers_the_given_label() {
    assert_eq!(resolve_label("examples/basic.rs:10", Some("hello-there"), 0), "hello-there");
    assert_eq!(resolve_label("examples/basic.rs:10", Some("bounded"), 1), "bounded-2");
    assert_eq!(resolve_label("examples/basic.rs:10", Some("bounded"), 2), "bounded-3");
    assert_eq!(resolve_label("examples/basic.rs:10", Some(""), 0), "");
}

#[test]
fn resolve_label_derives_from_the_call_site() {
    assert_eq!(
        resolve_label("crates/demo/examples/iter.rs:16", None, 0),
        "examples/iter.rs:16"
    );
    assert_eq!(
        resolve_label("crates/demo/examples/iter.rs:16", None, 1),
        "examples/iter.rs:16-2"
    );
    assert_eq!(
        resolve_label("crates/demo/examples/iter.rs:16", None, 2),
        "examples/iter.rs:16-3"
    );
    assert_eq!(resolve_label("foo.rs:42", None, 0), "foo.rs:42");
    assert_eq!(resolve_label("foo.rs:42", None, 1), "foo.rs:42-2");
    assert_eq!(resolve_label("foo.rs:42", None, 2), "foo.rs:42-3");
    assert_eq!(resolve_label("no-line-number", None, 0), "no-line-number");
    assert_eq!(resolve_label("a/b/c", None, 4), "b/c-5");
    assert_eq!(resolve_label("C:/x/y/z.rs:7", None, 0), "y/z.rs:7");
}

#[test]
fn resolve_label_counts_past_the_largest_rank() {
    assert_eq!(resolve_label("foo.rs:1", None, u32::MAX), "foo.rs:1-4294967296");
}

#[test]
fn sibling_labels_differ() {
    let mut seen: Vec<String> = Vec::new();
    for iter in 0..50u32 {
        let label = resolve_label("src/lib.rs:9", None, iter);
        assert!(!seen.contains(&label));
        seen.push(label);
    }
}

fn filename_by_hand(path: &str) -> String {
    let components: Vec<&str> = path.split('/').collect();
    if components.len() >= 2 {
        format!(
            "{}/{}",
            components[components.len() - 2],
            components[components.len() - 1]
        )
    } else {
        path.to_string()
    }
}

fn label_by_hand(id: &str, provided: Option<&str>, iter: u32) -> String {
    let base_label = if let Some(l) = provided {
        l.to_string()
    } else if let Some(pos) = id.rfind(':') {
        let (path, line_part) = id.split_at(pos);
        let line = &line_part[1..];
        format!("{}:{}", filename_by_hand(path), line)
    } else {
        filename_by_hand(id)
    };

    if iter > 0 {
        format!("{}-{}", base_label, iter as u64 + 1)
    } else {
        base_label
    }
}

const SOURCES: [&str; 16] = [
    "",
    ":",
    "/",
    "//",
    "a",
    "a:1",
    "a/b:1",
    "a/b/c:1",
    "/a/b/c.rs:120",
    "crates/demo/examples/basic.rs:7",
    "C:/dir/file.rs:3",
    "no/line/number",
    "trailing/slash/:9",
    "colon:in/path/file.rs:4",
    "ünïcödé/päth/fïle.rs:12",
    "a/b/c/d/e/f/g.rs:",
];

#[test]
fn extract_filename_agrees_with_splitting_by_hand() {
    for source in SOURCES {
        assert_eq!(extract_filename(source), filename_by_hand(source), "path {:?}", source);
    }
}

#[test]
fn resolve_label_agrees_with_building_by_hand() {
    for source in SOURCES {
        for iter in [0u32, 1, 2, 9, 10, 99, 4_000_000_000] {
            assert_eq!(
                resolve_label(source, None, iter),
                label_by_hand(source, None, iter),
                "source {:?}, iter {}",
                source,
                iter
            );
            for label in ["", "jobs", "with:colon", "with/slash", "ünï"] {
                assert_eq!(
                    resolve_label(source, Some(label), iter),
                    label_by_hand(source, Some(label), iter)
                );
            }
        }
    }
}
