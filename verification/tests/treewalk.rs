use std::io;

use iscc_sum::order::{bytes_sign, names_sign};
use iscc_sum::sorting::compare_entries;
use iscc_sum::treewalk::{
    glob_pattern, join_path, listdir, treewalk, treewalk_ignore, DirEntry, FoundEntry, IgnoreSpec,
    PathKind, TreewalkError,
};
use iscc_sum::walk::{classify, ignore_file_name, relative_to, select, EntryClass, Walk};

/// A file tree in memory.
enum Node {
    File(&'static str),
    Symlink,
    Dir(Vec<(&'static str, Node)>),
}

fn lookup<'a>(root: &'a Node, root_path: &str, path: &str) -> &'a Node {
    let mut node = root;
    let below = path.strip_prefix(root_path).unwrap();
    for part in below.split('/').filter(|p| !p.is_empty()) {
        match node {
            Node::Dir(children) => {
                node = &children.iter().find(|(name, _)| *name == part).unwrap().1;
            }
            _ => panic!("not a directory"),
        }
    }
    node
}

/// Drives a walk over a tree in memory, as a program drives it over a disk.
fn drive(mut walk: Walk, root: &Node, root_path: &str) -> Result<Vec<String>, TreewalkError> {
    while let Some(dir) = walk.next_dir() {
        let children = match lookup(root, root_path, &dir) {
            Node::Dir(children) => children,
            _ => panic!("not a directory"),
        };
        let found: Vec<FoundEntry> = children
            .iter()
            .map(|(name, node)| FoundEntry {
                name: name.to_string(),
                is_dir: matches!(node, Node::Dir(_)),
                is_file: matches!(node, Node::File(_)),
                is_symlink: matches!(node, Node::Symlink),
            })
            .collect();
        let text = walk.wanted_file().and_then(|wanted| {
            children.iter().find_map(|(name, node)| match node {
                Node::File(text) if *name == wanted => Some(*text),
                _ => None,
            })
        });
        let listing = listdir(&dir, &found);
        walk.visit(&listing, text)?;
    }
    Ok(walk.into_paths())
}

fn walk_plain(root: &Node) -> Vec<String> {
    drive(treewalk("/root", PathKind::Directory).unwrap(), root, "/root").unwrap()
}

fn walk_ignoring(root: &Node, name: &str, spec: Option<&IgnoreSpec>) -> Vec<String> {
    let walk = treewalk_ignore("/root", PathKind::Directory, name, None, spec).unwrap();
    drive(walk, root, "/root").unwrap()
}

fn relative(paths: &[String]) -> Vec<String> {
    paths.iter().map(|p| p.strip_prefix("/root/").unwrap().to_string()).collect()
}

fn file(name: &'static str) -> (&'static str, Node) {
    (name, Node::File(""))
}

fn found_file(name: &str) -> FoundEntry {
    FoundEntry { name: name.to_string(), is_dir: false, is_file: true, is_symlink: false }
}

fn found_dir(name: &str) -> FoundEntry {
    FoundEntry { name: name.to_string(), is_dir: true, is_file: false, is_symlink: false }
}

#[test]
fn test_error_conversion() {
    let io_err = io::Error::new(io::ErrorKind::NotFound, "test error");
    let treewalk_err: TreewalkError = io_err.into();
    match treewalk_err {
        TreewalkError::IoError(_) => (),
        _ => panic!("Expected IoError variant"),
    }
}

#[test]
fn test_listdir_basic_sorting() {
    let found =
        vec![found_file("zebra.txt"), found_file("apple.txt"), found_file("banana.txt"), found_dir("directory")];
    let entries = listdir("/tmp/d", &found);

    assert_eq!(entries.len(), 4);
    assert_eq!(entries[0].name, "apple.txt");
    assert_eq!(entries[1].name, "banana.txt");
    assert_eq!(entries[2].name, "directory");
    assert_eq!(entries[3].name, "zebra.txt");

    assert!(entries[0].is_file);
    assert!(!entries[0].is_dir);
    assert!(entries[2].is_dir);
    assert!(!entries[2].is_file);
    assert_eq!(entries[0].path, "/tmp/d/apple.txt");
}

#[test]
fn test_listdir_unicode_normalization() {
    let found = vec![found_file("caf\u{00e9}"), found_file("cafe\u{0301}"), found_file("cafd")];
    let entries = listdir("d", &found);

    assert_eq!(entries.len(), 3);
    assert_eq!(entries[0].name, "cafd");
    // Equal after normalization: the bytes of the names decide.
    assert_eq!(entries[1].name, "cafe\u{0301}");
    assert_eq!(entries[2].name, "caf\u{00e9}");
}

#[test]
fn test_listdir_duplicate_normalized_names() {
    let found = vec![found_file("\u{00c5}"), found_file("A\u{030A}"), found_file("B")];
    let entries = listdir("d", &found);

    assert_eq!(entries.len(), 3);
    let names: Vec<&str> = entries.iter().map(|e| e.name.as_str()).collect();
    assert!(names.contains(&"\u{00c5}"));
    assert!(names.contains(&"A\u{030A}"));
    assert!(names.contains(&"B"));
    // "B" sorts before the normalized form U+00C5; the two forms are adjacent.
    assert_eq!(names, vec!["B", "A\u{030A}", "\u{00c5}"]);
}

#[test]
fn test_listdir_symlink_filtering() {
    let found = vec![
        found_file("regular.txt"),
        found_dir("subdir"),
        FoundEntry { name: "symlink_to_file".to_string(), is_dir: false, is_file: true, is_symlink: true },
        FoundEntry { name: "symlink_to_dir".to_string(), is_dir: true, is_file: false, is_symlink: true },
    ];
    let entries = listdir("d", &found);

    assert_eq!(entries.len(), 2);
    let names: Vec<&str> = entries.iter().map(|e| e.name.as_str()).collect();
    assert!(names.contains(&"regular.txt"));
    assert!(names.contains(&"subdir"));
    assert!(!names.contains(&"symlink_to_file"));
    assert!(!names.contains(&"symlink_to_dir"));
}

#[test]
fn test_listdir_empty_directory() {
    let entries = listdir("/tmp/empty", &Vec::new());
    assert_eq!(entries.len(), 0);
}

#[test]
fn test_treewalk_basic() {
    let root = Node::Dir(vec![
        file("file1.txt"),
        file("file2.txt"),
        ("subdir", Node::Dir(vec![file("file3.txt")])),
    ]);
    let relative_paths = relative(&walk_plain(&root));

    assert_eq!(relative_paths.len(), 3);
    assert!(relative_paths.contains(&"file1.txt".to_string()));
    assert!(relative_paths.contains(&"file2.txt".to_string()));
    assert!(relative_paths.contains(&"subdir/file3.txt".to_string()));
}

#[test]
fn test_treewalk_ignore_file_priority() {
    let root = Node::Dir(vec![
        file("zebra.txt"),
        file(".gitignore"),
        file("apple.txt"),
        file(".customignore"),
    ]);
    let filenames = relative(&walk_plain(&root));

    assert_eq!(filenames.len(), 4);
    assert_eq!(filenames[0], ".customignore");
    assert_eq!(filenames[1], ".gitignore");
    assert_eq!(filenames[2], "apple.txt");
    assert_eq!(filenames[3], "zebra.txt");
}

#[test]
fn test_treewalk_recursive_ordering() {
    let root = Node::Dir(vec![
        file("root.txt"),
        file(".rootignore"),
        ("a_dir", Node::Dir(vec![file("a_file.txt"), file(".ignore")])),
        ("b_dir", Node::Dir(vec![file("b_file.txt")])),
    ]);
    let relative_paths = relative(&walk_plain(&root));

    assert_eq!(relative_paths[0], ".rootignore");
    assert_eq!(relative_paths[1], "root.txt");
    assert_eq!(relative_paths[2], "a_dir/.ignore");
    assert_eq!(relative_paths[3], "a_dir/a_file.txt");
    assert_eq!(relative_paths[4], "b_dir/b_file.txt");
    assert_eq!(relative_paths.len(), 5);
}

#[test]
fn test_treewalk_empty_directory() {
    let paths = walk_plain(&Node::Dir(vec![]));
    assert_eq!(paths.len(), 0);
}

#[test]
fn test_treewalk_empty_subdirectories() {
    let root = Node::Dir(vec![
        ("empty1", Node::Dir(vec![("nested_empty", Node::Dir(vec![]))])),
        ("empty2", Node::Dir(vec![])),
    ]);
    assert_eq!(walk_plain(&root).len(), 0);
}

#[test]
fn test_treewalk_deeply_nested() {
    let level4 = Node::Dir(vec![file("file4.txt")]);
    let level3 = Node::Dir(vec![file("file3.txt"), ("level4", level4)]);
    let level2 = Node::Dir(vec![file("file2.txt"), ("level3", level3)]);
    let level1 = Node::Dir(vec![file("file1.txt"), ("level2", level2)]);
    let level0 = Node::Dir(vec![file("file0.txt"), ("level1", level1)]);
    let root = Node::Dir(vec![("level0", level0)]);
    let paths = walk_plain(&root);

    assert_eq!(paths.len(), 5);
    for (i, path) in paths.iter().enumerate() {
        let filename = path.rsplit('/').next().unwrap();
        assert_eq!(filename, format!("file{}.txt", i));
    }
    assert_eq!(paths[4], "/root/level0/level1/level2/level3/level4/file4.txt");
}

#[test]
fn test_treewalk_nonexistent_path() {
    let result = treewalk("/this/path/should/not/exist", PathKind::Missing);
    assert!(result.is_err());
    match result.err().unwrap() {
        TreewalkError::IoError(e) => {
            assert_eq!(e.kind(), io::ErrorKind::NotFound);
            assert_eq!(e.to_string(), "Path does not exist: /this/path/should/not/exist");
        }
        _ => panic!("Expected IoError with NotFound"),
    }
}

#[test]
fn test_treewalk_file_not_directory() {
    let result = treewalk("/tmp/file.txt", PathKind::NotDirectory);
    match result.err().unwrap() {
        TreewalkError::IoError(e) => {
            assert_eq!(e.kind(), io::ErrorKind::InvalidInput);
            assert_eq!(e.to_string(), "Path is not a directory: /tmp/file.txt");
        }
        _ => panic!("Expected IoError with InvalidInput"),
    }
}

#[test]
fn test_treewalk_unicode_files() {
    let root = Node::Dir(vec![
        file("caf\u{00e9}.txt"),
        file("\u{65e5}\u{672c}\u{8a9e}.txt"),
        file("emoji\u{1f389}.txt"),
    ]);
    let filenames = relative(&walk_plain(&root));

    assert_eq!(filenames.len(), 3);
    assert!(filenames.contains(&"caf\u{00e9}.txt".to_string()));
    assert!(filenames.contains(&"\u{65e5}\u{672c}\u{8a9e}.txt".to_string()));
    assert!(filenames.contains(&"emoji\u{1f389}.txt".to_string()));
}

#[test]
fn test_ignore_spec_from_lines() {
    let lines = vec!["*.tmp", "# comment", "", "build/", "/src/*.log"];
    let spec = IgnoreSpec::from_lines(lines).unwrap();

    assert_eq!(spec.patterns().len(), 3);
    assert!(spec.patterns().contains(&"*.tmp".to_string()));
    assert!(spec.patterns().contains(&"build/".to_string()));
    assert!(spec.patterns().contains(&"/src/*.log".to_string()));
}

#[test]
fn test_ignore_spec_combine() {
    let spec1 = IgnoreSpec::from_lines(vec!["*.tmp", "*.log"]).unwrap();
    let spec2 = IgnoreSpec::from_lines(vec!["build/", "dist/"]).unwrap();

    let combined = spec1.combine(&spec2);
    assert_eq!(combined.patterns().len(), 4);
    assert!(combined.patterns().contains(&"*.tmp".to_string()));
    assert!(combined.patterns().contains(&"*.log".to_string()));
    assert!(combined.patterns().contains(&"build/".to_string()));
    assert!(combined.patterns().contains(&"dist/".to_string()));
    assert_eq!(combined.patterns(), &vec!["*.tmp", "*.log", "build/", "dist/"]);
}

#[test]
fn test_ignore_spec_matches() {
    let spec = IgnoreSpec::from_lines(vec!["*.tmp", "*.log", "test_*.py"]).unwrap();

    assert!(spec.matches("file.tmp").unwrap());
    assert!(spec.matches("debug.log").unwrap());
    assert!(spec.matches("test_foo.py").unwrap());
    assert!(!spec.matches("file.txt").unwrap());
    assert!(!spec.matches("script.py").unwrap());
}

#[test]
fn test_treewalk_ignore_basic() {
    let root = Node::Dir(vec![
        (".gitignore", Node::File("*.tmp\n*.log\n")),
        file("keep.txt"),
        file("temp.tmp"),
        file("debug.log"),
    ]);
    let filenames = relative(&walk_ignoring(&root, ".gitignore", None));

    assert_eq!(filenames.len(), 2);
    assert!(filenames.contains(&".gitignore".to_string()));
    assert!(filenames.contains(&"keep.txt".to_string()));
    assert!(!filenames.contains(&"temp.tmp".to_string()));
    assert!(!filenames.contains(&"debug.log".to_string()));
}

#[test]
fn test_treewalk_ignore_directory_exclusion() {
    let root = Node::Dir(vec![
        (".gitignore", Node::File("build/\nnode_modules/\n")),
        ("src", Node::Dir(vec![file("main.rs")])),
        ("build", Node::Dir(vec![file("output.exe")])),
        ("node_modules", Node::Dir(vec![file("package.json")])),
    ]);
    let relative_paths = relative(&walk_ignoring(&root, ".gitignore", None));

    assert!(relative_paths.contains(&".gitignore".to_string()));
    assert!(relative_paths.contains(&"src/main.rs".to_string()));
    assert!(!relative_paths.iter().any(|p| p.starts_with("build/")));
    assert!(!relative_paths.iter().any(|p| p.starts_with("node_modules/")));
    assert_eq!(relative_paths.len(), 2);
}

#[test]
fn test_treewalk_ignore_cascading() {
    let root = Node::Dir(vec![
        (".gitignore", Node::File("*.tmp\n")),
        (
            "src",
            Node::Dir(vec![
                (".gitignore", Node::File("*.log\n")),
                file("main.rs"),
                file("debug.log"),
                file("temp.tmp"),
            ]),
        ),
        file("root.txt"),
        file("root.tmp"),
    ]);
    let relative_paths = relative(&walk_ignoring(&root, ".gitignore", None));

    assert!(relative_paths.contains(&".gitignore".to_string()));
    assert!(relative_paths.contains(&"root.txt".to_string()));
    assert!(!relative_paths.contains(&"root.tmp".to_string()));

    assert!(relative_paths.contains(&"src/.gitignore".to_string()));
    assert!(relative_paths.contains(&"src/main.rs".to_string()));
    assert!(!relative_paths.contains(&"src/debug.log".to_string()));
    assert!(!relative_paths.contains(&"src/temp.tmp".to_string()));
}

#[test]
fn test_treewalk_ignore_empty_gitignore() {
    let root = Node::Dir(vec![(".gitignore", Node::File("")), file("file1.txt"), file("file2.log")]);
    let paths = walk_ignoring(&root, ".gitignore", None);
    assert_eq!(paths.len(), 3);
}

#[test]
fn test_treewalk_ignore_nonexistent_path() {
    let result = treewalk_ignore(
        "/this/path/should/not/exist",
        PathKind::Missing,
        ".gitignore",
        None,
        None,
    );
    assert!(result.is_err());
    match result.err().unwrap() {
        TreewalkError::IoError(e) => {
            assert_eq!(e.kind(), io::ErrorKind::NotFound);
        }
        _ => panic!("Expected IoError with NotFound"),
    }
}

#[test]
fn test_treewalk_ignore_file_not_directory() {
    let result =
        treewalk_ignore("/tmp/file.txt", PathKind::NotDirectory, ".gitignore", None, None);
    match result.err().unwrap() {
        TreewalkError::IoError(e) => {
            assert_eq!(e.kind(), io::ErrorKind::InvalidInput);
        }
        _ => panic!("Expected IoError with InvalidInput"),
    }
}

#[test]
fn test_treewalk_ignore_with_initial_spec() {
    let initial_spec = IgnoreSpec::from_lines(vec!["*.bak"]).unwrap();
    let root = Node::Dir(vec![
        (".gitignore", Node::File("*.tmp\n")),
        file("keep.txt"),
        file("temp.tmp"),
        file("backup.bak"),
    ]);
    let filenames = relative(&walk_ignoring(&root, ".gitignore", Some(&initial_spec)));

    assert_eq!(filenames.len(), 2);
    assert!(filenames.contains(&".gitignore".to_string()));
    assert!(filenames.contains(&"keep.txt".to_string()));
    assert!(!filenames.contains(&"temp.tmp".to_string()));
    assert!(!filenames.contains(&"backup.bak".to_string()));
}

#[test]
fn test_ignore_spec_matches_directory() {
    let spec = IgnoreSpec::from_lines(vec!["build/", "dist/"]).unwrap();

    assert!(spec.matches_dir("build").unwrap());
    assert!(spec.matches_dir("dist").unwrap());

    assert!(!spec.matches("build").unwrap());
    assert!(!spec.matches("dist").unwrap());
}

#[test]
fn test_treewalk_ignore_multiple_ignore_types() {
    let root = Node::Dir(vec![
        (".gitignore", Node::File("*.tmp\n")),
        (".customignore", Node::File("*.log\n")),
        file("keep.txt"),
        file("temp.tmp"),
        file("debug.log"),
    ]);

    let filenames = relative(&walk_ignoring(&root, ".gitignore", None));
    assert!(filenames.contains(&".gitignore".to_string()));
    assert!(filenames.contains(&".customignore".to_string()));
    assert!(filenames.contains(&"keep.txt".to_string()));
    assert!(filenames.contains(&"debug.log".to_string()));
    assert!(!filenames.contains(&"temp.tmp".to_string()));

    let filenames = relative(&walk_ignoring(&root, ".customignore", None));
    assert!(filenames.contains(&".gitignore".to_string()));
    assert!(filenames.contains(&".customignore".to_string()));
    assert!(filenames.contains(&"keep.txt".to_string()));
    assert!(filenames.contains(&"temp.tmp".to_string()));
    assert!(!filenames.contains(&"debug.log".to_string()));
}

#[test]
fn from_lines_trims_and_skips() {
    let spec = IgnoreSpec::from_lines(vec!["  a.txt\t", "\u{00a0}", " # note", "!keep", "#"]).unwrap();
    assert_eq!(spec.patterns(), &vec!["a.txt", "!keep"]);
    assert!(IgnoreSpec::new().patterns().is_empty());
}

#[test]
fn from_text_splits_lines() {
    let spec = IgnoreSpec::from_text("*.tmp\r\n\n# c\n  build/  \nlast");
    assert_eq!(spec.patterns(), &vec!["*.tmp", "build/", "last"]);
    assert!(IgnoreSpec::from_text("").patterns().is_empty());
    assert!(IgnoreSpec::from_text("\n\n").patterns().is_empty());
    assert_eq!(spec.fork().patterns(), spec.patterns());
}

#[test]
fn glob_patterns_of_gitignore_patterns() {
    assert_eq!(glob_pattern("build/"), "build/**");
    assert_eq!(glob_pattern("/src/*.log"), "src/*.log");
    assert_eq!(glob_pattern("*.tmp"), "**/*.tmp");
    assert_eq!(glob_pattern("a/b"), "**/a/b");
    assert_eq!(glob_pattern("/"), "/**");
    assert_eq!(glob_pattern(""), "**/");
}

#[test]
fn negations_are_passed_over() {
    let spec = IgnoreSpec::from_lines(vec!["!*.tmp"]).unwrap();
    assert!(!spec.matches("file.tmp").unwrap());
    assert!(!IgnoreSpec::new().matches("anything").unwrap());
    assert!(!IgnoreSpec::new().matches_dir("anything").unwrap());
}

#[test]
fn anchored_pattern_matches_from_the_root_only() {
    let spec = IgnoreSpec::from_lines(vec!["/src/*.log"]).unwrap();
    assert!(spec.matches("src/a.log").unwrap());
    assert!(!spec.matches("lib/src/a.log").unwrap());
}

#[test]
fn invalid_pattern_is_reported() {
    let spec = IgnoreSpec::from_lines(vec!["*.ok", "[abc", "{x"]).unwrap();
    match spec.matches("file.txt") {
        Err(TreewalkError::InvalidPath(message)) => {
            assert!(message.starts_with("Invalid pattern '[abc': "), "{}", message);
            assert!(message.contains("unclosed character class"), "{}", message);
        }
        _ => panic!("Expected InvalidPath"),
    }
    assert!(matches!(spec.matches_dir("d"), Err(TreewalkError::InvalidPath(_))));
}

#[test]
fn error_messages() {
    let invalid = TreewalkError::InvalidPath("x".to_string());
    assert_eq!(invalid.message(), "Invalid path: x");
    let io_error: TreewalkError = io::Error::new(io::ErrorKind::Other, "disk").into();
    assert_eq!(io_error.message(), "IO error: disk");
}

#[test]
fn join_path_inserts_one_slash() {
    assert_eq!(join_path("/a", "b"), "/a/b");
    assert_eq!(join_path("/a/", "b"), "/a/b");
    assert_eq!(join_path("", "b"), "b");
    assert_eq!(join_path("/", "b"), "/b");
}

#[test]
fn relative_paths() {
    assert_eq!(relative_to("/a/b", "/a/b"), Some("".to_string()));
    assert_eq!(relative_to("/a/b/c", "/a/b"), Some("c".to_string()));
    assert_eq!(relative_to("/a/b/c", "/a/b/"), Some("c".to_string()));
    assert_eq!(relative_to("/a/b/c/d", "/a"), Some("b/c/d".to_string()));
    assert_eq!(relative_to("a/b", ""), Some("a/b".to_string()));
    assert_eq!(relative_to("/a/bc", "/a/b"), None);
    assert_eq!(relative_to("/a", "/a/b"), None);
    assert_eq!(relative_to("/x/b", "/a"), None);
}

#[test]
fn byte_and_name_order() {
    assert_eq!(bytes_sign(b"", b""), 0);
    assert_eq!(bytes_sign(b"", b"a"), -1);
    assert_eq!(bytes_sign(b"a", b""), 1);
    assert_eq!(bytes_sign(b"abc", b"abd"), -1);
    assert_eq!(bytes_sign(b"abd", b"abc"), 1);
    assert_eq!(bytes_sign(b"ab", b"abc"), -1);
    assert_eq!(bytes_sign(b"abc", b"abc"), 0);
    // Equal NFC forms: the raw bytes decide, and "e" + U+0301 starts with 0x65.
    assert_eq!(names_sign("cafe\u{0301}", "caf\u{00e9}"), -1);
    assert_eq!(names_sign("caf\u{00e9}", "cafe\u{0301}"), 1);
    // Without normalization "cafe\u{0301}" would sort before "caff".
    assert_eq!(names_sign("cafe\u{0301}", "caff"), 1);
    assert_eq!(names_sign("a", "a"), 0);
}

#[test]
fn compare_entries_orders_by_name() {
    let entry = |name: &str| DirEntry {
        name: name.to_string(),
        path: name.to_string(),
        is_dir: false,
        is_file: true,
    };
    assert_eq!(compare_entries(&entry("a"), &entry("b")), std::cmp::Ordering::Less);
    assert_eq!(compare_entries(&entry("b"), &entry("a")), std::cmp::Ordering::Greater);
    assert_eq!(compare_entries(&entry("a"), &entry("a")), std::cmp::Ordering::Equal);
}

#[test]
fn entry_classes() {
    let entry = |name: &str, is_dir: bool, is_file: bool| DirEntry {
        name: name.to_string(),
        path: name.to_string(),
        is_dir,
        is_file,
    };
    assert_eq!(classify(&entry(".gitignore", false, true)), EntryClass::IgnoreFile);
    assert_eq!(classify(&entry(".ignore", false, true)), EntryClass::IgnoreFile);
    assert_eq!(classify(&entry("gitignore", false, true)), EntryClass::RegularFile);
    assert_eq!(classify(&entry(".gitignore.bak", false, true)), EntryClass::RegularFile);
    assert_eq!(classify(&entry(".gitignore", true, false)), EntryClass::Directory);
    assert_eq!(classify(&entry("socket", false, false)), EntryClass::Neither);
    assert!(ignore_file_name(".ignore"));
    assert!(!ignore_file_name(".gnore"));
    assert!(!ignore_file_name(""));
}

#[test]
fn select_filters_one_class() {
    let listing = listdir(
        "/r",
        &vec![found_file("a.tmp"), found_file("b.txt"), found_dir("build"), found_file(".xignore")],
    );
    let spec = IgnoreSpec::from_lines(vec!["*.tmp", "build/"]).unwrap();
    let rel = Some(String::new());
    assert_eq!(select(&listing, EntryClass::RegularFile, &rel, &spec, true).unwrap(), vec![2]);
    assert_eq!(select(&listing, EntryClass::RegularFile, &rel, &spec, false).unwrap(), vec![1, 2]);
    assert_eq!(select(&listing, EntryClass::IgnoreFile, &rel, &spec, true).unwrap(), vec![0]);
    assert!(select(&listing, EntryClass::Directory, &rel, &spec, true).unwrap().is_empty());
    assert_eq!(select(&listing, EntryClass::Directory, &None, &spec, false).unwrap(), vec![3]);
}

#[test]
fn walk_outside_the_root_of_the_rules_fails_at_the_first_entry() {
    let root = Node::Dir(vec![file("a.txt")]);
    let walk =
        treewalk_ignore("/root", PathKind::Directory, ".gitignore", Some("/elsewhere"), None).unwrap();
    match drive(walk, &root, "/root") {
        Err(TreewalkError::InvalidPath(message)) => {
            assert_eq!(message, "Failed to compute relative path for: /root/a.txt");
        }
        _ => panic!("Expected InvalidPath"),
    }
    let empty = Node::Dir(vec![]);
    let walk =
        treewalk_ignore("/root", PathKind::Directory, ".gitignore", Some("/elsewhere"), None).unwrap();
    assert!(drive(walk, &empty, "/root").unwrap().is_empty());
}

#[test]
fn walk_below_a_wider_root_matches_from_that_root() {
    let root = Node::Dir(vec![("src", Node::Dir(vec![file("a.log"), file("b.txt")]))]);
    let spec = IgnoreSpec::from_lines(vec!["/root/src/*.log"]).unwrap();
    let walk =
        treewalk_ignore("/root", PathKind::Directory, ".gitignore", Some("/"), Some(&spec)).unwrap();
    assert_eq!(drive(walk, &root, "/root").unwrap(), vec!["/root/src/b.txt"]);
}

#[test]
fn a_failed_visit_leaves_the_walk_as_it_was() {
    let spec = IgnoreSpec::from_lines(vec!["[abc"]).unwrap();
    let mut walk =
        treewalk_ignore("/root", PathKind::Directory, ".gitignore", None, Some(&spec)).unwrap();
    let listing = listdir("/root", &vec![found_file("a.txt")]);
    assert!(matches!(walk.visit(&listing, None), Err(TreewalkError::InvalidPath(_))));
    assert_eq!(walk.next_dir(), Some("/root".to_string()));
    assert!(walk.paths().is_empty());
    assert!(!walk.is_done());
    // With nothing to decide on, the same patterns do no harm.
    assert!(walk.visit(&Vec::new(), None).is_ok());
    assert!(walk.is_done());
    assert_eq!(walk.next_dir(), None);
}

#[test]
fn walk_names_the_file_it_wants() {
    let plain = treewalk("/root", PathKind::Directory).unwrap();
    assert_eq!(plain.wanted_file(), None);
    let filtering =
        treewalk_ignore("/root", PathKind::Directory, ".isccignore", None, None).unwrap();
    assert_eq!(filtering.wanted_file(), Some(".isccignore".to_string()));
}
