use isaaclab_manager::exclude::{check_patterns, is_excluded, is_hidden};
use isaaclab_manager::hashing::{hash_bytes, to_hex};
use isaaclab_manager::manifest::{build_manifest, key_of, FileEntry, Manifest, ManifestError};
use isaaclab_manager::sync::{diff, plan_upload, upload_message, UploadStep};
use sha2::{Digest, Sha256};

fn file(path: &str, content: &[u8]) -> FileEntry {
    FileEntry { path: path.to_string(), content: Some(content.to_vec()) }
}

fn rules(list: &[&str]) -> Vec<String> {
    list.iter().map(|s| s.to_string()).collect()
}

fn pairs(m: &Manifest) -> Vec<(String, String)> {
    let mut out = Vec::new();
    let mut i = 0;
    while i < m.len() {
        let e = m.entry(i);
        out.push((e.path.clone(), e.hash.clone()));
        i += 1;
    }
    out.sort();
    out
}

fn default_rules() -> Vec<String> {
    rules(&[
        "__pycache__", "*.pyc", ".git", "logs/", "outputs/", ".vscode/", "*.tmp", ".DS_Store",
        "target",
    ])
}

#[test]
fn hash_is_sha256_in_lower_hex() {
    assert_eq!(
        hash_bytes(b"hello"),
        "2cf24dba5fb0a30e26e83b2ac5b9e29e1b161e5c1fa7425e73043362938b9824"
    );
    assert_eq!(
        hash_bytes(b""),
        "e3b0c44298fc1c149afbf4c8996fb92427ae41e4649b934ca495991b7852b855"
    );
    for data in [&b"abc"[..], &[0u8, 255, 16, 1][..], &[7u8; 1000][..]] {
        assert_eq!(hash_bytes(data), format!("{:x}", Sha256::digest(data)));
        assert_eq!(hash_bytes(data).len(), 64);
    }
    assert_ne!(hash_bytes(b"hello"), hash_bytes(b"hellp"));
}

#[test]
fn hex_writes_two_digits_per_byte() {
    let text: String = to_hex(&[0x00, 0x0a, 0x14, 0x1e, 0xff, 0x9c]).into_iter().collect();
    assert_eq!(text, "000a141eff9c");
    assert!(to_hex(&[]).is_empty());
}

#[test]
fn manifest_insert_and_get() {
    let mut m = Manifest::new();
    assert_eq!(m.len(), 0);
    assert_eq!(m.get("a"), None);
    m.insert("a".to_string(), "h1".to_string());
    m.insert("b".to_string(), "h2".to_string());
    assert_eq!(m.get("a"), Some("h1".to_string()));
    assert_eq!(m.get("b"), Some("h2".to_string()));
    m.insert("a".to_string(), "h3".to_string());
    assert_eq!(m.len(), 2);
    assert_eq!(m.get("a"), Some("h3".to_string()));
    assert_eq!(m.get("c"), None);
    assert_eq!(m.entry(0).path, "a");
    assert_eq!(m.entry(1).hash, "h2");
}

#[test]
fn manifest_key_uses_forward_slashes() {
    assert_eq!(key_of("a/b/c.txt"), "a/b/c.txt");
    assert_eq!(key_of("a\\b\\c.txt"), "a/b/c.txt");
    assert_eq!(key_of(""), "");
    assert_eq!(key_of("a\\b/c"), "a\\b/c".replace('\\', "/"));
}

#[test]
fn manifest_maps_each_file_to_the_hash_of_its_bytes() {
    let files = vec![file("train.py", b"print(1)"), file("cfg/env.yaml", b"a: 1\n")];
    let m = build_manifest(&files, &rules(&[])).expect("no rules, no failure");
    assert_eq!(
        pairs(&m),
        vec![
            ("cfg/env.yaml".to_string(), hash_bytes(b"a: 1\n")),
            ("train.py".to_string(), hash_bytes(b"print(1)")),
        ]
    );
}

#[test]
fn manifests_of_equal_trees_are_equal_in_any_walk_order() {
    let a = vec![
        file("a.txt", b"one"),
        file("dir/b.txt", b"two"),
        file("dir/sub/c.bin", &[0, 1, 2]),
        file("z", b""),
    ];
    let b = vec![
        file("z", b""),
        file("dir/sub/c.bin", &[0, 1, 2]),
        file("a.txt", b"one"),
        file("dir/b.txt", b"two"),
    ];
    let ma = build_manifest(&a, &default_rules()).expect("rules are well formed");
    let mb = build_manifest(&b, &default_rules()).expect("rules are well formed");
    assert_eq!(pairs(&ma), pairs(&mb));
    assert!(diff(&ma, &mb).is_empty());
    assert!(diff(&mb, &ma).is_empty());
}

#[test]
fn every_manifest_value_has_64_hex_digits() {
    let files = vec![file("a", b""), file("b/c", b"x"), file("d\\e", &[0u8; 300])];
    let m = build_manifest(&files, &rules(&[])).expect("no rules, no failure");
    assert_eq!(m.len(), 3);
    for (path, hash) in pairs(&m) {
        assert_eq!(hash.len(), 64, "{:?}", path);
        assert!(hash.chars().all(|c| c.is_ascii_digit() || ('a'..='f').contains(&c)));
        assert!(!path.contains('\\') && !path.starts_with('/') && !path.starts_with("./"));
    }
}

#[test]
fn unreadable_files_are_skipped() {
    let files = vec![
        file("ok.txt", b"x"),
        FileEntry { path: "locked.bin".to_string(), content: None },
    ];
    let m = build_manifest(&files, &rules(&[])).expect("no rules, no failure");
    assert_eq!(pairs(&m), vec![("ok.txt".to_string(), hash_bytes(b"x"))]);
}

#[test]
fn an_excluded_directory_takes_its_subtree_with_it() {
    let files = vec![
        file("src/main.py", b"m"),
        file("src/__pycache__/main.cpython-310.pyc", b"c"),
        file("__pycache__/x/y/deep.txt", b"d"),
        file(".git/config", b"g"),
        file(".git/objects/ab/cdef", b"o"),
        file("target/debug/app", b"t"),
        file("notes.tmp", b"n"),
        file("a/b/notes.tmp", b"n"),
        file("targets/readme", b"r"),
        file("a/.DS_Store", b"s"),
        file("keep/.gitignore", b"k"),
    ];
    let m = build_manifest(&files, &default_rules()).expect("rules are well formed");
    let kept: Vec<String> = pairs(&m).into_iter().map(|(p, _)| p).collect();
    // A rule without a wildcard matches a whole relative path, so `.DS_Store` below `a` stays.
    assert_eq!(kept, vec!["a/.DS_Store", "keep/.gitignore", "src/main.py", "targets/readme"]);
    assert!(m.get("src/main.py").is_some());
    assert!(m.get(".git/config").is_none());
    assert!(m.get(".git/objects/ab/cdef").is_none());
    assert!(m.get("target/debug/app").is_none());
    assert!(m.get("__pycache__/x/y/deep.txt").is_none());
    assert!(m.get("notes.tmp").is_none());
    assert!(m.get("a/b/notes.tmp").is_none());
    assert!(m.get("targets/readme").is_some());
}

#[test]
fn exclusion_agrees_with_the_glob_crate_on_every_prefix() {
    let patterns = default_rules();
    let compiled: Vec<glob::Pattern> =
        patterns.iter().map(|r| glob::Pattern::new(r).unwrap()).collect();
    let paths = [
        "", "a", "a/b", "target", "target/x", "x/target", "x/target/y", "a.pyc", "d/a.pyc",
        "logs/", "logs", "logs/x", "outputs/run", ".git", ".gitignore", "deep/.git/HEAD",
        "__pycache__", "p/__pycache__/q", "file.tmp.bak", "tmp", ".vscode/settings.json",
    ];
    for p in paths {
        let mut want = false;
        let bytes: Vec<char> = p.chars().collect();
        for k in 1..=bytes.len() {
            if k == bytes.len() || bytes[k] == '/' {
                let prefix: String = bytes[..k].iter().collect();
                if compiled.iter().any(|c| c.matches_path(std::path::Path::new(&prefix))) {
                    want = true;
                }
            }
        }
        assert_eq!(is_excluded(&patterns, p), Ok(want), "path {:?}", p);
    }
    assert_eq!(is_excluded(&patterns, ""), Ok(false));
    assert_eq!(is_excluded(&patterns, "target/debug/app"), Ok(true));
    assert_eq!(is_excluded(&patterns, "src/lib.rs"), Ok(false));
}

#[test]
fn a_malformed_rule_is_reported_by_position() {
    let bad = rules(&["*.pyc", "a**b", "[", "ok"]);
    assert_eq!(check_patterns(&bad), Err(1));
    assert_eq!(is_excluded(&bad, "x.pyc"), Err(1));
    let files = vec![file("x.txt", b"x")];
    match build_manifest(&files, &bad) {
        Err(e) => assert_eq!(e, ManifestError::InvalidPattern(1)),
        Ok(_) => panic!("a malformed rule fails the build"),
    }
    assert_eq!(check_patterns(&rules(&["["])), Err(0));
    assert_eq!(check_patterns(&rules(&["***"])), Err(0));
    assert_eq!(check_patterns(&default_rules()), Ok(()));
    assert_eq!(check_patterns(&rules(&[])), Ok(()));
    for r in ["[", "a**", "**a", "***", "[!", "ok", "*", "**", "a/**/b", "[a-z]", "?"] {
        assert_eq!(
            check_patterns(&rules(&[r])).is_ok(),
            glob::Pattern::new(r).is_ok(),
            "rule {:?}",
            r
        );
    }
}

#[test]
fn hidden_names_match_a_rule_and_malformed_rules_are_passed_over() {
    let ignore = rules(&[".*", "[", "*.log"]);
    assert!(is_hidden(&ignore, ".git"));
    assert!(is_hidden(&ignore, "run.log"));
    assert!(!is_hidden(&ignore, "train.py"));
    assert!(!is_hidden(&rules(&["["]), "["));
    assert!(!is_hidden(&rules(&[]), "anything"));
}

#[test]
fn diff_names_what_is_missing_or_changed() {
    let mut local = Manifest::new();
    local.insert("same.txt".to_string(), "h-same".to_string());
    local.insert("changed.txt".to_string(), "h-new".to_string());
    local.insert("only-local.txt".to_string(), "h-l".to_string());
    let mut server = Manifest::new();
    server.insert("same.txt".to_string(), "h-same".to_string());
    server.insert("changed.txt".to_string(), "h-old".to_string());
    server.insert("only-server.txt".to_string(), "h-s".to_string());
    let mut up = diff(&local, &server);
    up.sort();
    assert_eq!(up, vec!["changed.txt", "only-local.txt"]);
    let mut down = diff(&server, &local);
    down.sort();
    assert_eq!(down, vec!["changed.txt", "only-server.txt"]);
    assert!(diff(&local, &local).is_empty());
    assert!(diff(&Manifest::new(), &server).is_empty());
    assert_eq!(diff(&server, &Manifest::new()).len(), 3);
}

#[test]
fn after_the_transfer_nothing_is_left_to_transfer() {
    let mut source = Manifest::new();
    source.insert("a".to_string(), "1".to_string());
    source.insert("b".to_string(), "2".to_string());
    source.insert("c".to_string(), "3".to_string());
    let mut dest = Manifest::new();
    dest.insert("a".to_string(), "1".to_string());
    dest.insert("b".to_string(), "0".to_string());
    dest.insert("d".to_string(), "4".to_string());
    for path in diff(&source, &dest) {
        let hash = source.get(&path).expect("diff names paths of the source");
        dest.insert(path, hash);
    }
    assert!(diff(&source, &dest).is_empty());
    assert_eq!(dest.get("d"), Some("4".to_string()));
}

#[test]
fn upload_is_written_below_the_target() {
    match plan_upload("/home/u/moves", "src/train.py") {
        UploadStep::Write { relative, dest } => {
            assert_eq!(relative, "src/train.py");
            assert_eq!(dest, "/home/u/moves/src/train.py");
        }
        UploadStep::Skip => panic!("a plain name is written"),
    }
    match plan_upload("/home/u/moves", "../../etc/passwd") {
        UploadStep::Write { relative, dest } => {
            assert_eq!(relative, "etc/passwd");
            assert_eq!(dest, "/home/u/moves/etc/passwd");
            assert!(std::path::Path::new(&dest).starts_with("/home/u/moves"));
        }
        UploadStep::Skip => panic!("the name has plain segments"),
    }
    match plan_upload("/home/u/moves", "/abs/x") {
        UploadStep::Write { dest, .. } => assert_eq!(dest, "/home/u/moves/abs/x"),
        UploadStep::Skip => panic!("the name has plain segments"),
    }
}

#[test]
fn upload_without_a_plain_name_is_skipped() {
    for name in ["", ".", "..", "/", "../..", "./."] {
        assert!(matches!(plan_upload("/home/u/moves", name), UploadStep::Skip), "{:?}", name);
    }
}

#[test]
fn upload_then_manifest_gives_the_hash_computed_before() {
    let target = "/home/u/moves";
    let uploads: Vec<(&str, &[u8])> = vec![
        ("src/train.py", b"print('hi')"),
        ("../escape.txt", b"still inside"),
        ("data\\set.bin", &[1, 2, 3]),
        ("src/train.py", b"print('second')"),
    ];
    // The tree as a walk finds it after the upload: the last write at each path counts.
    let mut tree: Vec<FileEntry> = vec![file("old.txt", b"old")];
    let mut written = 0u64;
    let mut sent: Vec<(String, String)> = Vec::new();
    for (name, bytes) in &uploads {
        let local_hash = hash_bytes(bytes);
        match plan_upload(target, name) {
            UploadStep::Write { relative, dest } => {
                assert!(dest.starts_with(target));
                tree.retain(|f| f.path != relative);
                tree.push(file(&relative, bytes));
                sent.retain(|(p, _)| *p != relative);
                sent.push((relative, local_hash));
                written += 1;
            }
            UploadStep::Skip => {}
        }
    }
    assert_eq!(upload_message(written), "Sync complete. Wrote 4 files.");
    let m = build_manifest(&tree, &default_rules()).expect("rules are well formed");
    for (relative, local_hash) in &sent {
        assert_eq!(m.get(&key_of(relative)), Some(local_hash.clone()), "path {:?}", relative);
    }
    assert_eq!(m.get("src/train.py"), Some(hash_bytes(b"print('second')")));
    assert_eq!(m.get("escape.txt"), Some(hash_bytes(b"still inside")));
    assert_eq!(m.get("old.txt"), Some(hash_bytes(b"old")));
}

#[test]
fn upload_message_counts_files() {
    assert_eq!(upload_message(0), "Sync complete. Wrote 0 files.");
    assert_eq!(upload_message(1), "Sync complete. Wrote 1 files.");
    assert_eq!(upload_message(1234), "Sync complete. Wrote 1234 files.");
}
