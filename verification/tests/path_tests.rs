use isaaclab_manager::path::{
    archive_file_name, candidate_path, confine, confine_file, confine_removal,
    content_disposition, download_candidate, file_name, is_absolute, join_path, parent_of,
    path_within, relative_to, sandbox_root, sanitize_path, PathError, RootPolicy,
};
use std::path::{Component, Path, PathBuf};

fn std_sanitize(input: &str) -> String {
    let kept: PathBuf = PathBuf::from(input)
        .components()
        .filter(|c| matches!(c, Component::Normal(_)))
        .collect();
    kept.to_string_lossy().into_owned()
}

const REQUESTS: [&str; 22] = [
    "",
    ".",
    "..",
    "/",
    "//",
    "a",
    "a/b",
    "a//b",
    "./a/./b/.",
    "../../etc/passwd",
    "/etc/passwd",
    "a/../b",
    "a/b/",
    "/a/b/../../..",
    "...",
    "..a",
    "a..",
    ".hidden/file.txt",
    "logs/run 1/events.out.tfevents",
    "weird\\name/x",
    "a/./././b",
    "////a////",
];

#[test]
fn sanitize_keeps_exactly_the_normal_components() {
    for r in REQUESTS {
        assert_eq!(sanitize_path(r), std_sanitize(r), "sanitizing {:?}", r);
    }
    assert_eq!(sanitize_path("../../etc/passwd"), "etc/passwd");
    assert_eq!(sanitize_path("/a/./b/../c"), "a/b/c");
    assert_eq!(sanitize_path("../.."), "");
}

#[test]
fn sanitizing_twice_changes_nothing() {
    for r in REQUESTS {
        let once = sanitize_path(r);
        assert_eq!(sanitize_path(&once), once);
        assert!(!is_absolute(&once));
        assert!(!once.split('/').any(|seg| seg == ".." || seg == "."));
    }
}

#[test]
fn absolute_means_leading_slash() {
    assert!(is_absolute("/"));
    assert!(is_absolute("/home/user"));
    assert!(!is_absolute(""));
    assert!(!is_absolute("home/user"));
    assert!(!is_absolute("./x"));
    for r in REQUESTS {
        assert_eq!(is_absolute(r), Path::new(r).is_absolute());
    }
}

#[test]
fn join_puts_one_slash_between() {
    assert_eq!(join_path("/srv/root", "a/b"), "/srv/root/a/b");
    assert_eq!(join_path("/srv/root/", "a/b"), "/srv/root/a/b");
    assert_eq!(join_path("/srv/root", ""), "/srv/root");
    assert_eq!(join_path("", "a"), "a");
    assert_eq!(join_path("/", "a"), "/a");
    assert_eq!(join_path("", ""), "");
    for r in REQUESTS {
        let rel = sanitize_path(r);
        if !rel.is_empty() {
            let want = Path::new("/srv/root").join(&rel);
            assert_eq!(join_path("/srv/root", &rel), want.to_string_lossy());
        }
    }
}

#[test]
fn candidate_of_no_input_is_the_base() {
    assert_eq!(candidate_path("/srv/root", None, RootPolicy::FixedRoot), "/srv/root");
    assert_eq!(candidate_path("/srv/root", Some(""), RootPolicy::FixedRoot), "/srv/root");
    assert_eq!(candidate_path("/srv/root", None, RootPolicy::AllowAbsolute), "/srv/root");
    assert_eq!(candidate_path("/srv/root", Some(""), RootPolicy::AllowAbsolute), "/srv/root");
    assert_eq!(candidate_path("/srv/root", Some("."), RootPolicy::FixedRoot), "/srv/root");
}

#[test]
fn candidate_under_fixed_root_discards_anchors() {
    assert_eq!(
        candidate_path("/srv/root", Some("/etc/passwd"), RootPolicy::FixedRoot),
        "/srv/root/etc/passwd"
    );
    assert_eq!(
        candidate_path("/srv/root", Some("runs/a"), RootPolicy::FixedRoot),
        "/srv/root/runs/a"
    );
}

#[test]
fn candidate_takes_absolute_input_verbatim_when_allowed() {
    assert_eq!(
        candidate_path("/srv/root", Some("/home/u/../u/x"), RootPolicy::AllowAbsolute),
        "/home/u/../u/x"
    );
    assert_eq!(
        candidate_path("/srv/root", Some("runs/../a"), RootPolicy::AllowAbsolute),
        "/srv/root/runs/a"
    );
}

#[test]
fn traversal_request_never_names_a_path_outside_the_root() {
    for root in ["/srv/root", "/", "/home/user/work/", "relative/base", ""] {
        let c = candidate_path(root, Some("../../etc/passwd"), RootPolicy::FixedRoot);
        assert_eq!(c, join_path(root, "etc/passwd"));
        assert!(path_within(&c, root), "{:?} within {:?}", c, root);
        assert!(!c.split('/').any(|seg| seg == ".."));
        let c = candidate_path(root, Some("../../etc/passwd"), RootPolicy::AllowAbsolute);
        assert!(path_within(&c, root));
    }
}

#[test]
fn every_candidate_under_fixed_root_lies_within_the_base() {
    for base in ["/srv/root", "/srv/root/", "/", "", "rel"] {
        for r in REQUESTS {
            let c = candidate_path(base, Some(r), RootPolicy::FixedRoot);
            assert!(path_within(&c, base), "{:?} from {:?} within {:?}", c, r, base);
            assert_eq!(
                Path::new(&c).starts_with(Path::new(base)),
                true,
                "{:?} starts with {:?}",
                c,
                base
            );
        }
    }
}

#[test]
fn within_compares_whole_components() {
    assert!(path_within("/srv/root", "/srv/root"));
    assert!(path_within("/srv/root/a", "/srv/root"));
    assert!(path_within("/srv/root/a", "/srv/root/"));
    assert!(!path_within("/srv/rootkit", "/srv/root"));
    assert!(!path_within("/srv", "/srv/root"));
    assert!(!path_within("/etc/passwd", "/srv/root"));
    assert!(!path_within("srv/root/a", "/srv/root"));
    assert!(path_within("/anything", "/"));
    let cases = [
        ("/a/b/c", "/a/b"),
        ("/a/bc", "/a/b"),
        ("/a/b", "/a/b/c"),
        ("/a/b/", "/a/b"),
        ("/a//b/c", "/a/b"),
        ("a/b", "a"),
        ("/x", "/"),
    ];
    for (p, root) in cases {
        assert_eq!(path_within(p, root), Path::new(p).starts_with(root), "{:?} in {:?}", p, root);
    }
}

#[test]
fn confine_tells_missing_from_forbidden() {
    assert_eq!(confine(None, Some("/srv/root")), Err(PathError::NotFound));
    assert_eq!(confine(Some("/srv/root/a".to_string()), None), Err(PathError::NotFound));
    assert_eq!(
        confine(Some("/etc/passwd".to_string()), Some("/srv/root")),
        Err(PathError::PermissionDenied)
    );
    assert_eq!(
        confine(Some("/srv/root/a".to_string()), Some("/srv/root")),
        Ok("/srv/root/a".to_string())
    );
    assert_eq!(
        confine(Some("/srv/root".to_string()), Some("/srv/root")),
        Ok("/srv/root".to_string())
    );
}

#[test]
fn a_link_that_leads_to_etc_passwd_is_denied() {
    // The request `../../etc/passwd` is reduced to `etc/passwd` below the root. Where that
    // name is a link out of the sandbox, its canonical form is what is judged.
    let candidate = candidate_path("/srv/root", Some("../../etc/passwd"), RootPolicy::FixedRoot);
    assert_eq!(candidate, "/srv/root/etc/passwd");
    let resolved = Some("/etc/passwd".to_string());
    assert_eq!(confine(resolved, Some("/srv/root")), Err(PathError::PermissionDenied));
}

#[test]
fn confine_file_wants_a_regular_file() {
    assert_eq!(
        confine_file(Some("/srv/root/a".to_string()), Some("/srv/root"), true),
        Ok("/srv/root/a".to_string())
    );
    assert_eq!(
        confine_file(Some("/srv/root/a".to_string()), Some("/srv/root"), false),
        Err(PathError::NotFound)
    );
    assert_eq!(
        confine_file(Some("/etc/shadow".to_string()), Some("/srv/root"), true),
        Err(PathError::PermissionDenied)
    );
    assert_eq!(confine_file(None, Some("/srv/root"), true), Err(PathError::NotFound));
}

#[test]
fn the_root_itself_may_not_be_removed() {
    assert_eq!(
        confine_removal(Some("/srv/root".to_string()), Some("/srv/root")),
        Err(PathError::PermissionDenied)
    );
    assert_eq!(
        confine_removal(Some("/srv/root/".to_string()), Some("/srv/root")),
        Err(PathError::PermissionDenied)
    );
    assert_eq!(
        confine_removal(Some("/srv/root/x".to_string()), Some("/srv/root")),
        Ok("/srv/root/x".to_string())
    );
    assert_eq!(
        confine_removal(Some("/srv".to_string()), Some("/srv/root")),
        Err(PathError::PermissionDenied)
    );
    assert_eq!(confine_removal(None, Some("/srv/root")), Err(PathError::NotFound));
}

#[test]
fn sandbox_root_is_base_or_home() {
    assert_eq!(
        sandbox_root("/srv/root", Some("/home/u"), Some("/home/u/x"), RootPolicy::AllowAbsolute),
        Some("/home/u".to_string())
    );
    assert_eq!(
        sandbox_root("/srv/root", None, Some("/home/u/x"), RootPolicy::AllowAbsolute),
        None
    );
    assert_eq!(
        sandbox_root("/srv/root", Some("/home/u"), Some("x"), RootPolicy::AllowAbsolute),
        Some("/srv/root".to_string())
    );
    assert_eq!(
        sandbox_root("/srv/root", Some("/home/u"), Some("/home/u/x"), RootPolicy::FixedRoot),
        Some("/srv/root".to_string())
    );
    assert_eq!(
        sandbox_root("/srv/root", None, None, RootPolicy::AllowAbsolute),
        Some("/srv/root".to_string())
    );
}

#[test]
fn download_candidate_sanitizes_both_parts() {
    assert_eq!(
        download_candidate("/work", Some("runs/../a"), "../x/model.pt", RootPolicy::FixedRoot),
        "/work/runs/a/x/model.pt"
    );
    assert_eq!(
        download_candidate("/work", None, "logs/task.log", RootPolicy::FixedRoot),
        "/work/logs/task.log"
    );
    assert_eq!(
        download_candidate("/work", Some("/data"), "/etc/passwd", RootPolicy::AllowAbsolute),
        "/data/etc/passwd"
    );
}

#[test]
fn relative_path_is_what_lies_below_the_root() {
    assert_eq!(relative_to("/srv/root/a/b", "/srv/root"), Some("a/b".to_string()));
    assert_eq!(relative_to("/srv/root", "/srv/root"), Some("".to_string()));
    assert_eq!(relative_to("/srv/other", "/srv/root"), None);
    assert_eq!(relative_to("/srv/root/a", "/srv/root/"), Some("a".to_string()));
    for (p, root) in [("/a/b/c", "/a"), ("/a/b/c", "/a/b/c"), ("/a/b/c", "/")] {
        let want = Path::new(p).strip_prefix(root).unwrap().to_string_lossy().into_owned();
        assert_eq!(relative_to(p, root), Some(want));
    }
}

#[test]
fn parent_of_a_listing() {
    assert_eq!(parent_of("/work", "/work"), None);
    assert_eq!(parent_of("/work/a", "/work"), Some("/".to_string()));
    assert_eq!(parent_of("/work/a/b", "/work"), Some("a".to_string()));
    assert_eq!(parent_of("/work/a/b/c", "/work"), Some("a/b".to_string()));
    assert_eq!(parent_of("/other/a", "/work"), None);
}

#[test]
fn archive_name_comes_from_the_last_segment() {
    assert_eq!(archive_file_name(None), "archive.zip");
    assert_eq!(archive_file_name(Some("")), "archive.zip");
    assert_eq!(archive_file_name(Some("..")), "archive.zip");
    assert_eq!(archive_file_name(Some("/")), "archive.zip");
    assert_eq!(archive_file_name(Some("logs/run1")), "run1.zip");
    assert_eq!(archive_file_name(Some("/abs/outputs/")), "outputs.zip");
    assert_eq!(archive_file_name(Some("x/../y/.")), "y.zip");
}

#[test]
fn file_name_is_the_last_plain_segment() {
    assert_eq!(file_name("/srv/root/model.pt"), Some("model.pt".to_string()));
    assert_eq!(file_name("/srv/root/dir/"), Some("dir".to_string()));
    assert_eq!(file_name("/"), None);
    assert_eq!(file_name(""), None);
    for p in ["/a/b/c.txt", "/a", "x/y"] {
        let want = Path::new(p).file_name().map(|n| n.to_string_lossy().into_owned());
        assert_eq!(file_name(p), want);
    }
}

#[test]
fn content_disposition_quotes_the_name() {
    assert_eq!(content_disposition("run1.zip"), "attachment; filename=\"run1.zip\"");
    assert_eq!(content_disposition(""), "attachment; filename=\"\"");
}
