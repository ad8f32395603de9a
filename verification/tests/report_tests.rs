use isaaclab_manager::conda::{conda_environments, conda_program, parse_conda_envs};
use isaaclab_manager::error::{AppError, IoFailure};
use isaaclab_manager::extract::{plan_extract, ExtractStep};
use isaaclab_manager::listing::{build_listing, sort_listing, text_less, DirEntry};
use isaaclab_manager::logs::{tail_lines, task_log};
use isaaclab_manager::models::FileInfo;
use isaaclab_manager::notifications::{Notification, NotificationType};
use isaaclab_manager::path::PathError;
use isaaclab_manager::resources::{cpu_deltas, is_core, parse_meminfo, parse_proc_stat, ProcStat};
use isaaclab_manager::system_resources::{parse_nvidia_smi_csv, split_fields};

fn cv(s: &str) -> Vec<char> {
    s.chars().collect()
}

#[test]
fn nvidia_table_is_read_line_by_line() {
    let csv = "NVIDIA A100-SXM4-40GB, 40960, 1024, 37, P0, 2\nNVIDIA T4, 15360, 0, 0, P12, 0\n";
    let gpus = parse_nvidia_smi_csv(csv);
    assert_eq!(gpus.len(), 2);
    assert_eq!(gpus[0].name, "NVIDIA A100-SXM4-40GB");
    assert_eq!(gpus[0].total_memory_mb, 40960);
    assert_eq!(gpus[0].used_memory_mb, 1024);
    assert_eq!(gpus[0].gpu_utilization, 37);
    assert_eq!(gpus[0].performance_state, "P0");
    assert_eq!(gpus[0].process_count, 2);
    assert_eq!(gpus[1].name, "NVIDIA T4");
    assert_eq!(gpus[1].total_memory_mb, 15360);
    assert_eq!(gpus[1].performance_state, "P12");
}

#[test]
fn nvidia_lines_without_six_fields_are_passed_over() {
    let csv = "\n  GPU0, 1, 2, 3, P0, 4  \nbroken line\nA, B\nGPU1, [N/A], x, 4294967296, P10, -1, \nGPU2,,,,,\r\n\n";
    let gpus = parse_nvidia_smi_csv(csv);
    assert_eq!(gpus.len(), 2);
    assert_eq!(gpus[0].name, "GPU0");
    assert_eq!(gpus[0].process_count, 4);
    assert_eq!(gpus[1].name, "GPU2");
    assert_eq!(gpus[1].total_memory_mb, 0);
    assert_eq!(gpus[1].performance_state, "");
    let unreadable = parse_nvidia_smi_csv("G, [N/A], x, 4294967296, P10, -1");
    assert_eq!(unreadable.len(), 1);
    assert_eq!(
        (
            unreadable[0].total_memory_mb,
            unreadable[0].used_memory_mb,
            unreadable[0].gpu_utilization,
            unreadable[0].process_count
        ),
        (0, 0, 0, 0)
    );
    assert!(parse_nvidia_smi_csv("").is_empty());
    assert!(parse_nvidia_smi_csv("   \n  ").is_empty());
}

#[test]
fn fields_are_trimmed() {
    let got: Vec<String> =
        split_fields(&cv(" a ,b,, c d ,")).iter().map(|f| f.iter().collect()).collect();
    assert_eq!(got, vec!["a", "b", "", "c d", ""]);
}

#[test]
fn memory_is_read_in_kibibytes() {
    let text = "MemTotal:       16384 kB\nMemFree:         4096 kB\nMemAvailable:    8192 kB\nBuffers: 1 kB\n";
    let m = parse_meminfo(text);
    assert_eq!(m.total, 16384 * 1024);
    assert_eq!(m.free, 4096 * 1024);
    assert_eq!(m.used, (16384 - 8192) * 1024);
    let none = parse_meminfo("");
    assert_eq!((none.total, none.used, none.free), (0, 0, 0));
    let odd = parse_meminfo("MemTotal: x kB\nMemFree:\nMemAvailable: 1\nMemTotal: 2\nMemTotal\n");
    assert_eq!(odd.total, 2048);
    assert_eq!(odd.free, 0);
    assert_eq!(odd.used, 1024);
}

#[test]
fn memory_arithmetic_wraps() {
    let m = parse_meminfo("MemTotal: 1\nMemAvailable: 2\n");
    assert_eq!(m.used, 1024u64.wrapping_sub(2048));
    let big = parse_meminfo("MemTotal: 18446744073709551615\n");
    assert_eq!(big.total, u64::MAX.wrapping_mul(1024));
}

#[test]
fn processor_times_are_read_from_cpu_lines() {
    let text = "cpu  10 20 30 40 50 60 70 80 0 0\ncpu0 1 2 3 4 5 6 7 8 9 10\nintr 1 2 3 4 5 6 7 8 9\ncpu1 1 2 3\ncpux a b c d e f g h\n cpu2 1 2 3 4 5 6 7 8\n";
    let cpus = parse_proc_stat(text);
    let ids: Vec<&str> = cpus.iter().map(|c| c.id.as_str()).collect();
    assert_eq!(ids, vec!["cpu", "cpu0", "cpux"]);
    assert_eq!(
        cpus[0].stat,
        ProcStat { user: 10, nice: 20, system: 30, idle: 40, iowait: 50, irq: 60, softirq: 70, steal: 80 }
    );
    assert_eq!(
        cpus[1].stat,
        ProcStat { user: 1, nice: 2, system: 3, idle: 4, iowait: 5, irq: 6, softirq: 7, steal: 8 }
    );
    assert_eq!(
        cpus[2].stat,
        ProcStat { user: 0, nice: 0, system: 0, idle: 0, iowait: 0, irq: 0, softirq: 0, steal: 0 }
    );
    assert!(is_core("cpu0"));
    assert!(is_core("cpu12"));
    assert!(!is_core("cpu"));
    assert!(!is_core("intr"));
    assert!(!is_core(""));
}

#[test]
fn processor_deltas_between_two_readings() {
    let before = ProcStat { user: 100, nice: 0, system: 50, idle: 800, iowait: 50, irq: 0, softirq: 0, steal: 0 };
    let after = ProcStat { user: 160, nice: 0, system: 70, idle: 900, iowait: 70, irq: 0, softirq: 0, steal: 0 };
    assert_eq!(cpu_deltas(&before, &after), (120, 200));
    assert_eq!(cpu_deltas(&before, &before), (0, 0));
    let (idle, total) = cpu_deltas(&after, &before);
    assert_eq!(idle, 0u64.wrapping_sub(120));
    assert_eq!(total, 0u64.wrapping_sub(200));
}

#[test]
fn notices_carry_their_texts() {
    let n = Notification::task_created("n-1".to_string(), 42, "Ant", "job-1");
    assert_eq!(n.id, "n-1");
    assert_eq!(n.timestamp, 42);
    assert_eq!(n.notification_type, NotificationType::TaskCreated);
    assert_eq!(n.title, "任务已创建");
    assert_eq!(n.message, "任务 'Ant' 已添加到队列");
    assert_eq!(n.task_id, Some("job-1".to_string()));
    let s = Notification::task_started("n".to_string(), 1, "Ant", "j");
    assert_eq!((s.title.as_str(), s.message.as_str()), ("任务已开始", "任务 'Ant' 开始执行"));
    assert_eq!(s.notification_type, NotificationType::TaskStarted);
    let c = Notification::task_completed("n".to_string(), 1, "Ant", "j");
    assert_eq!((c.title.as_str(), c.message.as_str()), ("任务已完成", "任务 'Ant' 执行完成"));
    assert_eq!(c.notification_type, NotificationType::TaskCompleted);
    let f = Notification::task_failed("n".to_string(), 1, "Ant", "j", "exit 1");
    assert_eq!((f.title.as_str(), f.message.as_str()), ("任务执行失败", "任务 'Ant' 执行失败: exit 1"));
    assert_eq!(f.notification_type, NotificationType::TaskFailed);
    assert_eq!(f.task_id, Some("j".to_string()));
    let ok = Notification::sync_completed("n".to_string(), 7);
    assert_eq!((ok.title.as_str(), ok.message.as_str()), ("代码同步完成", "代码同步操作已成功完成"));
    assert_eq!(ok.task_id, None);
    assert_eq!(ok.notification_type, NotificationType::SyncCompleted);
    let bad = Notification::sync_failed("n".to_string(), 7, "disk full");
    assert_eq!((bad.title.as_str(), bad.message.as_str()), ("代码同步失败", "代码同步失败: disk full"));
    assert_eq!(bad.notification_type, NotificationType::SyncFailed);
    let plain = Notification::new(
        "x".to_string(),
        NotificationType::SystemError,
        "t".to_string(),
        "m".to_string(),
        -5,
        None,
    );
    assert_eq!((plain.id.as_str(), plain.title.as_str(), plain.message.as_str(), plain.timestamp), ("x", "t", "m", -5));
}

#[test]
fn failures_map_to_statuses_and_messages() {
    let cases = vec![
        (AppError::Database("locked".to_string()), 500, "Database error"),
        (AppError::Io(IoFailure::NotFound), 404, "Not found"),
        (AppError::Io(IoFailure::PermissionDenied), 403, "Access denied."),
        (AppError::Io(IoFailure::Other), 500, "IO error"),
        (AppError::TaskNotFound("job-9".to_string()), 404, "Task not found: job-9"),
        (AppError::TaskAlreadyRunning, 409, "Task already running"),
        (AppError::Multipart("bad boundary".to_string()), 400, "Multipart form error: bad boundary"),
        (AppError::Config("/secret/path missing".to_string()), 500, "Configuration error"),
    ];
    for (error, status, message) in cases {
        assert_eq!(error.status_code(), status, "{:?}", error);
        assert_eq!(error.client_message(), message, "{:?}", error);
    }
    assert!(matches!(
        AppError::from_path_error(PathError::PermissionDenied),
        AppError::Io(IoFailure::PermissionDenied)
    ));
    assert!(matches!(
        AppError::from_path_error(PathError::NotFound),
        AppError::Io(IoFailure::NotFound)
    ));
    assert_eq!(AppError::from_path_error(PathError::PermissionDenied).status_code(), 403);
}

#[test]
fn the_log_shows_its_last_two_hundred_lines() {
    let mut text = String::new();
    for i in 0..250 {
        text.push_str(&format!("line {}\n", i));
    }
    let shown = task_log(true, Some(&text));
    let lines: Vec<&str> = shown.split('\n').collect();
    assert_eq!(lines.len(), 200);
    assert_eq!(lines[0], "line 50");
    assert_eq!(lines[199], "line 249");
    let want: Vec<&str> = text.lines().collect();
    assert_eq!(shown, want[50..].join("\n"));
    assert_eq!(task_log(true, Some("a\r\nb\n")), "a\nb");
    assert_eq!(task_log(true, Some("")), "");
    assert_eq!(task_log(true, None), "Log not found or empty.");
    assert_eq!(task_log(false, Some("ignored")), "Log path not set.");
    assert_eq!(task_log(false, None), "Log path not set.");
}

#[test]
fn tail_takes_lines_from_the_end() {
    assert_eq!(tail_lines("a\nb\nc\n", 2), "b\nc");
    assert_eq!(tail_lines("a\nb\nc", 5), "a\nb\nc");
    assert_eq!(tail_lines("a\nb\nc", 0), "");
    assert_eq!(tail_lines("a\n\n\n", 2), "\n");
    assert_eq!(tail_lines("hello", 200), "hello");
}

#[test]
fn conda_environments_are_the_first_words() {
    let listing = "# conda environments:\n#\nbase                  *  /home/u/anaconda3\nisaaclab                 /home/u/anaconda3/envs/isaaclab\n\n   \n  indented /x\n#commented /y\n";
    assert_eq!(parse_conda_envs(listing), vec!["base", "isaaclab", "indented"]);
    let want: Vec<String> = listing
        .lines()
        .filter(|line| !line.starts_with('#') && !line.trim().is_empty())
        .filter_map(|line| line.split_whitespace().next())
        .map(String::from)
        .collect();
    assert_eq!(parse_conda_envs(listing), want);
    assert_eq!(conda_environments(true, listing), want);
    assert_eq!(conda_environments(false, listing), vec!["base"]);
    assert!(conda_environments(true, "").is_empty());
    assert_eq!(conda_program("/home/u/anaconda3"), "/home/u/anaconda3/bin/conda");
}

#[test]
fn texts_are_ordered_like_strings() {
    let words = ["", "a", "A", "ab", "b", "aa", "é", "z", "zz", "Z", "10", "9", "日本", "a\u{10ffff}"];
    for x in words {
        for y in words {
            assert_eq!(text_less(&cv(x), &cv(y)), x < y, "{:?} before {:?}", x, y);
        }
    }
}

fn info(name: &str, is_dir: bool) -> FileInfo {
    FileInfo {
        name: name.to_string(),
        path: format!("p/{}", name),
        is_dir,
        created_at: None,
        modified_at: Some(1),
    }
}

#[test]
fn listings_put_directories_first_and_sort_by_name() {
    let files = vec![
        info("zeta.txt", false),
        info("beta", true),
        info("alpha.txt", false),
        info("Alpha.txt", false),
        info("alpha", true),
        info("10", false),
        info("9", true),
    ];
    let sorted = sort_listing(files);
    let got: Vec<(&str, bool)> = sorted.iter().map(|f| (f.name.as_str(), f.is_dir)).collect();
    assert_eq!(
        got,
        vec![
            ("9", true),
            ("alpha", true),
            ("beta", true),
            ("10", false),
            ("Alpha.txt", false),
            ("alpha.txt", false),
            ("zeta.txt", false),
        ]
    );
    assert_eq!(sorted[0].path, "p/9");
    assert!(sort_listing(Vec::new()).is_empty());
}

#[test]
fn sorting_agrees_with_the_standard_sort() {
    let names = ["m", "a", "z", "b", "y", "c", "x", "mm", "", "M", "a b", "a-b", "ab"];
    let mut files = Vec::new();
    for (i, n) in names.iter().enumerate() {
        files.push(info(n, i % 3 == 0));
    }
    let mut want: Vec<(String, bool)> = files.iter().map(|f| (f.name.clone(), f.is_dir)).collect();
    want.sort_by(|a, b| {
        if a.1 && !b.1 {
            std::cmp::Ordering::Less
        } else if !a.1 && b.1 {
            std::cmp::Ordering::Greater
        } else {
            a.0.cmp(&b.0)
        }
    });
    let got: Vec<(String, bool)> =
        sort_listing(files).into_iter().map(|f| (f.name, f.is_dir)).collect();
    assert_eq!(got, want);
}

#[test]
fn a_listing_hides_ignored_names_and_gives_relative_paths() {
    let entries = vec![
        DirEntry { name: "train.py".to_string(), is_dir: false, created_at: Some(1), modified_at: Some(2) },
        DirEntry { name: ".git".to_string(), is_dir: true, created_at: None, modified_at: None },
        DirEntry { name: "configs".to_string(), is_dir: true, created_at: None, modified_at: Some(3) },
        DirEntry { name: "notes.tmp".to_string(), is_dir: false, created_at: None, modified_at: None },
    ];
    let ignore = vec![".*".to_string(), "*.tmp".to_string(), "[".to_string()];
    let listing = build_listing(entries, "/work/project/run1", "/work", &ignore);
    assert_eq!(listing.parent, Some("project".to_string()));
    let got: Vec<(&str, &str, bool, Option<i64>, Option<i64>)> = listing
        .files
        .iter()
        .map(|f| (f.name.as_str(), f.path.as_str(), f.is_dir, f.created_at, f.modified_at))
        .collect();
    assert_eq!(
        got,
        vec![
            ("configs", "project/run1/configs", true, None, Some(3)),
            ("train.py", "project/run1/train.py", false, Some(1), Some(2)),
        ]
    );
}

#[test]
fn the_listing_of_the_base_has_no_parent() {
    let entries = vec![DirEntry { name: "a".to_string(), is_dir: false, created_at: None, modified_at: None }];
    let listing = build_listing(entries, "/work", "/work", &Vec::new());
    assert_eq!(listing.parent, None);
    assert_eq!(listing.files.len(), 1);
    assert_eq!(listing.files[0].path, "a");
    let below = build_listing(Vec::new(), "/work/a", "/work", &Vec::new());
    assert_eq!(below.parent, Some("/".to_string()));
    assert!(below.files.is_empty());
}

#[test]
fn archive_entries_are_extracted_below_the_local_directory() {
    match plan_extract("/tmp/out", "logs/", Some("logs")) {
        ExtractStep::MakeDirectory(p) => assert_eq!(p, "/tmp/out/logs"),
        _ => panic!("a directory entry"),
    }
    match plan_extract("/tmp/out", "logs/a.txt", Some("logs/a.txt")) {
        ExtractStep::WriteFile(p) => assert_eq!(p, "/tmp/out/logs/a.txt"),
        _ => panic!("a file entry"),
    }
    assert!(matches!(plan_extract("/tmp/out", "../../etc/passwd", None), ExtractStep::Skip));
    assert!(matches!(plan_extract("/tmp/out", "dir/", None), ExtractStep::Skip));
    match plan_extract(".", "x", Some("x")) {
        ExtractStep::WriteFile(p) => assert_eq!(p, "./x"),
        _ => panic!("a file entry"),
    }
}

#[test]
fn files_with_one_name_keep_their_order() {
    let mut first = info("same", false);
    first.path = "first".to_string();
    let mut second = info("same", false);
    second.path = "second".to_string();
    let mut third = info("same", false);
    third.path = "third".to_string();
    let sorted = sort_listing(vec![info("z", false), first, info("a", true), second, third]);
    let got: Vec<&str> = sorted.iter().map(|f| f.path.as_str()).collect();
    assert_eq!(got, vec!["p/a", "first", "second", "third", "p/z"]);
}
