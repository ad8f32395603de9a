use isaaclab_manager::job::{extract_task_name, JobUpdate, Task, TaskStatus};
use isaaclab_manager::runner::{
    plan_exit, plan_launch, plan_stop, prepare_task, CreateTaskRequest, JobQueue, Launch,
    LiveJobs, QueueDiscipline, TaskManager,
};

fn request(command: &str) -> CreateTaskRequest {
    CreateTaskRequest { command: command.to_string(), conda_env: None, working_dir: None }
}

fn submitted(id: &str, command: &str, now: i64) -> Task {
    prepare_task(request(command), id.to_string(), "isaaclab", now)
}

fn ordered(task: &Task) -> bool {
    let started_ok = task.started_at.map_or(true, |s| task.created_at <= s);
    let finished_ok = task.finished_at.map_or(true, |f| {
        task.created_at <= f && task.started_at.map_or(true, |s| s <= f)
    });
    started_ok && finished_ok
}

#[test]
fn task_name_comes_from_the_task_flag() {
    assert_eq!(extract_task_name("python train.py --task=Isaac-Ant-v0 --headless"), "Isaac-Ant-v0");
    assert_eq!(extract_task_name("python train.py"), "Training Task");
    assert_eq!(extract_task_name(""), "Training Task");
    assert_eq!(extract_task_name("--task="), "");
    assert_eq!(extract_task_name("x --task=A --task=B"), "A");
    assert_eq!(extract_task_name("x\t--task=Tab\n"), "Tab");
    assert_eq!(extract_task_name("x ---task=A"), "Training Task");
    assert_eq!(extract_task_name("echo hello"), "Training Task");
}

#[test]
fn status_labels_are_lower_case_names() {
    assert_eq!(TaskStatus::Queued.as_str(), "queued");
    assert_eq!(TaskStatus::Running.as_str(), "running");
    assert_eq!(TaskStatus::Completed.as_str(), "completed");
    assert_eq!(TaskStatus::Failed.as_str(), "failed");
    assert_eq!(TaskStatus::Stopped.as_str(), "stopped");
    for status in [
        TaskStatus::Queued,
        TaskStatus::Running,
        TaskStatus::Completed,
        TaskStatus::Failed,
        TaskStatus::Stopped,
    ] {
        assert_eq!(TaskStatus::from_label(status.as_str()), Some(status));
    }
    assert_eq!(TaskStatus::from_label("Queued"), None);
    assert_eq!(TaskStatus::from_label(""), None);
    assert_eq!(TaskStatus::from_label("done"), None);
}

#[test]
fn terminal_statuses() {
    assert!(!TaskStatus::Queued.is_terminal());
    assert!(!TaskStatus::Running.is_terminal());
    assert!(TaskStatus::Completed.is_terminal());
    assert!(TaskStatus::Failed.is_terminal());
    assert!(TaskStatus::Stopped.is_terminal());
}

#[test]
fn a_submitted_job_is_queued_and_bare() {
    let task = prepare_task(
        CreateTaskRequest {
            command: "python train.py --task=Cartpole".to_string(),
            conda_env: Some("lab".to_string()),
            working_dir: Some("/work/x".to_string()),
        },
        "id-1".to_string(),
        "isaaclab",
        1_000,
    );
    assert_eq!(task.id, "id-1");
    assert_eq!(task.name, "Cartpole");
    assert_eq!(task.command, "python train.py --task=Cartpole");
    assert_eq!(task.conda_env, Some("lab".to_string()));
    assert_eq!(task.working_dir, Some("/work/x".to_string()));
    assert_eq!(task.status, TaskStatus::Queued);
    assert_eq!(task.created_at, 1_000);
    assert_eq!(task.pid, None);
    assert_eq!(task.started_at, None);
    assert_eq!(task.finished_at, None);
    assert_eq!(task.log_path, None);
    let plain = submitted("id-2", "echo hello", 5);
    assert_eq!(plain.conda_env, Some("isaaclab".to_string()));
    assert_eq!(plain.name, "Training Task");
}

#[test]
fn start_applies_only_to_a_queued_job() {
    let mut task = submitted("a", "echo hello", 10);
    let start = JobUpdate::Started {
        started_at: 12,
        log_path: Some("/out/a/task.log".to_string()),
        pid: Some(4242),
    };
    assert!(task.apply(&start));
    assert_eq!(task.status, TaskStatus::Running);
    assert_eq!(task.started_at, Some(12));
    assert_eq!(task.pid, Some(4242));
    assert_eq!(task.log_path, Some("/out/a/task.log".to_string()));
    let again = JobUpdate::Started { started_at: 99, log_path: None, pid: None };
    assert!(!task.apply(&again));
    assert_eq!(task.started_at, Some(12));
    assert_eq!(task.pid, Some(4242));
    assert_eq!(task.log_path, Some("/out/a/task.log".to_string()));
}

#[test]
fn nothing_leaves_a_terminal_status() {
    for end in [TaskStatus::Completed, TaskStatus::Failed, TaskStatus::Stopped] {
        let mut task = submitted("a", "echo hello", 10);
        assert!(task.apply(&JobUpdate::Started { started_at: 11, log_path: None, pid: Some(7) }));
        assert!(task.apply(&JobUpdate::Finished { status: end, finished_at: 20 }));
        assert_eq!(task.status, end);
        assert_eq!(task.finished_at, Some(20));
        for next in [
            TaskStatus::Queued,
            TaskStatus::Running,
            TaskStatus::Completed,
            TaskStatus::Failed,
            TaskStatus::Stopped,
        ] {
            assert!(!task.apply(&JobUpdate::Finished { status: next, finished_at: 30 }));
            assert_eq!(task.status, end);
            assert_eq!(task.finished_at, Some(20));
        }
        assert!(!task.apply(&JobUpdate::Started { started_at: 40, log_path: None, pid: None }));
        assert_eq!(task.status, end);
        assert_eq!(task.started_at, Some(11));
    }
}

#[test]
fn a_queued_job_cannot_complete_without_running() {
    let mut task = submitted("a", "echo hello", 10);
    assert!(!task.apply(&JobUpdate::Finished { status: TaskStatus::Completed, finished_at: 20 }));
    assert!(!task.apply(&JobUpdate::Finished { status: TaskStatus::Failed, finished_at: 20 }));
    assert!(!task.apply(&JobUpdate::Finished { status: TaskStatus::Running, finished_at: 20 }));
    assert!(!task.apply(&JobUpdate::Finished { status: TaskStatus::Queued, finished_at: 20 }));
    assert_eq!(task.status, TaskStatus::Queued);
    assert_eq!(task.finished_at, None);
    assert!(task.apply(&JobUpdate::Finished { status: TaskStatus::Stopped, finished_at: 20 }));
    assert_eq!(task.status, TaskStatus::Stopped);
    assert_eq!(task.started_at, None);
    assert_eq!(task.finished_at, Some(20));
}

#[test]
fn times_stay_in_order_under_a_steady_clock() {
    let mut task = submitted("a", "echo hello", 100);
    assert!(ordered(&task));
    assert!(task.apply(&JobUpdate::Started { started_at: 100, log_path: None, pid: Some(1) }));
    assert!(ordered(&task));
    assert!(task.apply(&JobUpdate::Finished { status: TaskStatus::Failed, finished_at: 250 }));
    assert!(ordered(&task));
    assert_eq!((task.created_at, task.started_at, task.finished_at), (100, Some(100), Some(250)));
    assert!(!task.apply(&JobUpdate::Finished { status: TaskStatus::Stopped, finished_at: 300 }));
    assert_eq!((task.created_at, task.started_at, task.finished_at), (100, Some(100), Some(250)));
}

#[test]
fn lifo_queue_takes_the_newest_first() {
    let mut queue = JobQueue::new(QueueDiscipline::Lifo);
    assert_eq!(queue.pop(), None);
    queue.push("a".to_string());
    queue.push("b".to_string());
    queue.push("c".to_string());
    assert_eq!(queue.len(), 3);
    assert_eq!(queue.snapshot(), vec!["a", "b", "c"]);
    assert_eq!(queue.pop(), Some("c".to_string()));
    assert_eq!(queue.pop(), Some("b".to_string()));
    queue.push("d".to_string());
    assert_eq!(queue.pop(), Some("d".to_string()));
    assert_eq!(queue.pop(), Some("a".to_string()));
    assert_eq!(queue.pop(), None);
    assert_eq!(queue.discipline(), QueueDiscipline::Lifo);
}

#[test]
fn fifo_queue_takes_the_oldest_first() {
    let mut queue = JobQueue::new(QueueDiscipline::Fifo);
    queue.push("a".to_string());
    queue.push("b".to_string());
    queue.push("c".to_string());
    assert_eq!(queue.pop(), Some("a".to_string()));
    assert_eq!(queue.snapshot(), vec!["b", "c"]);
    assert_eq!(queue.pop(), Some("b".to_string()));
    assert_eq!(queue.pop(), Some("c".to_string()));
    assert_eq!(queue.pop(), None);
    assert_eq!(queue.len(), 0);
}

#[test]
fn live_set_claims_succeed_once() {
    let mut live = LiveJobs::new();
    assert!(!live.contains("a"));
    assert!(!live.remove("a"));
    assert!(live.insert("a".to_string()));
    assert!(!live.insert("a".to_string()));
    assert!(live.insert("b".to_string()));
    assert!(live.contains("a"));
    assert!(live.remove("a"));
    assert!(!live.remove("a"));
    assert!(!live.contains("a"));
    assert!(live.contains("b"));
    assert!(live.remove("b"));
    assert!(!live.remove("b"));
}

#[test]
fn launch_plan_for_a_queued_job() {
    let task = submitted("job-7", "echo hello", 1);
    match plan_launch(&task, "/home/ecs-user/outputs", "/home/ecs-user") {
        Launch::Spawn(spec) => {
            assert_eq!(spec.command, "echo hello");
            assert_eq!(spec.working_dir, "/home/ecs-user");
            assert_eq!(spec.log_dir, "/home/ecs-user/outputs/job-7");
            assert_eq!(spec.log_path, "/home/ecs-user/outputs/job-7/task.log");
        }
        Launch::Skip => panic!("a queued job is spawned"),
    }
    let own = prepare_task(
        CreateTaskRequest {
            command: "ls".to_string(),
            conda_env: None,
            working_dir: Some("/data".to_string()),
        },
        "j".to_string(),
        "isaaclab",
        1,
    );
    match plan_launch(&own, "/out/", "/home/ecs-user") {
        Launch::Spawn(spec) => {
            assert_eq!(spec.working_dir, "/data");
            assert_eq!(spec.log_dir, "/out/j");
            assert_eq!(spec.log_path, "/out/j/task.log");
        }
        Launch::Skip => panic!("a queued job is spawned"),
    }
}

#[test]
fn launch_is_skipped_for_a_job_that_is_not_queued() {
    let mut task = submitted("job-7", "echo hello", 1);
    assert!(task.apply(&JobUpdate::Finished { status: TaskStatus::Stopped, finished_at: 2 }));
    assert!(matches!(plan_launch(&task, "/out", "/w"), Launch::Skip));
    let mut running = submitted("job-8", "echo hello", 1);
    assert!(running.apply(&JobUpdate::Started { started_at: 2, log_path: None, pid: None }));
    assert!(matches!(plan_launch(&running, "/out", "/w"), Launch::Skip));
}

#[test]
fn exit_plan_follows_the_claim_and_the_exit_code() {
    assert!(matches!(
        plan_exit(true, true, 9),
        Some(JobUpdate::Finished { status: TaskStatus::Completed, finished_at: 9 })
    ));
    assert!(matches!(
        plan_exit(true, false, 9),
        Some(JobUpdate::Finished { status: TaskStatus::Failed, finished_at: 9 })
    ));
    assert!(plan_exit(false, true, 9).is_none());
    assert!(plan_exit(false, false, 9).is_none());
}

#[test]
fn stop_signals_the_negated_pid() {
    let mut task = submitted("a", "sleep 100", 1);
    assert!(task.apply(&JobUpdate::Started { started_at: 2, log_path: None, pid: Some(4321) }));
    let plan = plan_stop(&task, 3);
    assert_eq!(plan.signal_group, Some(-4321));
    assert!(matches!(
        plan.update,
        Some(JobUpdate::Finished { status: TaskStatus::Stopped, finished_at: 3 })
    ));
    for (pid, want) in [
        (Some(0), None),
        (Some(-5), None),
        (None, None),
        (Some(1), Some(-1)),
        (Some(2147483647), Some(-2147483647)),
        (Some(2147483648), None),
        (Some(i64::MAX), None),
        (Some(i64::MIN), None),
    ] {
        task.pid = pid;
        assert_eq!(plan_stop(&task, 3).signal_group, want, "pid {:?}", pid);
    }
}

#[test]
fn stop_of_a_queued_job_writes_stopped() {
    let mut task = submitted("a", "sleep 100", 1);
    let plan = plan_stop(&task, 8);
    assert_eq!(plan.signal_group, None);
    assert!(matches!(
        plan.update,
        Some(JobUpdate::Finished { status: TaskStatus::Stopped, finished_at: 8 })
    ));
    assert!(task.apply(&plan.update.expect("a queued job is stopped")));
    assert_eq!(task.status, TaskStatus::Stopped);
    assert_eq!((task.created_at, task.started_at, task.finished_at), (1, None, Some(8)));
}

#[test]
fn stop_of_a_running_job_that_is_not_live_writes_stopped() {
    // After a restart the live set is empty while the store still holds running jobs.
    let mut manager = TaskManager::new(QueueDiscipline::Lifo);
    let mut task = submitted("a", "sleep 100", 10);
    assert!(task.apply(&JobUpdate::Started { started_at: 20, log_path: None, pid: Some(77) }));
    let claimed = manager.claim("a");
    assert!(!claimed);
    let plan = plan_stop(&task, 30);
    assert_eq!(plan.signal_group, Some(-77));
    assert!(task.apply(&plan.update.expect("a running job is stopped")));
    assert_eq!(task.status, TaskStatus::Stopped);
    assert_eq!((task.created_at, task.started_at, task.finished_at), (10, Some(20), Some(30)));
}

#[test]
fn times_never_go_back_even_if_the_clock_does() {
    let mut task = submitted("a", "echo hello", 100);
    assert!(task.apply(&JobUpdate::Started { started_at: 90, log_path: None, pid: None }));
    assert_eq!(task.started_at, Some(100));
    assert!(task.apply(&JobUpdate::Finished { status: TaskStatus::Completed, finished_at: 50 }));
    assert_eq!((task.created_at, task.started_at, task.finished_at), (100, Some(100), Some(100)));
    assert!(ordered(&task));
    assert_eq!(task.latest_time(), 100);
    let mut queued = submitted("b", "echo hello", 100);
    assert_eq!(queued.latest_time(), 100);
    assert!(queued.apply(&JobUpdate::Finished { status: TaskStatus::Stopped, finished_at: i64::MIN }));
    assert_eq!(queued.finished_at, Some(100));
    let mut steady = submitted("c", "echo hello", 100);
    assert!(steady.apply(&JobUpdate::Started { started_at: 150, log_path: None, pid: None }));
    assert_eq!(steady.latest_time(), 150);
    assert!(steady.apply(&JobUpdate::Finished { status: TaskStatus::Failed, finished_at: 150 }));
    assert_eq!((steady.started_at, steady.finished_at), (Some(150), Some(150)));
}

#[test]
fn a_write_names_the_statuses_it_applies_to() {
    let all = [
        TaskStatus::Queued,
        TaskStatus::Running,
        TaskStatus::Completed,
        TaskStatus::Failed,
        TaskStatus::Stopped,
    ];
    let mut writes = vec![JobUpdate::Started { started_at: 5, log_path: None, pid: Some(1) }];
    for status in all {
        writes.push(JobUpdate::Finished { status, finished_at: 5 });
    }
    for write in &writes {
        let from = write.applicable_from();
        for status in all {
            let mut task = submitted("a", "x", 1);
            if status != TaskStatus::Queued {
                assert!(task.apply(&JobUpdate::Started { started_at: 2, log_path: None, pid: None }));
            }
            if status.is_terminal() {
                assert!(task.apply(&JobUpdate::Finished { status, finished_at: 3 }));
            }
            assert_eq!(task.status, status);
            assert_eq!(task.apply(write), from.contains(&status), "{:?} on {:?}", write, status);
        }
    }
    assert_eq!(
        JobUpdate::Finished { status: TaskStatus::Stopped, finished_at: 1 }.applicable_from(),
        vec![TaskStatus::Queued, TaskStatus::Running]
    );
    assert!(JobUpdate::Finished { status: TaskStatus::Running, finished_at: 1 }
        .applicable_from()
        .is_empty());
}

#[test]
fn stop_after_natural_completion_is_a_no_op() {
    for (success, end) in [(true, TaskStatus::Completed), (false, TaskStatus::Failed)] {
        let mut manager = TaskManager::new(QueueDiscipline::Lifo);
        let mut task = submitted("a", "echo hello", 1);
        assert!(task.apply(&JobUpdate::Started { started_at: 2, log_path: None, pid: Some(55) }));
        manager.register("a".to_string(), true);
        let by_exit = manager.exited("a", success, 5).expect("the exit claims a live job");
        assert!(task.apply(&by_exit));
        assert_eq!(task.status, end);
        assert_eq!(task.finished_at, Some(5));
        // The stop arrives later.
        let claimed = manager.claim("a");
        assert!(!claimed);
        let plan = plan_stop(&task, 9);
        assert!(plan.update.is_none());
        assert_eq!(task.status, end);
        assert_eq!(task.finished_at, Some(5));
        // Even a stopped write that reached the record would change nothing.
        assert!(!task.apply(&JobUpdate::Finished { status: TaskStatus::Stopped, finished_at: 9 }));
        assert_eq!(task.status, end);
        assert_eq!(task.finished_at, Some(5));
    }
}

#[test]
fn stop_racing_exit_makes_one_terminal_write_when_stop_claims_first() {
    let mut manager = TaskManager::new(QueueDiscipline::Lifo);
    let mut task = submitted("a", "sleep 100", 1);
    assert!(task.apply(&JobUpdate::Started { started_at: 2, log_path: None, pid: Some(55) }));
    manager.register("a".to_string(), true);
    let claimed = manager.claim("a");
    assert!(claimed);
    // The kill makes the process exit before the stop has written.
    let by_exit = manager.exited("a", false, 4);
    assert!(by_exit.is_none());
    let plan = plan_stop(&task, 5);
    let mut writes = 0;
    if let Some(update) = &plan.update {
        assert!(task.apply(update));
        writes += 1;
    }
    if let Some(update) = &by_exit {
        if task.apply(update) {
            writes += 1;
        }
    }
    assert_eq!(writes, 1);
    assert_eq!(task.status, TaskStatus::Stopped);
    assert_eq!(task.finished_at, Some(5));
}

#[test]
fn stop_racing_exit_makes_one_terminal_write_when_exit_claims_first() {
    // The stop reads the record either after or before the exit's write reaches it; where
    // it read before, the two writes reach the record in either order.
    for (stop_reads_after_exit_write, stop_lands_first) in
        [(true, false), (false, false), (false, true)]
    {
        let mut manager = TaskManager::new(QueueDiscipline::Lifo);
        let mut task = submitted("a", "sleep 1", 1);
        assert!(task.apply(&JobUpdate::Started { started_at: 2, log_path: None, pid: Some(55) }));
        manager.register("a".to_string(), true);
        let by_exit = manager.exited("a", true, 4).expect("the exit claims a live job");
        assert!(!manager.claim("a"));
        let mut effects = 0;
        if stop_reads_after_exit_write {
            assert!(task.apply(&by_exit));
            effects += 1;
            assert!(plan_stop(&task, 5).update.is_none());
            assert_eq!(task.status, TaskStatus::Completed);
        } else {
            let by_stop = plan_stop(&task, 5).update.expect("the record still shows running");
            let (first, second) = if stop_lands_first { (&by_stop, &by_exit) } else { (&by_exit, &by_stop) };
            if task.apply(first) {
                effects += 1;
            }
            if task.apply(second) {
                effects += 1;
            }
            let want = if stop_lands_first { TaskStatus::Stopped } else { TaskStatus::Completed };
            assert_eq!(task.status, want);
        }
        assert_eq!(effects, 1);
        assert!(task.status.is_terminal());
        assert!(task.finished_at.is_some());
    }
}

#[test]
fn a_job_that_was_not_stored_does_not_enter_the_queue() {
    let mut manager = TaskManager::new(QueueDiscipline::Lifo);
    assert!(!manager.accept("a".to_string(), false));
    assert!(manager.queued_ids().is_empty());
    assert_eq!(manager.next_job(), None);
    assert!(manager.accept("b".to_string(), true));
    assert_eq!(manager.queued_ids(), vec!["b"]);
    assert_eq!(manager.next_job(), Some("b".to_string()));
    assert_eq!(manager.next_job(), None);
}

#[test]
fn echo_hello_runs_from_queued_to_completed() {
    let mut manager = TaskManager::new(QueueDiscipline::Lifo);
    let mut task = submitted("job-1", "echo hello", 1_000);
    assert_eq!(task.status, TaskStatus::Queued);
    assert!(manager.accept(task.id.clone(), true));
    let id = manager.next_job().expect("the job waits");
    assert_eq!(id, "job-1");
    let spec = match plan_launch(&task, "/out", "/work") {
        Launch::Spawn(spec) => spec,
        Launch::Skip => panic!("a queued job is spawned"),
    };
    assert_eq!(spec.command, "echo hello");
    let start = JobUpdate::Started {
        started_at: 1_500,
        log_path: Some(spec.log_path.clone()),
        pid: Some(777),
    };
    assert!(task.apply(&start));
    manager.register(id.clone(), true);
    assert_eq!(task.status, TaskStatus::Running);
    assert!(manager.is_live("job-1"));
    assert_eq!(task.pid, Some(777));
    let end = manager.exited("job-1", true, 1_600).expect("the exit claims a live job");
    assert!(task.apply(&end));
    assert_eq!(task.status, TaskStatus::Completed);
    assert!(!manager.is_live("job-1"));
    assert_eq!(task.log_path, Some("/out/job-1/task.log".to_string()));
    let finished = task.finished_at.expect("a completed job has finished");
    assert!(finished >= task.started_at.expect("a completed job has started"));
    assert!(ordered(&task));
}

#[test]
fn sleep_is_stopped_at_the_time_of_the_stop() {
    let mut manager = TaskManager::new(QueueDiscipline::Lifo);
    let mut task = submitted("job-2", "sleep 100", 0);
    assert!(manager.accept(task.id.clone(), true));
    let id = manager.next_job().expect("the job waits");
    assert!(task.apply(&JobUpdate::Started { started_at: 100, log_path: None, pid: Some(4000) }));
    manager.register(id, true);
    // The stop comes 400 ms after the start.
    let claimed = manager.claim("job-2");
    assert!(claimed);
    let plan = plan_stop(&task, 500);
    assert_eq!(plan.signal_group, Some(-4000));
    let update = plan.update.expect("the stop owns the terminal write");
    assert!(task.apply(&update));
    assert_eq!(task.status, TaskStatus::Stopped);
    assert_eq!(task.finished_at, Some(500));
    assert!(!manager.is_live("job-2"));
    // The killed process is reaped afterwards and changes nothing.
    assert!(manager.exited("job-2", false, 510).is_none());
    assert_eq!(task.status, TaskStatus::Stopped);
    assert_eq!(task.finished_at, Some(500));
}

#[test]
fn stopping_twice_succeeds_and_changes_nothing_more() {
    let mut manager = TaskManager::new(QueueDiscipline::Lifo);
    let mut task = submitted("a", "sleep 100", 0);
    assert!(task.apply(&JobUpdate::Started { started_at: 1, log_path: None, pid: Some(9) }));
    manager.register("a".to_string(), true);
    assert!(manager.claim("a"));
    let first = plan_stop(&task, 5);
    assert!(task.apply(&first.update.expect("first stop writes")));
    assert!(!manager.claim("a"));
    let second = plan_stop(&task, 8);
    assert!(second.update.is_none());
    assert_eq!(second.signal_group, Some(-9));
    assert_eq!(task.status, TaskStatus::Stopped);
    assert_eq!(task.finished_at, Some(5));
}

#[test]
fn a_job_whose_running_record_was_not_written_does_not_become_live() {
    let mut manager = TaskManager::new(QueueDiscipline::Fifo);
    assert!(!manager.register("a".to_string(), false));
    assert!(!manager.is_live("a"));
    assert!(manager.exited("a", true, 1).is_none());
    assert!(manager.register("a".to_string(), true));
    assert!(manager.is_live("a"));
}

#[test]
fn a_removed_job_is_no_longer_live() {
    let mut manager = TaskManager::new(QueueDiscipline::Lifo);
    assert!(manager.register("a".to_string(), true));
    assert!(manager.register("b".to_string(), true));
    manager.forget("a");
    manager.forget("missing");
    assert!(!manager.is_live("a"));
    assert!(manager.is_live("b"));
    assert!(!manager.claim("a"));
}
