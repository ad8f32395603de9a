//! Notices about jobs and synchronisation, as they are shown to the user.

use crate::text::catenate;
use vstd::prelude::*;

verus! {

/// What a notice is about.
#[derive(Debug, Clone, Copy, PartialEq, Eq, Structural)]
pub enum NotificationType {
    TaskCreated,
    TaskStarted,
    TaskCompleted,
    TaskFailed,
    TaskStopped,
    SyncCompleted,
    SyncFailed,
    SystemError,
}

/// One notice. The time is in milliseconds since the Unix epoch.
#[derive(Debug)]
pub struct Notification {
    pub id: String,
    pub notification_type: NotificationType,
    pub title: String,
    pub message: String,
    pub timestamp: i64,
    pub task_id: Option<String>,
}

fn framed(before: &str, middle: &str, after: &str) -> (out: String)
    ensures
        out@ == before@ + middle@ + after@,
{
    let head = catenate(before, middle);
    catenate(head.as_str(), after)
}

impl Notification {
    /// A notice with the given parts. `id` is a fresh unique id and
    /// `timestamp` the time of the notice.
    pub fn new(
        id: String,
        notification_type: NotificationType,
        title: String,
        message: String,
        timestamp: i64,
        task_id: Option<String>,
    ) -> (n: Notification)
        ensures
            n.id == id,
            n.notification_type == notification_type,
            n.title == title,
            n.message == message,
            n.timestamp == timestamp,
            n.task_id == task_id,
    {
        Notification { id, notification_type, title, message, timestamp, task_id }
    }

    /// The notice that a job entered the queue.
    pub fn task_created(id: String, timestamp: i64, task_name: &str, task_id: &str) -> (n:
        Notification)
        ensures
            n.id == id,
            n.timestamp == timestamp,
            n.notification_type == NotificationType::TaskCreated,
            n.title@ == "任务已创建"@,
            n.message@ == "任务 '"@ + task_name@ + "' 已添加到队列"@,
            n.task_id matches Some(t) && t@ == task_id@,
    {
        Notification::new(
            id,
            NotificationType::TaskCreated,
            "任务已创建".to_owned(),
            framed("任务 '", task_name, "' 已添加到队列"),
            timestamp,
            Some(task_id.to_owned()),
        )
    }

    /// The notice that a job began to run.
    pub fn task_started(id: String, timestamp: i64, task_name: &str, task_id: &str) -> (n:
        Notification)
        ensures
            n.id == id,
            n.timestamp == timestamp,
            n.notification_type == NotificationType::TaskStarted,
            n.title@ == "任务已开始"@,
            n.message@ == "任务 '"@ + task_name@ + "' 开始执行"@,
            n.task_id matches Some(t) && t@ == task_id@,
    {
        Notification::new(
            id,
            NotificationType::TaskStarted,
            "任务已开始".to_owned(),
            framed("任务 '", task_name, "' 开始执行"),
            timestamp,
            Some(task_id.to_owned()),
        )
    }

    /// The notice that a job completed.
    pub fn task_completed(id: String, timestamp: i64, task_name: &str, task_id: &str) -> (n:
        Notification)
        ensures
            n.id == id,
            n.timestamp == timestamp,
            n.notification_type == NotificationType::TaskCompleted,
            n.title@ == "任务已完成"@,
            n.message@ == "任务 '"@ + task_name@ + "' 执行完成"@,
            n.task_id matches Some(t) && t@ == task_id@,
    {
        Notification::new(
            id,
            NotificationType::TaskCompleted,
            "任务已完成".to_owned(),
            framed("任务 '", task_name, "' 执行完成"),
            timestamp,
            Some(task_id.to_owned()),
        )
    }

    /// The notice that a job failed, with the reason.
    pub fn task_failed(
        id: String,
        timestamp: i64,
        task_name: &str,
        task_id: &str,
        error: &str,
    ) -> (n: Notification)
        ensures
            n.id == id,
            n.timestamp == timestamp,
            n.notification_type == NotificationType::TaskFailed,
            n.title@ == "任务执行失败"@,
            n.message@ == "任务 '"@ + task_name@ + "' 执行失败: "@ + error@,
            n.task_id matches Some(t) && t@ == task_id@,
    {
        let head = framed("任务 '", task_name, "' 执行失败: ");
        let message = catenate(head.as_str(), error);
        Notification::new(
            id,
            NotificationType::TaskFailed,
            "任务执行失败".to_owned(),
            message,
            timestamp,
            Some(task_id.to_owned()),
        )
    }

    /// The notice that a synchronisation completed.
    pub fn sync_completed(id: String, timestamp: i64) -> (n: Notification)
        ensures
            n.id == id,
            n.timestamp == timestamp,
            n.notification_type == NotificationType::SyncCompleted,
            n.title@ == "代码同步完成"@,
            n.message@ == "代码同步操作已成功完成"@,
            n.task_id is None,
    {
        Notification::new(
            id,
            NotificationType::SyncCompleted,
            "代码同步完成".to_owned(),
            "代码同步操作已成功完成".to_owned(),
            timestamp,
            None,
        )
    }

    /// The notice that a synchronisation failed, with the reason.
    pub fn sync_failed(id: String, timestamp: i64, error: &str) -> (n: Notification)
        ensures
            n.id == id,
            n.timestamp == timestamp,
            n.notification_type == NotificationType::SyncFailed,
            n.title@ == "代码同步失败"@,
            n.message@ == "代码同步失败: "@ + error@,
            n.task_id is None,
    {
        let message = catenate("代码同步失败: ", error);
        Notification::new(
            id,
            NotificationType::SyncFailed,
            "代码同步失败".to_owned(),
            message,
            timestamp,
            None,
        )
    }
}

} // verus!
