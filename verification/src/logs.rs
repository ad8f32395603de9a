//! What is shown of a job's log.

use crate::text::{chars_of, join, join_chars, lines, slice_of, split_lines, string_of, views};
use vstd::prelude::*;

verus! {

/// The number of lines of a log that are shown.
pub const LOG_TAIL_LINES: usize = 200;

/// The last `count` lines of a text, or all where it has fewer, joined by
/// line feeds.
pub open spec fn tail(content: Seq<char>, count: nat) -> Seq<char> {
    let rows = lines(content);
    let from = if rows.len() > count {
        rows.len() - count
    } else {
        0
    };
    join(rows.skip(from), seq!['\n'])
}

/// What is shown for a job's log: a notice where the job has no log path
/// yet, the end of a fixed notice where the log could not be read, and
/// otherwise the last [`LOG_TAIL_LINES`] lines of the log.
pub open spec fn log_shown(has_log_path: bool, content: Option<Seq<char>>) -> Seq<char> {
    if !has_log_path {
        "Log path not set."@
    } else {
        match content {
            Some(text) => tail(text, LOG_TAIL_LINES as nat),
            None => tail("Log not found or empty."@, LOG_TAIL_LINES as nat),
        }
    }
}

/// The last `count` lines of a text, joined by line feeds.
pub fn tail_lines(content: &str, count: usize) -> (out: String)
    ensures
        out@ == tail(content@, count as nat),
{
    let rows = split_lines(&chars_of(content));
    let from: usize = if rows.len() > count {
        rows.len() - count
    } else {
        0
    };
    let mut kept: Vec<Vec<char>> = Vec::new();
    let mut i: usize = from;
    while i < rows.len()
        invariant
            from <= i <= rows.len(),
            kept@.len() == i - from,
            forall|k: int| 0 <= k < i - from ==> kept@[k]@ == rows@[from + k]@,
        decreases rows.len() - i,
    {
        kept.push(slice_of(&rows[i], 0, rows[i].len()));
        i += 1;
    }
    assert(views(kept@) =~= views(rows@).skip(from as int));
    string_of(&join_chars(&kept, '\n'))
}

/// What is shown for a job's log. `content` is the text of the log file, or
/// nothing where it could not be read.
pub fn task_log(has_log_path: bool, content: Option<&str>) -> (out: String)
    ensures
        out@ == log_shown(
            has_log_path,
            match content {
                Some(text) => Some(text@),
                None => None,
            },
        ),
{
    if !has_log_path {
        "Log path not set.".to_owned()
    } else {
        match content {
            Some(text) => tail_lines(text, LOG_TAIL_LINES),
            None => tail_lines("Log not found or empty.", LOG_TAIL_LINES),
        }
    }
}

} // verus!
