//! Small helpers for showing times and names.

use crate::number::{decimal, decimal_chars};
use crate::text::{append_chars, chars_of, string_of};
use vstd::prelude::*;

verus! {

/// A span of seconds as text: hours, minutes and seconds, the larger units
/// left out while they are zero.
pub open spec fn duration_text(seconds: nat) -> Seq<char> {
    let hours = seconds / 3600;
    let minutes = (seconds % 3600) / 60;
    let secs = seconds % 60;
    if hours > 0 {
        decimal(hours) + "h "@ + decimal(minutes) + "m "@ + decimal(secs) + "s"@
    } else if minutes > 0 {
        decimal(minutes) + "m "@ + decimal(secs) + "s"@
    } else {
        decimal(secs) + "s"@
    }
}

/// Formats a span of seconds, such as `1h 2m 3s`, `2m 3s` or `3s`.
pub fn format_duration(seconds: u64) -> (out: String)
    ensures
        out@ == duration_text(seconds as nat),
{
    let hours = seconds / 3600;
    let minutes = (seconds % 3600) / 60;
    let secs = seconds % 60;
    let mut out: Vec<char> = Vec::new();
    if hours > 0 {
        append_chars(&mut out, &decimal_chars(hours));
        append_chars(&mut out, &chars_of("h "));
    }
    if hours > 0 || minutes > 0 {
        append_chars(&mut out, &decimal_chars(minutes));
        append_chars(&mut out, &chars_of("m "));
    }
    append_chars(&mut out, &decimal_chars(secs));
    append_chars(&mut out, &chars_of("s"));
    assert(out@ == duration_text(seconds as nat));
    string_of(&out)
}

/// A character that may not stand in a file name.
pub open spec fn is_reserved(c: char) -> bool {
    c == '/' || c == '\\' || c == ':' || c == '*' || c == '?' || c == '"' || c == '<' || c == '>'
        || c == '|'
}

/// A name with every reserved character replaced by `_`.
pub open spec fn safe_name(name: Seq<char>) -> Seq<char> {
    Seq::new(
        name.len(),
        |i: int|
            if is_reserved(name[i]) {
                '_'
            } else {
                name[i]
            },
    )
}

/// Replaces each of `/ \ : * ? " < > |` by `_` and keeps every other
/// character, so the result has the length of the name.
pub fn sanitize_filename(name: &str) -> (out: String)
    ensures
        out@ == safe_name(name@),
{
    let v = chars_of(name);
    let mut out: Vec<char> = Vec::new();
    let mut i: usize = 0;
    while i < v.len()
        invariant
            i <= v.len(),
            out@.len() == i,
            forall|k: int| 0 <= k < i ==> out@[k] == safe_name(v@)[k],
        decreases v.len() - i,
    {
        let c = v[i];
        let reserved = c == '/' || c == '\\' || c == ':' || c == '*' || c == '?' || c == '"' || c
            == '<' || c == '>' || c == '|';
        if reserved {
            out.push('_');
        } else {
            out.push(c);
        }
        i += 1;
    }
    assert(out@ =~= safe_name(v@));
    string_of(&out)
}

/// A program the server cannot do without.
#[derive(Debug, Clone, Copy, PartialEq, Eq, Structural)]
pub enum MissingProgram {
    Python,
    Rsync,
}

/// Judges the host by which programs answered. Python and rsync are needed,
/// and the first of them that is missing is named. TensorBoard is not: the
/// answer on success says whether it is there.
pub fn requirements_verdict(python_ok: bool, rsync_ok: bool, tensorboard_ok: bool) -> (r: Result<
    bool,
    MissingProgram,
>)
    ensures
        r == (if !python_ok {
            Err::<bool, MissingProgram>(MissingProgram::Python)
        } else if !rsync_ok {
            Err(MissingProgram::Rsync)
        } else {
            Ok(tensorboard_ok)
        }),
{
    if !python_ok {
        Err(MissingProgram::Python)
    } else if !rsync_ok {
        Err(MissingProgram::Rsync)
    } else {
        Ok(tensorboard_ok)
    }
}

/// How far a download has come after one more chunk: the bytes so far and
/// the chunk's, but never more than the announced total.
pub fn progress_after(downloaded: u64, chunk_len: u64, total: u64) -> (now: u64)
    ensures
        now == (if downloaded + chunk_len < total {
            downloaded + chunk_len
        } else {
            total as int
        }),
{
    if chunk_len < total && downloaded < total - chunk_len {
        downloaded + chunk_len
    } else {
        total
    }
}

} // verus!
