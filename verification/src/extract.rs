//! Where the entries of a downloaded archive are put.

use crate::path::{child_path, join_path};
use crate::text::chars_of;
use vstd::prelude::*;

verus! {

/// What becomes of one entry of an archive.
#[derive(Debug)]
pub enum ExtractStep {
    /// The entry's name would lead outside the local directory: it is passed
    /// over.
    Skip,
    /// A directory is made at this path.
    MakeDirectory(String),
    /// A file is written at this path.
    WriteFile(String),
}

/// What an [`ExtractStep`] says.
pub ghost enum StepView {
    Skip,
    MakeDirectory(Seq<char>),
    WriteFile(Seq<char>),
}

/// What becomes of an entry with the given name. `enclosed` is the entry's
/// path where it stays within the archive's root, and nothing where it does
/// not. An entry whose name ends in `/` is a directory.
pub open spec fn extract_step(
    local_dir: Seq<char>,
    name: Seq<char>,
    enclosed: Option<Seq<char>>,
) -> StepView {
    match enclosed {
        None => StepView::Skip,
        Some(path) => if name.len() > 0 && name.last() == '/' {
            StepView::MakeDirectory(child_path(local_dir, path))
        } else {
            StepView::WriteFile(child_path(local_dir, path))
        },
    }
}

/// Decides where an entry of an archive goes below the local directory.
pub fn plan_extract(local_dir: &str, name: &str, enclosed: Option<&str>) -> (step: ExtractStep)
    ensures
        match extract_step(
            local_dir@,
            name@,
            match enclosed {
                Some(p) => Some(p@),
                None => None,
            },
        ) {
            StepView::Skip => step is Skip,
            StepView::MakeDirectory(p) => step matches ExtractStep::MakeDirectory(q) && q@ == p,
            StepView::WriteFile(p) => step matches ExtractStep::WriteFile(q) && q@ == p,
        },
{
    match enclosed {
        None => ExtractStep::Skip,
        Some(path) => {
            let v = chars_of(name);
            let dest = join_path(local_dir, path);
            if v.len() > 0 && v[v.len() - 1] == '/' {
                ExtractStep::MakeDirectory(dest)
            } else {
                ExtractStep::WriteFile(dest)
            }
        },
    }
}

} // verus!
