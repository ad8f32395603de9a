//! Reading the list of environments that `conda env list` prints.

use crate::text::{
    chars_of, catenate, lines, split_lines, split_words, string_of, string_views, views, words,
};
use vstd::prelude::*;

verus! {

/// The environment that a line names: its first word, unless the line is a
/// comment, which begins with `#`, or holds nothing but white space.
pub open spec fn env_of(line: Seq<char>) -> Option<Seq<char>> {
    if (line.len() > 0 && line[0] == '#') || words(line).len() == 0 {
        None
    } else {
        Some(words(line)[0])
    }
}

/// The environments that a list of lines names, in the lines' order.
pub open spec fn envs_of(rows: Seq<Seq<char>>) -> Seq<Seq<char>>
    decreases rows.len(),
{
    if rows.len() == 0 {
        Seq::empty()
    } else {
        match env_of(rows.last()) {
            Some(env) => envs_of(rows.drop_last()).push(env),
            None => envs_of(rows.drop_last()),
        }
    }
}

/// The environments on offer: those that the listing names where the
/// command succeeded, and `base` alone where it failed.
pub open spec fn environments(succeeded: bool, listing: Seq<char>) -> Seq<Seq<char>> {
    if succeeded {
        envs_of(lines(listing))
    } else {
        seq!["base"@]
    }
}

/// Reads the environments from what `conda env list` printed.
pub fn parse_conda_envs(listing: &str) -> (envs: Vec<String>)
    ensures
        string_views(envs@) == envs_of(lines(listing@)),
{
    let rows = split_lines(&chars_of(listing));
    let mut envs: Vec<String> = Vec::new();
    let mut i: usize = 0;
    assert(string_views(envs@) =~= envs_of(views(rows@).take(0)));
    while i < rows.len()
        invariant
            i <= rows.len(),
            string_views(envs@) == envs_of(views(rows@).take(i as int)),
        decreases rows.len() - i,
    {
        let row = &rows[i];
        proof {
            let upto = views(rows@).take(i + 1);
            assert(upto.last() == row@);
            assert(upto.drop_last() == views(rows@).take(i as int));
        }
        let comment = row.len() > 0 && row[0] == '#';
        if !comment {
            let parts = split_words(row);
            if parts.len() > 0 {
                assert(views(parts@)[0] == parts@[0]@);
                let env = string_of(&parts[0]);
                let ghost before = envs@;
                envs.push(env);
                assert(string_views(envs@) =~= string_views(before).push(env@));
            }
        }
        i += 1;
    }
    assert(views(rows@).take(rows.len() as int) == views(rows@));
    envs
}

/// The environments on offer, given whether `conda env list` succeeded and
/// what it printed.
pub fn conda_environments(succeeded: bool, listing: &str) -> (envs: Vec<String>)
    ensures
        string_views(envs@) == environments(succeeded, listing@),
{
    if succeeded {
        parse_conda_envs(listing)
    } else {
        let mut envs: Vec<String> = Vec::new();
        envs.push("base".to_owned());
        assert(string_views(envs@) =~= seq!["base"@]);
        envs
    }
}

/// The program that lists the environments of a conda installation.
pub fn conda_program(conda_path: &str) -> (program: String)
    ensures
        program@ == conda_path@ + "/bin/conda"@,
{
    catenate(conda_path, "/bin/conda")
}

} // verus!
