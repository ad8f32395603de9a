//! Reading the table that `nvidia-smi` prints for the graphics cards.

use crate::number::{parse_number, parse_unsigned};
use crate::text::{
    chars_of, lines, split_chars, split_lines, split_on, string_of, trim_chars, trimmed, views,
};
use vstd::prelude::*;

verus! {

/// One graphics card as `nvidia-smi` reports it. Memory is in mebibytes.
#[derive(Debug)]
pub struct GpuInfo {
    pub name: String,
    pub total_memory_mb: u32,
    pub used_memory_mb: u32,
    pub gpu_utilization: u32,
    pub performance_state: String,
    pub process_count: u32,
}

/// What a [`GpuInfo`] says.
pub ghost struct GpuView {
    pub name: Seq<char>,
    pub total_memory_mb: u32,
    pub used_memory_mb: u32,
    pub gpu_utilization: u32,
    pub performance_state: Seq<char>,
    pub process_count: u32,
}

impl View for GpuInfo {
    type V = GpuView;

    open spec fn view(&self) -> GpuView {
        GpuView {
            name: self.name@,
            total_memory_mb: self.total_memory_mb,
            used_memory_mb: self.used_memory_mb,
            gpu_utilization: self.gpu_utilization,
            performance_state: self.performance_state@,
            process_count: self.process_count,
        }
    }
}

/// The views of a list of cards.
pub open spec fn gpu_views(gpus: Seq<GpuInfo>) -> Seq<GpuView> {
    Seq::new(gpus.len(), |i: int| gpus[i]@)
}

/// The fields of a line: what stands between its commas, each without the
/// white space around it.
pub open spec fn fields(line: Seq<char>) -> Seq<Seq<char>> {
    Seq::new(split_on(line, ',').len(), |i: int| trimmed(split_on(line, ',')[i]))
}

/// The number a field holds, or zero where it holds none that fits 32 bits.
pub open spec fn count_or_zero(field: Seq<char>) -> u32 {
    match parse_unsigned(field, u32::MAX as nat) {
        Some(n) => n as u32,
        None => 0,
    }
}

/// The card that a line describes, where the line has exactly six fields.
pub open spec fn gpu_of(line: Seq<char>) -> Option<GpuView> {
    let f = fields(line);
    if f.len() == 6 {
        Some(
            GpuView {
                name: f[0],
                total_memory_mb: count_or_zero(f[1]),
                used_memory_mb: count_or_zero(f[2]),
                gpu_utilization: count_or_zero(f[3]),
                performance_state: f[4],
                process_count: count_or_zero(f[5]),
            },
        )
    } else {
        None
    }
}

/// The cards that a list of lines describes; a line that has not six fields
/// describes none.
pub open spec fn gpus_of(rows: Seq<Seq<char>>) -> Seq<GpuView>
    decreases rows.len(),
{
    if rows.len() == 0 {
        Seq::empty()
    } else {
        match gpu_of(rows.last()) {
            Some(gpu) => gpus_of(rows.drop_last()).push(gpu),
            None => gpus_of(rows.drop_last()),
        }
    }
}

/// The fields of a line.
pub fn split_fields(line: &Vec<char>) -> (out: Vec<Vec<char>>)
    ensures
        views(out@) == fields(line@),
{
    let parts = split_chars(line, ',');
    let mut out: Vec<Vec<char>> = Vec::new();
    let mut i: usize = 0;
    while i < parts.len()
        invariant
            i <= parts.len(),
            views(parts@) == split_on(line@, ','),
            out@.len() == i,
            forall|k: int| 0 <= k < i ==> out@[k]@ == trimmed(parts@[k]@),
        decreases parts.len() - i,
    {
        out.push(trim_chars(&parts[i]));
        i += 1;
    }
    proof {
        assert forall|k: int| 0 <= k < out@.len() implies views(out@)[k] == fields(line@)[k] by {
            assert(views(parts@)[k] == parts@[k]@);
        }
        assert(views(out@) =~= fields(line@));
    }
    out
}

fn count_in(field: &Vec<char>) -> (n: u32)
    ensures
        n == count_or_zero(field@),
{
    match parse_number(field, 0xffff_ffff) {
        Some(n) => n as u32,
        None => 0,
    }
}

/// Reads the cards from the comma-separated table of `nvidia-smi`: one card
/// for each line of six fields, the numbers read as zero where they are none.
/// Other lines are passed over.
pub fn parse_nvidia_smi_csv(csv_data: &str) -> (gpus: Vec<GpuInfo>)
    ensures
        gpu_views(gpus@) == gpus_of(lines(trimmed(csv_data@))),
{
    let text = trim_chars(&chars_of(csv_data));
    let rows = split_lines(&text);
    let mut gpus: Vec<GpuInfo> = Vec::new();
    let mut i: usize = 0;
    assert(gpu_views(gpus@) =~= gpus_of(views(rows@).take(0)));
    while i < rows.len()
        invariant
            i <= rows.len(),
            gpu_views(gpus@) == gpus_of(views(rows@).take(i as int)),
        decreases rows.len() - i,
    {
        let parts = split_fields(&rows[i]);
        proof {
            let upto = views(rows@).take(i + 1);
            assert(upto.last() == rows@[i as int]@);
            assert(upto.drop_last() == views(rows@).take(i as int));
        }
        if parts.len() == 6 {
            let gpu = GpuInfo {
                name: string_of(&parts[0]),
                total_memory_mb: count_in(&parts[1]),
                used_memory_mb: count_in(&parts[2]),
                gpu_utilization: count_in(&parts[3]),
                performance_state: string_of(&parts[4]),
                process_count: count_in(&parts[5]),
            };
            proof {
                let f = views(parts@);
                assert(f[0] == parts@[0]@);
                assert(f[1] == parts@[1]@);
                assert(f[2] == parts@[2]@);
                assert(f[3] == parts@[3]@);
                assert(f[4] == parts@[4]@);
                assert(f[5] == parts@[5]@);
                assert(Some(gpu@) == gpu_of(rows@[i as int]@));
            }
            let ghost before = gpus@;
            gpus.push(gpu);
            assert(gpu_views(gpus@) =~= gpu_views(before).push(gpu@));
        }
        i += 1;
    }
    assert(views(rows@).take(rows.len() as int) == views(rows@));
    gpus
}

} // verus!
