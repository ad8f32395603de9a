//! Reading what the kernel reports of memory and processor time.

use crate::number::{parse_number, parse_unsigned};
use crate::text::{
    chars_of, has_prefix, lines, same_chars, split_lines, split_words, starts_with, string_of, views,
    words,
};
use vstd::prelude::*;

verus! {

/// Memory in bytes.
#[derive(Debug, Clone, Copy, PartialEq, Eq, Structural)]
pub struct MemoryInfo {
    pub total: u64,
    pub used: u64,
    pub free: u64,
}

/// One graphics card with its memory in bytes, its load in percent, its
/// temperature and its power draw and limit in watts.
#[derive(Debug)]
pub struct GpuInfo {
    pub name: String,
    pub driver_version: String,
    pub memory_total: u64,
    pub memory_used: u64,
    pub utilization: u32,
    pub temperature: u32,
    pub power_draw: u32,
    pub power_limit: u32,
}

/// The time a processor spent in each state, in ticks since boot.
#[derive(Debug, Clone, Copy, PartialEq, Eq, Structural)]
pub struct ProcStat {
    pub user: u64,
    pub nice: u64,
    pub system: u64,
    pub idle: u64,
    pub iowait: u64,
    pub irq: u64,
    pub softirq: u64,
    pub steal: u64,
}

/// One processor's line of the kernel's table.
#[derive(Debug)]
pub struct CpuTimes {
    pub id: String,
    pub stat: ProcStat,
}

/// The number a word holds, or zero where it holds none that fits 64 bits.
pub open spec fn ticks(word: Seq<char>) -> u64 {
    match parse_unsigned(word, u64::MAX as nat) {
        Some(n) => n as u64,
        None => 0,
    }
}

fn ticks_in(word: &Vec<char>) -> (n: u64)
    ensures
        n == ticks(word@),
{
    match parse_number(word, u64::MAX) {
        Some(n) => n,
        None => 0,
    }
}

/// The three amounts read so far: total, free and available, in bytes.
pub open spec fn memory_after(rows: Seq<Seq<char>>) -> (u64, u64, u64)
    decreases rows.len(),
{
    if rows.len() == 0 {
        (0, 0, 0)
    } else {
        let (total, free, available) = memory_after(rows.drop_last());
        let parts = words(rows.last());
        if parts.len() >= 2 {
            let bytes = ticks(parts[1]).wrapping_mul(1024);
            if parts[0] == "MemTotal:"@ {
                (bytes, free, available)
            } else if parts[0] == "MemFree:"@ {
                (total, bytes, available)
            } else if parts[0] == "MemAvailable:"@ {
                (total, free, bytes)
            } else {
                (total, free, available)
            }
        } else {
            (total, free, available)
        }
    }
}

/// The memory that the kernel's table reports. Each amount is the last one
/// given under its label, taken as kibibytes; an amount that is no number
/// counts as zero, and a label that is missing leaves zero. What is used is
/// the total less what is available. The arithmetic wraps at 64 bits.
pub open spec fn memory_of(content: Seq<char>) -> MemoryInfo {
    let (total, free, available) = memory_after(lines(content));
    MemoryInfo { total, used: total.wrapping_sub(available), free }
}

/// Reads the kernel's memory table.
pub fn parse_meminfo(content: &str) -> (info: MemoryInfo)
    ensures
        info == memory_of(content@),
{
    let rows = split_lines(&chars_of(content));
    let label_total = chars_of("MemTotal:");
    let label_free = chars_of("MemFree:");
    let label_available = chars_of("MemAvailable:");
    let mut total: u64 = 0;
    let mut free: u64 = 0;
    let mut available: u64 = 0;
    let mut i: usize = 0;
    assert(views(rows@).take(0) =~= Seq::<Seq<char>>::empty());
    while i < rows.len()
        invariant
            i <= rows.len(),
            label_total@ == "MemTotal:"@,
            label_free@ == "MemFree:"@,
            label_available@ == "MemAvailable:"@,
            (total, free, available) == memory_after(views(rows@).take(i as int)),
        decreases rows.len() - i,
    {
        let parts = split_words(&rows[i]);
        proof {
            let upto = views(rows@).take(i + 1);
            assert(upto.last() == rows@[i as int]@);
            assert(upto.drop_last() == views(rows@).take(i as int));
        }
        if parts.len() >= 2 {
            assert(views(parts@)[0] == parts@[0]@);
            assert(views(parts@)[1] == parts@[1]@);
            let bytes = ticks_in(&parts[1]).wrapping_mul(1024);
            if same_chars(&parts[0], &label_total) {
                total = bytes;
            } else if same_chars(&parts[0], &label_free) {
                free = bytes;
            } else if same_chars(&parts[0], &label_available) {
                available = bytes;
            }
        }
        i += 1;
    }
    assert(views(rows@).take(rows.len() as int) == views(rows@));
    MemoryInfo { total, used: total.wrapping_sub(available), free }
}

/// What a [`CpuTimes`] says.
pub ghost struct CpuView {
    pub id: Seq<char>,
    pub stat: ProcStat,
}

impl View for CpuTimes {
    type V = CpuView;

    open spec fn view(&self) -> CpuView {
        CpuView { id: self.id@, stat: self.stat }
    }
}

/// The views of a list of processor lines.
pub open spec fn cpu_views(rows: Seq<CpuTimes>) -> Seq<CpuView> {
    Seq::new(rows.len(), |i: int| rows[i]@)
}

/// The processor that a line describes: the line begins with `cpu` and has
/// more than eight words, the first its name and the next eight its times.
pub open spec fn cpu_of(line: Seq<char>) -> Option<CpuView> {
    let parts = words(line);
    if starts_with(line, "cpu"@) && parts.len() > 8 {
        Some(
            CpuView {
                id: parts[0],
                stat: ProcStat {
                    user: ticks(parts[1]),
                    nice: ticks(parts[2]),
                    system: ticks(parts[3]),
                    idle: ticks(parts[4]),
                    iowait: ticks(parts[5]),
                    irq: ticks(parts[6]),
                    softirq: ticks(parts[7]),
                    steal: ticks(parts[8]),
                },
            },
        )
    } else {
        None
    }
}

/// The processors that a list of lines describes, in the lines' order.
pub open spec fn cpus_of(rows: Seq<Seq<char>>) -> Seq<CpuView>
    decreases rows.len(),
{
    if rows.len() == 0 {
        Seq::empty()
    } else {
        match cpu_of(rows.last()) {
            Some(cpu) => cpus_of(rows.drop_last()).push(cpu),
            None => cpus_of(rows.drop_last()),
        }
    }
}

/// Reads the kernel's table of processor times: one entry for each line that
/// describes a processor, a time that is no number read as zero.
pub fn parse_proc_stat(content: &str) -> (cpus: Vec<CpuTimes>)
    ensures
        cpu_views(cpus@) == cpus_of(lines(content@)),
{
    let rows = split_lines(&chars_of(content));
    let marker = chars_of("cpu");
    let mut cpus: Vec<CpuTimes> = Vec::new();
    let mut i: usize = 0;
    assert(cpu_views(cpus@) =~= cpus_of(views(rows@).take(0)));
    while i < rows.len()
        invariant
            i <= rows.len(),
            marker@ == "cpu"@,
            cpu_views(cpus@) == cpus_of(views(rows@).take(i as int)),
        decreases rows.len() - i,
    {
        proof {
            let upto = views(rows@).take(i + 1);
            assert(upto.last() == rows@[i as int]@);
            assert(upto.drop_last() == views(rows@).take(i as int));
        }
        if has_prefix(&rows[i], &marker) {
            let parts = split_words(&rows[i]);
            if parts.len() > 8 {
                let cpu = CpuTimes {
                    id: string_of(&parts[0]),
                    stat: ProcStat {
                        user: ticks_in(&parts[1]),
                        nice: ticks_in(&parts[2]),
                        system: ticks_in(&parts[3]),
                        idle: ticks_in(&parts[4]),
                        iowait: ticks_in(&parts[5]),
                        irq: ticks_in(&parts[6]),
                        softirq: ticks_in(&parts[7]),
                        steal: ticks_in(&parts[8]),
                    },
                };
                proof {
                    let f = views(parts@);
                    assert(f[0] == parts@[0]@);
                    assert(f[1] == parts@[1]@);
                    assert(f[2] == parts@[2]@);
                    assert(f[3] == parts@[3]@);
                    assert(f[4] == parts@[4]@);
                    assert(f[5] == parts@[5]@);
                    assert(f[6] == parts@[6]@);
                    assert(f[7] == parts@[7]@);
                    assert(f[8] == parts@[8]@);
                    assert(Some(cpu@) == cpu_of(rows@[i as int]@));
                }
                let ghost before = cpus@;
                cpus.push(cpu);
                assert(cpu_views(cpus@) =~= cpu_views(before).push(cpu@));
            }
        }
        i += 1;
    }
    assert(views(rows@).take(rows.len() as int) == views(rows@));
    cpus
}

/// The ticks a processor spent idle, waiting for input and output included.
pub open spec fn idle_ticks(stat: ProcStat) -> u64 {
    stat.idle.wrapping_add(stat.iowait)
}

/// All the ticks a processor spent. The sum wraps at 64 bits.
pub open spec fn total_ticks(stat: ProcStat) -> u64 {
    idle_ticks(stat).wrapping_add(
        stat.user.wrapping_add(stat.nice).wrapping_add(stat.system).wrapping_add(
            stat.irq,
        ).wrapping_add(stat.softirq).wrapping_add(stat.steal),
    )
}

/// The ticks that passed between two readings of one processor: first those
/// spent idle, then all of them. The share of the first in the second is the
/// share of time the processor was idle.
pub fn cpu_deltas(before: &ProcStat, after: &ProcStat) -> (deltas: (u64, u64))
    ensures
        deltas.0 == idle_ticks(*after).wrapping_sub(idle_ticks(*before)),
        deltas.1 == total_ticks(*after).wrapping_sub(total_ticks(*before)),
{
    let idle_before = before.idle.wrapping_add(before.iowait);
    let busy_before = before.user.wrapping_add(before.nice).wrapping_add(
        before.system,
    ).wrapping_add(before.irq).wrapping_add(before.softirq).wrapping_add(before.steal);
    let idle_after = after.idle.wrapping_add(after.iowait);
    let busy_after = after.user.wrapping_add(after.nice).wrapping_add(after.system).wrapping_add(
        after.irq,
    ).wrapping_add(after.softirq).wrapping_add(after.steal);
    (
        idle_after.wrapping_sub(idle_before),
        idle_after.wrapping_add(busy_after).wrapping_sub(idle_before.wrapping_add(busy_before)),
    )
}

/// The name is that of a single core: it begins with `cpu` and is not `cpu`
/// alone, which names all cores together.
pub open spec fn names_core(id: Seq<char>) -> bool {
    starts_with(id, "cpu"@) && id != "cpu"@
}

/// Whether a line of the table describes a single core.
pub fn is_core(id: &str) -> (r: bool)
    ensures
        r == names_core(id@),
{
    let v = chars_of(id);
    let marker = chars_of("cpu");
    has_prefix(&v, &marker) && !same_chars(&v, &marker)
}

} // verus!
