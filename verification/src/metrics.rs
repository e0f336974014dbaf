//! Derived metrics: CPU utilisation from two successive counter readings and
//! human-readable byte sizes.

use vstd::prelude::*;
use vstd::string::StringExecFns;
use crate::double::{Double, fixed_text};
use crate::monotone::{at_most, hundred, lemma_percent_is_monotone, lemma_percent_of_a_part};
use crate::rounding::{Dyadic, nearest53, ratio_percent};

verus! {

/// One point-in-time reading of a container's resource counters, together
/// with the reading before it.
#[derive(Debug, Clone, Copy, PartialEq, Eq)]
pub struct StatsSnapshot {
    /// Total CPU time consumed by the container.
    pub cpu_total_usage: u64,
    /// The same counter at the previous reading.
    pub precpu_total_usage: u64,
    /// Total CPU time of the host, when reported.
    pub system_cpu_usage: Option<u64>,
    /// The host counter at the previous reading, when reported.
    pub precpu_system_cpu_usage: Option<u64>,
    /// Memory in use, in bytes, when reported.
    pub memory_usage: Option<u64>,
    /// Memory limit, in bytes, when reported.
    pub memory_limit: Option<u64>,
}

/// `current - previous` in 64-bit arithmetic that wraps around.
pub open spec fn wrapping_delta(previous: u64, current: u64) -> nat {
    if current >= previous {
        (current - previous) as nat
    } else {
        (current + 0x1_0000_0000_0000_0000 - previous) as nat
    }
}

/// CPU utilisation in percent between two readings: the share of the host's
/// CPU time that the container used. It is zero unless the host counter has
/// advanced. A container counter that ran backwards gives its delta in
/// wrapping arithmetic, and so a value far above one hundred.
pub open spec fn cpu_percent(
    previous_cpu: u64,
    current_cpu: u64,
    previous_system: u64,
    current_system: u64,
) -> Dyadic {
    if current_system > previous_system {
        ratio_percent(
            wrapping_delta(previous_cpu, current_cpu),
            (current_system - previous_system) as nat,
        )
    } else {
        Dyadic::zero()
    }
}

/// Between the same two host readings, a container that used more CPU time
/// shows the same or a higher percentage.
pub proof fn lemma_cpu_percent_is_monotone(
    previous_cpu: u64,
    less: u64,
    more: u64,
    previous_system: u64,
    current_system: u64,
)
    requires
        previous_cpu <= less <= more,
    ensures
        at_most(
            cpu_percent(previous_cpu, less, previous_system, current_system),
            cpu_percent(previous_cpu, more, previous_system, current_system),
        ),
{
    if current_system > previous_system {
        lemma_percent_is_monotone(
            (less - previous_cpu) as nat,
            (more - previous_cpu) as nat,
            (current_system - previous_system) as nat,
        );
    }
}

/// CPU utilisation in percent that a snapshot shows; unreported host
/// counters read as zero.
pub open spec fn snapshot_cpu_percent(stats: StatsSnapshot) -> Dyadic {
    cpu_percent(
        stats.precpu_total_usage,
        stats.cpu_total_usage,
        stats.precpu_system_cpu_usage.unwrap_or(0),
        stats.system_cpu_usage.unwrap_or(0),
    )
}

/// Derives the CPU utilisation in percent from two successive readings of
/// the container's and the host's CPU counters.
pub fn derive_cpu_percent(
    previous_cpu: u64,
    current_cpu: u64,
    previous_system: u64,
    current_system: u64,
) -> (percent: Double)
    ensures
        percent@ == cpu_percent(previous_cpu, current_cpu, previous_system, current_system),
        current_system <= previous_system ==> percent@ == Dyadic::zero(),
        current_cpu >= previous_cpu && current_system > previous_system ==> percent@
            == ratio_percent(
            (current_cpu - previous_cpu) as nat,
            (current_system - previous_system) as nat,
        ),
        previous_cpu <= current_cpu && current_cpu - previous_cpu <= current_system
            - previous_system ==> at_most(percent@, hundred()),
{
    proof {
        let cpu_delta = current_cpu - previous_cpu;
        let system_delta = current_system - previous_system;
        if 0 <= cpu_delta <= system_delta && system_delta > 0 {
            lemma_percent_of_a_part(cpu_delta as nat, system_delta as nat);
        }
    }
    if current_system > previous_system {
        let cpu_delta: u64 = current_cpu.wrapping_sub(previous_cpu);
        Double::percent_of(cpu_delta, current_system - previous_system)
    } else {
        Double::zero()
    }
}

/// The CPU utilisation in percent that a snapshot shows.
pub fn calculate_cpu_usage(stats: &StatsSnapshot) -> (percent: Double)
    ensures
        percent@ == snapshot_cpu_percent(*stats),
{
    derive_cpu_percent(
        stats.precpu_total_usage,
        stats.cpu_total_usage,
        stats.precpu_system_cpu_usage.unwrap_or(0),
        stats.system_cpu_usage.unwrap_or(0),
    )
}

/// How many times a byte count is divided by 1024 for display: as often as
/// it stays at or above 1024, and at most three times.
pub open spec fn unit_index(bytes: nat) -> nat {
    if bytes < 0x400 {
        0
    } else if bytes < 0x10_0000 {
        1
    } else if bytes < 0x4000_0000 {
        2
    } else {
        3
    }
}

/// The name of the unit reached after `index` divisions by 1024.
pub open spec fn unit_name(index: nat) -> Seq<char> {
    if index == 0 {
        "B"@
    } else if index == 1 {
        "KB"@
    } else if index == 2 {
        "MB"@
    } else {
        "GB"@
    }
}

/// A byte count scaled to its display unit.
pub open spec fn scaled_size(bytes: nat) -> Dyadic {
    nearest53(bytes, 1).scale(-10 * unit_index(bytes))
}

/// The display text of a byte count: the scaled value with two decimals, a
/// space, and the unit.
pub open spec fn format_bytes_text(bytes: nat) -> Seq<char> {
    fixed_text(scaled_size(bytes), 2) + seq![' '] + unit_name(unit_index(bytes))
}

/// From one gigabyte upwards the unit is GB, however large the count.
pub proof fn lemma_gigabytes_are_the_last_unit(bytes: nat)
    requires
        bytes >= 0x4000_0000,
    ensures
        unit_index(bytes) == 3,
        format_bytes_text(bytes) == fixed_text(nearest53(bytes, 1).scale(-30), 2) + seq![' ']
            + "GB"@,
{
}

/// Formats a byte count in the largest of B, KB, MB and GB that keeps the
/// value below 1024 (GB beyond that), with two decimals.
pub fn format_bytes(bytes: u64) -> (text: String)
    ensures
        text@ == format_bytes_text(bytes as nat),
{
    let index: u32 = if bytes < 0x400 {
        0
    } else if bytes < 0x10_0000 {
        1
    } else if bytes < 0x4000_0000 {
        2
    } else {
        3
    };
    let size = Double::from_count(bytes).shifted_down(10 * index);
    let mut text = String::new();
    size.push_fixed(&mut text, 2);
    text.push(' ');
    if index == 0 {
        text.append("B");
    } else if index == 1 {
        text.append("KB");
    } else if index == 2 {
        text.append("MB");
    } else {
        text.append("GB");
    }
    text
}

} // verus!
