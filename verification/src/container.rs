//! The records of the dashboard: what the runtime lists for a container and
//! what the dashboard shows for it.

use vstd::prelude::*;
use crate::double::Double;
use crate::metrics::{StatsSnapshot, calculate_cpu_usage, snapshot_cpu_percent};
use crate::rounding::Dyadic;
use crate::text::{signed_text, push_signed, without_leading_slash, strip_leading_slash};

verus! {

/// One container as the runtime lists it. Every field may be missing.
#[derive(Debug, PartialEq, Eq)]
pub struct ContainerSummary {
    /// The identifier by which statistics are requested.
    pub id: Option<String>,
    /// The aliases of the container, each usually with a leading slash.
    pub names: Option<Vec<String>>,
    /// The runtime's state text, such as `running` or `exited`.
    pub status: Option<String>,
    /// The creation time in seconds since the epoch.
    pub created: Option<i64>,
}

/// The mathematical content of a [`ContainerSummary`].
pub struct SummaryView {
    pub id: Option<Seq<char>>,
    pub names: Option<Seq<Seq<char>>>,
    pub status: Option<Seq<char>>,
    pub created: Option<i64>,
}

impl DeepView for ContainerSummary {
    type V = SummaryView;

    open spec fn deep_view(&self) -> SummaryView {
        SummaryView {
            id: self.id.deep_view(),
            names: self.names.deep_view(),
            status: self.status.deep_view(),
            created: self.created,
        }
    }
}

impl View for ContainerSummary {
    type V = SummaryView;

    open spec fn view(&self) -> SummaryView {
        self.deep_view()
    }
}

/// One row of the dashboard, rebuilt on every refresh.
#[derive(Debug, PartialEq, Eq)]
pub struct ContainerStats {
    /// The runtime's identifier of the container.
    pub id: String,
    /// The display name.
    pub name: String,
    /// CPU utilisation in percent.
    pub cpu_usage: Double,
    /// Memory in use, in bytes.
    pub memory_usage: u64,
    /// Memory limit in bytes; one when the runtime reports none.
    pub memory_limit: u64,
    /// The runtime's state text.
    pub status: String,
    /// The creation time as text.
    pub created: String,
}

/// The mathematical content of a [`ContainerStats`].
pub struct StatsView {
    pub id: Seq<char>,
    pub name: Seq<char>,
    pub cpu_usage: Dyadic,
    pub memory_usage: u64,
    pub memory_limit: u64,
    pub status: Seq<char>,
    pub created: Seq<char>,
}

impl DeepView for ContainerStats {
    type V = StatsView;

    open spec fn deep_view(&self) -> StatsView {
        StatsView {
            id: self.id@,
            name: self.name@,
            cpu_usage: self.cpu_usage@,
            memory_usage: self.memory_usage,
            memory_limit: self.memory_limit,
            status: self.status@,
            created: self.created@,
        }
    }
}

impl View for ContainerStats {
    type V = StatsView;

    open spec fn view(&self) -> StatsView {
        self.deep_view()
    }
}

/// The display name: the first alias without one leading slash, or the empty
/// text when there is no alias.
pub open spec fn display_name_text(names: Option<Seq<Seq<char>>>) -> Seq<char> {
    match names {
        Some(aliases) => if aliases.len() > 0 {
            without_leading_slash(aliases[0])
        } else {
            Seq::<char>::empty()
        },
        None => Seq::<char>::empty(),
    }
}

/// The creation time as text: its decimal numeral, or the empty text when
/// it is missing.
pub open spec fn created_text(created: Option<i64>) -> Seq<char> {
    match created {
        Some(seconds) => signed_text(seconds as int),
        None => Seq::<char>::empty(),
    }
}

/// The text of an optional string, empty when it is missing.
pub open spec fn text_or_empty(text: Option<Seq<char>>) -> Seq<char> {
    match text {
        Some(t) => t,
        None => Seq::<char>::empty(),
    }
}

/// The dashboard row for a listed container with identifier `id` and the
/// statistics snapshot fetched for it.
pub open spec fn stats_entry(summary: SummaryView, id: Seq<char>, stats: StatsSnapshot) -> StatsView {
    StatsView {
        id,
        name: display_name_text(summary.names),
        cpu_usage: snapshot_cpu_percent(stats),
        memory_usage: stats.memory_usage.unwrap_or(0),
        memory_limit: stats.memory_limit.unwrap_or(1),
        status: text_or_empty(summary.status),
        created: created_text(summary.created),
    }
}

/// Derives the display name from the aliases of a container.
pub fn display_name(names: &Option<Vec<String>>) -> (name: String)
    ensures
        name@ == display_name_text(names.deep_view()),
{
    match names {
        Some(aliases) => {
            if aliases.len() > 0 {
                strip_leading_slash(aliases[0].as_str())
            } else {
                String::new()
            }
        },
        None => String::new(),
    }
}

/// Renders the creation time of a container.
pub fn created_label(created: Option<i64>) -> (label: String)
    ensures
        label@ == created_text(created),
{
    let mut label = String::new();
    if let Some(seconds) = created {
        push_signed(&mut label, seconds);
    }
    label
}

/// Builds the dashboard row of a listed container from its statistics
/// snapshot. A container without an identifier has no row.
pub fn container_stats(summary: &ContainerSummary, stats: &StatsSnapshot) -> (entry: Option<
    ContainerStats,
>)
    ensures
        entry is None <==> summary.id is None,
        entry matches Some(row) ==> row@ == stats_entry(summary@, summary@.id->0, *stats),
{
    match &summary.id {
        None => None,
        Some(id) => {
            let status = match &summary.status {
                Some(text) => text.clone(),
                None => String::new(),
            };
            Some(
                ContainerStats {
                    id: id.clone(),
                    name: display_name(&summary.names),
                    cpu_usage: calculate_cpu_usage(stats),
                    memory_usage: stats.memory_usage.unwrap_or(0),
                    memory_limit: stats.memory_limit.unwrap_or(1),
                    status,
                    created: created_label(summary.created),
                },
            )
        },
    }
}

} // verus!
