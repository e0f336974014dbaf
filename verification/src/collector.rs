//! Assembling one refresh of the dashboard: the listing is walked in order,
//! one statistics snapshot is requested for each container that has an
//! identifier, and the rows are handed out only when all of them are there.

use vstd::prelude::*;
use crate::container::{ContainerSummary, ContainerStats, SummaryView, StatsView, stats_entry, container_stats};
use crate::metrics::StatsSnapshot;

verus! {

/// The rows collected from `listing`, given one snapshot for each of its
/// containers that has an identifier, in listing order. Containers without
/// an identifier are passed over.
pub open spec fn collected(listing: Seq<SummaryView>, snapshots: Seq<StatsSnapshot>) -> Seq<
    StatsView,
>
    decreases listing.len(),
{
    if listing.len() == 0 {
        Seq::<StatsView>::empty()
    } else {
        let rest = listing.drop_last();
        match listing.last().id {
            Some(id) if snapshots.len() > 0 => collected(rest, snapshots.drop_last()).push(
                stats_entry(listing.last(), id, snapshots.last()),
            ),
            _ => collected(rest, snapshots),
        }
    }
}

/// How many containers of `listing` have an identifier.
pub open spec fn identified_count(listing: Seq<SummaryView>) -> nat
    decreases listing.len(),
{
    if listing.len() == 0 {
        0
    } else if listing.last().id is Some {
        identified_count(listing.drop_last()) + 1
    } else {
        identified_count(listing.drop_last())
    }
}

/// The first position at or after `from` whose container has an identifier,
/// or the length of the listing when there is none.
pub open spec fn next_identified(listing: Seq<SummaryView>, from: nat) -> nat
    decreases listing.len() - from,
{
    if from >= listing.len() {
        listing.len()
    } else if listing[from as int].id is Some {
        from
    } else {
        next_identified(listing, from + 1)
    }
}

/// The state of one collection round.
pub struct Collector {
    listing: Vec<ContainerSummary>,
    position: usize,
    rows: Vec<ContainerStats>,
    supplied: Ghost<Seq<StatsSnapshot>>,
}

/// The mathematical content of a [`Collector`].
pub struct CollectorView {
    /// The containers that the runtime listed.
    pub listing: Seq<SummaryView>,
    /// How many of them have been dealt with.
    pub position: nat,
    /// The rows built so far.
    pub rows: Seq<StatsView>,
    /// The snapshots received so far.
    pub supplied: Seq<StatsSnapshot>,
}

impl View for Collector {
    type V = CollectorView;

    closed spec fn view(&self) -> CollectorView {
        CollectorView {
            listing: self.listing.deep_view(),
            position: self.position as nat,
            rows: self.rows.deep_view(),
            supplied: self.supplied@,
        }
    }
}

impl CollectorView {
    /// The rows are those of the containers dealt with, under the snapshots
    /// received.
    pub open spec fn consistent(self) -> bool {
        &&& self.position <= self.listing.len()
        &&& self.supplied.len() == identified_count(self.listing.take(self.position as int))
        &&& self.rows == collected(self.listing.take(self.position as int), self.supplied)
    }

    /// Whether the container at the current position awaits its snapshot.
    pub open spec fn pending(self) -> bool {
        self.position < self.listing.len() && self.listing[self.position as int].id is Some
    }

    /// The identifier of the container at the current position.
    pub open spec fn pending_id(self) -> Option<Seq<char>> {
        self.listing[self.position as int].id
    }

    /// Whether no further snapshot is needed.
    pub open spec fn complete(self) -> bool {
        next_identified(self.listing, self.position) == self.listing.len()
    }
}

/// Passing over a container without identifier changes neither the rows nor
/// the number of snapshots they take.
proof fn lemma_pass_over(listing: Seq<SummaryView>, position: int, snapshots: Seq<StatsSnapshot>)
    requires
        0 <= position < listing.len(),
        listing[position].id is None,
    ensures
        collected(listing.take(position + 1), snapshots) == collected(
            listing.take(position),
            snapshots,
        ),
        identified_count(listing.take(position + 1)) == identified_count(listing.take(position)),
{
    let longer = listing.take(position + 1);
    assert(longer.drop_last() == listing.take(position));
    assert(longer.last() == listing[position]);
}

/// Taking in a snapshot for the container at `position` appends its row.
proof fn lemma_take_in(
    listing: Seq<SummaryView>,
    position: int,
    snapshots: Seq<StatsSnapshot>,
    stats: StatsSnapshot,
)
    requires
        0 <= position < listing.len(),
        listing[position].id is Some,
    ensures
        collected(listing.take(position + 1), snapshots.push(stats)) == collected(
            listing.take(position),
            snapshots,
        ).push(stats_entry(listing[position], listing[position].id->0, stats)),
        identified_count(listing.take(position + 1)) == identified_count(listing.take(position))
            + 1,
{
    let longer = listing.take(position + 1);
    assert(longer.drop_last() == listing.take(position));
    assert(longer.last() == listing[position]);
    assert(snapshots.push(stats).drop_last() == snapshots);
    assert(snapshots.push(stats).last() == stats);
}

/// With one snapshot for each container that has an identifier, there is
/// one row for each of them.
pub proof fn lemma_one_row_per_identified_container(
    listing: Seq<SummaryView>,
    snapshots: Seq<StatsSnapshot>,
)
    requires
        snapshots.len() == identified_count(listing),
    ensures
        collected(listing, snapshots).len() == identified_count(listing),
    decreases listing.len(),
{
    if listing.len() > 0 {
        if listing.last().id is Some {
            lemma_one_row_per_identified_container(listing.drop_last(), snapshots.drop_last());
        } else {
            lemma_one_row_per_identified_container(listing.drop_last(), snapshots);
        }
    }
}

impl Collector {
    /// Whether the rows are those of the containers dealt with, under the
    /// snapshots received: one snapshot and one row for each of them that
    /// has an identifier.
    pub open spec fn wf(&self) -> bool {
        self@.consistent()
    }

    /// Starts a collection round over the containers that the runtime listed.
    pub fn new(listing: Vec<ContainerSummary>) -> (collector: Collector)
        ensures
            collector.wf(),
            collector@.listing == listing.deep_view(),
            collector@.position == 0,
            collector@.rows == Seq::<StatsView>::empty(),
            collector@.supplied == Seq::<StatsSnapshot>::empty(),
    {
        let collector = Collector {
            listing,
            position: 0,
            rows: Vec::new(),
            supplied: Ghost(Seq::empty()),
        };
        proof {
            assert(collector@.listing.take(0) == Seq::<SummaryView>::empty());
            assert(collector.rows.deep_view() == Seq::<StatsView>::empty());
        }
        collector
    }

    /// Moves past the containers that have no identifier.
    fn pass_unidentified(&mut self)
        requires
            old(self).wf(),
        ensures
            final(self).wf(),
            final(self)@.listing == old(self)@.listing,
            final(self)@.rows == old(self)@.rows,
            final(self)@.supplied == old(self)@.supplied,
            final(self)@.position == next_identified(old(self)@.listing, old(self)@.position),
            final(self)@.position == final(self)@.listing.len() || final(self)@.pending(),
    {
        while self.position < self.listing.len() && self.listing[self.position].id.is_none()
            invariant
                self.wf(),
                self@.listing == old(self)@.listing,
                self@.rows == old(self)@.rows,
                self@.supplied == old(self)@.supplied,
                old(self)@.position <= self@.position,
                next_identified(self@.listing, self@.position) == next_identified(
                    old(self)@.listing,
                    old(self)@.position,
                ),
            decreases self.listing.len() - self.position,
        {
            proof {
                lemma_pass_over(self@.listing, self.position as int, self@.supplied);
            }
            self.position = self.position + 1;
        }
    }

    /// The identifier of the next container whose statistics are to be
    /// fetched, or `None` when the round needs no further snapshot.
    pub fn next_request(&mut self) -> (request: Option<String>)
        requires
            old(self).wf(),
        ensures
            final(self).wf(),
            final(self)@.listing == old(self)@.listing,
            final(self)@.rows == old(self)@.rows,
            final(self)@.supplied == old(self)@.supplied,
            final(self)@.position == next_identified(old(self)@.listing, old(self)@.position),
            request is Some <==> final(self)@.pending(),
            request is None <==> old(self)@.complete(),
            request matches Some(id) ==> Some(id@) == final(self)@.pending_id(),
    {
        self.pass_unidentified();
        if self.position < self.listing.len() {
            match &self.listing[self.position].id {
                Some(id) => Some(id.clone()),
                None => None,
            }
        } else {
            None
        }
    }

    /// Takes in the snapshot fetched for the pending container and builds its
    /// row. Without a pending container the snapshot is refused and nothing
    /// changes.
    pub fn supply(&mut self, stats: StatsSnapshot) -> (accepted: bool)
        requires
            old(self).wf(),
        ensures
            final(self).wf(),
            accepted == old(self)@.pending(),
            final(self)@.listing == old(self)@.listing,
            accepted ==> final(self)@.position == old(self)@.position + 1,
            accepted ==> final(self)@.supplied == old(self)@.supplied.push(stats),
            accepted ==> final(self)@.rows == old(self)@.rows.push(
                stats_entry(
                    old(self)@.listing[old(self)@.position as int],
                    old(self)@.listing[old(self)@.position as int].id->0,
                    stats,
                ),
            ),
            !accepted ==> final(self)@ == old(self)@,
    {
        if self.position >= self.listing.len() {
            return false;
        }
        match container_stats(&self.listing[self.position], &stats) {
            None => false,
            Some(row) => {
                proof {
                    lemma_take_in(self@.listing, self.position as int, self@.supplied, stats);
                }
                let ghost before = self.rows.deep_view();
                self.rows.push(row);
                assert(self.rows.deep_view() == before.push(row@));
                self.position = self.position + 1;
                self.supplied = Ghost(self.supplied@.push(stats));
                true
            },
        }
    }

    /// Ends the round. The rows are handed out only if every container with
    /// an identifier has received its snapshot; otherwise nothing is.
    pub fn finish(self) -> (rows: Option<Vec<ContainerStats>>)
        requires
            self.wf(),
        ensures
            rows is Some <==> self@.complete(),
            rows matches Some(all) ==> all.deep_view() == collected(self@.listing, self@.supplied),
            rows matches Some(all) ==> self@.supplied.len() == identified_count(self@.listing),
            rows matches Some(all) ==> all.len() == identified_count(self@.listing),
    {
        let mut collector = self;
        collector.pass_unidentified();
        if collector.position == collector.listing.len() {
            proof {
                assert(collector@.listing.take(collector.position as int) == collector@.listing);
                lemma_one_row_per_identified_container(collector@.listing, collector@.supplied);
            }
            Some(collector.rows)
        } else {
            None
        }
    }
}

} // verus!
