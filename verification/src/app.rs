//! The state of the dashboard: the rows on display, the selected row and the
//! quit flag, with the four operations that change them.

use vstd::prelude::*;
use crate::collector::{Collector, collected, identified_count};
use crate::container::{ContainerStats, StatsView};

verus! {

/// The mathematical content of an [`App`].
pub struct AppView {
    /// The rows on display, in the runtime's listing order.
    pub entities: Seq<StatsView>,
    /// The position of the selected row.
    pub selected_index: nat,
    /// Whether the user has asked to leave.
    pub should_quit: bool,
}

/// One change of the dashboard state.
pub enum Operation {
    /// Replace the rows by a freshly collected list.
    Refresh(Seq<StatsView>),
    /// Select the row above.
    MoveSelectionUp,
    /// Select the row below.
    MoveSelectionDown,
    /// Ask to leave.
    RequestQuit,
}

/// A key press, as far as the dashboard tells keys apart.
#[derive(Debug, Clone, Copy, PartialEq, Eq)]
pub enum KeyInput {
    /// A character key.
    Char(char),
    /// The up arrow.
    Up,
    /// The down arrow.
    Down,
    /// The enter key.
    Enter,
    /// Any other key.
    Other,
}

/// The operation bound to a key: `q` quits, the arrows move the selection,
/// every other key does nothing.
pub open spec fn key_operation(key: KeyInput) -> Option<Operation> {
    match key {
        KeyInput::Char(c) => if c == 'q' {
            Some(Operation::RequestQuit)
        } else {
            None
        },
        KeyInput::Up => Some(Operation::MoveSelectionUp),
        KeyInput::Down => Some(Operation::MoveSelectionDown),
        _ => None,
    }
}

/// The position `index` brought into a list of `len` rows: unchanged when it
/// is in bounds, else the last position, and zero for an empty list.
pub open spec fn clamp_index(index: nat, len: nat) -> nat {
    if len == 0 {
        0
    } else if index < len {
        index
    } else {
        (len - 1) as nat
    }
}

impl AppView {
    /// The state at start-up.
    pub open spec fn initial() -> AppView {
        AppView { entities: Seq::<StatsView>::empty(), selected_index: 0, should_quit: false }
    }

    /// The selection is a position of the list, or zero when the list is
    /// empty.
    pub open spec fn valid(self) -> bool {
        self.selected_index < self.entities.len() || self.selected_index == 0
    }

    /// Whether the selection is on the last row, or the list is empty.
    pub open spec fn at_bottom(self) -> bool {
        self.selected_index + 1 >= self.entities.len()
    }

    /// The state after `op`.
    pub open spec fn apply(self, op: Operation) -> AppView {
        match op {
            Operation::Refresh(entities) => AppView {
                entities,
                selected_index: clamp_index(self.selected_index, entities.len()),
                should_quit: self.should_quit,
            },
            Operation::MoveSelectionUp => AppView {
                entities: self.entities,
                selected_index: if self.selected_index > 0 {
                    (self.selected_index - 1) as nat
                } else {
                    self.selected_index
                },
                should_quit: self.should_quit,
            },
            Operation::MoveSelectionDown => AppView {
                entities: self.entities,
                selected_index: if self.selected_index + 1 < self.entities.len() {
                    self.selected_index + 1
                } else {
                    self.selected_index
                },
                should_quit: self.should_quit,
            },
            Operation::RequestQuit => AppView {
                entities: self.entities,
                selected_index: self.selected_index,
                should_quit: true,
            },
        }
    }

    /// The state after the key press `key`.
    pub open spec fn press(self, key: KeyInput) -> AppView {
        match key_operation(key) {
            Some(op) => self.apply(op),
            None => self,
        }
    }

    /// The state after the operations `ops`, applied in order.
    pub open spec fn run(self, ops: Seq<Operation>) -> AppView
        decreases ops.len(),
    {
        if ops.len() == 0 {
            self
        } else {
            self.run(ops.drop_last()).apply(ops.last())
        }
    }
}

/// Every operation keeps the selection inside the list.
pub proof fn lemma_apply_keeps_valid(state: AppView, op: Operation)
    requires
        state.valid(),
    ensures
        state.apply(op).valid(),
{
}

/// Whatever operations run, the selection stays inside the list.
pub proof fn lemma_run_keeps_valid(state: AppView, ops: Seq<Operation>)
    requires
        state.valid(),
    ensures
        state.run(ops).valid(),
    decreases ops.len(),
{
    if ops.len() > 0 {
        lemma_run_keeps_valid(state, ops.drop_last());
        lemma_apply_keeps_valid(state.run(ops.drop_last()), ops.last());
    }
}

/// Once the quit flag is set, no sequence of operations clears it.
pub proof fn lemma_quit_is_permanent(state: AppView, ops: Seq<Operation>)
    requires
        state.should_quit,
    ensures
        state.run(ops).should_quit,
    decreases ops.len(),
{
    if ops.len() > 0 {
        lemma_quit_is_permanent(state, ops.drop_last());
    }
}

/// At the first row, moving up any number of times changes nothing.
pub proof fn lemma_move_up_stops_at_top(state: AppView, times: nat)
    requires
        state.selected_index == 0,
    ensures
        state.run(Seq::new(times, |i: int| Operation::MoveSelectionUp)) == state,
    decreases times,
{
    let ops = Seq::new(times, |i: int| Operation::MoveSelectionUp);
    if times > 0 {
        lemma_move_up_stops_at_top(state, (times - 1) as nat);
        assert(ops.drop_last() == Seq::new((times - 1) as nat, |i: int| Operation::MoveSelectionUp));
        assert(ops.last() == Operation::MoveSelectionUp);
    }
}

/// At the last row, moving down any number of times changes nothing.
pub proof fn lemma_move_down_stops_at_bottom(state: AppView, times: nat)
    requires
        state.at_bottom(),
    ensures
        state.run(Seq::new(times, |i: int| Operation::MoveSelectionDown)) == state,
    decreases times,
{
    let ops = Seq::new(times, |i: int| Operation::MoveSelectionDown);
    if times > 0 {
        lemma_move_down_stops_at_bottom(state, (times - 1) as nat);
        assert(ops.drop_last() == Seq::new(
            (times - 1) as nat,
            |i: int| Operation::MoveSelectionDown,
        ));
        assert(ops.last() == Operation::MoveSelectionDown);
    }
}

/// Moving down `times` times selects the row that many places further, or
/// the last row where the list ends before it.
pub proof fn lemma_move_down_is_bounded(state: AppView, times: nat)
    requires
        state.valid(),
    ensures
        state.run(Seq::new(times, |i: int| Operation::MoveSelectionDown)).selected_index
            == clamp_index(state.selected_index + times, state.entities.len()),
        state.run(Seq::new(times, |i: int| Operation::MoveSelectionDown)).entities
            == state.entities,
    decreases times,
{
    let ops = Seq::new(times, |i: int| Operation::MoveSelectionDown);
    if times > 0 {
        lemma_move_down_is_bounded(state, (times - 1) as nat);
        assert(ops.drop_last() == Seq::new(
            (times - 1) as nat,
            |i: int| Operation::MoveSelectionDown,
        ));
        assert(ops.last() == Operation::MoveSelectionDown);
    }
}

/// The dashboard state.
pub struct App {
    containers: Vec<ContainerStats>,
    selected_index: usize,
    should_quit: bool,
}

impl View for App {
    type V = AppView;

    closed spec fn view(&self) -> AppView {
        AppView {
            entities: self.containers.deep_view(),
            selected_index: self.selected_index as nat,
            should_quit: self.should_quit,
        }
    }
}

impl App {
    #[verifier::type_invariant]
    spec fn selection_in_bounds(self) -> bool {
        self.selected_index < self.containers.len() || self.selected_index == 0
    }

    /// The state at start-up: no rows, the first position selected, not
    /// quitting.
    pub fn new() -> (app: App)
        ensures
            app@ == AppView::initial(),
    {
        let app = App { containers: Vec::new(), selected_index: 0, should_quit: false };
        assert(app.containers.deep_view() == Seq::<StatsView>::empty());
        app
    }

    /// The rows on display.
    pub fn containers(&self) -> (rows: &Vec<ContainerStats>)
        ensures
            rows.deep_view() == self@.entities,
    {
        &self.containers
    }

    /// The position of the selected row.
    pub fn selected_index(&self) -> (index: usize)
        ensures
            index == self@.selected_index,
            self@.valid(),
    {
        proof {
            use_type_invariant(self);
        }
        self.selected_index
    }

    /// Whether the user has asked to leave.
    pub fn should_quit(&self) -> (quit: bool)
        ensures
            quit == self@.should_quit,
    {
        self.should_quit
    }

    /// The selected row, if the list has one.
    pub fn selected(&self) -> (row: Option<&ContainerStats>)
        ensures
            row is Some <==> self@.selected_index < self@.entities.len(),
            row matches Some(r) ==> r@ == self@.entities[self@.selected_index as int],
    {
        if self.selected_index < self.containers.len() {
            Some(&self.containers[self.selected_index])
        } else {
            None
        }
    }

    /// Replaces the rows by a freshly collected list and brings the selection
    /// back into bounds.
    pub fn refresh(&mut self, new_entities: Vec<ContainerStats>)
        ensures
            final(self)@ == old(self)@.apply(Operation::Refresh(new_entities.deep_view())),
            final(self)@.entities == new_entities.deep_view(),
            final(self)@.selected_index == clamp_index(
                old(self)@.selected_index,
                new_entities.len() as nat,
            ),
            final(self)@.should_quit == old(self)@.should_quit,
    {
        proof {
            use_type_invariant(&*self);
        }
        let len: usize = new_entities.len();
        if len == 0 {
            self.selected_index = 0;
        } else if self.selected_index >= len {
            self.selected_index = len - 1;
        }
        self.containers = new_entities;
    }

    /// Selects the row above; at the first row nothing changes.
    pub fn move_selection_up(&mut self)
        ensures
            final(self)@ == old(self)@.apply(Operation::MoveSelectionUp),
            old(self)@.selected_index == 0 ==> final(self)@ == old(self)@,
            old(self)@.should_quit ==> final(self)@.should_quit,
    {
        proof {
            use_type_invariant(&*self);
        }
        if self.selected_index > 0 {
            self.selected_index = self.selected_index - 1;
        }
    }

    /// Selects the row below; at the last row nothing changes.
    pub fn move_selection_down(&mut self)
        ensures
            final(self)@ == old(self)@.apply(Operation::MoveSelectionDown),
            old(self)@.at_bottom() ==> final(self)@ == old(self)@,
            old(self)@.should_quit ==> final(self)@.should_quit,
    {
        proof {
            use_type_invariant(&*self);
        }
        if self.containers.len() > 0 && self.selected_index < self.containers.len() - 1 {
            self.selected_index = self.selected_index + 1;
        }
    }

    /// Asks to leave. The flag is never cleared again.
    pub fn request_quit(&mut self)
        ensures
            final(self)@ == old(self)@.apply(Operation::RequestQuit),
            final(self)@.should_quit,
    {
        proof {
            use_type_invariant(&*self);
        }
        self.should_quit = true;
    }

    /// Reacts to a key press: `q` asks to leave, the arrows move the
    /// selection, every other key is ignored.
    pub fn handle_key(&mut self, key: KeyInput)
        ensures
            final(self)@ == old(self)@.press(key),
            old(self)@.should_quit ==> final(self)@.should_quit,
    {
        match key {
            KeyInput::Char(c) => {
                if c == 'q' {
                    self.request_quit();
                }
            },
            KeyInput::Up => self.move_selection_up(),
            KeyInput::Down => self.move_selection_down(),
            _ => {},
        }
    }

    /// Ends a collection round and, if it is complete, puts its rows on
    /// display. An incomplete round changes nothing.
    pub fn update_stats(&mut self, round: Collector) -> (updated: bool)
        requires
            round.wf(),
        ensures
            updated == round@.complete(),
            updated ==> final(self)@ == old(self)@.apply(
                Operation::Refresh(collected(round@.listing, round@.supplied)),
            ),
            updated ==> final(self)@.entities.len() == identified_count(round@.listing),
            !updated ==> final(self)@ == old(self)@,
    {
        match round.finish() {
            Some(rows) => {
                self.refresh(rows);
                true
            },
            None => false,
        }
    }
}

} // verus!
