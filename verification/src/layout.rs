//! Screen areas and how the terminal is divided among the panes.

use vstd::prelude::*;
use tui::layout::{Constraint as Size, Direction as Way, Layout, Rect};

verus! {

/// A rectangle of terminal cells.
#[derive(Debug, Clone, Copy, PartialEq, Eq)]
pub struct Area {
    /// Column of the left edge.
    pub x: u16,
    /// Row of the top edge.
    pub y: u16,
    /// Number of columns.
    pub width: u16,
    /// Number of rows.
    pub height: u16,
}

/// The axis along which an area is divided.
#[derive(Debug, Clone, Copy, PartialEq, Eq)]
pub enum Direction {
    /// Side by side.
    Horizontal,
    /// One above the other.
    Vertical,
}

/// The size asked for one part of a divided area.
#[derive(Debug, Clone, Copy, PartialEq, Eq)]
pub enum Constraint {
    /// A share of the area, in percent.
    Percentage(u16),
    /// A fixed number of cells.
    Length(u16),
    /// At least this number of cells.
    Min(u16),
}

/// The areas of the three panes.
#[derive(Debug, Clone, Copy, PartialEq, Eq)]
pub struct Areas {
    /// Where the container list goes.
    pub list: Area,
    /// Where the details of the selected container go.
    pub detail: Area,
    /// Where the help bar goes.
    pub help: Area,
}

/// The height of the help bar, borders included.
pub const HELP_HEIGHT: u16 = 3;

/// The share of the main area that each of the two panes gets, in percent.
pub const PANE_SHARE: u16 = 50;

/// The extent of `area` along `direction`.
pub open spec fn extent(direction: Direction, area: Area) -> int {
    match direction {
        Direction::Horizontal => area.width as int,
        Direction::Vertical => area.height as int,
    }
}

/// Whether the far edges of `area` are coordinates themselves, not beyond
/// the largest one.
pub open spec fn within_coordinates(area: Area) -> bool {
    area.x + area.width <= u16::MAX && area.y + area.height <= u16::MAX
}

/// Whether `area` can be divided along `direction` by `constraints`: its
/// edges are within the coordinates, and every percentage of its extent can
/// be taken in 16-bit arithmetic.
pub open spec fn divisible(direction: Direction, constraints: Seq<Constraint>, area: Area) -> bool {
    &&& within_coordinates(area)
    &&& forall|i: int|
        0 <= i < constraints.len() ==> (#[trigger] constraints[i] matches Constraint::Percentage(p)
            ==> p * extent(direction, area) <= u16::MAX)
}

/// Whether `part` ends within `area`: its far edges do not pass those of the
/// area.
pub open spec fn ends_within(part: Area, area: Area) -> bool {
    part.x + part.width <= area.x + area.width && part.y + part.height <= area.y + area.height
}

/// Whether `part` ends exactly at the far edge of `area` along `direction`.
pub open spec fn ends_at_far_edge(direction: Direction, part: Area, area: Area) -> bool {
    match direction {
        Direction::Horizontal => part.x + part.width == area.x + area.width,
        Direction::Vertical => part.y + part.height == area.y + area.height,
    }
}

/// Divides `area` along `direction`, one part for each constraint.
///
/// Calls `tui::layout::Layout::split` on a default layout with the given
/// direction and constraints. Where the parts come to lie is the answer of
/// the constraint solver behind it, and is not stated. What is stated holds
/// of every answer:
/// - there is one rectangle per constraint;
/// - every part ends within the area, because the layout hands this to the
///   solver as a required constraint, which the solver's documentation says
///   is never violated, and the solver's values are only rounded down;
/// - the last part ends at the far edge of the area, because the layout sets
///   its extent to what is left up to that edge.
/// The precondition leaves out the areas on which the layout's 16-bit
/// arithmetic overflows or its far edges are cut off.
#[verifier::external_body]
fn split(direction: Direction, constraints: &Vec<Constraint>, area: Area) -> (parts: Vec<Area>)
    requires
        divisible(direction, constraints@, area),
    ensures
        parts.len() == constraints.len(),
        forall|i: int| 0 <= i < parts.len() ==> ends_within(#[trigger] parts[i], area),
        parts.len() > 0 ==> ends_at_far_edge(direction, parts[parts.len() - 1], area),
{
    let way = match direction {
        Direction::Horizontal => Way::Horizontal,
        Direction::Vertical => Way::Vertical,
    };
    let sizes: Vec<Size> = constraints.iter().map(|c| match *c {
        Constraint::Percentage(p) => Size::Percentage(p),
        Constraint::Length(n) => Size::Length(n),
        Constraint::Min(n) => Size::Min(n),
    }).collect();
    let rect = Rect { x: area.x, y: area.y, width: area.width, height: area.height };
    let parts = Layout::default().direction(way).constraints(sizes).split(rect);
    parts.into_iter().map(|r| Area { x: r.x, y: r.y, width: r.width, height: r.height }).collect()
}

/// Whether the far edges of `area` are within the coordinates.
pub fn fits_coordinates(area: Area) -> (fits: bool)
    ensures
        fits == within_coordinates(area),
{
    area.width <= u16::MAX - area.x && area.height <= u16::MAX - area.y
}

/// Whether the main area can be halved side by side.
pub open spec fn halvable(main: Area) -> bool {
    within_coordinates(main) && PANE_SHARE * main.width <= u16::MAX
}

/// The constraints that stack the main area on the help bar.
pub open spec fn stacked_constraints() -> Seq<Constraint> {
    seq![Constraint::Min(0), Constraint::Length(HELP_HEIGHT)]
}

/// The constraints that put the list and the detail pane side by side.
pub open spec fn halved_constraints() -> Seq<Constraint> {
    seq![Constraint::Percentage(PANE_SHARE), Constraint::Percentage(PANE_SHARE)]
}

/// The constraints that stack the main area on the help bar: whatever is
/// left above a bar of fixed height.
pub fn stacked() -> (constraints: Vec<Constraint>)
    ensures
        constraints@ == stacked_constraints(),
{
    let mut constraints: Vec<Constraint> = Vec::new();
    constraints.push(Constraint::Min(0));
    constraints.push(Constraint::Length(HELP_HEIGHT));
    assert(constraints@ =~= stacked_constraints());
    constraints
}

/// The constraints that put the list and the detail pane side by side, half
/// of the width each.
pub fn halved() -> (constraints: Vec<Constraint>)
    ensures
        constraints@ == halved_constraints(),
{
    let mut constraints: Vec<Constraint> = Vec::new();
    constraints.push(Constraint::Percentage(PANE_SHARE));
    constraints.push(Constraint::Percentage(PANE_SHARE));
    assert(constraints@ =~= halved_constraints());
    constraints
}

/// The main area among the two parts of the screen, if it can be halved.
pub fn main_area(rows: &Vec<Area>) -> (main: Option<Area>)
    ensures
        main is Some <==> rows.len() == 2 && halvable(rows[0]),
        main matches Some(area) ==> area == rows[0],
{
    if rows.len() == 2 && fits_coordinates(rows[0]) && rows[0].width <= u16::MAX / PANE_SHARE {
        Some(rows[0])
    } else {
        None
    }
}

/// The pane areas, given the two parts of the screen (main area above the
/// help bar) and the two parts of the main area (list beside detail).
pub fn pane_areas(rows: &Vec<Area>, columns: &Vec<Area>) -> (areas: Option<Areas>)
    ensures
        areas is Some <==> rows.len() == 2 && columns.len() == 2,
        areas matches Some(a) ==> a == (Areas {
            list: columns[0],
            detail: columns[1],
            help: rows[1],
        }),
{
    if rows.len() == 2 && columns.len() == 2 {
        Some(Areas { list: columns[0], detail: columns[1], help: rows[1] })
    } else {
        None
    }
}

/// Whether the panes can be placed on `screen` whatever the layout solver
/// answers: the screen is within the coordinates, and half of any width up
/// to its far edge can be taken in 16-bit arithmetic.
pub open spec fn placeable(screen: Area) -> bool {
    within_coordinates(screen) && PANE_SHARE * (screen.x + screen.width) <= u16::MAX
}

/// What holds of the pane areas on `screen` wherever the layout solver puts
/// them: every pane ends within the screen, and the help bar ends at its
/// bottom edge.
pub open spec fn placed_on(areas: Areas, screen: Area) -> bool {
    &&& ends_within(areas.list, screen)
    &&& ends_within(areas.detail, screen)
    &&& ends_within(areas.help, screen)
    &&& areas.help.y + areas.help.height == screen.y + screen.height
}

/// Divides the screen among the panes: a help bar of fixed height at the
/// bottom, and above it the list and the detail pane side by side, half of
/// the width each.
///
/// Where exactly the rectangles come to lie is the layout solver's answer.
/// On a placeable screen the panes are always placed. On a screen beyond the
/// coordinates they never are. Between the two it depends on the main area
/// that the solver gave.
pub fn layout(screen: Area) -> (areas: Option<Areas>)
    ensures
        !within_coordinates(screen) ==> areas is None,
        placeable(screen) ==> areas is Some,
        areas matches Some(a) ==> placed_on(a, screen),
{
    if !fits_coordinates(screen) {
        return None;
    }
    let rows = split(Direction::Vertical, &stacked(), screen);
    assert(ends_within(rows[0], screen) && ends_within(rows[1], screen));
    match main_area(&rows) {
        None => None,
        Some(main) => {
            assert(PANE_SHARE * main.width <= u16::MAX);
            let columns = split(Direction::Horizontal, &halved(), main);
            assert(ends_within(columns[0], main) && ends_within(columns[1], main));
            pane_areas(&rows, &columns)
        },
    }
}

} // verus!
