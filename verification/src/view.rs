//! The screen as a value: what each pane shows for a given dashboard state.
//! Drawing it is left to the caller.

use vstd::prelude::*;
use vstd::string::StringExecFns;
use crate::app::{App, AppView};
use crate::container::{ContainerStats, StatsView};
use crate::double::{Double, fixed_text};
use crate::layout::{Area, Areas, layout, placeable, placed_on, within_coordinates};
use crate::metrics::{format_bytes, format_bytes_text};
use crate::rounding::ratio_percent;
use crate::text::reads_as;

verus! {

/// A foreground colour.
#[derive(Debug, Clone, Copy, PartialEq, Eq)]
pub enum Color {
    Green,
    Red,
    Yellow,
}

/// How a piece of text is drawn.
#[derive(Debug, Clone, Copy, PartialEq, Eq)]
pub struct Style {
    /// The foreground colour, or the terminal's own.
    pub fg: Option<Color>,
    /// Bold face.
    pub bold: bool,
    /// Foreground and background swapped.
    pub reversed: bool,
}

/// A piece of text with its style.
#[derive(Debug, PartialEq, Eq)]
pub struct Span {
    pub text: String,
    pub style: Style,
}

/// The mathematical content of a [`Span`].
pub struct SpanView {
    pub text: Seq<char>,
    pub style: Style,
}

impl DeepView for Span {
    type V = SpanView;

    open spec fn deep_view(&self) -> SpanView {
        SpanView { text: self.text@, style: self.style }
    }
}

impl View for Span {
    type V = SpanView;

    open spec fn view(&self) -> SpanView {
        self.deep_view()
    }
}

/// The list pane: one row per container. Its frame has rounded borders on
/// all sides.
#[derive(Debug, PartialEq, Eq)]
pub struct ListPane {
    /// The title in the frame.
    pub title: String,
    /// The rows, in listing order.
    pub items: Vec<Span>,
    /// The position of the highlighted row.
    pub selected: usize,
    /// The style laid over the highlighted row.
    pub highlight: Style,
}

/// The detail pane: labelled lines about the selected container, in a frame
/// with rounded borders on all sides.
#[derive(Debug, PartialEq, Eq)]
pub struct DetailPane {
    /// The title in the frame.
    pub title: String,
    /// The lines, top to bottom.
    pub lines: Vec<String>,
}

/// The help bar: the key bindings, in an untitled frame with rounded borders
/// on all sides.
#[derive(Debug, PartialEq, Eq)]
pub struct HelpBar {
    /// The legend, left to right.
    pub spans: Vec<Span>,
}

/// Everything on the screen.
#[derive(Debug, PartialEq, Eq)]
pub struct Screen {
    /// Where each pane goes; absent when the terminal cannot be divided
    /// among the panes.
    pub areas: Option<Areas>,
    /// The container list.
    pub list: ListPane,
    /// The details of the selected container; absent when there is none.
    pub detail: Option<DetailPane>,
    /// The key bindings.
    pub help: HelpBar,
}

/// The mathematical content of a [`ListPane`].
pub struct ListPaneView {
    pub title: Seq<char>,
    pub items: Seq<SpanView>,
    pub selected: nat,
    pub highlight: Style,
}

/// The mathematical content of a [`DetailPane`].
pub struct DetailPaneView {
    pub title: Seq<char>,
    pub lines: Seq<Seq<char>>,
}

/// The mathematical content of a [`Screen`].
pub struct ScreenView {
    pub areas: Option<Areas>,
    pub list: ListPaneView,
    pub detail: Option<DetailPaneView>,
    pub help: Seq<SpanView>,
}

impl View for ListPane {
    type V = ListPaneView;

    open spec fn view(&self) -> ListPaneView {
        ListPaneView {
            title: self.title@,
            items: self.items.deep_view(),
            selected: self.selected as nat,
            highlight: self.highlight,
        }
    }
}

impl View for DetailPane {
    type V = DetailPaneView;

    open spec fn view(&self) -> DetailPaneView {
        DetailPaneView { title: self.title@, lines: self.lines.deep_view() }
    }
}

impl View for Screen {
    type V = ScreenView;

    open spec fn view(&self) -> ScreenView {
        ScreenView {
            areas: self.areas,
            list: self.list@,
            detail: match self.detail {
                Some(pane) => Some(pane@),
                None => None,
            },
            help: self.help.spans.deep_view(),
        }
    }
}

/// Text in the terminal's own colours.
pub open spec fn plain_style() -> Style {
    Style { fg: None, bold: false, reversed: false }
}

/// Text in the colour `color`.
pub open spec fn colored_style(color: Color) -> Style {
    Style { fg: Some(color), bold: false, reversed: false }
}

/// The style of a key name in the help bar.
pub open spec fn key_style() -> Style {
    Style { fg: Some(Color::Yellow), bold: true, reversed: false }
}

/// The style laid over the selected row.
pub open spec fn highlight_style() -> Style {
    Style { fg: None, bold: false, reversed: true }
}

/// The colour of a row: green for a running container, red for an exited
/// one, yellow for any other state.
pub open spec fn status_color(status: Seq<char>) -> Color {
    if status == "running"@ {
        Color::Green
    } else if status == "exited"@ {
        Color::Red
    } else {
        Color::Yellow
    }
}

/// Memory use as a percentage of the limit, with one decimal. A zero limit
/// gives what the division by zero gives: `inf`, or `NaN` for zero use.
pub open spec fn memory_percent_text(usage: u64, limit: u64) -> Seq<char> {
    if limit > 0 {
        fixed_text(ratio_percent(usage as nat, limit as nat), 1)
    } else if usage > 0 {
        "inf"@
    } else {
        "NaN"@
    }
}

/// The text of a list row.
pub open spec fn row_text(c: StatsView) -> Seq<char> {
    c.name + " ["@ + c.status + "] - CPU: "@ + fixed_text(c.cpu_usage, 1) + "% | MEM: "@
        + memory_percent_text(c.memory_usage, c.memory_limit) + "%"@
}

/// A list row: its text in the colour of the container's state.
pub open spec fn list_row(c: StatsView) -> SpanView {
    SpanView { text: row_text(c), style: colored_style(status_color(c.status)) }
}

/// The rows of the list pane.
pub open spec fn list_rows(entities: Seq<StatsView>) -> Seq<SpanView> {
    Seq::new(entities.len(), |i: int| list_row(entities[i]))
}

/// The title of the list pane.
pub open spec fn list_title() -> Seq<char> {
    " Containers (\u{2191}/\u{2193} to navigate) "@
}

/// The title of the detail pane.
pub open spec fn detail_title() -> Seq<char> {
    " Container Details "@
}

/// The lines of the detail pane for the container `c`.
pub open spec fn detail_lines(c: StatsView) -> Seq<Seq<char>> {
    seq![
        "Container: "@ + c.name,
        "Status: "@ + c.status,
        "CPU Usage: "@ + fixed_text(c.cpu_usage, 1) + "%"@,
        "Memory Usage: "@ + memory_percent_text(c.memory_usage, c.memory_limit) + "% ("@
            + format_bytes_text(c.memory_usage as nat) + ")"@,
        "Created: "@ + c.created,
    ]
}

/// The legend of the help bar.
pub open spec fn help_spans() -> Seq<SpanView> {
    seq![
        SpanView { text: "q"@, style: key_style() },
        SpanView { text: ": Quit  "@, style: plain_style() },
        SpanView { text: "\u{2191}/\u{2193}"@, style: key_style() },
        SpanView { text: ": Navigate  "@, style: plain_style() },
        SpanView { text: "Enter"@, style: key_style() },
        SpanView { text: ": Select Container"@, style: plain_style() },
    ]
}

/// The list pane for the state `app`.
pub open spec fn list_pane(app: AppView) -> ListPaneView {
    ListPaneView {
        title: list_title(),
        items: list_rows(app.entities),
        selected: app.selected_index,
        highlight: highlight_style(),
    }
}

/// The detail pane for the state `app`: that of the selected container, and
/// none when the selection is not a position of the list.
pub open spec fn detail_pane(app: AppView) -> Option<DetailPaneView> {
    if app.selected_index < app.entities.len() {
        Some(
            DetailPaneView {
                title: detail_title(),
                lines: detail_lines(app.entities[app.selected_index as int]),
            },
        )
    } else {
        None
    }
}

/// The screen for the state `app`, with the panes at `areas`. What the panes
/// show does not depend on where they lie, nor on whether they could be
/// placed at all.
pub open spec fn render(app: AppView, areas: Option<Areas>) -> ScreenView {
    ScreenView { areas, list: list_pane(app), detail: detail_pane(app), help: help_spans() }
}

/// Rendering is a function of the rows, the selection and the areas alone:
/// states that agree on these give the same screen, whatever else differs
/// and however often it is drawn.
pub proof fn lemma_render_is_repeatable(
    first: AppView,
    second: AppView,
    areas: Option<Areas>,
)
    requires
        first.entities == second.entities,
        first.selected_index == second.selected_index,
    ensures
        render(first, areas) == render(second, areas),
{
}

/// A selection that is not a position of the list shows no detail pane,
/// and the rest of the screen as usual.
pub proof fn lemma_no_detail_beyond_the_list(app: AppView, areas: Option<Areas>)
    requires
        app.selected_index >= app.entities.len(),
    ensures
        render(app, areas).detail is None,
        render(app, areas).list == list_pane(app),
        render(app, areas).help == help_spans(),
{
}

/// The colour of a row with the given state text.
pub fn color_of_status(status: &String) -> (color: Color)
    ensures
        color == status_color(status@),
{
    if reads_as(status, "running") {
        Color::Green
    } else if reads_as(status, "exited") {
        Color::Red
    } else {
        Color::Yellow
    }
}

/// Appends memory use as a percentage of the limit, with one decimal.
pub fn push_memory_percent(out: &mut String, usage: u64, limit: u64)
    ensures
        final(out)@ == old(out)@ + memory_percent_text(usage, limit),
{
    if limit > 0 {
        Double::percent_of(usage, limit).push_fixed(out, 1);
    } else if usage > 0 {
        out.append("inf");
    } else {
        out.append("NaN");
    }
}

/// The list row of a container.
pub fn row_of(c: &ContainerStats) -> (row: Span)
    ensures
        row@ == list_row(c@),
{
    let mut text = String::new();
    assert(text@ + c.name@ == c.name@);
    text.append(c.name.as_str());
    text.append(" [");
    text.append(c.status.as_str());
    text.append("] - CPU: ");
    c.cpu_usage.push_fixed(&mut text, 1);
    text.append("% | MEM: ");
    push_memory_percent(&mut text, c.memory_usage, c.memory_limit);
    text.append("%");
    Span { text, style: Style { fg: Some(color_of_status(&c.status)), bold: false, reversed: false } }
}

/// The lines of the detail pane for a container.
pub fn detail_lines_of(c: &ContainerStats) -> (lines: Vec<String>)
    ensures
        lines.deep_view() == detail_lines(c@),
{
    let mut lines: Vec<String> = Vec::new();
    let mut name = String::from_str("Container: ");
    name.append(c.name.as_str());
    lines.push(name);
    let mut status = String::from_str("Status: ");
    status.append(c.status.as_str());
    lines.push(status);
    let mut cpu = String::from_str("CPU Usage: ");
    c.cpu_usage.push_fixed(&mut cpu, 1);
    cpu.append("%");
    lines.push(cpu);
    let mut memory = String::from_str("Memory Usage: ");
    push_memory_percent(&mut memory, c.memory_usage, c.memory_limit);
    memory.append("% (");
    let size = format_bytes(c.memory_usage);
    memory.append(size.as_str());
    memory.append(")");
    lines.push(memory);
    let mut created = String::from_str("Created: ");
    created.append(c.created.as_str());
    lines.push(created);
    assert(lines.deep_view() =~= detail_lines(c@));
    lines
}

/// A span in the style of a key name.
fn key_span(text: &str) -> (span: Span)
    ensures
        span@ == (SpanView { text: text@, style: key_style() }),
{
    Span { text: String::from_str(text), style: Style { fg: Some(Color::Yellow), bold: true, reversed: false } }
}

/// A span in the terminal's own colours.
fn plain_span(text: &str) -> (span: Span)
    ensures
        span@ == (SpanView { text: text@, style: plain_style() }),
{
    Span { text: String::from_str(text), style: Style { fg: None, bold: false, reversed: false } }
}

/// The help bar.
pub fn help_bar() -> (bar: HelpBar)
    ensures
        bar.spans.deep_view() == help_spans(),
{
    let mut spans: Vec<Span> = Vec::new();
    spans.push(key_span("q"));
    spans.push(plain_span(": Quit  "));
    spans.push(key_span("\u{2191}/\u{2193}"));
    spans.push(plain_span(": Navigate  "));
    spans.push(key_span("Enter"));
    spans.push(plain_span(": Select Container"));
    assert(spans.deep_view() =~= help_spans());
    HelpBar { spans }
}

/// The screen for the state `app`, with the panes at `areas`.
pub fn compose(app: &App, areas: Option<Areas>) -> (screen: Screen)
    ensures
        screen@ == render(app@, areas),
{
    let containers = app.containers();
    let mut items: Vec<Span> = Vec::new();
    let mut i: usize = 0;
    while i < containers.len()
        invariant
            i <= containers.len(),
            containers.deep_view() == app@.entities,
            items.deep_view() =~= Seq::new(i as nat, |k: int| list_row(app@.entities[k])),
        decreases containers.len() - i,
    {
        let ghost before = items.deep_view();
        let row = row_of(&containers[i]);
        assert(containers[i as int]@ == containers.deep_view()[i as int]);
        items.push(row);
        assert(items.deep_view() =~= before.push(row@));
        i = i + 1;
    }
    let list = ListPane {
        title: String::from_str(" Containers (\u{2191}/\u{2193} to navigate) "),
        items,
        selected: app.selected_index(),
        highlight: Style { fg: None, bold: false, reversed: true },
    };
    let detail = match app.selected() {
        Some(c) => Some(
            DetailPane { title: String::from_str(" Container Details "), lines: detail_lines_of(c) },
        ),
        None => None,
    };
    Screen { areas, list, detail, help: help_bar() }
}

/// Lays out and fills the screen for the state `app` on a terminal of the
/// size `area`.
///
/// What the panes show is fixed by the state, for every terminal. Where
/// exactly they lie is the layout solver's answer: on a placeable terminal
/// they are always placed, within the terminal and with the help bar at its
/// bottom edge; on a terminal beyond the coordinates they never are.
pub fn ui(app: &App, area: Area) -> (screen: Screen)
    ensures
        screen@ == render(app@, screen@.areas),
        !within_coordinates(area) ==> screen@.areas is None,
        placeable(area) ==> screen@.areas is Some,
        screen@.areas matches Some(a) ==> placed_on(a, area),
{
    compose(app, layout(area))
}

} // verus!
