//! The state of the interactive view: tabs, rows, selection and scrolling,
//! and the decisions that keyboard and mouse input make on them.
use vstd::prelude::*;

use crate::aggregate::{AggregatedDenial, AggregatedDenialView, DenialKey, DenialKeyView};
use crate::event::{DomainId, RulesetId};
use crate::state::LifecycleState;
use super::model::ObservationModel;
use super::text::{decimal_text, push_decimal, push_str, string_from_chars};
use super::format::{display_width, display_width_of};

verus! {

/// The tabs of the interactive view.
#[derive(Clone, Copy, Debug, PartialEq, Eq, Structural)]
pub enum Tab {
    Domains,
    Denials,
    Rulesets,
    Stats,
}

/// The number of tabs.
pub const TAB_COUNT: usize = 4;

impl Tab {
    /// The position of the tab.
    pub open spec fn position(self) -> nat {
        match self {
            Tab::Domains => 0,
            Tab::Denials => 1,
            Tab::Rulesets => 2,
            Tab::Stats => 3,
        }
    }

    /// The tab at `position`, which is below four.
    pub open spec fn at(position: nat) -> Tab {
        if position == 0 {
            Tab::Domains
        } else if position == 1 {
            Tab::Denials
        } else if position == 2 {
            Tab::Rulesets
        } else {
            Tab::Stats
        }
    }

    /// The title of the tab.
    pub open spec fn title_text(self) -> Seq<char> {
        match self {
            Tab::Domains => "Domains [1]"@,
            Tab::Denials => "Denials [2]"@,
            Tab::Rulesets => "Rulesets [3]"@,
            Tab::Stats => "Stats [4]"@,
        }
    }

    /// Returns the position of the tab.
    pub fn index(self) -> (index: usize)
        ensures
            index == self.position(),
            index < TAB_COUNT,
    {
        match self {
            Tab::Domains => 0,
            Tab::Denials => 1,
            Tab::Rulesets => 2,
            Tab::Stats => 3,
        }
    }

    /// Returns the tab at `index`, which is below four.
    pub fn from_index(index: usize) -> (tab: Tab)
        requires
            index < TAB_COUNT,
        ensures
            tab == Tab::at(index as nat),
            tab.position() == index,
    {
        if index == 0 {
            Tab::Domains
        } else if index == 1 {
            Tab::Denials
        } else if index == 2 {
            Tab::Rulesets
        } else {
            Tab::Stats
        }
    }

    /// Returns the title of the tab.
    pub fn title(self) -> (title: &'static str)
        ensures
            title@ == self.title_text(),
    {
        match self {
            Tab::Domains => "Domains [1]",
            Tab::Denials => "Denials [2]",
            Tab::Rulesets => "Rulesets [3]",
            Tab::Stats => "Stats [4]",
        }
    }
}

/// What a row of a list shows.
#[derive(Debug, PartialEq, Eq)]
pub enum RowKind {
    Domain(DomainId),
    DenialDomain(DomainId),
    Denial(DenialKey),
    Ruleset(RulesetId),
    Heading,
}

/// What a row of a list shows, by the identities it names.
pub enum RowKindView {
    Domain(DomainId),
    DenialDomain(DomainId),
    Denial(DenialKeyView),
    Ruleset(RulesetId),
    Heading,
}

impl View for RowKind {
    type V = RowKindView;

    open spec fn view(&self) -> RowKindView {
        match self {
            RowKind::Domain(id) => RowKindView::Domain(*id),
            RowKind::DenialDomain(id) => RowKindView::DenialDomain(*id),
            RowKind::Denial(key) => RowKindView::Denial(key@),
            RowKind::Ruleset(id) => RowKindView::Ruleset(*id),
            RowKind::Heading => RowKindView::Heading,
        }
    }
}

impl RowKind {
    /// Returns whether the row can be selected: every row but a heading.
    pub fn selectable(&self) -> (selectable: bool)
        ensures
            selectable == !(self@ is Heading),
    {
        match self {
            RowKind::Heading => false,
            _ => true,
        }
    }

    /// Returns whether both rows show the same thing.
    pub fn same_as(&self, other: &RowKind) -> (same: bool)
        ensures
            same == (self@ == other@),
    {
        match (self, other) {
            (RowKind::Domain(a), RowKind::Domain(b)) => *a == *b,
            (RowKind::DenialDomain(a), RowKind::DenialDomain(b)) => *a == *b,
            (RowKind::Denial(a), RowKind::Denial(b)) => a.same_as(b),
            (RowKind::Ruleset(a), RowKind::Ruleset(b)) => *a == *b,
            (RowKind::Heading, RowKind::Heading) => true,
            _ => false,
        }
    }
}

impl Clone for RowKind {
    fn clone(&self) -> (copy: Self)
        ensures
            copy@ == self@,
    {
        match self {
            RowKind::Domain(id) => RowKind::Domain(*id),
            RowKind::DenialDomain(id) => RowKind::DenialDomain(*id),
            RowKind::Denial(key) => RowKind::Denial(key.clone()),
            RowKind::Ruleset(id) => RowKind::Ruleset(*id),
            RowKind::Heading => RowKind::Heading,
        }
    }
}

/// A rectangle of terminal cells.
#[derive(Clone, Copy, Debug, PartialEq, Eq, Structural)]
pub struct Area {
    pub x: u16,
    pub y: u16,
    pub width: u16,
    pub height: u16,
}

impl Area {
    /// Creates a rectangle from its corner and size.
    pub fn new(x: u16, y: u16, width: u16, height: u16) -> (area: Area)
        ensures
            area == (Area { x, y, width, height }),
    {
        Area { x, y, width, height }
    }

    /// The empty rectangle at the origin.
    pub fn empty() -> (area: Area)
        ensures
            area == (Area { x: 0, y: 0, width: 0, height: 0 }),
    {
        Area { x: 0, y: 0, width: 0, height: 0 }
    }
}

/// Where the last drawing placed the tabs, the list and its rows.
pub struct HitMap {
    pub tabs: Area,
    pub list: Area,
    pub rows: Vec<RowKind>,
    pub header_rows: u16,
}

impl HitMap {
    /// A map of nothing drawn yet.
    pub fn empty() -> (hit: HitMap)
        ensures
            hit.tabs == Area::empty_spec(),
            hit.list == Area::empty_spec(),
            hit.rows@.len() == 0,
            hit.header_rows == 0,
    {
        HitMap { tabs: Area::empty(), list: Area::empty(), rows: Vec::new(), header_rows: 0 }
    }
}

impl Area {
    /// The empty rectangle at the origin.
    pub open spec fn empty_spec() -> Area {
        Area { x: 0, y: 0, width: 0, height: 0 }
    }
}

/// The views of a list of rows.
pub open spec fn row_views(rows: Seq<RowKind>) -> Seq<RowKindView> {
    rows.map_values(|row: RowKind| row@)
}

/// The view of an optional row.
pub open spec fn optional_row(row: Option<RowKind>) -> Option<RowKindView> {
    match row {
        Some(row) => Some(row@),
        None => None,
    }
}

/// The interactive view's state.
pub struct App {
    pub tab: Tab,
    pub paused: bool,
    pub collector_warning: Option<String>,
    pub selected: Option<RowKind>,
    pub detail: bool,
    pub scroll: usize,
    pub follow_selection: bool,
    pub dragging_scrollbar: bool,
    pub hit: HitMap,
}

/// The state of the interactive view that input changes.
pub struct AppView {
    pub tab: Tab,
    pub paused: bool,
    pub collector_warning: Option<Seq<char>>,
    pub selected: Option<RowKindView>,
    pub detail: bool,
    pub scroll: nat,
    pub follow_selection: bool,
    pub dragging_scrollbar: bool,
    pub rows: Seq<RowKindView>,
}

impl View for App {
    type V = AppView;

    open spec fn view(&self) -> AppView {
        AppView {
            tab: self.tab,
            paused: self.paused,
            collector_warning: match self.collector_warning {
                Some(warning) => Some(warning@),
                None => None,
            },
            selected: optional_row(self.selected),
            detail: self.detail,
            scroll: self.scroll as nat,
            follow_selection: self.follow_selection,
            dragging_scrollbar: self.dragging_scrollbar,
            rows: row_views(self.hit.rows@),
        }
    }
}

/// The scroll offset that keeps the list's view in range and, when following
/// the selection, brings the selected row into view.
pub open spec fn viewport_scroll_of(
    scroll: nat,
    row_count: nat,
    visible: nat,
    selected_index: Option<nat>,
    follow_selection: bool,
) -> nat {
    let limit: nat = if row_count > visible {
        (row_count - visible) as nat
    } else {
        0
    };
    let scroll = if scroll < limit {
        scroll
    } else {
        limit
    };
    if !follow_selection {
        scroll
    } else {
        match selected_index {
            Some(index) => if index < scroll {
                index
            } else if index >= saturating_add_usize(scroll, visible) {
                saturating_sub_nat(saturating_add_usize(index, 1), visible)
            } else {
                scroll
            },
            None => scroll,
        }
    }
}

/// `a + b`, saturating at [`usize::MAX`].
pub open spec fn saturating_add_usize(a: nat, b: nat) -> nat {
    if a + b > usize::MAX {
        usize::MAX as nat
    } else {
        a + b
    }
}

/// `a - b`, saturating at zero.
pub open spec fn saturating_sub_nat(a: nat, b: nat) -> nat {
    if a >= b {
        (a - b) as nat
    } else {
        0
    }
}

/// Returns the scroll offset that keeps the list's view in range and, when
/// following the selection, brings the selected row into view.
pub fn viewport_scroll(
    scroll: usize,
    row_count: usize,
    visible: usize,
    selected_index: Option<usize>,
    follow_selection: bool,
) -> (result: usize)
    ensures
        result == viewport_scroll_of(
            scroll as nat,
            row_count as nat,
            visible as nat,
            match selected_index {
                Some(index) => Some(index as nat),
                None => None,
            },
            follow_selection,
        ),
{
    let limit = row_count.saturating_sub(visible);
    let scroll = if scroll < limit {
        scroll
    } else {
        limit
    };
    if !follow_selection {
        return scroll;
    }
    match selected_index {
        Some(index) => {
            if index < scroll {
                index
            } else if index >= scroll.saturating_add(visible) {
                index.saturating_add(1).saturating_sub(visible)
            } else {
                scroll
            }
        },
        None => scroll,
    }
}

/// The position of the first row among `rows` that equals `row`.
pub open spec fn first_position(rows: Seq<RowKindView>, row: RowKindView) -> Option<nat> {
    if exists|i: int| 0 <= i < rows.len() && rows[i] == row {
        Some(
            (choose|i: int|
                0 <= i < rows.len() && rows[i] == row && forall|j: int|
                    0 <= j < i ==> rows[j] != row) as nat,
        )
    } else {
        None
    }
}

/// The rows that the selection moves over: every selectable row that
/// differs from the one before it.
pub open spec fn selectable_rows(rows: Seq<RowKindView>) -> Seq<RowKindView>
    decreases rows.len(),
{
    if rows.len() == 0 {
        Seq::empty()
    } else {
        let earlier = selectable_rows(rows.drop_last());
        let row = rows.last();
        if !(row is Heading) && (earlier.len() == 0 || earlier.last() != row) {
            earlier.push(row)
        } else {
            earlier
        }
    }
}

/// The row selected after moving `delta` rows from `selected` among
/// `choices`: up from nothing selects the last, anything else from nothing
/// the first, and moves stop at either end.
pub open spec fn moved_selection(
    choices: Seq<RowKindView>,
    selected: Option<RowKindView>,
    delta: int,
) -> RowKindView {
    let current = match selected {
        Some(row) => first_position(choices, row),
        None => None,
    };
    let next: int = match current {
        None => if delta < 0 {
            choices.len() - 1
        } else {
            0
        },
        Some(index) => if delta < 0 {
            if index == 0 {
                0
            } else {
                index - 1
            }
        } else if index + 1 < choices.len() {
            index + 1 as int
        } else {
            choices.len() - 1
        },
    };
    choices[next]
}

impl AppView {
    /// The state after switching to `tab`: nothing selected, no detail, top
    /// of the list, following the selection.
    pub open spec fn with_tab(self, tab: Tab) -> AppView {
        AppView {
            tab,
            selected: None,
            detail: false,
            scroll: 0,
            follow_selection: true,
            ..self
        }
    }

    /// The state after moving the selection by `delta` rows.
    pub open spec fn with_moved_selection(self, delta: int) -> AppView {
        let choices = selectable_rows(self.rows);
        if choices.len() == 0 {
            AppView { follow_selection: true, ..self }
        } else {
            AppView {
                follow_selection: true,
                selected: Some(moved_selection(choices, self.selected, delta)),
                detail: true,
                ..self
            }
        }
    }
}

/// Returns the first position among `choices`, positions of `rows`, whose row
/// equals `selected`.
fn position_in(
    rows: &Vec<RowKind>,
    choices: &Vec<usize>,
    selected: &RowKind,
    Ghost(options): Ghost<Seq<RowKindView>>,
) -> (position: Option<usize>)
    requires
        choices@.len() == options.len(),
        forall|i: int|
            0 <= i < choices@.len() ==> #[trigger] choices@[i] < rows@.len() && rows@[choices@[i] as int]@
                == options[i],
    ensures
        match position {
            Some(found) => first_position(options, selected@) == Some(found as nat) && found < options.len(),
            None => first_position(options, selected@) is None,
        },
{
    let mut position: usize = 0;
    while position < choices.len()
        invariant
            position <= choices@.len(),
            choices@.len() == options.len(),
            forall|i: int|
                0 <= i < choices@.len() ==> #[trigger] choices@[i] < rows@.len()
                    && rows@[choices@[i] as int]@ == options[i],
            forall|j: int| 0 <= j < position ==> options[j] != selected@,
        decreases choices@.len() - position,
    {
        if rows[choices[position]].same_as(selected) {
            proof {
                assert(options[position as int] == selected@);
                let chosen = choose|i: int|
                    0 <= i < options.len() && options[i] == selected@ && forall|j: int|
                        0 <= j < i ==> options[j] != selected@;
                assert(0 <= position < options.len() && options[position as int] == selected@
                    && forall|j: int| 0 <= j < position ==> options[j] != selected@);
                let chosen = choose|i: int|
                    0 <= i < options.len() && options[i] == selected@ && forall|j: int|
                        0 <= j < i ==> options[j] != selected@;
                if chosen < position {
                    assert(options[chosen] != selected@);
                } else if chosen > position {
                    assert(options[position as int] != selected@);
                }
            }
            return Some(position);
        }
        position = position + 1;
    }
    None
}

impl App {
    /// Creates the view's initial state: the domains tab, nothing selected.
    pub fn new() -> (app: App)
        ensures
            app@ == (AppView {
                tab: Tab::Domains,
                paused: false,
                collector_warning: None,
                selected: None,
                detail: false,
                scroll: 0,
                follow_selection: true,
                dragging_scrollbar: false,
                rows: Seq::empty(),
            }),
            app.hit.tabs == Area::empty_spec(),
            app.hit.list == Area::empty_spec(),
            app.hit.header_rows == 0,
    {
        let app = App {
            tab: Tab::Domains,
            paused: false,
            collector_warning: None,
            selected: None,
            detail: false,
            scroll: 0,
            follow_selection: true,
            dragging_scrollbar: false,
            hit: HitMap::empty(),
        };
        assert(row_views(app.hit.rows@) =~= Seq::empty());
        app
    }

    /// Records a collector warning, which the status line keeps showing.
    pub fn set_collector_warning(&mut self, warning: String)
        ensures
            final(self)@ == (AppView { collector_warning: Some(warning@), ..old(self)@ }),
            final(self).hit == old(self).hit,
    {
        self.collector_warning = Some(warning);
    }

    /// Closes the detail pane, keeping the selection.
    pub fn close_detail(&mut self)
        ensures
            final(self)@ == (AppView { detail: false, ..old(self)@ }),
            final(self).hit == old(self).hit,
    {
        self.detail = false;
    }

    /// Switches to `tab` with nothing selected at the top of its list.
    pub fn set_tab(&mut self, tab: Tab)
        ensures
            final(self)@ == old(self)@.with_tab(tab),
            final(self).hit == old(self).hit,
    {
        self.tab = tab;
        self.selected = None;
        self.detail = false;
        self.scroll = 0;
        self.follow_selection = true;
    }

    /// Switches to the next tab, after the last back to the first.
    pub fn cycle_tab(&mut self)
        ensures
            final(self)@ == old(self)@.with_tab(
                Tab::at(((old(self)@.tab.position() + 1) % 4) as nat),
            ),
            final(self).hit == old(self).hit,
    {
        let next = (self.tab.index() + 1) % TAB_COUNT;
        self.set_tab(Tab::from_index(next));
    }

    /// Scrolls by `delta` rows and stops following the selection.
    pub fn scroll_by(&mut self, delta: isize)
        ensures
            final(self)@ == (AppView {
                follow_selection: false,
                scroll: if delta < 0 {
                    if old(self).scroll >= -delta {
                        (old(self).scroll + delta) as nat
                    } else {
                        0
                    }
                } else if old(self).scroll + delta <= usize::MAX {
                    (old(self).scroll + delta) as nat
                } else {
                    usize::MAX as nat
                },
                ..old(self)@
            }),
            final(self).hit == old(self).hit,
    {
        self.follow_selection = false;
        if delta < 0 {
            let magnitude: usize = if delta == isize::MIN {
                (isize::MAX as usize) + 1
            } else {
                (-delta) as usize
            };
            self.scroll = self.scroll.saturating_sub(magnitude);
        } else {
            self.scroll = self.scroll.saturating_add(delta as usize);
        }
    }

    /// Scrolls to `scroll` and stops following the selection.
    pub fn scroll_to(&mut self, scroll: usize)
        ensures
            final(self)@ == (AppView { follow_selection: false, scroll: scroll as nat, ..old(self)@ }),
            final(self).hit == old(self).hit,
    {
        self.follow_selection = false;
        self.scroll = scroll;
    }

    /// Moves the selection by `delta` rows among the selectable rows of the
    /// last drawing, opening the detail pane, and follows the selection.
    pub fn move_selection(&mut self, delta: isize)
        ensures
            final(self)@ == old(self)@.with_moved_selection(delta as int),
            final(self).hit == old(self).hit,
    {
        self.follow_selection = true;
        let ghost rows = row_views(self.hit.rows@);
        let mut choices: Vec<usize> = Vec::new();
        let mut index: usize = 0;
        while index < self.hit.rows.len()
            invariant
                index <= self.hit.rows@.len(),
                rows == row_views(self.hit.rows@),
                choices@.len() == selectable_rows(rows.take(index as int)).len(),
                forall|i: int|
                    0 <= i < choices@.len() ==> #[trigger] choices@[i] < index && rows[choices@[i] as int]
                        == selectable_rows(rows.take(index as int))[i],
            decreases self.hit.rows@.len() - index,
        {
            let row = &self.hit.rows[index];
            let fresh = match choices.last() {
                Some(last) => !self.hit.rows[*last].same_as(row),
                None => true,
            };
            proof {
                let next = rows.take(index + 1);
                assert(next.drop_last() =~= rows.take(index as int));
                assert(next.last() == rows[index as int]);
            }
            if row.selectable() && fresh {
                choices.push(index);
            }
            index = index + 1;
        }
        assert(rows.take(rows.len() as int) =~= rows);
        if choices.len() == 0 {
            return;
        }
        let ghost options = selectable_rows(rows);
        let current = match &self.selected {
            Some(selected) => position_in(&self.hit.rows, &choices, selected, Ghost(options)),
            None => None,
        };
        let last = choices.len() - 1;
        let next = match current {
            None => if delta < 0 {
                last
            } else {
                0
            },
            Some(index) => if delta < 0 {
                if index == 0 {
                    0
                } else {
                    index - 1
                }
            } else if index + 1 < choices.len() {
                index + 1
            } else {
                last
            },
        };
        let row = self.hit.rows[choices[next]].clone();
        self.selected = Some(row);
        self.detail = true;
    }

    /// Sets the scroll offset for a list of `row_count` rows of which
    /// `visible` fit, keeping the selected row in view when following it.
    pub fn adjust_viewport(&mut self, row_count: usize, visible: usize, selected_index: Option<usize>)
        ensures
            final(self)@ == (AppView {
                scroll: viewport_scroll_of(
                    old(self)@.scroll,
                    row_count as nat,
                    visible as nat,
                    match selected_index {
                        Some(index) => Some(index as nat),
                        None => None,
                    },
                    old(self)@.follow_selection,
                ),
                ..old(self)@
            }),
            final(self).hit == old(self).hit,
    {
        self.scroll = viewport_scroll(
            self.scroll,
            row_count,
            visible,
            selected_index,
            self.follow_selection,
        );
    }
}

/// A denial's visibility: a bell and `audit-visible` when the kernel logged
/// it, a muted bell and `trace-only` otherwise.
pub open spec fn visibility_text(logged: bool) -> (Seq<char>, Seq<char>) {
    if logged {
        ("🔔"@, "audit-visible"@)
    } else {
        ("🔕"@, "trace-only"@)
    }
}

/// Returns a denial's visibility marker and label.
pub fn visibility(logged: bool) -> (marker: (&'static str, &'static str))
    ensures
        (marker.0@, marker.1@) == visibility_text(logged),
{
    if logged {
        ("🔔", "audit-visible")
    } else {
        ("🔕", "trace-only")
    }
}

/// The label of a lifecycle: `partial`, `allocated` or `deallocated`.
pub open spec fn lifecycle_text(value: LifecycleState) -> Seq<char> {
    match value {
        LifecycleState::Unknown => "partial"@,
        LifecycleState::Allocated => "allocated"@,
        LifecycleState::Deallocated => "deallocated"@,
    }
}

/// Returns the label of a lifecycle.
pub fn lifecycle(value: LifecycleState) -> (label: &'static str)
    ensures
        label@ == lifecycle_text(value),
{
    match value {
        LifecycleState::Unknown => "partial",
        LifecycleState::Allocated => "allocated",
        LifecycleState::Deallocated => "deallocated",
    }
}

/// The tone in which a row or field is shown.
#[derive(Clone, Copy, Debug, PartialEq, Eq, Structural)]
pub enum Tone {
    Normal,
    Heading,
    Observed,
    ObservedBold,
    Tombstone,
    Unknown,
    TraceOnly,
    Hot,
    Recent,
    Cooling,
    Cold,
}

/// The tone of a denial by the age of its latest observation: hot under a
/// second, recent under five, cooling under thirty, cold beyond.
pub open spec fn recency_tone(age_ns: u64) -> Tone {
    if age_ns < 1_000_000_000 {
        Tone::Hot
    } else if age_ns < 5_000_000_000 {
        Tone::Recent
    } else if age_ns < 30_000_000_000 {
        Tone::Cooling
    } else {
        Tone::Cold
    }
}

/// Returns the tone of a denial by the age of its latest observation.
pub fn recency(age_ns: u64) -> (tone: Tone)
    ensures
        tone == recency_tone(age_ns),
{
    if age_ns < 1_000_000_000 {
        Tone::Hot
    } else if age_ns < 5_000_000_000 {
        Tone::Recent
    } else if age_ns < 30_000_000_000 {
        Tone::Cooling
    } else {
        Tone::Cold
    }
}

/// The tone of an object by its lifecycle.
pub open spec fn lifecycle_tone(value: LifecycleState) -> Tone {
    match value {
        LifecycleState::Unknown => Tone::Unknown,
        LifecycleState::Allocated => Tone::Observed,
        LifecycleState::Deallocated => Tone::Tombstone,
    }
}

/// Returns the tone of an object by its lifecycle.
pub fn lifecycle_style(value: LifecycleState) -> (tone: Tone)
    ensures
        tone == lifecycle_tone(value),
{
    match value {
        LifecycleState::Unknown => Tone::Unknown,
        LifecycleState::Allocated => Tone::Observed,
        LifecycleState::Deallocated => Tone::Tombstone,
    }
}

/// How a row is shown: its tone, and whether it is related to the selected
/// row or is the selected row itself.
#[derive(Clone, Copy, Debug, PartialEq, Eq, Structural)]
pub struct RowStyle {
    pub tone: Tone,
    pub related: bool,
    pub selected: bool,
}

/// The tab whose title a click at `column` of `row` hits, the tab titles
/// laid out after the area's border, each padded by one cell on both sides
/// and separated by one cell.
pub open spec fn clicked_tab_of(area: Area, column: u16, row: u16) -> Option<Tab> {
    if row != area.y + 1 || column <= area.x {
        None
    } else {
        let relative = column - area.x - 1;
        if relative < 13 {
            Some(Tab::Domains)
        } else if 14 <= relative < 27 {
            Some(Tab::Denials)
        } else if 28 <= relative < 42 {
            Some(Tab::Rulesets)
        } else if 43 <= relative < 54 {
            Some(Tab::Stats)
        } else {
            None
        }
    }
}

/// Returns the tab whose title a click hits, if any.
pub fn clicked_tab(area: Area, column: u16, row: u16) -> (tab: Option<Tab>)
    ensures
        tab == clicked_tab_of(area, column, row),
{
    if area.y as u32 + 1 != row as u32 || column <= area.x {
        return None;
    }
    let relative = (column - area.x - 1) as usize;
    let mut start: usize = 0;
    let mut index: usize = 0;
    while index < TAB_COUNT
        invariant
            index <= TAB_COUNT,
            start == (if index == 0 {
                0usize
            } else if index == 1 {
                14
            } else if index == 2 {
                28
            } else if index == 3 {
                43
            } else {
                55
            }),
            relative == column - area.x - 1,
            row == area.y + 1,
            column > area.x,
            index > 0 ==> !(relative < 13),
            index > 1 ==> !(14 <= relative < 27),
            index > 2 ==> !(28 <= relative < 42),
            index > 3 ==> !(43 <= relative < 54),
        decreases TAB_COUNT - index,
    {
        let tab = Tab::from_index(index);
        let length = title_length(tab);
        let end = start + length + 2;
        if start <= relative && relative < end {
            proof {
                if index == 0 {
                    assert(tab == Tab::Domains && relative < 13);
                } else if index == 1 {
                    assert(tab == Tab::Denials && 14 <= relative < 27);
                } else if index == 2 {
                    assert(tab == Tab::Rulesets && 28 <= relative < 42);
                } else {
                    assert(tab == Tab::Stats && 43 <= relative < 54);
                }
            }
            return Some(tab);
        }
        start = end + 1;
        index = index + 1;
    }
    None
}

/// Returns the number of bytes of a tab's title, all of them ASCII.
fn title_length(tab: Tab) -> (length: usize)
    ensures
        length == match tab {
            Tab::Domains => 11usize,
            Tab::Denials => 11usize,
            Tab::Rulesets => 12usize,
            Tab::Stats => 9usize,
        },
{
    match tab {
        Tab::Domains => 11,
        Tab::Denials => 11,
        Tab::Rulesets => 12,
        Tab::Stats => 9,
    }
}

/// The row that a click at `column` of `row` selects, given the list's area,
/// its heading rows, the scroll offset and the rows: a selectable row within
/// the list's border, below its top edge.
pub open spec fn clicked_row_of(
    list: Area,
    header_rows: u16,
    scroll: nat,
    rows: Seq<RowKindView>,
    column: u16,
    row: u16,
) -> Option<RowKindView> {
    let bottom: int = list.y + if list.height >= 1 {
        list.height - 1
    } else {
        0
    };
    if column < list.x || column >= list.x + list.width || row <= list.y || row >= bottom {
        None
    } else {
        let index = saturating_add_usize(scroll, (row - list.y - header_rows) as nat);
        if index < rows.len() && !(rows[index as int] is Heading) {
            Some(rows[index as int])
        } else {
            None
        }
    }
}

/// Selects the row under a click and opens its detail; a click outside the
/// list's rows, or on a heading, changes nothing.
pub fn click_row(app: &mut App, column: u16, row: u16)
    requires
        old(app).hit.header_rows <= 1,
    ensures
        match clicked_row_of(
            old(app).hit.list,
            old(app).hit.header_rows,
            old(app)@.scroll,
            old(app)@.rows,
            column,
            row,
        ) {
            Some(kind) => final(app)@ == (AppView {
                selected: Some(kind),
                detail: true,
                ..old(app)@
            }),
            None => final(app)@ == old(app)@,
        },
        final(app).hit == old(app).hit,
{
    let area = app.hit.list;
    let bottom: u32 = area.y as u32 + area.height.saturating_sub(1) as u32;
    if column < area.x || column as u32 >= area.x as u32 + area.width as u32 || row <= area.y
        || row as u32 >= bottom {
        return;
    }
    let visible = (row - area.y - app.hit.header_rows) as usize;
    let index = app.scroll.saturating_add(visible);
    if index < app.hit.rows.len() && app.hit.rows[index].selectable() {
        let kind = app.hit.rows[index].clone();
        app.selected = Some(kind);
        app.detail = true;
    }
}

/// The scroll offset that dragging the scrollbar thumb to `row` selects:
/// the position within the track scaled to the scrollable rows.
pub open spec fn dragged_scroll_of(list: Area, row_count: nat, row: u16) -> nat {
    let height: nat = if list.height >= 3 {
        (list.height - 2) as nat
    } else {
        1
    };
    let offset: nat = if row >= list.y + 1 {
        (row - list.y - 1) as nat
    } else {
        0
    };
    let relative: nat = if offset < height {
        offset
    } else {
        (height - 1) as nat
    };
    let max_scroll = saturating_sub_nat(row_count, height);
    let product: nat = if relative * max_scroll > usize::MAX {
        usize::MAX as nat
    } else {
        relative * max_scroll
    };
    let divisor: nat = if height >= 2 {
        (height - 1) as nat
    } else {
        1
    };
    product / divisor
}

/// Scrolls to where the scrollbar thumb is dragged.
pub fn drag_scrollbar(app: &mut App, row: u16)
    ensures
        final(app)@ == (AppView {
            follow_selection: false,
            scroll: dragged_scroll_of(old(app).hit.list, old(app)@.rows.len(), row),
            ..old(app)@
        }),
        final(app).hit == old(app).hit,
{
    let list = app.hit.list;
    let height: u16 = if list.height >= 3 {
        list.height - 2
    } else {
        1
    };
    let offset: u16 = if row as u32 >= list.y as u32 + 1 {
        row - list.y - 1
    } else {
        0
    };
    let relative: u16 = if offset < height {
        offset
    } else {
        height - 1
    };
    let max_scroll = app.hit.rows.len().saturating_sub(height as usize);
    let product: usize = match (relative as usize).checked_mul(max_scroll) {
        Some(product) => product,
        None => usize::MAX,
    };
    let divisor: usize = if height >= 2 {
        (height - 1) as usize
    } else {
        1
    };
    proof {
        assert(row_views(app.hit.rows@).len() == app.hit.rows@.len());
    }
    app.scroll_to(product / divisor);
}

/// The state after following the selected domain to its ruleset: the
/// rulesets tab, with that ruleset selected and its detail open.
pub open spec fn followed_domain_of(app: AppView, model: super::model::ModelView) -> AppView {
    let id = match app.selected {
        Some(RowKindView::Domain(id)) => Some(id),
        Some(RowKindView::DenialDomain(id)) => Some(id),
        _ => None,
    };
    match id {
        Some(id) => if model.state.domains.contains_key(id@) {
            match model.state.domains[id@].ruleset {
                Some((ruleset, _)) => AppView {
                    selected: Some(RowKindView::Ruleset(ruleset)),
                    detail: true,
                    ..app.with_tab(Tab::Rulesets)
                },
                None => app,
            }
        } else {
            app
        },
        None => app,
    }
}

/// Follows a selected domain to its ruleset, if known.
pub fn follow_domain(app: &mut App, model: &ObservationModel)
    ensures
        final(app)@ == followed_domain_of(old(app)@, model@),
        final(app).hit == old(app).hit,
{
    let id = match &app.selected {
        Some(RowKind::Domain(id)) => *id,
        Some(RowKind::DenialDomain(id)) => *id,
        _ => return,
    };
    let ruleset = match model.state().domain(id) {
        Some(domain) => super::model::domain_ruleset(domain),
        None => return,
    };
    match ruleset {
        Some(ruleset) => {
            app.set_tab(Tab::Rulesets);
            app.selected = Some(RowKind::Ruleset(ruleset));
            app.detail = true;
        },
        None => {},
    }
}

/// The tree drawing before a domain whose ancestors' and own last-child
/// flags are `last`: one segment per level below the root.
pub open spec fn tree_prefix_text(last: Seq<bool>) -> Seq<char>
    decreases last.len(),
{
    if last.len() <= 1 {
        Seq::empty()
    } else {
        tree_inner_text(last.drop_last()) + if last.last() {
            "└─ "@
        } else {
            "├─ "@
        }
    }
}

/// The segments of the ancestor levels below the root.
pub open spec fn tree_inner_text(last: Seq<bool>) -> Seq<char>
    decreases last.len(),
{
    if last.len() <= 1 {
        Seq::empty()
    } else {
        tree_inner_text(last.drop_last()) + if last.last() {
            "   "@
        } else {
            "│  "@
        }
    }
}

/// Returns the tree drawing before a domain.
pub fn tree_prefix(last: &[bool]) -> (prefix: String)
    ensures
        prefix@ == tree_prefix_text(last@),
{
    let mut out: Vec<char> = Vec::new();
    if last.len() <= 1 {
        assert(out@ =~= tree_prefix_text(last@));
        return string_from_chars(out);
    }
    let mut index: usize = 1;
    while index < last.len() - 1
        invariant
            1 <= index < last@.len(),
            out@ == tree_inner_text(last@.take(index as int)),
        decreases last@.len() - index,
    {
        if last[index] {
            push_str(&mut out, "   ");
        } else {
            push_str(&mut out, "│  ");
        }
        proof {
            let next = last@.take(index + 1);
            assert(next.drop_last() =~= last@.take(index as int));
        }
        index = index + 1;
    }
    if last[index] {
        push_str(&mut out, "└─ ");
    } else {
        push_str(&mut out, "├─ ");
    }
    proof {
        assert(last@.take(index as int) =~= last@.drop_last());
    }
    string_from_chars(out)
}

/// `text` preceded by spaces up to `width` characters.
pub open spec fn right_aligned(text: Seq<char>, width: nat) -> Seq<char> {
    if text.len() < width {
        Seq::new((width - text.len()) as nat, |i: int| ' ') + text
    } else {
        text
    }
}

/// The start of a denial row: an indent, the count right-aligned in six
/// columns, and the visibility marker.
pub open spec fn denial_row_prefix(count: u64, visibility: Seq<char>) -> Seq<char> {
    "    "@ + right_aligned(decimal_text(count as nat), 6) + " "@ + visibility + "  "@
}

/// Returns a denial row's text and the display width of its start, where
/// continuation lines align.
pub fn denial_row_text(count: u64, visibility: &str, target: &str) -> (row: (String, usize))
    ensures
        row.0@ == denial_row_prefix(count, visibility@) + target@,
        row.1 == display_width_of(denial_row_prefix(count, visibility@)),
{
    let mut digits: Vec<char> = Vec::new();
    push_decimal(&mut digits, count);
    let mut prefix: Vec<char> = Vec::new();
    push_str(&mut prefix, "    ");
    let mut padding = digits.len();
    while padding < 6
        invariant
            digits@ == decimal_text(count as nat),
            digits@.len() <= padding <= 6 || padding == digits@.len(),
            prefix@ == "    "@ + Seq::new((padding - digits@.len()) as nat, |i: int| ' '),
        decreases 6 - padding,
    {
        prefix.push(' ');
        proof {
            assert(prefix@ =~= "    "@ + Seq::new((padding + 1 - digits@.len()) as nat, |i: int| ' '));
        }
        padding = padding + 1;
    }
    let mut index: usize = 0;
    let ghost before = prefix@;
    while index < digits.len()
        invariant
            index <= digits@.len(),
            prefix@ == before + digits@.take(index as int),
        decreases digits@.len() - index,
    {
        prefix.push(digits[index]);
        proof {
            assert(digits@.take(index + 1) =~= digits@.take(index as int).push(digits@[index as int]));
        }
        index = index + 1;
    }
    assert(digits@.take(digits@.len() as int) =~= digits@);
    push_str(&mut prefix, " ");
    push_str(&mut prefix, visibility);
    push_str(&mut prefix, "  ");
    assert(prefix@ =~= denial_row_prefix(count, visibility@));
    let mut text: Vec<char> = Vec::new();
    let mut index: usize = 0;
    while index < prefix.len()
        invariant
            index <= prefix@.len(),
            text@ == prefix@.take(index as int),
        decreases prefix@.len() - index,
    {
        text.push(prefix[index]);
        proof {
            assert(prefix@.take(index + 1) =~= prefix@.take(index as int).push(prefix@[index as int]));
        }
        index = index + 1;
    }
    assert(prefix@.take(prefix@.len() as int) =~= prefix@);
    push_str(&mut text, target);
    let start = string_from_chars(prefix);
    let indent = display_width(start.as_str());
    (string_from_chars(text), indent)
}

/// The occurrence counts of entries summed, saturating at [`u64::MAX`].
pub open spec fn total_of(entries: Seq<AggregatedDenialView>) -> u64
    decreases entries.len(),
{
    if entries.len() == 0 {
        0
    } else {
        let sum = total_of(entries.drop_last()) + entries.last().occurrence_count;
        if sum > u64::MAX {
            u64::MAX
        } else {
            sum as u64
        }
    }
}

/// The greatest occurrence count of entries, zero when there are none.
pub open spec fn maximum_of(entries: Seq<AggregatedDenialView>) -> u64
    decreases entries.len(),
{
    if entries.len() == 0 {
        0
    } else {
        let rest = maximum_of(entries.drop_last());
        if entries.last().occurrence_count > rest {
            entries.last().occurrence_count
        } else {
            rest
        }
    }
}

/// The views of a list of aggregated denials.
pub open spec fn denial_views(entries: Seq<&AggregatedDenial>) -> Seq<AggregatedDenialView> {
    entries.map_values(|entry: &AggregatedDenial| entry@)
}

/// Returns the occurrence counts of entries summed, saturating.
pub fn total(entries: &[&AggregatedDenial]) -> (sum: u64)
    ensures
        sum == total_of(denial_views(entries@)),
{
    let ghost views = denial_views(entries@);
    let mut sum: u64 = 0;
    let mut index: usize = 0;
    while index < entries.len()
        invariant
            index <= entries@.len(),
            views == denial_views(entries@),
            sum == total_of(views.take(index as int)),
        decreases entries@.len() - index,
    {
        proof {
            let next = views.take(index + 1);
            assert(next.drop_last() =~= views.take(index as int));
        }
        sum = sum.saturating_add(entries[index].occurrence_count());
        index = index + 1;
    }
    assert(views.take(views.len() as int) =~= views);
    sum
}

/// Returns the greatest occurrence count of entries, zero when there are
/// none.
pub fn maximum(entries: &[&AggregatedDenial]) -> (greatest: u64)
    ensures
        greatest == maximum_of(denial_views(entries@)),
{
    let ghost views = denial_views(entries@);
    let mut greatest: u64 = 0;
    let mut index: usize = 0;
    while index < entries.len()
        invariant
            index <= entries@.len(),
            views == denial_views(entries@),
            greatest == maximum_of(views.take(index as int)),
        decreases entries@.len() - index,
    {
        proof {
            let next = views.take(index + 1);
            assert(next.drop_last() =~= views.take(index as int));
        }
        let count = entries[index].occurrence_count();
        if count > greatest {
            greatest = count;
        }
        index = index + 1;
    }
    assert(views.take(views.len() as int) =~= views);
    greatest
}

} // verus!
