//! The status line, the statistics pane and the layout of the list pane.
use vstd::prelude::*;

use super::batch::allocated_domain_count;
use super::detail::{line_views, push_spaces, spaces, DetailLine, DetailLineView};
use super::format::{wrap, wrapped};
use super::rows::{no_new_privs_warning, display_views, DisplayRow, DisplayRowView};
use super::model::{allocated_ruleset_count, ModelView, ObservationModel};
use super::text::{decimal_text, push_decimal, push_str, string_from_chars};
use super::view::{
    first_position, row_views, saturating_add_usize, saturating_sub_nat, viewport_scroll_of, App,
    AppView, Area, RowKind, RowKindView, Tab, Tone,
};
use crate::state::{lists_values, DomainState, DomainView, LifecycleState, State, StateView};

verus! {

broadcast use vstd::seq_lib::group_seq_properties;

/// Whether some allocated domain is missing `no_new_privs`.
pub open spec fn missing_no_new_privs(state: StateView) -> bool {
    exists|id: u64|
        #[trigger] state.domains.contains_key(id) && state.domains[id].lifecycle
            == LifecycleState::Allocated && state.domains[id].no_new_privs() == Some(false)
}

/// Whether a domain is allocated and missing `no_new_privs`.
pub open spec fn domain_missing_no_new_privs(domain: DomainView) -> bool {
    domain.lifecycle == LifecycleState::Allocated && domain.no_new_privs() == Some(false)
}

fn any_missing_no_new_privs(state: &State) -> (missing: bool)
    ensures
        missing == missing_no_new_privs(state@),
{
    let domains = state.domains();
    let ghost views = domains@.map_values(|domain: &DomainState| domain@);
    let mut index: usize = 0;
    while index < domains.len()
        invariant
            index <= domains@.len(),
            views == domains@.map_values(|domain: &DomainState| domain@),
            lists_values(views, state@.domains),
            forall|j: int| 0 <= j < index ==> !domain_missing_no_new_privs(#[trigger] views[j]),
        decreases domains@.len() - index,
    {
        let domain = domains[index];
        if matches!(domain.lifecycle(), LifecycleState::Allocated) && matches!(
            domain.no_new_privs(),
            Some(false)
        ) {
            proof {
                assert(domain_missing_no_new_privs(views[index as int]));
                assert(state@.domains.values().contains(views[index as int]));
                let id = choose|id: u64|
                    state@.domains.contains_key(id) && state@.domains[id] == views[index as int];
                assert(state@.domains.contains_key(id));
            }
            return true;
        }
        index = index + 1;
    }
    proof {
        assert forall|id: u64| #[trigger] state@.domains.contains_key(id) implies !domain_missing_no_new_privs(
            state@.domains[id],
        ) by {
            assert(state@.domains.values().contains(state@.domains[id]));
            let j = choose|j: int| 0 <= j < views.len() && views[j] == state@.domains[id];
            assert(!domain_missing_no_new_privs(views[j]));
        }
    }
    false
}

/// The status line: the domain counts, the denial total, and what calls
/// for attention.
pub open spec fn status_text(app: AppView, model: ModelView) -> Seq<char> {
    " "@ + decimal_text(model.state.domains.dom().len()) + " domains ("@ + decimal_text(
        allocated_domain_count(model.state),
    ) + " allocated) | "@ + decimal_text(model.total as nat) + " denials"@ + if app.paused {
        " | PAUSED"@
    } else {
        Seq::empty()
    } + if missing_no_new_privs(model.state) {
        " | "@ + no_new_privs_warning()
    } else {
        Seq::empty()
    } + match app.collector_warning {
        Some(warning) => " | COLLECTOR WARNING: "@ + warning,
        None => Seq::empty(),
    }
}

/// Returns the status line: the domain counts, the denial total, whether
/// the view is paused, the warning for an allocated domain missing
/// `no_new_privs`, and the collector's warning.
pub fn status_line(app: &App, model: &ObservationModel) -> (line: String)
    ensures
        line@ == status_text(app@, model@),
{
    let state = model.state();
    let mut out: Vec<char> = Vec::new();
    push_str(&mut out, " ");
    push_decimal(&mut out, state.domain_count() as u64);
    push_str(&mut out, " domains (");
    push_decimal(&mut out, model.allocated_domains() as u64);
    push_str(&mut out, " allocated) | ");
    push_decimal(&mut out, model.stats().total);
    push_str(&mut out, " denials");
    if app.paused {
        push_str(&mut out, " | PAUSED");
    }
    if any_missing_no_new_privs(state) {
        push_str(&mut out, " | ");
        push_str(&mut out, "WARNING: missing no_new_privs means privilege gain is possible");
    }
    match &app.collector_warning {
        Some(warning) => {
            push_str(&mut out, " | COLLECTOR WARNING: ");
            push_str(&mut out, warning.as_str());
        },
        None => {},
    }
    assert(out@ =~= status_text(app@, model@));
    string_from_chars(out)
}

/// A line of the statistics pane without a label.
pub open spec fn plain_line(text: Seq<char>) -> DetailLineView {
    DetailLineView { label: Seq::empty(), text, tone: Tone::Normal }
}

/// A counter of the statistics pane.
pub open spec fn counter_text(title: Seq<char>, value: u64) -> Seq<char> {
    "  "@ + title + ": "@ + decimal_text(value as nat)
}

/// A count of allocated and observed objects.
pub open spec fn count_text(title: Seq<char>, allocated: nat, observed: nat) -> Seq<char> {
    title + ": "@ + decimal_text(allocated) + " allocated / "@ + decimal_text(observed) + " observed"@
}

/// The statistics pane: the denial total and the count of each kind, then
/// the domain and ruleset counts and the latest timestamp seen.
pub open spec fn stats_lines_of(model: ModelView) -> Seq<DetailLineView> {
    seq![
        DetailLineView {
            label: "Observed denials: "@,
            text: decimal_text(model.total as nat),
            tone: Tone::Normal,
        },
        plain_line(counter_text("Filesystem"@, model.by_kind[0])),
        plain_line(counter_text("Network"@, model.by_kind[1])),
        plain_line(counter_text("Ptrace"@, model.by_kind[2])),
        plain_line(counter_text("Signal"@, model.by_kind[3])),
        plain_line(counter_text("Abstract Unix"@, model.by_kind[4])),
        plain_line(Seq::empty()),
        plain_line(
            count_text(
                "Domains"@,
                allocated_domain_count(model.state),
                model.state.domains.dom().len(),
            ),
        ),
        plain_line(
            count_text(
                "Rulesets"@,
                allocated_ruleset_count(model.state),
                model.state.rulesets.dom().len(),
            ),
        ),
        plain_line("Latest event: "@ + decimal_text(model.latest_seen as nat) + "ns"@),
    ]
}

fn plain(out: Vec<char>) -> (line: DetailLine)
    ensures
        line@ == plain_line(out@),
{
    DetailLine { label: String::new(), text: string_from_chars(out), tone: Tone::Normal }
}

fn counter_line(title: &str, value: u64) -> (line: DetailLine)
    ensures
        line@ == plain_line(counter_text(title@, value)),
{
    let mut out: Vec<char> = Vec::new();
    push_str(&mut out, "  ");
    push_str(&mut out, title);
    push_str(&mut out, ": ");
    push_decimal(&mut out, value);
    assert(out@ =~= counter_text(title@, value));
    plain(out)
}

fn count_line(title: &str, allocated: usize, observed: usize) -> (line: DetailLine)
    ensures
        line@ == plain_line(count_text(title@, allocated as nat, observed as nat)),
{
    let mut out: Vec<char> = Vec::new();
    push_str(&mut out, title);
    push_str(&mut out, ": ");
    push_decimal(&mut out, allocated as u64);
    push_str(&mut out, " allocated / ");
    push_decimal(&mut out, observed as u64);
    push_str(&mut out, " observed");
    assert(out@ =~= count_text(title@, allocated as nat, observed as nat));
    plain(out)
}

/// Returns the lines of the statistics pane: the denial total and the count
/// of each kind, then the domain and ruleset counts and the latest timestamp
/// seen.
pub fn stats_lines(model: &ObservationModel) -> (lines: Vec<DetailLine>)
    ensures
        line_views(lines@) == stats_lines_of(model@),
{
    let stats = model.stats();
    let mut lines: Vec<DetailLine> = Vec::new();
    let mut total: Vec<char> = Vec::new();
    push_decimal(&mut total, stats.total);
    lines.push(
        DetailLine {
            label: String::from_str("Observed denials: "),
            text: string_from_chars(total),
            tone: Tone::Normal,
        },
    );
    lines.push(counter_line("Filesystem", stats.by_kind[0]));
    lines.push(counter_line("Network", stats.by_kind[1]));
    lines.push(counter_line("Ptrace", stats.by_kind[2]));
    lines.push(counter_line("Signal", stats.by_kind[3]));
    lines.push(counter_line("Abstract Unix", stats.by_kind[4]));
    lines.push(plain(Vec::new()));
    let state = model.state();
    lines.push(count_line("Domains", model.allocated_domains(), state.domain_count()));
    lines.push(count_line("Rulesets", model.allocated_rulesets(), state.ruleset_count()));
    let mut latest: Vec<char> = Vec::new();
    push_str(&mut latest, "Latest event: ");
    push_decimal(&mut latest, model.latest_seen().as_nanoseconds());
    push_str(&mut latest, "ns");
    lines.push(plain(latest));
    assert(line_views(lines@) =~= stats_lines_of(model@));
    lines
}

/// How many spaces `text` begins with.
pub open spec fn leading_spaces(text: Seq<char>) -> nat
    decreases text.len(),
{
    if text.len() > 0 && text[0] == ' ' {
        1 + leading_spaces(text.skip(1))
    } else {
        0
    }
}

/// Where a row's continuation lines start: at its own indent, else four
/// columns past its leading spaces, within the content width.
pub open spec fn continuation_of(row: DisplayRowView, content_width: nat) -> nat {
    let wanted = match row.continuation_indent {
        Some(indent) => indent as nat,
        None => saturating_add_usize(leading_spaces(row.text), 4),
    };
    let limit = saturating_sub_nat(content_width, 1);
    if wanted < limit {
        wanted
    } else {
        limit
    }
}

/// The lines of a row wrapped to the content width, continuation lines
/// indented; each keeps the row's kind, style and indent.
pub open spec fn wrapped_row(row: DisplayRowView, content_width: nat) -> Seq<DisplayRowView> {
    let continuation = continuation_of(row, content_width);
    let parts = wrapped(row.text, content_width, saturating_sub_nat(content_width, continuation));
    Seq::new(
        parts.len(),
        |i: int|
            DisplayRowView {
                text: if i == 0 {
                    parts[0]
                } else {
                    spaces(continuation) + parts[i]
                },
                ..row
            },
    )
}

/// The lines of rows wrapped to the content width, in order.
pub open spec fn wrapped_rows(rows: Seq<DisplayRowView>, content_width: nat) -> Seq<DisplayRowView>
    decreases rows.len(),
{
    if rows.len() == 0 {
        Seq::empty()
    } else {
        wrapped_rows(rows.drop_last(), content_width) + wrapped_row(rows.last(), content_width)
    }
}

/// The kinds of rows, in order.
pub open spec fn row_kinds(rows: Seq<DisplayRowView>) -> Seq<RowKindView> {
    rows.map_values(|row: DisplayRowView| row.kind)
}

/// The position of the first row showing the selection, if any.
pub open spec fn selected_position(rows: Seq<DisplayRowView>, selected: Option<RowKindView>) -> Option<
    nat,
> {
    match selected {
        Some(row) => first_position(row_kinds(rows), row),
        None => None,
    }
}

fn count_leading_spaces(text: &str) -> (count: usize)
    ensures
        count == leading_spaces(text@),
{
    let mut chars: Vec<char> = Vec::new();
    push_str(&mut chars, text);
    assert(chars@ =~= text@);
    let mut count: usize = 0;
    while count < chars.len() && chars[count] == ' '
        invariant
            count <= chars@.len(),
            leading_spaces(chars@) == count + leading_spaces(chars@.skip(count as int)),
        decreases chars@.len() - count,
    {
        assert(chars@.skip(count as int).skip(1) =~= chars@.skip(count + 1));
        count = count + 1;
    }
    count
}

/// Appends the lines of a row wrapped to the content width.
fn push_wrapped_row(out: &mut Vec<DisplayRow>, row: &DisplayRow, content_width: usize)
    ensures
        display_views(final(out)@) == display_views(old(out)@) + wrapped_row(row@, content_width as nat),
{
    let start = count_leading_spaces(row.text.as_str());
    let wanted = match row.continuation_indent {
        Some(indent) => indent,
        None => start.saturating_add(4),
    };
    let limit = content_width.saturating_sub(1);
    let continuation = if wanted < limit {
        wanted
    } else {
        limit
    };
    assert(continuation == continuation_of(row@, content_width as nat));
    let parts = wrap(row.text.as_str(), content_width, content_width.saturating_sub(continuation));
    let ghost before = display_views(out@);
    let ghost expected = wrapped_row(row@, content_width as nat);
    let mut index: usize = 0;
    while index < parts.len()
        invariant
            index <= parts@.len(),
            continuation == continuation_of(row@, content_width as nat),
            super::batch::string_texts(parts@) == wrapped(
                row@.text,
                content_width as nat,
                saturating_sub_nat(content_width as nat, continuation as nat),
            ),
            expected == wrapped_row(row@, content_width as nat),
            display_views(out@) == before + expected.take(index as int),
        decreases parts@.len() - index,
    {
        let ghost previous = display_views(out@);
        let text = if index == 0 {
            parts[0].clone()
        } else {
            let mut chars: Vec<char> = Vec::new();
            push_spaces(&mut chars, continuation);
            push_str(&mut chars, parts[index].as_str());
            string_from_chars(chars)
        };
        out.push(
            DisplayRow {
                kind: row.kind.clone(),
                text,
                style: row.style,
                continuation_indent: row.continuation_indent,
            },
        );
        proof {
            assert(super::batch::string_texts(parts@)[index as int] == parts@[index as int]@);
            assert(expected.take(index + 1) =~= expected.take(index as int).push(expected[index as int]));
            assert(display_views(out@) =~= previous.push(expected[index as int]));
        }
        index = index + 1;
    }
    assert(expected.take(parts@.len() as int) =~= expected);
}

/// Returns the rows wrapped to the content width: continuation lines start
/// at a row's own indent, else four columns past its leading spaces, and
/// keep the row's kind and style.
pub fn wrap_rows(rows: &Vec<DisplayRow>, content_width: usize) -> (lines: Vec<DisplayRow>)
    ensures
        display_views(lines@) == wrapped_rows(display_views(rows@), content_width as nat),
{
    let ghost views = display_views(rows@);
    let mut lines: Vec<DisplayRow> = Vec::new();
    let mut index: usize = 0;
    while index < rows.len()
        invariant
            index <= rows@.len(),
            views == display_views(rows@),
            display_views(lines@) == wrapped_rows(views.take(index as int), content_width as nat),
        decreases rows@.len() - index,
    {
        push_wrapped_row(&mut lines, &rows[index], content_width);
        proof {
            assert(views.take(index + 1).drop_last() =~= views.take(index as int));
            assert(views.take(index + 1).last() == views[index as int]);
        }
        index = index + 1;
    }
    assert(views.take(rows@.len() as int) =~= views);
    lines
}

fn row_position(rows: &Vec<DisplayRow>, selected: &RowKind) -> (position: Option<usize>)
    ensures
        match position {
            Some(found) => first_position(row_kinds(display_views(rows@)), selected@) == Some(
                found as nat,
            ),
            None => first_position(row_kinds(display_views(rows@)), selected@) is None,
        },
{
    let ghost kinds = row_kinds(display_views(rows@));
    let mut position: usize = 0;
    while position < rows.len()
        invariant
            position <= rows@.len(),
            kinds == row_kinds(display_views(rows@)),
            forall|j: int| 0 <= j < position ==> kinds[j] != selected@,
        decreases rows@.len() - position,
    {
        if rows[position].kind.same_as(selected) {
            proof {
                assert(kinds[position as int] == selected@);
                assert(0 <= position < kinds.len() && kinds[position as int] == selected@
                    && forall|j: int| 0 <= j < position ==> kinds[j] != selected@);
                let chosen = choose|i: int|
                    0 <= i < kinds.len() && kinds[i] == selected@ && forall|j: int|
                        0 <= j < i ==> kinds[j] != selected@;
                if chosen < position {
                    assert(kinds[chosen] != selected@);
                } else if chosen > position {
                    assert(kinds[position as int] != selected@);
                }
            }
            return Some(position);
        }
        position = position + 1;
    }
    None
}

/// Lays out the list pane in `area`: wraps the rows to the area's content
/// width, scrolls so that the selection stays in view while it is
/// followed, and records the area and the rows for mouse hits. Returns the
/// wrapped rows; those from the scroll offset on fill the pane.
pub fn lay_out_list(app: &mut App, area: Area, rows: &Vec<DisplayRow>) -> (lines: Vec<DisplayRow>)
    ensures
        display_views(lines@) == wrapped_rows(
            display_views(rows@),
            saturating_sub_nat(area.width as nat, 2),
        ),
        final(app)@ == (AppView {
            scroll: viewport_scroll_of(
                old(app)@.scroll,
                lines@.len(),
                saturating_sub_nat(area.height as nat, 2),
                selected_position(display_views(lines@), old(app)@.selected),
                old(app)@.follow_selection,
            ),
            rows: row_kinds(display_views(lines@)),
            ..old(app)@
        }),
        final(app).hit.list == area,
        final(app).hit.header_rows == 1,
        final(app).hit.tabs == old(app).hit.tabs,
{
    let content_width = area.width.saturating_sub(2) as usize;
    let lines = wrap_rows(rows, content_width);
    let visible = area.height.saturating_sub(2) as usize;
    let selected_index = match &app.selected {
        Some(selected) => row_position(&lines, selected),
        None => None,
    };
    app.adjust_viewport(lines.len(), visible, selected_index);
    app.hit.list = area;
    app.hit.header_rows = 1;
    let mut kinds: Vec<RowKind> = Vec::new();
    let mut index: usize = 0;
    while index < lines.len()
        invariant
            index <= lines@.len(),
            row_views(kinds@) == row_kinds(display_views(lines@)).take(index as int),
        decreases lines@.len() - index,
    {
        let ghost before = row_views(kinds@);
        kinds.push(lines[index].kind.clone());
        proof {
            assert(row_views(kinds@) =~= before.push(lines@[index as int].kind@));
            assert(row_kinds(display_views(lines@)).take(index + 1) =~= row_kinds(
                display_views(lines@),
            ).take(index as int).push(lines@[index as int].kind@));
        }
        index = index + 1;
    }
    assert(row_kinds(display_views(lines@)).take(lines@.len() as int) =~= row_kinds(
        display_views(lines@),
    ));
    app.hit.rows = kinds;
    lines
}

/// Returns whether the detail pane is shown beside the list: when a
/// selection opened it, on every tab but the statistics.
pub fn detail_shown(app: &App) -> (shown: bool)
    ensures
        shown == (app@.detail && app@.tab != Tab::Stats),
{
    app.detail && !matches!(app.tab, Tab::Stats)
}

} // verus!
