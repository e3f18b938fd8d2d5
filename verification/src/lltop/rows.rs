//! The rows of the interactive view's lists.
use vstd::prelude::*;

use super::format::{
    display_escaped_text, filesystem, filesystem_rights_text, network, network_rights_text,
    push_display_escaped, ruleset_label_text, scope, scope_rights_text,
};
use super::model::ObservationModel;
use super::tree::{domain_tree_of, entry_ids, trails_nonempty, tree_entries};
use super::order::{keys_of, same_shape, sort_by_key, sorted_keys, KeyPart, KeyPartView, SortKey};
use super::records::{network_target_text, push_network_target, DenialKind};
use super::text::{decimal_text, hex_text, push_decimal, push_hex, push_str, string_from_chars};
use super::view::{
    denial_row_prefix, denial_row_text, lifecycle, lifecycle_style, lifecycle_text,
    lifecycle_tone, maximum_of, recency, recency_tone, total_of, tree_prefix, tree_prefix_text,
    visibility, visibility_text, RowKind, RowKindView, RowStyle, Tone,
};
use super::format::display_width_of;
use super::model::ModelView;
use crate::state::StateView;
use crate::aggregate::{entry_views, AggregatedDenial, AggregatedDenialView, AggregatorView};
use crate::event::{
    CapturedStringView, DomainId, Event, EventView, ScopeAccess,
};
use crate::state::{lists_values, DomainView, LifecycleState, RulesetState, RulesetView};

verus! {

broadcast use vstd::seq_lib::group_seq_properties;

/// A row of a list: what it shows, its text, how it is shown, and where its
/// continuation lines start when it wraps.
pub struct DisplayRow {
    pub kind: RowKind,
    pub text: String,
    pub style: RowStyle,
    pub continuation_indent: Option<usize>,
}

/// The facts of a [`DisplayRow`].
pub struct DisplayRowView {
    pub kind: RowKindView,
    pub text: Seq<char>,
    pub style: RowStyle,
    pub continuation_indent: Option<usize>,
}

impl View for DisplayRow {
    type V = DisplayRowView;

    open spec fn view(&self) -> DisplayRowView {
        DisplayRowView {
            kind: self.kind@,
            text: self.text@,
            style: self.style,
            continuation_indent: self.continuation_indent,
        }
    }
}

/// The facts of rows, in order.
pub open spec fn display_views(rows: Seq<DisplayRow>) -> Seq<DisplayRowView> {
    rows.map_values(|row: DisplayRow| row@)
}

/// The view of an optional borrowed row.
pub open spec fn selected_view(selected: Option<&RowKind>) -> Option<RowKindView> {
    match selected {
        Some(row) => Some(row@),
        None => None,
    }
}

/// How a row is shown in `tone`, marked when it is the selected row.
pub open spec fn row_style(kind: RowKindView, selected: Option<RowKindView>, tone: Tone) -> RowStyle {
    RowStyle { tone, related: false, selected: selected == Some(kind) }
}

/// Returns how a row is shown in `tone`, marked when it is the selected row.
pub fn selected_style(kind: &RowKind, selected: Option<&RowKind>, tone: Tone) -> (style: RowStyle)
    ensures
        style == row_style(kind@, selected_view(selected), tone),
{
    let is_selected = match selected {
        Some(row) => row.same_as(kind),
        None => false,
    };
    RowStyle { tone, related: false, selected: is_selected }
}

/// The blocking rights of a denial event as the list and detail show them.
pub open spec fn blockers_label(event: EventView) -> Seq<char> {
    match event {
        EventView::DenyAccessFs(e) => "FS: "@ + filesystem_rights_text(e.blockers@),
        EventView::DenyAccessNet(e) => "Net: "@ + network_rights_text(e.blockers@),
        EventView::DenyPtrace(_) => "ptrace"@,
        EventView::DenyScopeSignal(_) => "Scope: "@ + scope_rights_text(2),
        EventView::DenyScopeAbstractUnixSocket(_) => "Scope: "@ + scope_rights_text(1),
        _ => Seq::empty(),
    }
}

/// The target of a denial event as the list and detail show it.
pub open spec fn target_label(event: EventView) -> Seq<char> {
    match event {
        EventView::DenyAccessFs(e) => display_escaped_text(e.pathname.bytes, e.pathname.truncated),
        EventView::DenyAccessNet(e) => network_target_text(
            e.blockers@,
            e.source_port,
            e.destination_port,
            ", "@,
        ),
        EventView::DenyPtrace(e) => "pid:"@ + decimal_text(e.tracee_pid as nat) + " "@
            + display_escaped_text(e.tracee_comm.bytes, e.tracee_comm.truncated),
        EventView::DenyScopeSignal(e) => "pid:"@ + decimal_text(e.target_pid as nat) + " "@
            + display_escaped_text(e.target_comm.bytes, e.target_comm.truncated),
        EventView::DenyScopeAbstractUnixSocket(e) => "peer:"@ + decimal_text(e.peer_pid as nat),
        _ => Seq::empty(),
    }
}

/// Returns the blocking rights of an aggregated denial.
pub fn blockers(entry: &AggregatedDenial) -> (label: String)
    requires
        DenialKind::of_event(entry@.latest_event) is Some,
    ensures
        label@ == blockers_label(entry@.latest_event),
{
    match entry.latest_event() {
        Event::DenyAccessFs(event) => filesystem(event.blockers()),
        Event::DenyAccessNet(event) => network(event.blockers()),
        Event::DenyPtrace(_) => String::from_str("ptrace"),
        Event::DenyScopeSignal(_) => {
            assert(1u32 << 1u32 == 2u32) by (bit_vector);
            scope(ScopeAccess::from_bits(1 << 1))
        },
        Event::DenyScopeAbstractUnixSocket(_) => {
            assert(1u32 << 0u32 == 1u32) by (bit_vector);
            scope(ScopeAccess::from_bits(1 << 0))
        },
        _ => {
            proof {
                assert(false);
            }
            String::new()
        },
    }
}

/// Returns the target of an aggregated denial.
pub fn target(entry: &AggregatedDenial) -> (label: String)
    requires
        DenialKind::of_event(entry@.latest_event) is Some,
    ensures
        label@ == target_label(entry@.latest_event),
{
    let mut out: Vec<char> = Vec::new();
    match entry.latest_event() {
        Event::DenyAccessFs(event) => push_display_escaped(&mut out, event.pathname()),
        Event::DenyAccessNet(event) => push_network_target(
            &mut out,
            event.blockers(),
            event.source_port(),
            event.destination_port(),
            ", ",
        ),
        Event::DenyPtrace(event) => {
            push_str(&mut out, "pid:");
            push_decimal(&mut out, event.tracee_pid() as u64);
            push_str(&mut out, " ");
            push_display_escaped(&mut out, event.tracee_comm());
        },
        Event::DenyScopeSignal(event) => {
            push_str(&mut out, "pid:");
            push_decimal(&mut out, event.target_pid() as u64);
            push_str(&mut out, " ");
            push_display_escaped(&mut out, event.target_comm());
        },
        Event::DenyScopeAbstractUnixSocket(event) => {
            push_str(&mut out, "peer:");
            push_decimal(&mut out, event.peer_pid() as u64);
        },
        _ => {
            proof {
                assert(false);
            }
        },
    }
    assert(out@ =~= target_label(entry@.latest_event));
    string_from_chars(out)
}

/// The creator of a domain as its escaped command and thread-group ID, or
/// `?` unless both are known.
pub open spec fn creator_label(comm: Option<CapturedStringView>, tgid: Option<u32>) -> Seq<char> {
    match (comm, tgid) {
        (Some(comm), Some(tgid)) => display_escaped_text(comm.bytes, comm.truncated) + "["@
            + decimal_text(tgid as nat) + "]"@,
        _ => "?"@,
    }
}

/// The warning shown for an allocated domain that an enforcement without
/// `no_new_privs` reached.
pub open spec fn no_new_privs_warning() -> Seq<char> {
    "WARNING: missing no_new_privs means privilege gain is possible"@
}

/// The status of a domain: its lifecycle, with the warning for an allocated
/// domain missing `no_new_privs`.
pub open spec fn domain_status_text(domain: DomainView) -> Seq<char> {
    if domain.lifecycle == LifecycleState::Allocated && domain.no_new_privs() == Some(false) {
        lifecycle_text(domain.lifecycle) + "; "@ + no_new_privs_warning()
    } else {
        lifecycle_text(domain.lifecycle)
    }
}

/// The text of a domain's row in the tree.
pub open spec fn domain_row_text(domain: DomainView, trail: Seq<bool>) -> Seq<char> {
    tree_prefix_text(trail) + hex_text(domain.id@ as nat) + "  "@ + creator_label(
        domain.creator_comm,
        domain.creator_tgid,
    ) + "  denials="@ + match domain.cumulative_denial_count {
        Some(count) => decimal_text(count as nat),
        None => "?"@,
    } + "  "@ + domain_status_text(domain)
}

/// A domain's row in the tree.
pub open spec fn domain_row(domain: DomainView, trail: Seq<bool>, selected: Option<RowKindView>) -> DisplayRowView {
    DisplayRowView {
        kind: RowKindView::Domain(domain.id),
        text: domain_row_text(domain, trail),
        style: row_style(RowKindView::Domain(domain.id), selected, lifecycle_tone(domain.lifecycle)),
        continuation_indent: None,
    }
}

/// Returns the rows of the domain tree.
pub fn domain_rows(model: &ObservationModel, selected: Option<&RowKind>) -> (rows: Vec<DisplayRow>)
    ensures
        exists|tree: Seq<(DomainId, Vec<bool>)>|
            {
                &&& tree_entries(tree) == domain_tree_of(model@.state)
                &&& entry_ids(tree).no_duplicates()
                &&& entry_ids(tree).to_set() == model@.state.domains.dom()
                &&& trails_nonempty(tree)
                &&& display_views(rows@).len() == tree.len()
                &&& forall|i: int|
                    0 <= i < tree.len() ==> display_views(rows@)[i] == domain_row(
                        model@.state.domains[tree[i].0@],
                        tree[i].1@,
                        selected_view(selected),
                    )
            },
{
    let tree = model.domain_tree();
    let mut rows: Vec<DisplayRow> = Vec::new();
    let mut index: usize = 0;
    while index < tree.len()
        invariant
            index <= tree@.len(),
            entry_ids(tree@).to_set() == model@.state.domains.dom(),
            rows@.len() == index,
            forall|i: int|
                0 <= i < index ==> (#[trigger] rows@[i])@ == domain_row(
                    model@.state.domains[tree@[i].0@],
                    tree@[i].1@,
                    selected_view(selected),
                ),
        decreases tree@.len() - index,
    {
        let (id, trail) = &tree[index];
        proof {
            assert(entry_ids(tree@)[index as int] == id@);
            assert(entry_ids(tree@).to_set().contains(id@));
        }
        match model.state().domain(*id) {
            Some(domain) => {
                let kind = RowKind::Domain(*id);
                let mut out: Vec<char> = Vec::new();
                let prefix = tree_prefix(trail.as_slice());
                push_str(&mut out, prefix.as_str());
                push_hex(&mut out, id.get());
                push_str(&mut out, "  ");
                match (domain.creator_comm(), domain.creator_tgid()) {
                    (Some(comm), Some(tgid)) => {
                        push_display_escaped(&mut out, comm);
                        push_str(&mut out, "[");
                        push_decimal(&mut out, tgid as u64);
                        push_str(&mut out, "]");
                    },
                    _ => push_str(&mut out, "?"),
                }
                push_str(&mut out, "  denials=");
                match domain.cumulative_denial_count() {
                    Some(count) => push_decimal(&mut out, count),
                    None => push_str(&mut out, "?"),
                }
                push_str(&mut out, "  ");
                let state = domain.lifecycle();
                push_str(&mut out, lifecycle(state));
                if state == LifecycleState::Allocated && domain.no_new_privs() == Some(false) {
                    push_str(&mut out, "; ");
                    push_str(&mut out, "WARNING: missing no_new_privs means privilege gain is possible");
                }
                proof {
                    assert(domain@.id == *id) by {
                        assert(model@.state.domains[id@] == domain@);
                        crate::event::lemma_domain_id_view_injective(domain@.id, *id);
                    }
                    assert(out@ =~= domain_row_text(domain@, trail@));
                }
                let style = selected_style(&kind, selected, lifecycle_style(state));
                rows.push(
                    DisplayRow {
                        kind,
                        text: string_from_chars(out),
                        style,
                        continuation_indent: None,
                    },
                );
            },
            None => {
                proof {
                    assert(false);
                }
            },
        }
        index = index + 1;
    }
    proof {
        assert(display_views(rows@).len() == tree@.len());
        assert forall|i: int| 0 <= i < tree@.len() implies display_views(rows@)[i] == domain_row(
            model@.state.domains[tree@[i].0@],
            tree@[i].1@,
            selected_view(selected),
        ) by {
            assert(display_views(rows@)[i] == rows@[i]@);
        }
    }
    rows
}

/// The number of rules of a ruleset, saturating at [`usize::MAX`].
pub open spec fn rule_count_of(ruleset: RulesetView) -> nat {
    let sum = ruleset.filesystem_rules.dom().len() + ruleset.network_rules.dom().len();
    if sum > usize::MAX {
        usize::MAX as nat
    } else {
        sum
    }
}

/// The text of a ruleset's row.
pub open spec fn ruleset_row_text(ruleset: RulesetView) -> Seq<char> {
    ruleset_label_text(ruleset.id@, ruleset.max_observed_version) + "  rules="@ + decimal_text(
        rule_count_of(ruleset),
    ) + "  "@ + lifecycle_text(ruleset.lifecycle)
}

/// A ruleset's row.
pub open spec fn ruleset_row(ruleset: RulesetView, selected: Option<RowKindView>) -> DisplayRowView {
    DisplayRowView {
        kind: RowKindView::Ruleset(ruleset.id),
        text: ruleset_row_text(ruleset),
        style: row_style(RowKindView::Ruleset(ruleset.id), selected, lifecycle_tone(ruleset.lifecycle)),
        continuation_indent: None,
    }
}

/// The order of rulesets: the latest created first, those never seen
/// created last, then by increasing ID.
pub open spec fn ruleset_order_key(ruleset: RulesetView) -> Seq<KeyPartView> {
    seq![
        KeyPartView::Descending(if ruleset.creation_timestamp is Some { 1 } else { 0 }),
        KeyPartView::Descending(
            match ruleset.creation_timestamp {
                Some(timestamp) => timestamp@,
                None => 0,
            },
        ),
        KeyPartView::Ascending(ruleset.id@),
    ]
}

/// The order keys of rulesets, in order.
pub open spec fn ruleset_order_keys(rulesets: Seq<RulesetView>) -> Seq<Seq<KeyPartView>> {
    rulesets.map_values(|ruleset: RulesetView| ruleset_order_key(ruleset))
}

/// The views of borrowed rulesets, in order.
pub open spec fn ruleset_views_of(rulesets: Seq<&RulesetState>) -> Seq<RulesetView> {
    rulesets.map_values(|ruleset: &RulesetState| ruleset@)
}

/// The views of keyed rulesets, in order.
pub open spec fn keyed_ruleset_views(items: Seq<(SortKey, &RulesetState)>) -> Seq<RulesetView> {
    items.map_values(|item: (SortKey, &RulesetState)| item.1@)
}

fn ruleset_key(ruleset: &RulesetState) -> (key: SortKey)
    ensures
        super::order::key_view(key) == ruleset_order_key(ruleset@),
{
    let created = ruleset.creation_timestamp();
    let mut key: SortKey = Vec::new();
    key.push(KeyPart::Descending(if created.is_some() { 1 } else { 0 }));
    key.push(
        KeyPart::Descending(
            match created {
                Some(timestamp) => timestamp.as_nanoseconds(),
                None => 0,
            },
        ),
    );
    key.push(KeyPart::Ascending(ruleset.ruleset_id().get()));
    assert(super::order::key_view(key) =~= ruleset_order_key(ruleset@));
    key
}

/// Returns the rows of the rulesets: the latest created first, those never
/// seen created last, then by increasing ID.
pub fn ruleset_rows(model: &ObservationModel, selected: Option<&RowKind>) -> (rows: Vec<DisplayRow>)
    ensures
        exists|order: Seq<RulesetView>|
            {
                &&& lists_values(order, model@.state.rulesets)
                &&& sorted_keys(ruleset_order_keys(order))
                &&& display_views(rows@) == order.map_values(
                    |ruleset: RulesetView| ruleset_row(ruleset, selected_view(selected)),
                )
            },
{
    let rulesets = model.state().rulesets();
    let ghost listed = ruleset_views_of(rulesets@);
    let ghost shape = seq![
        KeyPartView::Descending(0),
        KeyPartView::Descending(0),
        KeyPartView::Ascending(0),
    ];
    let mut items: Vec<(SortKey, &RulesetState)> = Vec::new();
    let mut index: usize = 0;
    while index < rulesets.len()
        invariant
            index <= rulesets@.len(),
            items@.len() == index,
            forall|i: int|
                0 <= i < index ==> (#[trigger] items@[i]).1 == rulesets@[i] && super::order::key_view(
                    items@[i].0,
                ) == ruleset_order_key(rulesets@[i]@),
        decreases rulesets@.len() - index,
    {
        let ruleset = rulesets[index];
        items.push((ruleset_key(ruleset), ruleset));
        index = index + 1;
    }
    proof {
        assert forall|i: int| 0 <= i < items@.len() implies same_shape(#[trigger] keys_of(items@)[i], shape) by {
            assert(keys_of(items@)[i] == ruleset_order_key(items@[i].1@));
        }
    }
    let ghost unsorted = items@;
    let sorted = sort_by_key(items, Ghost(shape));
    let ghost order = keyed_ruleset_views(sorted@);
    proof {
        broadcast use vstd::seq_lib::group_to_multiset_ensures;
        assert(keys_of(sorted@) =~= ruleset_order_keys(order)) by {
            assert forall|i: int| 0 <= i < sorted@.len() implies keys_of(sorted@)[i] == ruleset_order_keys(order)[i] by {
                assert(sorted@.to_multiset().count(sorted@[i]) > 0);
                assert(unsorted.contains(sorted@[i]));
                let j = choose|j: int| 0 <= j < unsorted.len() && unsorted[j] == sorted@[i];
                assert(unsorted[j].1 == rulesets@[j]);
            }
        }
        let map = model@.state.rulesets;
        assert(lists_values(order, map)) by {
            assert(sorted@.to_multiset().len() == sorted@.len());
            assert(unsorted.to_multiset().len() == unsorted.len());
            assert(sorted@.len() == unsorted.len());
            assert forall|i: int| 0 <= i < order.len() implies #[trigger] map.values().contains(order[i]) by {
                assert(sorted@.to_multiset().count(sorted@[i]) > 0);
                assert(unsorted.contains(sorted@[i]));
                let j = choose|j: int| 0 <= j < unsorted.len() && unsorted[j] == sorted@[i];
                assert(listed[j] == order[i]);
                assert(map.values().contains(listed[j]));
            }
            assert forall|v: RulesetView| #[trigger] map.values().contains(v) implies order.contains(v) by {
                assert(listed.contains(v));
                let j = choose|j: int| 0 <= j < listed.len() && listed[j] == v;
                assert(unsorted.to_multiset().count(unsorted[j]) > 0);
                assert(sorted@.contains(unsorted[j]));
                let i = choose|i: int| 0 <= i < sorted@.len() && sorted@[i] == unsorted[j];
                assert(order[i] == v);
            }
        }
    }
    let mut rows: Vec<DisplayRow> = Vec::new();
    let mut index: usize = 0;
    while index < sorted.len()
        invariant
            index <= sorted@.len(),
            order == keyed_ruleset_views(sorted@),
            rows@.len() == index,
            forall|i: int|
                0 <= i < index ==> (#[trigger] rows@[i])@ == ruleset_row(order[i], selected_view(selected)),
        decreases sorted@.len() - index,
    {
        let ruleset = sorted[index].1;
        let id = ruleset.ruleset_id();
        let kind = RowKind::Ruleset(id);
        let mut out: Vec<char> = Vec::new();
        let label = super::format::ruleset(id.get(), ruleset.max_observed_version());
        push_str(&mut out, label.as_str());
        push_str(&mut out, "  rules=");
        let count = ruleset.filesystem_rule_count().saturating_add(ruleset.network_rule_count());
        push_decimal(&mut out, count as u64);
        push_str(&mut out, "  ");
        let state = ruleset.lifecycle();
        push_str(&mut out, lifecycle(state));
        proof {
            assert(out@ =~= ruleset_row_text(ruleset@));
        }
        let style = selected_style(&kind, selected, lifecycle_style(state));
        rows.push(DisplayRow { kind, text: string_from_chars(out), style, continuation_indent: None });
        index = index + 1;
    }
    proof {
        assert(display_views(rows@) =~= order.map_values(
            |ruleset: RulesetView| ruleset_row(ruleset, selected_view(selected)),
        ));
    }
    rows
}

/// The kernel ID of the domain that denied an aggregated denial.
pub open spec fn entry_domain(entry: AggregatedDenialView) -> u64 {
    entry.key.domain_id()@
}

/// Whether an entry was denied by domain `domain`.
pub open spec fn in_domain(domain: u64) -> spec_fn(AggregatedDenialView) -> bool {
    |entry: AggregatedDenialView| entry_domain(entry) == domain
}

/// Whether an entry was denied by domain `domain` with blockers `label`.
pub open spec fn in_group(domain: u64, label: Seq<char>) -> spec_fn(AggregatedDenialView) -> bool {
    |entry: AggregatedDenialView|
        entry_domain(entry) == domain && blockers_label(entry.latest_event) == label
}

/// The order of denial rows: domains by decreasing total count then
/// increasing ID; within a domain, blocker groups by decreasing greatest
/// count, decreasing total and increasing label; within a group, entries by
/// decreasing count, latest first, then by increasing target.
pub open spec fn denial_order_key(
    entries: Seq<AggregatedDenialView>,
    entry: AggregatedDenialView,
) -> Seq<KeyPartView> {
    let domain = entry_domain(entry);
    let label = blockers_label(entry.latest_event);
    let group = entries.filter(in_group(domain, label));
    seq![
        KeyPartView::Descending(total_of(entries.filter(in_domain(domain)))),
        KeyPartView::Ascending(domain),
        KeyPartView::Descending(maximum_of(group)),
        KeyPartView::Descending(total_of(group)),
        KeyPartView::Text(label),
        KeyPartView::Descending(entry.occurrence_count),
        KeyPartView::Descending(entry.latest_timestamp@),
        KeyPartView::Text(target_label(entry.latest_event)),
    ]
}

/// The order keys of entries, in order.
pub open spec fn denial_order_keys(
    entries: Seq<AggregatedDenialView>,
    order: Seq<AggregatedDenialView>,
) -> Seq<Seq<KeyPartView>> {
    order.map_values(|entry: AggregatedDenialView| denial_order_key(entries, entry))
}

/// Whether `order` lists entries of `entries` each once, those of equal
/// order keys in their order among `entries`.
pub open spec fn stable_denial_order(
    entries: Seq<AggregatedDenialView>,
    order: Seq<AggregatedDenialView>,
) -> bool {
    exists|positions: Seq<int>|
        {
            &&& positions.len() == order.len()
            &&& forall|i: int|
                0 <= i < order.len() ==> 0 <= #[trigger] positions[i] < entries.len() && order[i]
                    == entries[positions[i]]
            &&& forall|i: int, j: int|
                0 <= i < j < order.len() ==> #[trigger] positions[i] != #[trigger] positions[j]
            &&& forall|i: int, j: int|
                0 <= i < j < order.len() && denial_order_key(entries, #[trigger] order[i])
                    == denial_order_key(entries, #[trigger] order[j]) ==> positions[i] < positions[j]
        }
}

/// The empty row between two domains.
pub open spec fn separator_row() -> DisplayRowView {
    DisplayRowView {
        kind: RowKindView::Heading,
        text: Seq::empty(),
        style: RowStyle { tone: Tone::Normal, related: false, selected: false },
        continuation_indent: None,
    }
}

/// The heading of a blocker group.
pub open spec fn group_heading_row(label: Seq<char>) -> DisplayRowView {
    DisplayRowView {
        kind: RowKindView::Heading,
        text: "  "@ + label,
        style: RowStyle { tone: Tone::Heading, related: false, selected: false },
        continuation_indent: None,
    }
}

/// The creator of a domain, or `?` unless it is known.
pub open spec fn known_creator(state: StateView, domain: u64) -> Seq<char> {
    if state.domains.contains_key(domain) {
        creator_label(state.domains[domain].creator_comm, state.domains[domain].creator_tgid)
    } else {
        "?"@
    }
}

/// The row that introduces a denying domain.
pub open spec fn domain_header_row(state: StateView, domain: DomainId, selected: Option<RowKindView>) -> DisplayRowView {
    DisplayRowView {
        kind: RowKindView::DenialDomain(domain),
        text: "Domain "@ + hex_text(domain@ as nat) + " ("@ + known_creator(state, domain@) + ")"@,
        style: row_style(RowKindView::DenialDomain(domain), selected, Tone::ObservedBold),
        continuation_indent: None,
    }
}

/// How long before the latest timestamp seen an entry was last observed.
pub open spec fn entry_age(latest_seen: u64, entry: AggregatedDenialView) -> u64 {
    if latest_seen >= entry.latest_timestamp@ {
        (latest_seen - entry.latest_timestamp@) as u64
    } else {
        0
    }
}

/// The target of the selected denial, if a retained denial is selected.
pub open spec fn selected_target_of(denials: AggregatorView, selected: Option<RowKindView>) -> Option<Seq<char>> {
    match selected {
        Some(RowKindView::Denial(key)) => match denials.entry(key) {
            Some(entry) => Some(target_label(entry.latest_event)),
            None => None,
        },
        _ => None,
    }
}

/// The row of an aggregated denial: its count, visibility and target, in
/// the tone of its recency, related when it shares the selected denial's
/// target.
pub open spec fn denial_entry_row(
    model: ModelView,
    entry: AggregatedDenialView,
    selected: Option<RowKindView>,
) -> DisplayRowView {
    let kind = RowKindView::Denial(entry.key);
    let prefix = denial_row_prefix(entry.occurrence_count, visibility_text(entry.logged).0);
    let target = target_label(entry.latest_event);
    DisplayRowView {
        kind,
        text: prefix + target,
        style: RowStyle {
            tone: recency_tone(entry_age(model.latest_seen, entry)),
            related: selected_target_of(model.denials, selected) == Some(target) && selected
                != Some(kind),
            selected: selected == Some(kind),
        },
        continuation_indent: Some(display_width_of(prefix)),
    }
}

/// The rows that introduce `entry` after `previous`: a new domain's
/// separator, header and first group heading, or a new group's heading.
pub open spec fn rows_before_entry(
    model: ModelView,
    previous: Option<AggregatedDenialView>,
    entry: AggregatedDenialView,
    selected: Option<RowKindView>,
) -> Seq<DisplayRowView> {
    let domain = entry.key.domain_id();
    let label = blockers_label(entry.latest_event);
    match previous {
        None => seq![domain_header_row(model.state, domain, selected), group_heading_row(label)],
        Some(earlier) => if entry_domain(earlier) != domain@ {
            seq![
                separator_row(),
                domain_header_row(model.state, domain, selected),
                group_heading_row(label),
            ]
        } else if blockers_label(earlier.latest_event) != label {
            seq![group_heading_row(label)]
        } else {
            Seq::empty()
        },
    }
}

/// The rows of denials listed in `order`.
pub open spec fn denial_rows_of(
    model: ModelView,
    order: Seq<AggregatedDenialView>,
    selected: Option<RowKindView>,
) -> Seq<DisplayRowView>
    decreases order.len(),
{
    if order.len() == 0 {
        Seq::empty()
    } else {
        let previous = if order.len() >= 2 {
            Some(order[order.len() - 2])
        } else {
            None
        };
        denial_rows_of(model, order.drop_last(), selected) + rows_before_entry(
            model,
            previous,
            order.last(),
            selected,
        ) + seq![denial_entry_row(model, order.last(), selected)]
    }
}

/// Returns the characters of a string.
fn chars_of(text: &String) -> (chars: Vec<char>)
    ensures
        chars@ == text@,
{
    let mut chars: Vec<char> = Vec::new();
    push_str(&mut chars, text.as_str());
    assert(chars@ =~= text@);
    chars
}

/// Returns the summed counts of the entries denied by `domain`.
fn domain_total(entries: &[AggregatedDenial], domain: u64) -> (total: u64)
    ensures
        total == total_of(entry_views(entries@).filter(in_domain(domain))),
{
    let ghost views = entry_views(entries@);
    let ghost within = in_domain(domain);
    let mut total: u64 = 0;
    let mut index: usize = 0;
    while index < entries.len()
        invariant
            index <= entries@.len(),
            views == entry_views(entries@),
            within == in_domain(domain),
            total == total_of(views.take(index as int).filter(within)),
        decreases entries@.len() - index,
    {
        let entry = &entries[index];
        let ghost next = views.take(index + 1);
        proof {
            reveal(Seq::filter);
            assert(next.drop_last() =~= views.take(index as int));
            assert(next.last() == entry@);
        }
        if entry.key().domain_id().get() == domain {
            proof {
                assert(within(entry@));
                assert(next.filter(within) == views.take(index as int).filter(within).push(entry@));
                assert(views.take(index as int).filter(within).push(entry@).drop_last()
                    =~= views.take(index as int).filter(within));
            }
            total = total.saturating_add(entry.occurrence_count());
        } else {
            proof {
                assert(!within(entry@));
                assert(next.filter(within) == views.take(index as int).filter(within));
            }
        }
        index = index + 1;
    }
    assert(views.take(views.len() as int) =~= views);
    total
}

/// Returns the greatest and summed counts of the entries denied by
/// `domain` with blockers `label`.
fn group_counts(
    entries: &[AggregatedDenial],
    labels: &Vec<String>,
    domain: u64,
    label: &String,
) -> (counts: (u64, u64))
    requires
        labels@.len() == entries@.len(),
        forall|i: int| 0 <= i < entries@.len() ==> (#[trigger] labels@[i])@ == blockers_label(entries@[i]@.latest_event),
    ensures
        counts.0 == maximum_of(entry_views(entries@).filter(in_group(domain, label@))),
        counts.1 == total_of(entry_views(entries@).filter(in_group(domain, label@))),
{
    let ghost views = entry_views(entries@);
    let ghost grouped = in_group(domain, label@);
    let mut greatest: u64 = 0;
    let mut total: u64 = 0;
    let mut index: usize = 0;
    while index < entries.len()
        invariant
            index <= entries@.len(),
            views == entry_views(entries@),
            grouped == in_group(domain, label@),
            labels@.len() == entries@.len(),
            forall|i: int| 0 <= i < entries@.len() ==> (#[trigger] labels@[i])@ == blockers_label(entries@[i]@.latest_event),
            greatest == maximum_of(views.take(index as int).filter(grouped)),
            total == total_of(views.take(index as int).filter(grouped)),
        decreases entries@.len() - index,
    {
        let entry = &entries[index];
        let ghost next = views.take(index + 1);
        proof {
            reveal(Seq::filter);
            assert(next.drop_last() =~= views.take(index as int));
            assert(next.last() == entry@);
        }
        if entry.key().domain_id().get() == domain && labels[index] == *label {
            proof {
                assert(grouped(entry@));
                assert(next.filter(grouped) == views.take(index as int).filter(grouped).push(entry@));
                assert(views.take(index as int).filter(grouped).push(entry@).drop_last()
                    =~= views.take(index as int).filter(grouped));
            }
            let count = entry.occurrence_count();
            if count > greatest {
                greatest = count;
            }
            total = total.saturating_add(count);
        } else {
            proof {
                assert(!grouped(entry@));
                assert(next.filter(grouped) == views.take(index as int).filter(grouped));
            }
        }
        index = index + 1;
    }
    assert(views.take(views.len() as int) =~= views);
    (greatest, total)
}

/// Returns the blockers and target labels of each retained entry.
fn entry_labels(entries: &[AggregatedDenial], Ghost(denials): Ghost<AggregatorView>) -> (labels: (Vec<String>, Vec<String>))
    requires
        entry_views(entries@) == denials.entries,
        denials.well_formed(),
    ensures
        labels.0@.len() == entries@.len(),
        labels.1@.len() == entries@.len(),
        forall|i: int| 0 <= i < entries@.len() ==> (#[trigger] labels.0@[i])@ == blockers_label(entries@[i]@.latest_event),
        forall|i: int| 0 <= i < entries@.len() ==> (#[trigger] labels.1@[i])@ == target_label(entries@[i]@.latest_event),
{
    let mut blockers_labels: Vec<String> = Vec::new();
    let mut targets: Vec<String> = Vec::new();
    let mut index: usize = 0;
    while index < entries.len()
        invariant
            index <= entries@.len(),
            entry_views(entries@) == denials.entries,
            denials.well_formed(),
            blockers_labels@.len() == index,
            targets@.len() == index,
            forall|i: int| 0 <= i < index ==> (#[trigger] blockers_labels@[i])@ == blockers_label(entries@[i]@.latest_event),
            forall|i: int| 0 <= i < index ==> (#[trigger] targets@[i])@ == target_label(entries@[i]@.latest_event),
        decreases entries@.len() - index,
    {
        proof {
            assert(denials.entries[index as int] == entries@[index as int]@);
            assert(denials.entries[index as int].consistent());
        }
        blockers_labels.push(blockers(&entries[index]));
        targets.push(target(&entries[index]));
        index = index + 1;
    }
    (blockers_labels, targets)
}

/// Returns each entry's order key with its position.
fn order_items(entries: &[AggregatedDenial], labels: &Vec<String>, targets: &Vec<String>) -> (items: Vec<(SortKey, usize)>)
    requires
        labels@.len() == entries@.len(),
        targets@.len() == entries@.len(),
        forall|i: int| 0 <= i < entries@.len() ==> (#[trigger] labels@[i])@ == blockers_label(entries@[i]@.latest_event),
        forall|i: int| 0 <= i < entries@.len() ==> (#[trigger] targets@[i])@ == target_label(entries@[i]@.latest_event),
    ensures
        items@.len() == entries@.len(),
        forall|i: int|
            0 <= i < items@.len() ==> (#[trigger] items@[i]).1 == i && super::order::key_view(items@[i].0)
                == denial_order_key(entry_views(entries@), entries@[i]@),
{
    let ghost views = entry_views(entries@);
    let mut items: Vec<(SortKey, usize)> = Vec::new();
    let mut index: usize = 0;
    while index < entries.len()
        invariant
            index <= entries@.len(),
            views == entry_views(entries@),
            labels@.len() == entries@.len(),
            targets@.len() == entries@.len(),
            forall|i: int| 0 <= i < entries@.len() ==> (#[trigger] labels@[i])@ == blockers_label(entries@[i]@.latest_event),
            forall|i: int| 0 <= i < entries@.len() ==> (#[trigger] targets@[i])@ == target_label(entries@[i]@.latest_event),
            items@.len() == index,
            forall|i: int|
                0 <= i < index ==> (#[trigger] items@[i]).1 == i && super::order::key_view(items@[i].0)
                    == denial_order_key(views, entries@[i]@),
        decreases entries@.len() - index,
    {
        let entry = &entries[index];
        let domain = entry.key().domain_id().get();
        let total = domain_total(entries, domain);
        let (greatest, group_total) = group_counts(entries, labels, domain, &labels[index]);
        let mut key: SortKey = Vec::new();
        key.push(KeyPart::Descending(total));
        key.push(KeyPart::Ascending(domain));
        key.push(KeyPart::Descending(greatest));
        key.push(KeyPart::Descending(group_total));
        key.push(KeyPart::Text(chars_of(&labels[index])));
        key.push(KeyPart::Descending(entry.occurrence_count()));
        key.push(KeyPart::Descending(entry.latest_timestamp().as_nanoseconds()));
        key.push(KeyPart::Text(chars_of(&targets[index])));
        proof {
            assert(super::order::key_view(key) =~= denial_order_key(views, entry@));
        }
        items.push((key, index));
        index = index + 1;
    }
    items
}

/// Returns the rows of the aggregated denials, grouped by denying domain
/// and by blockers.
pub fn denial_rows(model: &ObservationModel, selected: Option<&RowKind>) -> (rows: Vec<DisplayRow>)
    ensures
        exists|order: Seq<AggregatedDenialView>|
            {
                &&& order.len() == model@.denials.entries.len()
                &&& forall|i: int| 0 <= i < order.len() ==> model@.denials.entries.contains(#[trigger] order[i])
                &&& forall|i: int|
                    0 <= i < model@.denials.entries.len() ==> order.contains(
                        #[trigger] model@.denials.entries[i],
                    )
                &&& sorted_keys(denial_order_keys(model@.denials.entries, order))
                &&& stable_denial_order(model@.denials.entries, order)
                &&& display_views(rows@) == denial_rows_of(model@, order, selected_view(selected))
            },
{
    let entries = model.denials().entries();
    let ghost views = entry_views(entries@);
    let ghost chosen = selected_view(selected);
    let selected_target: Option<String> = match selected {
        Some(RowKind::Denial(key)) => match model.denial(key) {
            Some(entry) => Some(target(entry)),
            None => None,
        },
        _ => None,
    };
    let (labels, targets) = entry_labels(entries, Ghost(model@.denials));
    let items = order_items(entries, &labels, &targets);
    let ghost shape = seq![
        KeyPartView::Descending(0),
        KeyPartView::Ascending(0),
        KeyPartView::Descending(0),
        KeyPartView::Descending(0),
        KeyPartView::Text(Seq::empty()),
        KeyPartView::Descending(0),
        KeyPartView::Descending(0),
        KeyPartView::Text(Seq::empty()),
    ];
    proof {
        assert forall|i: int| 0 <= i < items@.len() implies same_shape(#[trigger] keys_of(items@)[i], shape) by {
            assert(keys_of(items@)[i] == denial_order_key(views, entries@[i]@));
        }
    }
    let ghost unsorted = items@;
    let sorted = sort_by_key(items, Ghost(shape));
    let ghost order = Seq::new(sorted@.len(), |k: int| views[sorted@[k].1 as int]);
    proof {
        broadcast use vstd::seq_lib::group_to_multiset_ensures;
        assert(sorted@.to_multiset().len() == sorted@.len());
        assert(unsorted.to_multiset().len() == unsorted.len());
        assert forall|k: int| 0 <= k < sorted@.len() implies (#[trigger] sorted@[k]).1 < views.len()
            && super::order::key_view(sorted@[k].0) == denial_order_key(views, order[k]) by {
            assert(sorted@.to_multiset().count(sorted@[k]) > 0);
            assert(unsorted.contains(sorted@[k]));
            let j = choose|j: int| 0 <= j < unsorted.len() && unsorted[j] == sorted@[k];
            assert(views[j] == entries@[j]@);
        }
        assert(keys_of(sorted@) =~= denial_order_keys(views, order));
        assert forall|i: int| 0 <= i < views.len() implies order.contains(#[trigger] views[i]) by {
            assert(unsorted.to_multiset().count(unsorted[i]) > 0);
            assert(sorted@.contains(unsorted[i]));
            let k = choose|k: int| 0 <= k < sorted@.len() && sorted@[k] == unsorted[i];
            assert(order[k] == views[i]);
        }
        assert forall|k: int| 0 <= k < order.len() implies views.contains(#[trigger] order[k]) by {
            assert(views[sorted@[k].1 as int] == order[k]);
        }
        let origin = choose|origin: Seq<int>| super::order::stable_origin(origin, unsorted, sorted@);
        assert forall|i: int| 0 <= i < order.len() implies 0 <= #[trigger] origin[i] < views.len()
            && order[i] == views[origin[i]] by {
            assert(sorted@[i] == unsorted[origin[i]]);
        }
        assert forall|i: int, j: int|
            0 <= i < j < order.len() && denial_order_key(views, #[trigger] order[i]) == denial_order_key(
                views,
                #[trigger] order[j],
            ) implies origin[i] < origin[j] by {
            assert(super::order::key_view(sorted@[i].0) == denial_order_key(views, order[i]));
            assert(super::order::key_view(sorted@[j].0) == denial_order_key(views, order[j]));
        }
        assert(stable_denial_order(views, order));
    }
    let mut rows: Vec<DisplayRow> = Vec::new();
    let mut index: usize = 0;
    while index < sorted.len()
        invariant
            index <= sorted@.len(),
            views == entry_views(entries@),
            views == model@.denials.entries,
            model@.denials.well_formed(),
            labels@.len() == entries@.len(),
            targets@.len() == entries@.len(),
            forall|i: int| 0 <= i < entries@.len() ==> (#[trigger] labels@[i])@ == blockers_label(views[i].latest_event),
            forall|i: int| 0 <= i < entries@.len() ==> (#[trigger] targets@[i])@ == target_label(views[i].latest_event),
            order == Seq::new(sorted@.len(), |k: int| views[sorted@[k].1 as int]),
            forall|k: int| 0 <= k < sorted@.len() ==> (#[trigger] sorted@[k]).1 < views.len(),
            chosen == selected_view(selected),
            match selected_target {
                Some(text) => selected_target_of(model@.denials, chosen) == Some(text@),
                None => selected_target_of(model@.denials, chosen) is None,
            },
            display_views(rows@) == denial_rows_of(model@, order.take(index as int), chosen),
        decreases sorted@.len() - index,
    {
        let position = sorted[index].1;
        let entry = &entries[position];
        let ghost previous_rows = display_views(rows@);
        let domain = entry.key().domain_id();
        let new_domain = index == 0 || entries[sorted[index - 1].1].key().domain_id().get() != domain.get();
        let new_group = new_domain || labels[sorted[index - 1].1] != labels[position];
        if new_domain {
            if index > 0 {
                rows.push(
                    DisplayRow {
                        kind: RowKind::Heading,
                        text: String::new(),
                        style: RowStyle { tone: Tone::Normal, related: false, selected: false },
                        continuation_indent: None,
                    },
                );
            }
            let kind = RowKind::DenialDomain(domain);
            let mut out: Vec<char> = Vec::new();
            push_str(&mut out, "Domain ");
            push_hex(&mut out, domain.get());
            push_str(&mut out, " (");
            match model.state().domain(domain) {
                Some(known) => match (known.creator_comm(), known.creator_tgid()) {
                    (Some(comm), Some(tgid)) => {
                        push_display_escaped(&mut out, comm);
                        push_str(&mut out, "[");
                        push_decimal(&mut out, tgid as u64);
                        push_str(&mut out, "]");
                    },
                    _ => push_str(&mut out, "?"),
                },
                None => push_str(&mut out, "?"),
            }
            push_str(&mut out, ")");
            let style = selected_style(&kind, selected, Tone::ObservedBold);
            proof {
                assert(out@ =~= domain_header_row(model@.state, domain, chosen).text);
            }
            rows.push(DisplayRow { kind, text: string_from_chars(out), style, continuation_indent: None });
        }
        if new_group {
            let mut out: Vec<char> = Vec::new();
            push_str(&mut out, "  ");
            push_str(&mut out, labels[position].as_str());
            rows.push(
                DisplayRow {
                    kind: RowKind::Heading,
                    text: string_from_chars(out),
                    style: RowStyle { tone: Tone::Heading, related: false, selected: false },
                    continuation_indent: None,
                },
            );
        }
        let key = RowKind::Denial(entry.key().clone());
        let (marker, _) = visibility(entry.logged());
        let mut style = selected_style(&key, selected, recency(model.denial_age_ns(entry)));
        let related = match &selected_target {
            Some(text) => *text == targets[position] && !style.selected,
            None => false,
        };
        style = RowStyle { tone: style.tone, related, selected: style.selected };
        let (text, indent) = denial_row_text(entry.occurrence_count(), marker, targets[position].as_str());
        rows.push(DisplayRow { kind: key, text, style, continuation_indent: Some(indent) });
        proof {
            let next = order.take(index + 1);
            assert(next.drop_last() =~= order.take(index as int));
            assert(next.last() == views[position as int]);
            if index > 0 {
                assert(next[next.len() - 2] == views[sorted@[index - 1].1 as int]);
            }
            assert(display_views(rows@) =~= denial_rows_of(model@, next, chosen));
        }
        index = index + 1;
    }
    proof {
        assert(order.take(order.len() as int) =~= order);
    }
    rows
}

} // verus!
