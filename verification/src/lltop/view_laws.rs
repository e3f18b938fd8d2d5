//! Laws of the interactive view: selection is by identity, so every object
//! the model retains keeps a row however observations reorder the lists.
use vstd::prelude::*;

use super::model::ModelView;
use super::tree::entry_ids;
use super::rows::{
    denial_entry_row, denial_rows_of, domain_row, ruleset_row, DisplayRowView,
};
use super::view::{viewport_scroll_of, RowKindView, Tone};
use super::detail::denial_fields;
use super::rows::rule_count_of;
use super::text::decimal_text;
use crate::aggregate::{denial_facts_of, lemma_observed_denial_is_most_recent, AggregatorView};
use crate::event::EventView;
use crate::state::{FilesystemRuleView, NetworkRuleView};
use crate::aggregate::{key_position, AggregatedDenialView, DenialKeyView};
use crate::event::{lemma_domain_id_view_injective, lemma_ruleset_id_view_injective, DomainId, RulesetId};
use crate::state::{keyed_by_id, lists_values, RulesetView};

verus! {

broadcast use vstd::seq_lib::group_seq_properties;

proof fn lemma_denial_rows_hold_each_entry(
    model: ModelView,
    order: Seq<AggregatedDenialView>,
    selected: Option<RowKindView>,
    i: int,
)
    requires
        0 <= i < order.len(),
    ensures
        denial_rows_of(model, order, selected).contains(denial_entry_row(model, order[i], selected)),
    decreases order.len(),
{
    let rows = denial_rows_of(model, order, selected);
    if i == order.len() - 1 {
        assert(rows[rows.len() - 1] == denial_entry_row(model, order[i], selected));
    } else {
        lemma_denial_rows_hold_each_entry(model, order.drop_last(), selected, i);
        let before = denial_rows_of(model, order.drop_last(), selected);
        let j = choose|j: int|
            0 <= j < before.len() && before[j] == denial_entry_row(model, order[i], selected);
        assert(rows[j] == before[j]);
    }
}

/// A retained denial keeps its row: in whatever order the denial list
/// lists the retained entries, one of its rows shows the denial of `key`,
/// so a selection of it survives reordering.
pub proof fn lemma_retained_denial_keeps_its_row(
    model: ModelView,
    order: Seq<AggregatedDenialView>,
    selected: Option<RowKindView>,
    key: DenialKeyView,
)
    requires
        model.denials.entry(key) is Some,
        forall|i: int|
            0 <= i < model.denials.entries.len() ==> order.contains(#[trigger] model.denials.entries[i]),
    ensures
        exists|i: int|
            0 <= i < denial_rows_of(model, order, selected).len() && (#[trigger] denial_rows_of(
                model,
                order,
                selected,
            )[i]).kind == RowKindView::Denial(key),
{
    let p = key_position(model.denials.entries, key)->0;
    let entry = model.denials.entries[p];
    assert(order.contains(entry));
    let j = choose|j: int| 0 <= j < order.len() && order[j] == entry;
    lemma_denial_rows_hold_each_entry(model, order, selected, j);
    let rows = denial_rows_of(model, order, selected);
    let k = choose|k: int| 0 <= k < rows.len() && rows[k] == denial_entry_row(model, order[j], selected);
    assert(rows[k].kind == RowKindView::Denial(key));
}

/// Every known domain keeps a row: in the tree of the domain list, one row
/// shows the domain with ID `id`.
pub proof fn lemma_every_domain_has_a_row(
    model: ModelView,
    tree: Seq<(DomainId, Vec<bool>)>,
    rows: Seq<DisplayRowView>,
    selected: Option<RowKindView>,
    id: DomainId,
)
    requires
        keyed_by_id(model.state),
        entry_ids(tree).to_set() == model.state.domains.dom(),
        rows.len() == tree.len(),
        forall|i: int|
            0 <= i < tree.len() ==> rows[i] == domain_row(
                model.state.domains[#[trigger] tree[i].0@],
                tree[i].1@,
                selected,
            ),
        model.state.domains.contains_key(id@),
    ensures
        exists|i: int| 0 <= i < rows.len() && (#[trigger] rows[i]).kind == RowKindView::Domain(id),
{
    assert(entry_ids(tree).to_set().contains(id@));
    assert(entry_ids(tree).contains(id@));
    let i = choose|i: int| 0 <= i < entry_ids(tree).len() && entry_ids(tree)[i] == id@;
    assert(tree[i].0@ == id@);
    let domain = model.state.domains[id@];
    lemma_domain_id_view_injective(domain.id, id);
    assert(rows[i].kind == RowKindView::Domain(id));
}

/// Every known ruleset keeps a row: in whatever order the ruleset list
/// lists the rulesets, one row shows the ruleset with ID `id`.
pub proof fn lemma_every_ruleset_has_a_row(
    model: ModelView,
    order: Seq<RulesetView>,
    selected: Option<RowKindView>,
    id: RulesetId,
)
    requires
        keyed_by_id(model.state),
        lists_values(order, model.state.rulesets),
        model.state.rulesets.contains_key(id@),
    ensures
        exists|i: int|
            0 <= i < order.len() && ruleset_row(#[trigger] order[i], selected).kind
                == RowKindView::Ruleset(id),
{
    let ruleset = model.state.rulesets[id@];
    assert(model.state.rulesets.values().contains(ruleset));
    assert(order.contains(ruleset));
    let i = choose|i: int| 0 <= i < order.len() && order[i] == ruleset;
    lemma_ruleset_id_view_injective(ruleset.id, id);
    assert(ruleset_row(order[i], selected).kind == RowKindView::Ruleset(id));
}

/// While the view follows the selection, laying out a list brings the
/// selected row into view and keeps the view within the list: the scroll
/// offset is at most the selected row, which is among the `visible` rows
/// from it, and no more rows than the list has are scrolled past.
pub proof fn lemma_followed_selection_is_in_view(scroll: nat, row_count: nat, visible: nat, index: nat)
    requires
        index < row_count,
        row_count <= usize::MAX,
        visible >= 1,
    ensures
        ({
            let offset = viewport_scroll_of(scroll, row_count, visible, Some(index), true);
            &&& offset <= index < offset + visible
            &&& offset + visible <= row_count || offset == 0
        }),
{
}

/// Without following the selection, laying out a list keeps a scroll
/// offset whose rows still fit in the list, wherever the selection is.
pub proof fn lemma_manual_scroll_stays(scroll: nat, row_count: nat, visible: nat, index: Option<nat>)
    requires
        scroll + visible <= row_count,
    ensures
        viewport_scroll_of(scroll, row_count, visible, index, false) == scroll,
{
}

/// The detail pane shows when a denial was first and latest seen: after a
/// denial is observed, its entry's "Latest seen" value is the event's
/// timestamp, and its "First seen" value is the one shown before when its
/// key was already retained, or the event's timestamp when it is new. Later
/// matching denials never change when a denial was first seen.
pub proof fn lemma_first_seen_is_first_observation(aggregator: AggregatorView, event: EventView)
    requires
        aggregator.well_formed(),
        denial_facts_of(event) is Some,
    ensures
        ({
            let key = (denial_facts_of(event)->0).0;
            let shown = denial_fields(aggregator.observed(event).entry(key)->0);
            let event_time = decimal_text(event.timestamp()@ as nat) + "ns"@;
            &&& aggregator.observed(event).entry(key) is Some
            &&& shown[5] == ("Latest seen: "@, event_time, Tone::Normal)
            &&& match aggregator.entry(key) {
                Some(previous) => shown[4] == denial_fields(previous)[4],
                None => shown[4] == ("First seen: "@, event_time, Tone::Normal),
            }
        }),
{
    lemma_observed_denial_is_most_recent(aggregator, event);
}

/// A ruleset row counts every rule once, whatever its kind: a ruleset
/// without rules shows `rules=0`; below the saturation bound, a rule on a
/// new filesystem key or on a new port shows one rule more; a rule on a key
/// or port already present shows the same count.
pub proof fn lemma_rule_count_counts_both_kinds(
    ruleset: RulesetView,
    key: u128,
    filesystem_rule: FilesystemRuleView,
    port: u64,
    network_rule: NetworkRuleView,
)
    requires
        ruleset.filesystem_rules.dom().finite(),
        ruleset.network_rules.dom().finite(),
    ensures
        ({
            let with_filesystem_rule = RulesetView {
                filesystem_rules: ruleset.filesystem_rules.insert(key, filesystem_rule),
                ..ruleset
            };
            let with_network_rule = RulesetView {
                network_rules: ruleset.network_rules.insert(port, network_rule),
                ..ruleset
            };
            &&& ruleset.filesystem_rules.dom().is_empty() && ruleset.network_rules.dom().is_empty()
                ==> rule_count_of(ruleset) == 0
            &&& rule_count_of(ruleset) < usize::MAX && !ruleset.filesystem_rules.dom().contains(key)
                ==> rule_count_of(with_filesystem_rule) == rule_count_of(ruleset) + 1
            &&& rule_count_of(ruleset) < usize::MAX && !ruleset.network_rules.dom().contains(port)
                ==> rule_count_of(with_network_rule) == rule_count_of(ruleset) + 1
            &&& ruleset.filesystem_rules.dom().contains(key) ==> rule_count_of(with_filesystem_rule)
                == rule_count_of(ruleset)
            &&& ruleset.network_rules.dom().contains(port) ==> rule_count_of(with_network_rule)
                == rule_count_of(ruleset)
        }),
{
    let fs = ruleset.filesystem_rules.dom();
    let net = ruleset.network_rules.dom();
    if fs.is_empty() {
        assert(fs =~= Set::<u128>::empty());
    }
    if net.is_empty() {
        assert(net =~= Set::<u64>::empty());
    }
    if fs.contains(key) {
        assert(ruleset.filesystem_rules.insert(key, filesystem_rule).dom() =~= fs);
    } else {
        assert(ruleset.filesystem_rules.insert(key, filesystem_rule).dom() =~= fs.insert(key));
    }
    if net.contains(port) {
        assert(ruleset.network_rules.insert(port, network_rule).dom() =~= net);
    } else {
        assert(ruleset.network_rules.insert(port, network_rule).dom() =~= net.insert(port));
    }
}

} // verus!
