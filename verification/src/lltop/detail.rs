//! The detail pane: the fields of the selected domain, denial or ruleset,
//! wrapped to the pane's width.
use vstd::prelude::*;

use super::format::{
    display_escaped_text, escape, filesystem_rights, filesystem_rights_text, network_rights,
    network_rights_text, ruleset, ruleset_label_text, scope_rights, scope_rights_text, timestamp,
    timestamp_text, wrap, wrapped,
};
use super::model::{domain_ruleset, ModelView, ObservationModel};
use super::order::{keys_of, same_shape, sort_by_key, sorted_keys, KeyPart, KeyPartView, SortKey};
use super::records::{hex_id, parent_text};
use super::rows::{blockers, blockers_label, target, target_label};
use super::text::{decimal_text, hex_text, push_decimal, push_hex, push_str, string_from_chars};
use super::view::{
    saturating_sub_nat, lifecycle, lifecycle_style, lifecycle_text, lifecycle_tone, visibility, visibility_text,
    App, RowKind, RowKindView, Tone,
};
use crate::aggregate::{AggregatedDenial, AggregatedDenialView};
use crate::state::{
    lists_values, DomainParent, DomainState, DomainView, FilesystemRuleState, FilesystemRuleView,
    LifecycleState, NetworkRuleState, NetworkRuleView, RulesetState, RulesetView,
};

verus! {

broadcast use vstd::seq_lib::group_seq_properties;

/// A field of the detail pane: its label, its value and the value's tone.
pub type Field = (String, String, Tone);

/// The facts of a field.
pub type FieldView = (Seq<char>, Seq<char>, Tone);

/// The facts of fields, in order.
pub open spec fn field_views(fields: Seq<Field>) -> Seq<FieldView> {
    fields.map_values(|field: Field| (field.0@, field.1@, field.2))
}

/// The fields of a domain.
pub open spec fn domain_fields(domain: DomainView) -> Seq<FieldView> {
    seq![
        ("Domain: "@, hex_text(domain.id@ as nat), Tone::Normal),
        ("Status: "@, lifecycle_text(domain.lifecycle), lifecycle_tone(domain.lifecycle)),
        ("Parent: "@, parent_text(domain.parent), Tone::Normal),
        ("Ruleset: "@, match domain.ruleset {
            None => "?"@,
            Some((id, version)) => ruleset_label_text(id@, Some(version)),
        }, Tone::Normal),
        ("Created: "@, timestamp_text(domain.creation_timestamp), Tone::Normal),
        (
            "Observed enforcing TIDs: "@,
            decimal_text(domain.enforcement_events.dom().len()),
            Tone::Normal,
        ),
        match (domain.lifecycle, domain.no_new_privs()) {
            (_, None) => ("no_new_privs: "@, "unknown"@, Tone::Unknown),
            (_, Some(true)) => (
                "no_new_privs: "@,
                "set for all latest observed enforcing TIDs"@,
                Tone::Observed,
            ),
            (LifecycleState::Allocated, Some(false)) => (
                "no_new_privs: "@,
                "WARNING: missing no_new_privs means privilege gain is possible"@,
                Tone::Hot,
            ),
            (_, Some(false)) => (
                "no_new_privs: "@,
                "historical observation: missing no_new_privs; privilege gain was possible"@,
                Tone::Tombstone,
            ),
        },
    ] + if domain.ruleset is Some {
        seq![(Seq::empty(), "[Enter] View ruleset"@, Tone::Unknown)]
    } else {
        Seq::empty()
    }
}

/// The fields of an aggregated denial.
pub open spec fn denial_fields(entry: AggregatedDenialView) -> Seq<FieldView> {
    let (marker, label) = visibility_text(entry.logged);
    seq![
        ("Domain: "@, hex_text(entry.key.domain_id()@ as nat), Tone::Normal),
        ("Blocked: "@, blockers_label(entry.latest_event), Tone::Normal),
        ("Target: "@, target_label(entry.latest_event), Tone::Normal),
        ("Count: "@, decimal_text(entry.occurrence_count as nat), Tone::Normal),
        ("First seen: "@, decimal_text(entry.first_timestamp@ as nat) + "ns"@, Tone::Normal),
        ("Latest seen: "@, decimal_text(entry.latest_timestamp@ as nat) + "ns"@, Tone::Normal),
        ("same_exec: "@, if entry.same_exec { "true"@ } else { "false"@ }, Tone::Normal),
        ("Logged: "@, marker + " "@ + label, if entry.logged {
            Tone::Observed
        } else {
            Tone::TraceOnly
        }),
    ]
}

/// The fields of a ruleset before its rules.
pub open spec fn ruleset_head_fields(ruleset: RulesetView) -> Seq<FieldView> {
    seq![
        ("Ruleset: "@, ruleset_label_text(ruleset.id@, ruleset.max_observed_version), Tone::Normal),
        ("Status: "@, lifecycle_text(ruleset.lifecycle), lifecycle_tone(ruleset.lifecycle)),
        ("Handled FS: "@, match ruleset.handled_fs {
            None => "?"@,
            Some(access) => filesystem_rights_text(access@),
        }, Tone::Normal),
        ("Handled Net: "@, match ruleset.handled_net {
            None => "?"@,
            Some(access) => network_rights_text(access@),
        }, Tone::Normal),
        ("Scoped: "@, match ruleset.scoped {
            None => "?"@,
            Some(access) => scope_rights_text(access@),
        }, Tone::Normal),
    ]
}

/// The fields of rules listed in `order` as (rights, object) pairs: each
/// new rights value heads its objects under `heading`.
pub open spec fn rule_fields(heading: Seq<char>, order: Seq<(Seq<char>, Seq<char>)>) -> Seq<FieldView>
    decreases order.len(),
{
    if order.len() == 0 {
        Seq::empty()
    } else {
        let (rights, object) = order.last();
        let fresh = order.len() == 1 || order[order.len() - 2].0 != rights;
        rule_fields(heading, order.drop_last()) + if fresh {
            seq![(heading, rights, Tone::Heading)]
        } else {
            Seq::empty()
        } + seq![("    "@, object, Tone::Normal)]
    }
}

/// A filesystem rule as (rights, object).
pub open spec fn filesystem_rule_pair(rule: FilesystemRuleView) -> (Seq<char>, Seq<char>) {
    (filesystem_rights_text(rule.access_rights), display_escaped_text(rule.pathname.bytes, rule.pathname.truncated))
}

/// A network rule as (rights, object).
pub open spec fn network_rule_pair(rule: NetworkRuleView) -> (Seq<char>, Seq<char>) {
    (network_rights_text(rule.access_rights), "port "@ + decimal_text(rule.port as nat))
}

/// The order of filesystem rules: by rights, then by object.
pub open spec fn filesystem_rule_key(rule: FilesystemRuleView) -> Seq<KeyPartView> {
    let (rights, object) = filesystem_rule_pair(rule);
    seq![KeyPartView::Text(rights), KeyPartView::Text(object)]
}

/// The order of network rules: by rights, then by port.
pub open spec fn network_rule_key(rule: NetworkRuleView) -> Seq<KeyPartView> {
    seq![KeyPartView::Text(network_rights_text(rule.access_rights)), KeyPartView::Ascending(rule.port)]
}

/// The fields of a ruleset whose filesystem and network rules are listed
/// in `filesystem` and `network`.
pub open spec fn ruleset_fields(
    ruleset: RulesetView,
    filesystem: Seq<FilesystemRuleView>,
    network: Seq<NetworkRuleView>,
) -> Seq<FieldView> {
    ruleset_head_fields(ruleset) + rule_fields(
        "FS: "@,
        filesystem.map_values(|rule: FilesystemRuleView| filesystem_rule_pair(rule)),
    ) + rule_fields("Net: "@, network.map_values(|rule: NetworkRuleView| network_rule_pair(rule)))
}

/// Whether `fields` are the fields of a ruleset: its rules grouped by
/// rights in increasing order, objects in increasing order within a group.
pub open spec fn ruleset_fields_of(ruleset: RulesetView, fields: Seq<FieldView>) -> bool {
    exists|filesystem: Seq<FilesystemRuleView>, network: Seq<NetworkRuleView>|
        {
            &&& lists_values(filesystem, ruleset.filesystem_rules)
            &&& lists_values(network, ruleset.network_rules)
            &&& sorted_keys(filesystem.map_values(|rule: FilesystemRuleView| filesystem_rule_key(rule)))
            &&& sorted_keys(network.map_values(|rule: NetworkRuleView| network_rule_key(rule)))
            &&& fields == ruleset_fields(ruleset, filesystem, network)
        }
}

/// Whether `fields` are the detail fields of the selection: those of the
/// selected domain, denial or ruleset while the model retains it, else none.
pub open spec fn detail_fields_of(
    selected: Option<RowKindView>,
    model: ModelView,
    fields: Seq<FieldView>,
) -> bool {
    match selected {
        Some(RowKindView::Domain(id)) => fields == if model.state.domains.contains_key(id@) {
            domain_fields(model.state.domains[id@])
        } else {
            Seq::empty()
        },
        Some(RowKindView::DenialDomain(id)) => fields == if model.state.domains.contains_key(id@) {
            domain_fields(model.state.domains[id@])
        } else {
            Seq::empty()
        },
        Some(RowKindView::Denial(key)) => fields == match model.denials.entry(key) {
            Some(entry) => denial_fields(entry),
            None => Seq::empty(),
        },
        Some(RowKindView::Ruleset(id)) => if model.state.rulesets.contains_key(id@) {
            ruleset_fields_of(model.state.rulesets[id@], fields)
        } else {
            fields == Seq::<FieldView>::empty()
        },
        _ => fields == Seq::<FieldView>::empty(),
    }
}

fn field(label: &str, value: String, tone: Tone) -> (made: Field)
    ensures
        made.0@ == label@,
        made.1@ == value@,
        made.2 == tone,
{
    (String::from_str(label), value, tone)
}

/// Returns the fields of a domain.
fn domain_detail(domain: &DomainState) -> (fields: Vec<Field>)
    ensures
        field_views(fields@) == domain_fields(domain@),
{
    let mut fields: Vec<Field> = Vec::new();
    fields.push(field("Domain: ", hex_id(domain.domain_id().get()), Tone::Normal));
    let state = domain.lifecycle();
    fields.push(field("Status: ", String::from_str(lifecycle(state)), lifecycle_style(state)));
    let mut parent: Vec<char> = Vec::new();
    match domain.parent() {
        None => push_str(&mut parent, "?"),
        Some(DomainParent::Root) => push_str(&mut parent, "0"),
        Some(DomainParent::Domain(id)) => push_hex(&mut parent, id.get()),
    }
    fields.push(field("Parent: ", string_from_chars(parent), Tone::Normal));
    let ruleset = match domain.ruleset() {
        None => String::from_str("?"),
        Some(value) => ruleset(value.ruleset_id().get(), Some(value.ruleset_version())),
    };
    fields.push(field("Ruleset: ", ruleset, Tone::Normal));
    fields.push(field("Created: ", timestamp(domain.creation_timestamp()), Tone::Normal));
    let mut count: Vec<char> = Vec::new();
    push_decimal(&mut count, domain.enforcement_event_count() as u64);
    fields.push(field("Observed enforcing TIDs: ", string_from_chars(count), Tone::Normal));
    let no_new_privs = match (state, domain.no_new_privs()) {
        (_, None) => field("no_new_privs: ", String::from_str("unknown"), Tone::Unknown),
        (_, Some(true)) => field(
            "no_new_privs: ",
            String::from_str("set for all latest observed enforcing TIDs"),
            Tone::Observed,
        ),
        (LifecycleState::Allocated, Some(false)) => field(
            "no_new_privs: ",
            String::from_str("WARNING: missing no_new_privs means privilege gain is possible"),
            Tone::Hot,
        ),
        (_, Some(false)) => field(
            "no_new_privs: ",
            String::from_str(
                "historical observation: missing no_new_privs; privilege gain was possible",
            ),
            Tone::Tombstone,
        ),
    };
    fields.push(no_new_privs);
    if domain_ruleset(domain).is_some() {
        fields.push((String::new(), String::from_str("[Enter] View ruleset"), Tone::Unknown));
    }
    assert(field_views(fields@) =~= domain_fields(domain@));
    fields
}

/// Returns the fields of an aggregated denial.
fn denial_detail(entry: &AggregatedDenial) -> (fields: Vec<Field>)
    requires
        entry@.consistent(),
    ensures
        field_views(fields@) == denial_fields(entry@),
{
    let mut fields: Vec<Field> = Vec::new();
    fields.push(field("Domain: ", hex_id(entry.key().domain_id().get()), Tone::Normal));
    fields.push(field("Blocked: ", blockers(entry), Tone::Normal));
    fields.push(field("Target: ", target(entry), Tone::Normal));
    let mut count: Vec<char> = Vec::new();
    push_decimal(&mut count, entry.occurrence_count());
    fields.push(field("Count: ", string_from_chars(count), Tone::Normal));
    let mut first: Vec<char> = Vec::new();
    push_decimal(&mut first, entry.first_timestamp().as_nanoseconds());
    push_str(&mut first, "ns");
    fields.push(field("First seen: ", string_from_chars(first), Tone::Normal));
    let mut latest: Vec<char> = Vec::new();
    push_decimal(&mut latest, entry.latest_timestamp().as_nanoseconds());
    push_str(&mut latest, "ns");
    fields.push(field("Latest seen: ", string_from_chars(latest), Tone::Normal));
    let same_exec = if entry.same_exec() {
        "true"
    } else {
        "false"
    };
    fields.push(field("same_exec: ", String::from_str(same_exec), Tone::Normal));
    let (marker, label) = visibility(entry.logged());
    let mut logged: Vec<char> = Vec::new();
    push_str(&mut logged, marker);
    push_str(&mut logged, " ");
    push_str(&mut logged, label);
    let tone = if entry.logged() {
        Tone::Observed
    } else {
        Tone::TraceOnly
    };
    fields.push(field("Logged: ", string_from_chars(logged), tone));
    assert(field_views(fields@) =~= denial_fields(entry@));
    fields
}

/// The facts of (rights, object) pairs, in order.
pub open spec fn pair_views(pairs: Seq<(String, String)>) -> Seq<(Seq<char>, Seq<char>)> {
    pairs.map_values(|pair: (String, String)| (pair.0@, pair.1@))
}

/// Appends the fields of rule pairs: each new rights value heads its
/// objects under `heading`.
fn push_rule_fields(fields: &mut Vec<Field>, heading: &str, pairs: &Vec<(String, String)>)
    ensures
        field_views(final(fields)@) == field_views(old(fields)@) + rule_fields(heading@, pair_views(pairs@)),
{
    let ghost start = field_views(fields@);
    let ghost views = pair_views(pairs@);
    let mut index: usize = 0;
    while index < pairs.len()
        invariant
            index <= pairs@.len(),
            views == pair_views(pairs@),
            field_views(fields@) == start + rule_fields(heading@, views.take(index as int)),
        decreases pairs@.len() - index,
    {
        let fresh = index == 0 || pairs[index - 1].0 != pairs[index].0;
        let ghost before = field_views(fields@);
        if fresh {
            fields.push(field(heading, pairs[index].0.clone(), Tone::Heading));
        }
        fields.push(field("    ", pairs[index].1.clone(), Tone::Normal));
        proof {
            let taken = views.take(index + 1);
            assert(taken.drop_last() =~= views.take(index as int));
            assert(taken.last() == views[index as int]);
            if index > 0 {
                assert(taken[taken.len() - 2] == views[index - 1]);
            }
            assert(field_views(fields@) =~= before + if fresh {
                seq![(heading@, views[index as int].0, Tone::Heading)]
            } else {
                Seq::empty()
            } + seq![("    "@, views[index as int].1, Tone::Normal)]);
        }
        index = index + 1;
    }
    assert(views.take(pairs@.len() as int) =~= views);
}

/// Sorting keyed items keeps them a listing of a map's values, each with its
/// key.
proof fn lemma_sorted_listing<T, K, V>(
    unsorted: Seq<(SortKey, T)>,
    sorted: Seq<(SortKey, T)>,
    view: spec_fn(T) -> V,
    key: spec_fn(V) -> Seq<KeyPartView>,
    map: Map<K, V>,
)
    requires
        sorted.to_multiset() == unsorted.to_multiset(),
        lists_values(unsorted.map_values(|item: (SortKey, T)| view(item.1)), map),
        forall|i: int|
            0 <= i < unsorted.len() ==> super::order::key_view(#[trigger] unsorted[i].0) == key(
                view(unsorted[i].1),
            ),
    ensures
        lists_values(sorted.map_values(|item: (SortKey, T)| view(item.1)), map),
        keys_of(sorted) == sorted.map_values(|item: (SortKey, T)| view(item.1)).map_values(
            |value: V| key(value),
        ),
{
    broadcast use vstd::seq_lib::group_to_multiset_ensures;

    let listed = unsorted.map_values(|item: (SortKey, T)| view(item.1));
    let order = sorted.map_values(|item: (SortKey, T)| view(item.1));
    assert forall|i: int| 0 <= i < sorted.len() implies exists|j: int|
        0 <= j < unsorted.len() && unsorted[j] == #[trigger] sorted[i] by {
        assert(sorted.to_multiset().count(sorted[i]) > 0);
        assert(unsorted.contains(sorted[i]));
    }
    assert(keys_of(sorted) =~= order.map_values(|value: V| key(value))) by {
        assert forall|i: int| 0 <= i < sorted.len() implies keys_of(sorted)[i] == key(order[i]) by {
            let j = choose|j: int| 0 <= j < unsorted.len() && unsorted[j] == #[trigger] sorted[i];
            assert(super::order::key_view(unsorted[j].0) == key(view(unsorted[j].1)));
        }
    }
    assert(sorted.to_multiset().len() == sorted.len());
    assert(unsorted.to_multiset().len() == unsorted.len());
    assert forall|i: int| 0 <= i < order.len() implies #[trigger] map.values().contains(order[i]) by {
        let j = choose|j: int| 0 <= j < unsorted.len() && unsorted[j] == #[trigger] sorted[i];
        assert(listed[j] == order[i]);
    }
    assert forall|v: V| #[trigger] map.values().contains(v) implies order.contains(v) by {
        assert(listed.contains(v));
        let j = choose|j: int| 0 <= j < listed.len() && listed[j] == v;
        assert(unsorted.to_multiset().count(unsorted[j]) > 0);
        assert(sorted.contains(unsorted[j]));
        let i = choose|i: int| 0 <= i < sorted.len() && sorted[i] == unsorted[j];
        assert(order[i] == v);
    }
}

fn filesystem_sort_key(rule: &FilesystemRuleState) -> (key: SortKey)
    ensures
        super::order::key_view(key) == filesystem_rule_key(rule@),
{
    let mut rights: Vec<char> = Vec::new();
    push_str(&mut rights, filesystem_rights(rule.access_rights()).as_str());
    let mut object: Vec<char> = Vec::new();
    push_str(&mut object, escape(rule.pathname()).as_str());
    let mut key: SortKey = Vec::new();
    key.push(KeyPart::Text(rights));
    key.push(KeyPart::Text(object));
    assert(super::order::key_view(key) =~= filesystem_rule_key(rule@));
    key
}

fn network_sort_key(rule: &NetworkRuleState) -> (key: SortKey)
    ensures
        super::order::key_view(key) == network_rule_key(rule@),
{
    let mut rights: Vec<char> = Vec::new();
    push_str(&mut rights, network_rights(rule.access_rights()).as_str());
    let mut key: SortKey = Vec::new();
    key.push(KeyPart::Text(rights));
    key.push(KeyPart::Ascending(rule.port()));
    assert(super::order::key_view(key) =~= network_rule_key(rule@));
    key
}

/// Returns the filesystem rules of a ruleset as (rights, object) pairs, by
/// rights then object, with the order of their rules.
fn filesystem_pairs(ruleset: &RulesetState) -> (result: (Vec<(String, String)>, Ghost<Seq<FilesystemRuleView>>))
    ensures
        lists_values(result.1@, ruleset@.filesystem_rules),
        sorted_keys(result.1@.map_values(|rule: FilesystemRuleView| filesystem_rule_key(rule))),
        pair_views(result.0@) == result.1@.map_values(|rule: FilesystemRuleView| filesystem_rule_pair(rule)),
{
    let rules = ruleset.filesystem_rules();
    let mut items: Vec<(SortKey, &FilesystemRuleState)> = Vec::new();
    let mut index: usize = 0;
    while index < rules.len()
        invariant
            index <= rules@.len(),
            items@.len() == index,
            forall|i: int|
                0 <= i < index ==> (#[trigger] items@[i]).1 == rules@[i] && super::order::key_view(
                    items@[i].0,
                ) == filesystem_rule_key(rules@[i]@),
        decreases rules@.len() - index,
    {
        items.push((filesystem_sort_key(rules[index]), rules[index]));
        index = index + 1;
    }
    let ghost shape = seq![KeyPartView::Text(Seq::empty()), KeyPartView::Text(Seq::empty())];
    proof {
        assert forall|i: int| 0 <= i < items@.len() implies same_shape(#[trigger] keys_of(items@)[i], shape) by {
            assert(keys_of(items@)[i] == filesystem_rule_key(items@[i].1@));
        }
        assert(items@.map_values(|item: (SortKey, &FilesystemRuleState)| item.1@) =~= rules@.map_values(
            |rule: &FilesystemRuleState| rule@,
        ));
    }
    let ghost unsorted = items@;
    let sorted = sort_by_key(items, Ghost(shape));
    let ghost order = sorted@.map_values(|item: (SortKey, &FilesystemRuleState)| item.1@);
    proof {
        let view = |rule: &FilesystemRuleState| rule@;
        assert(unsorted.map_values(|item: (SortKey, &FilesystemRuleState)| view(item.1)) =~= rules@.map_values(
            |rule: &FilesystemRuleState| rule@,
        ));
        lemma_sorted_listing(
            unsorted,
            sorted@,
            view,
            |rule: FilesystemRuleView| filesystem_rule_key(rule),
            ruleset@.filesystem_rules,
        );
        assert(sorted@.map_values(|item: (SortKey, &FilesystemRuleState)| view(item.1)) =~= order);
        assert(order.map_values(|rule: FilesystemRuleView| filesystem_rule_key(rule)) =~= keys_of(sorted@));
    }
    let mut pairs: Vec<(String, String)> = Vec::new();
    let mut index: usize = 0;
    while index < sorted.len()
        invariant
            index <= sorted@.len(),
            order == sorted@.map_values(|item: (SortKey, &FilesystemRuleState)| item.1@),
            pair_views(pairs@) == order.take(index as int).map_values(
                |rule: FilesystemRuleView| filesystem_rule_pair(rule),
            ),
        decreases sorted@.len() - index,
    {
        let rule = sorted[index].1;
        let ghost before = pair_views(pairs@);
        pairs.push((filesystem_rights(rule.access_rights()), escape(rule.pathname())));
        proof {
            assert(order.take(index + 1) =~= order.take(index as int).push(order[index as int]));
            assert(pair_views(pairs@) =~= before.push(filesystem_rule_pair(order[index as int])));
        }
        index = index + 1;
    }
    assert(order.take(sorted@.len() as int) =~= order);
    (pairs, Ghost(order))
}

/// Returns the network rules of a ruleset as (rights, port) pairs, by
/// rights then port, with the order of their rules.
fn network_pairs(ruleset: &RulesetState) -> (result: (Vec<(String, String)>, Ghost<Seq<NetworkRuleView>>))
    ensures
        lists_values(result.1@, ruleset@.network_rules),
        sorted_keys(result.1@.map_values(|rule: NetworkRuleView| network_rule_key(rule))),
        pair_views(result.0@) == result.1@.map_values(|rule: NetworkRuleView| network_rule_pair(rule)),
{
    let rules = ruleset.network_rules();
    let mut items: Vec<(SortKey, &NetworkRuleState)> = Vec::new();
    let mut index: usize = 0;
    while index < rules.len()
        invariant
            index <= rules@.len(),
            items@.len() == index,
            forall|i: int|
                0 <= i < index ==> (#[trigger] items@[i]).1 == rules@[i] && super::order::key_view(
                    items@[i].0,
                ) == network_rule_key(rules@[i]@),
        decreases rules@.len() - index,
    {
        items.push((network_sort_key(rules[index]), rules[index]));
        index = index + 1;
    }
    let ghost shape = seq![KeyPartView::Text(Seq::empty()), KeyPartView::Ascending(0)];
    proof {
        assert forall|i: int| 0 <= i < items@.len() implies same_shape(#[trigger] keys_of(items@)[i], shape) by {
            assert(keys_of(items@)[i] == network_rule_key(items@[i].1@));
        }
        assert(items@.map_values(|item: (SortKey, &NetworkRuleState)| item.1@) =~= rules@.map_values(
            |rule: &NetworkRuleState| rule@,
        ));
    }
    let ghost unsorted = items@;
    let sorted = sort_by_key(items, Ghost(shape));
    let ghost order = sorted@.map_values(|item: (SortKey, &NetworkRuleState)| item.1@);
    proof {
        let view = |rule: &NetworkRuleState| rule@;
        assert(unsorted.map_values(|item: (SortKey, &NetworkRuleState)| view(item.1)) =~= rules@.map_values(
            |rule: &NetworkRuleState| rule@,
        ));
        lemma_sorted_listing(
            unsorted,
            sorted@,
            view,
            |rule: NetworkRuleView| network_rule_key(rule),
            ruleset@.network_rules,
        );
        assert(sorted@.map_values(|item: (SortKey, &NetworkRuleState)| view(item.1)) =~= order);
        assert(order.map_values(|rule: NetworkRuleView| network_rule_key(rule)) =~= keys_of(sorted@));
    }
    let mut pairs: Vec<(String, String)> = Vec::new();
    let mut index: usize = 0;
    while index < sorted.len()
        invariant
            index <= sorted@.len(),
            order == sorted@.map_values(|item: (SortKey, &NetworkRuleState)| item.1@),
            pair_views(pairs@) == order.take(index as int).map_values(
                |rule: NetworkRuleView| network_rule_pair(rule),
            ),
        decreases sorted@.len() - index,
    {
        let rule = sorted[index].1;
        let ghost before = pair_views(pairs@);
        let mut port: Vec<char> = Vec::new();
        push_str(&mut port, "port ");
        push_decimal(&mut port, rule.port());
        pairs.push((network_rights(rule.access_rights()), string_from_chars(port)));
        proof {
            assert(order.take(index + 1) =~= order.take(index as int).push(order[index as int]));
            assert(pair_views(pairs@) =~= before.push(network_rule_pair(order[index as int])));
        }
        index = index + 1;
    }
    assert(order.take(sorted@.len() as int) =~= order);
    (pairs, Ghost(order))
}

/// Returns the fields of a ruleset: its identity, status and handled
/// rights, then its rules grouped by rights.
fn ruleset_detail(ruleset: &RulesetState) -> (fields: Vec<Field>)
    ensures
        ruleset_fields_of(ruleset@, field_views(fields@)),
{
    let mut fields: Vec<Field> = Vec::new();
    fields.push(
        field(
            "Ruleset: ",
            super::format::ruleset(ruleset.ruleset_id().get(), ruleset.max_observed_version()),
            Tone::Normal,
        ),
    );
    let state = ruleset.lifecycle();
    fields.push(field("Status: ", String::from_str(lifecycle(state)), lifecycle_style(state)));
    let handled_fs = match ruleset.handled_fs() {
        None => String::from_str("?"),
        Some(access) => filesystem_rights(access),
    };
    fields.push(field("Handled FS: ", handled_fs, Tone::Normal));
    let handled_net = match ruleset.handled_net() {
        None => String::from_str("?"),
        Some(access) => network_rights(access),
    };
    fields.push(field("Handled Net: ", handled_net, Tone::Normal));
    let scoped = match ruleset.scoped() {
        None => String::from_str("?"),
        Some(access) => scope_rights(access),
    };
    fields.push(field("Scoped: ", scoped, Tone::Normal));
    assert(field_views(fields@) =~= ruleset_head_fields(ruleset@));
    let (filesystem, Ghost(filesystem_order)) = filesystem_pairs(ruleset);
    push_rule_fields(&mut fields, "FS: ", &filesystem);
    let (network, Ghost(network_order)) = network_pairs(ruleset);
    push_rule_fields(&mut fields, "Net: ", &network);
    proof {
        assert(field_views(fields@) == ruleset_fields(ruleset@, filesystem_order, network_order));
    }
    fields
}

/// Returns the detail fields of the selection: those of the selected domain,
/// denial or ruleset while the model retains it, else none.
pub fn detail_fields(app: &App, model: &ObservationModel) -> (fields: Vec<Field>)
    ensures
        detail_fields_of(app@.selected, model@, field_views(fields@)),
{
    let state = model.state();
    let fields = match &app.selected {
        Some(RowKind::Domain(id)) | Some(RowKind::DenialDomain(id)) => match state.domain(*id) {
            Some(domain) => domain_detail(domain),
            None => Vec::new(),
        },
        Some(RowKind::Denial(key)) => {
            let denials = model.denials();
            match model.denial(key) {
                Some(entry) => {
                    proof {
                        let i = super::super::aggregate::key_position(denials@.entries, key@)->0;
                        assert(denials@.entries[i].consistent());
                    }
                    denial_detail(entry)
                },
                None => Vec::new(),
            }
        },
        Some(RowKind::Ruleset(id)) => match state.ruleset(*id) {
            Some(ruleset) => ruleset_detail(ruleset),
            None => Vec::new(),
        },
        _ => Vec::new(),
    };
    proof {
        if fields@.len() == 0 {
            assert(field_views(fields@) =~= Seq::empty());
        }
    }
    fields
}

/// A line of the detail pane: a label shown as a heading, then text in its
/// tone.
pub struct DetailLine {
    pub label: String,
    pub text: String,
    pub tone: Tone,
}

/// The facts of a [`DetailLine`].
pub struct DetailLineView {
    pub label: Seq<char>,
    pub text: Seq<char>,
    pub tone: Tone,
}

impl View for DetailLine {
    type V = DetailLineView;

    open spec fn view(&self) -> DetailLineView {
        DetailLineView { label: self.label@, text: self.text@, tone: self.tone }
    }
}

/// The facts of lines, in order.
pub open spec fn line_views(lines: Seq<DetailLine>) -> Seq<DetailLineView> {
    lines.map_values(|line: DetailLine| line@)
}

/// `count` spaces.
pub open spec fn spaces(count: nat) -> Seq<char> {
    Seq::new(count, |i: int| ' ')
}

/// Where a field's continuation lines start: four columns past its label,
/// within the pane.
pub open spec fn label_indent(label: Seq<char>, width: nat) -> nat {
    let limit = saturating_sub_nat(width, 1);
    if label.len() + 4 < limit {
        label.len() + 4
    } else {
        limit
    }
}

/// The lines of a field: its value wrapped after its label, continuation
/// lines indented past the label.
pub open spec fn field_lines(field: FieldView, width: nat) -> Seq<DetailLineView> {
    let indent = label_indent(field.0, width);
    let parts = wrapped(
        field.1,
        saturating_sub_nat(width, field.0.len()),
        saturating_sub_nat(width, indent),
    );
    Seq::new(
        parts.len(),
        |i: int|
            if i == 0 {
                DetailLineView { label: field.0, text: parts[0], tone: field.2 }
            } else {
                DetailLineView { label: Seq::empty(), text: spaces(indent) + parts[i], tone: field.2 }
            },
    )
}

/// The lines of fields, in order.
pub open spec fn lines_of_fields(fields: Seq<FieldView>, width: nat) -> Seq<DetailLineView>
    decreases fields.len(),
{
    if fields.len() == 0 {
        Seq::empty()
    } else {
        lines_of_fields(fields.drop_last(), width) + field_lines(fields.last(), width)
    }
}

/// The detail pane's lines for `fields` at `width` columns; without fields,
/// a note that the selection is no longer retained.
pub open spec fn detail_lines_of(fields: Seq<FieldView>, width: nat) -> Seq<DetailLineView> {
    if fields.len() == 0 {
        seq![
            DetailLineView {
                label: Seq::empty(),
                text: "Selection no longer retained"@,
                tone: Tone::Unknown,
            },
        ]
    } else {
        lines_of_fields(fields, width)
    }
}

pub(crate) fn push_spaces(out: &mut Vec<char>, count: usize)
    ensures
        final(out)@ == old(out)@ + spaces(count as nat),
{
    let ghost start = out@;
    let mut index: usize = 0;
    while index < count
        invariant
            index <= count,
            out@ == start + spaces(index as nat),
        decreases count - index,
    {
        out.push(' ');
        index = index + 1;
        assert(out@ =~= start + spaces(index as nat));
    }
}

/// Appends the lines of a field.
fn push_field_lines(lines: &mut Vec<DetailLine>, field: &Field, width: usize)
    ensures
        line_views(final(lines)@) == line_views(old(lines)@) + field_lines(
            (field.0@, field.1@, field.2),
            width as nat,
        ),
{
    let ghost view = (field.0@, field.1@, field.2);
    let mut label: Vec<char> = Vec::new();
    push_str(&mut label, field.0.as_str());
    let length = label.len();
    let limit = width.saturating_sub(1);
    let indent = if length.saturating_add(4) < limit {
        length + 4
    } else {
        limit
    };
    assert(indent == label_indent(field.0@, width as nat));
    let parts = wrap(field.1.as_str(), width.saturating_sub(length), width.saturating_sub(indent));
    let ghost start = line_views(lines@);
    let ghost expected = field_lines(view, width as nat);
    let mut index: usize = 0;
    while index < parts.len()
        invariant
            index <= parts@.len(),
            super::batch::string_texts(parts@) == wrapped(
                field.1@,
                saturating_sub_nat(width as nat, field.0@.len()),
                saturating_sub_nat(width as nat, indent as nat),
            ),
            indent == label_indent(field.0@, width as nat),
            expected == field_lines(view, width as nat),
            view == (field.0@, field.1@, field.2),
            line_views(lines@) == start + expected.take(index as int),
        decreases parts@.len() - index,
    {
        let ghost before = line_views(lines@);
        if index == 0 {
            lines.push(DetailLine { label: field.0.clone(), text: parts[0].clone(), tone: field.2 });
        } else {
            let mut text: Vec<char> = Vec::new();
            push_spaces(&mut text, indent);
            push_str(&mut text, parts[index].as_str());
            lines.push(DetailLine { label: String::new(), text: string_from_chars(text), tone: field.2 });
        }
        proof {
            assert(super::batch::string_texts(parts@)[index as int] == parts@[index as int]@);
            assert(expected.take(index + 1) =~= expected.take(index as int).push(expected[index as int]));
            assert(line_views(lines@) =~= before.push(expected[index as int]));
        }
        index = index + 1;
    }
    assert(expected.take(parts@.len() as int) =~= expected);
}

/// Returns the detail pane's lines at `width` columns: each field's value
/// wrapped after its label, continuation lines indented four columns past
/// the label; without a retained selection, a note saying so.
pub fn detail_lines(app: &App, model: &ObservationModel, width: usize) -> (lines: Vec<DetailLine>)
    ensures
        exists|fields: Seq<FieldView>|
            detail_fields_of(app@.selected, model@, fields) && line_views(lines@) == detail_lines_of(
                fields,
                width as nat,
            ),
{
    let fields = detail_fields(app, model);
    let ghost views = field_views(fields@);
    let mut lines: Vec<DetailLine> = Vec::new();
    if fields.len() == 0 {
        lines.push(
            DetailLine {
                label: String::new(),
                text: String::from_str("Selection no longer retained"),
                tone: Tone::Unknown,
            },
        );
        proof {
            assert(line_views(lines@) =~= detail_lines_of(views, width as nat));
        }
        return lines;
    }
    let mut index: usize = 0;
    while index < fields.len()
        invariant
            index <= fields@.len(),
            views == field_views(fields@),
            line_views(lines@) == lines_of_fields(views.take(index as int), width as nat),
        decreases fields@.len() - index,
    {
        let ghost before = line_views(lines@);
        push_field_lines(&mut lines, &fields[index], width);
        proof {
            assert(views.take(index + 1).drop_last() =~= views.take(index as int));
            assert(views.take(index + 1).last() == views[index as int]);
        }
        index = index + 1;
    }
    assert(views.take(fields@.len() as int) =~= views);
    assert(line_views(lines@) == detail_lines_of(views, width as nat));
    lines
}

} // verus!
