//! Laws of batch mode.
use vstd::prelude::*;

use super::batch::{strictly_increasing, allocated_domain_count, changed_domain_records, dropped_ruleset_records, BatchView};
use super::records::{denial_record, domain_record, saturated_increment, stats_record, DenialKind};
use super::model::ModelView;
use super::panes::{counter_text, plain_line, stats_lines_of};
use super::detail::DetailLineView;
use super::text::decimal_text;
use super::view::Tone;
use crate::aggregate::{
    lemma_observe_keeps_well_formed, lemma_observed_denial_is_most_recent, saturating_increment,
};
use crate::event::{EventView, UnknownEventView};
use crate::state::{lemma_apply_idempotent, mentioned_domains, StateView};

verus! {

/// No domain record changes between a state and itself.
proof fn lemma_no_change_no_records(state: StateView, ids: Seq<u64>)
    ensures
        changed_domain_records(state, state, ids) == Seq::<Seq<char>>::empty(),
    decreases ids.len(),
{
    if ids.len() > 0 {
        lemma_no_change_no_records(state, ids.drop_last());
    }
}

/// An event of a kind unknown to the library changes nothing and yields no
/// record.
pub proof fn lemma_unknown_event_is_silent(batch: BatchView, event: UnknownEventView)
    ensures
        batch.observed(EventView::Unknown(event)) == batch,
        batch.records(EventView::Unknown(event)) == Seq::<Seq<char>>::empty(),
{
    let e = EventView::Unknown(event);
    assert(batch.state.apply(e) == batch.state);
    lemma_no_change_no_records(batch.state, super::batch::affected_domains(e));
    assert(batch.observed(e) == batch);
    assert(batch.records(e) =~= Seq::<Seq<char>>::empty());
}

/// Observing the same non-denial event a second time yields no record:
/// lifecycle, rule and enforcement records are deduplicated by what they
/// change.
pub proof fn lemma_repeated_observation_is_silent(batch: BatchView, event: EventView)
    requires
        DenialKind::of_event(event) is None,
    ensures
        batch.observed(event).observed(event) == batch.observed(event),
        batch.observed(event).records(event) == Seq::<Seq<char>>::empty(),
{
    let once = batch.observed(event);
    lemma_apply_idempotent(batch.state, event);
    assert(once.observed(event) == once);
    lemma_no_change_no_records(once.state, super::batch::affected_domains(event));
    assert(once.records(event) =~= Seq::<Seq<char>>::empty());
}

/// Observing the same denial again yields exactly two records: the
/// denial's aggregate, one occurrence more (saturating) with the same first
/// timestamp, and the statistics; its domain is not reported again.
pub proof fn lemma_repeated_denial_yields_only_its_count(batch: BatchView, event: EventView)
    requires
        DenialKind::of_event(event) is Some,
        batch.denials.well_formed(),
    ensures
        ({
            let once = batch.observed(event);
            let twice = once.observed(event);
            let previous = once.denials.entries.last();
            let latest = twice.denials.entries.last();
            &&& once.records(event) == seq![
                denial_record(DenialKind::of_event(event)->0, latest),
                stats_record(
                    allocated_domain_count(twice.state),
                    twice.state.domains.dom().len(),
                    twice.total_denials,
                    twice.denial_counts,
                ),
            ]
            &&& latest.key == previous.key
            &&& latest.occurrence_count == saturating_increment(previous.occurrence_count)
            &&& latest.first_timestamp == previous.first_timestamp
        }),
{
    let once = batch.observed(event);
    let twice = once.observed(event);
    lemma_apply_idempotent(batch.state, event);
    assert(twice.state == once.state);
    lemma_no_change_no_records(once.state, super::batch::affected_domains(event));
    lemma_observe_keeps_well_formed(batch.denials, event);
    lemma_observed_denial_is_most_recent(batch.denials, event);
    lemma_observed_denial_is_most_recent(once.denials, event);
    let lines = changed_domain_records(once.state, twice.state, super::batch::affected_domains(event))
        + Seq::<Seq<char>>::empty() + seq![
        denial_record(DenialKind::of_event(event)->0, twice.denials.entries.last()),
    ];
    assert(lines.len() == 1);
    assert(once.records(event) =~= lines.push(
        stats_record(
            allocated_domain_count(twice.state),
            twice.state.domains.dom().len(),
            twice.total_denials,
            twice.denial_counts,
        ),
    ));
}

/// A prefix of a text is a prefix of the text with more appended, and a
/// text is a prefix of itself with more appended.
proof fn lemma_prefix_extends(p: Seq<char>)
    ensures
        forall|a: Seq<char>, b: Seq<char>| p.is_prefix_of(a) ==> #[trigger] p.is_prefix_of(a + b),
        forall|b: Seq<char>| #[trigger] p.is_prefix_of(p + b),
{
    assert forall|a: Seq<char>, b: Seq<char>| p.is_prefix_of(a) implies #[trigger] p.is_prefix_of(a + b) by {
        assert((a + b).subrange(0, p.len() as int) =~= a.subrange(0, p.len() as int));
    }
    assert forall|b: Seq<char>| #[trigger] p.is_prefix_of(p + b) by {
        assert((p + b).subrange(0, p.len() as int) =~= p);
    }
}

proof fn lemma_domain_records_are_domain_lines(before: StateView, after: StateView, ids: Seq<u64>)
    ensures
        forall|i: int|
            0 <= i < changed_domain_records(before, after, ids).len() ==> "DOMAIN domain="@.is_prefix_of(
                #[trigger] changed_domain_records(before, after, ids)[i],
            ),
    decreases ids.len(),
{
    if ids.len() > 0 {
        lemma_domain_records_are_domain_lines(before, after, ids.drop_last());
        lemma_prefix_extends("DOMAIN domain="@);
        let id = ids.last();
        let rest = changed_domain_records(before, after, ids.drop_last());
        let all = changed_domain_records(before, after, ids);
        if after.domains.contains_key(id) {
            assert("DOMAIN domain="@.is_prefix_of(domain_record(after.domains[id])));
        }
        assert forall|i: int| 0 <= i < all.len() implies "DOMAIN domain="@.is_prefix_of(#[trigger] all[i]) by {
            if i < rest.len() {
                assert(all[i] == rest[i]);
            } else {
                assert(all[i] == domain_record(after.domains[id]));
            }
        }
    }
}

/// What an event yields ends with the statistics when it yields anything:
/// every record before them is a domain, dropped-ruleset or denial record,
/// and the statistics come last, once.
pub proof fn lemma_records_end_with_statistics(batch: BatchView, event: EventView)
    ensures
        ({
            let records = batch.records(event);
            let next = batch.observed(event);
            &&& records.len() > 0 ==> records.last() == stats_record(
                allocated_domain_count(next.state),
                next.state.domains.dom().len(),
                next.total_denials,
                next.denial_counts,
            )
            &&& forall|i: int|
                0 <= i < records.len() - 1 ==> {
                    ||| "DOMAIN domain="@.is_prefix_of(#[trigger] records[i])
                    ||| "DROP_RULESET ruleset="@.is_prefix_of(records[i])
                    ||| "DENIAL type="@.is_prefix_of(records[i])
                }
        }),
{
    let next = batch.observed(event);
    let domains = changed_domain_records(batch.state, next.state, super::batch::affected_domains(event));
    lemma_domain_records_are_domain_lines(batch.state, next.state, super::batch::affected_domains(event));
    lemma_prefix_extends("DROP_RULESET ruleset="@);
    lemma_prefix_extends("DENIAL type="@);
    let dropped = match event {
        EventView::FreeRuleset(e) => dropped_ruleset_records(batch.state, next.state, e.ruleset_id),
        _ => Seq::empty(),
    };
    let denial = match DenialKind::of_event(event) {
        Some(kind) => seq![denial_record(kind, next.denials.entries.last())],
        None => Seq::empty(),
    };
    let lines = domains + dropped + denial;
    assert forall|i: int| 0 <= i < lines.len() implies {
        ||| "DOMAIN domain="@.is_prefix_of(#[trigger] lines[i])
        ||| "DROP_RULESET ruleset="@.is_prefix_of(lines[i])
        ||| "DENIAL type="@.is_prefix_of(lines[i])
    } by {
        if i < domains.len() {
            assert(lines[i] == domains[i]);
        } else if i < domains.len() + dropped.len() {
            assert(lines[i] == dropped[i - domains.len()]);
        } else {
            assert(lines[i] == denial[i - domains.len() - dropped.len()]);
        }
    }
}

/// Ruleset creation and rule events yield no record: batch mode reports
/// domains, dropped rulesets and denials only.
pub proof fn lemma_ruleset_events_are_silent(batch: BatchView, event: EventView)
    requires
        event is CreateRuleset || event is AddRuleFs || event is AddRuleNet,
    ensures
        batch.records(event) == Seq::<Seq<char>>::empty(),
{
    let next = batch.observed(event);
    assert(next.state.domains == batch.state.domains);
    let ids = super::batch::affected_domains(event);
    assert(mentioned_domains(event) =~= Set::<u64>::empty());
    let empty = Seq::<u64>::empty();
    assert(strictly_increasing(empty) && empty.to_set() =~= mentioned_domains(event));
    assert(ids.to_set() =~= Set::<u64>::empty());
    assert(ids.len() == 0) by {
        if ids.len() > 0 {
            assert(ids.to_set().contains(ids[0]));
        }
    }
    assert(ids =~= empty);
    assert(changed_domain_records(batch.state, next.state, ids) =~= Seq::<Seq<char>>::empty());
    assert(batch.records(event) =~= Seq::<Seq<char>>::empty());
}

/// A denial yields exactly one denial record, its aggregate, just before
/// the statistics; every record before it is a domain record.
pub proof fn lemma_denial_yields_one_denial_record(batch: BatchView, event: EventView)
    requires
        DenialKind::of_event(event) is Some,
    ensures
        ({
            let records = batch.records(event);
            let next = batch.observed(event);
            &&& records.len() >= 2
            &&& records[records.len() - 2] == denial_record(
                DenialKind::of_event(event)->0,
                next.denials.entries.last(),
            )
            &&& records.last() == stats_record(
                allocated_domain_count(next.state),
                next.state.domains.dom().len(),
                next.total_denials,
                next.denial_counts,
            )
            &&& forall|i: int|
                0 <= i < records.len() - 2 ==> "DOMAIN domain="@.is_prefix_of(#[trigger] records[i])
        }),
{
    let next = batch.observed(event);
    let ids = super::batch::affected_domains(event);
    let domains = changed_domain_records(batch.state, next.state, ids);
    lemma_domain_records_are_domain_lines(batch.state, next.state, ids);
    let denial = seq![denial_record(DenialKind::of_event(event)->0, next.denials.entries.last())];
    let lines = domains + Seq::<Seq<char>>::empty() + denial;
    let records = batch.records(event);
    assert(records =~= lines.push(
        stats_record(
            allocated_domain_count(next.state),
            next.state.domains.dom().len(),
            next.total_denials,
            next.denial_counts,
        ),
    ));
    assert forall|i: int| 0 <= i < records.len() - 2 implies "DOMAIN domain="@.is_prefix_of(
        #[trigger] records[i],
    ) by {
        assert(records[i] == domains[i]);
    }
}

/// The number of denials of `kind` among `events`.
pub open spec fn kind_count(events: Seq<EventView>, kind: DenialKind) -> nat
    decreases events.len(),
{
    if events.len() == 0 {
        0
    } else {
        kind_count(events.drop_last(), kind) + if DenialKind::of_event(events.last()) == Some(kind) {
            1nat
        } else {
            0nat
        }
    }
}

/// The number of denials, of any kind, among `events`.
pub open spec fn denial_count(events: Seq<EventView>) -> nat
    decreases events.len(),
{
    if events.len() == 0 {
        0
    } else {
        denial_count(events.drop_last()) + if DenialKind::of_event(events.last()) is Some {
            1nat
        } else {
            0nat
        }
    }
}

/// Batch mode after each of `events` in turn.
pub open spec fn batch_after(events: Seq<EventView>) -> BatchView
    decreases events.len(),
{
    if events.len() == 0 {
        BatchView::initial()
    } else {
        batch_after(events.drop_last()).observed(events.last())
    }
}

/// The interactive view after each of `events` in turn.
pub open spec fn model_after(events: Seq<EventView>) -> ModelView
    decreases events.len(),
{
    if events.len() == 0 {
        ModelView::initial()
    } else {
        model_after(events.drop_last()).observed(events.last())
    }
}

proof fn lemma_counts_bounded(events: Seq<EventView>, kind: DenialKind)
    ensures
        kind_count(events, kind) <= denial_count(events) <= events.len(),
    decreases events.len(),
{
    if events.len() > 0 {
        lemma_counts_bounded(events.drop_last(), kind);
    }
}

/// Each counter of a kind, in batch mode and in the interactive view,
/// holds the number of denials of that kind, and the totals the number of
/// denials, while none saturates.
proof fn lemma_counters_count_kinds(events: Seq<EventView>)
    requires
        events.len() < u64::MAX,
    ensures
        batch_after(events).denial_counts.len() == 5,
        model_after(events).by_kind.len() == 5,
        batch_after(events).total_denials == denial_count(events),
        model_after(events).total == denial_count(events),
        forall|kind: DenialKind|
            #![trigger kind_count(events, kind)]
            batch_after(events).denial_counts[kind.position() as int] == kind_count(events, kind)
                && model_after(events).by_kind[kind.position() as int] == kind_count(events, kind),
    decreases events.len(),
{
    if events.len() > 0 {
        let rest = events.drop_last();
        let last = events.last();
        lemma_counters_count_kinds(rest);
        lemma_counts_bounded(rest, DenialKind::Fs);
        assert forall|kind: DenialKind| #![trigger kind_count(events, kind)]
            batch_after(events).denial_counts[kind.position() as int] == kind_count(events, kind)
                && model_after(events).by_kind[kind.position() as int] == kind_count(events, kind) by {
            assert(kind_count(rest, kind) == batch_after(rest).denial_counts[kind.position() as int]);
            lemma_counts_bounded(rest, kind);
            match DenialKind::of_event(last) {
                Some(other) => {
                    assert(kind_count(rest, other) == batch_after(rest).denial_counts[other.position() as int]);
                    if other != kind {
                        assert(other.position() != kind.position());
                    }
                },
                None => {},
            }
        }
    }
}

/// The statistics record counts each kind under its own label: after any
/// events from the start, it shows the number of denials, then under `fs=`,
/// `net=`, `ptrace=`, `signal=` and `abstract_unix=` the number of denials of
/// that kind, while no counter saturates.
pub proof fn lemma_stats_record_counts_each_kind(events: Seq<EventView>, allocated: nat, total: nat)
    requires
        events.len() < u64::MAX,
    ensures
        stats_record(allocated, total, batch_after(events).total_denials, batch_after(events).denial_counts)
            == "STATS domains="@ + decimal_text(allocated) + "/"@ + decimal_text(total) + " denials="@
            + decimal_text(denial_count(events)) + " ("@ + "fs="@ + decimal_text(
            kind_count(events, DenialKind::Fs),
        ) + " net="@ + decimal_text(kind_count(events, DenialKind::Net)) + " ptrace="@
            + decimal_text(kind_count(events, DenialKind::Ptrace)) + " signal="@ + decimal_text(
            kind_count(events, DenialKind::Signal),
        ) + " abstract_unix="@ + decimal_text(kind_count(events, DenialKind::AbstractUnix)) + ")"@,
{
    lemma_counters_count_kinds(events);
    assert(kind_count(events, DenialKind::Fs) == kind_count(events, DenialKind::Fs));
    assert(kind_count(events, DenialKind::Net) == kind_count(events, DenialKind::Net));
    assert(kind_count(events, DenialKind::Ptrace) == kind_count(events, DenialKind::Ptrace));
    assert(kind_count(events, DenialKind::Signal) == kind_count(events, DenialKind::Signal));
    assert(kind_count(events, DenialKind::AbstractUnix) == kind_count(events, DenialKind::AbstractUnix));
}

/// The statistics pane counts each kind under its own title: after any
/// events from the start, it shows the number of denials, then under
/// Filesystem, Network, Ptrace, Signal and Abstract Unix the number of
/// denials of that kind, while no counter saturates.
pub proof fn lemma_stats_pane_counts_each_kind(events: Seq<EventView>)
    requires
        events.len() < u64::MAX,
    ensures
        ({
            let lines = stats_lines_of(model_after(events));
            &&& lines[0] == DetailLineView {
                label: "Observed denials: "@,
                text: decimal_text(denial_count(events)),
                tone: Tone::Normal,
            }
            &&& lines[1] == plain_line(counter_text("Filesystem"@, kind_count(events, DenialKind::Fs) as u64))
            &&& lines[2] == plain_line(counter_text("Network"@, kind_count(events, DenialKind::Net) as u64))
            &&& lines[3] == plain_line(counter_text("Ptrace"@, kind_count(events, DenialKind::Ptrace) as u64))
            &&& lines[4] == plain_line(counter_text("Signal"@, kind_count(events, DenialKind::Signal) as u64))
            &&& lines[5] == plain_line(
                counter_text("Abstract Unix"@, kind_count(events, DenialKind::AbstractUnix) as u64),
            )
        }),
{
    lemma_counters_count_kinds(events);
    assert(kind_count(events, DenialKind::Fs) == kind_count(events, DenialKind::Fs));
    assert(kind_count(events, DenialKind::Net) == kind_count(events, DenialKind::Net));
    assert(kind_count(events, DenialKind::Ptrace) == kind_count(events, DenialKind::Ptrace));
    assert(kind_count(events, DenialKind::Signal) == kind_count(events, DenialKind::Signal));
    assert(kind_count(events, DenialKind::AbstractUnix) == kind_count(events, DenialKind::AbstractUnix));
}

} // verus!
