//! Laws of reconstruction over a whole sequence of observations, starting
//! from the empty state: what is known of a domain after the events, in
//! terms of the events that concern it.
use vstd::prelude::*;

use super::model::{
    allocated, filesystem_rule_key, later_or_equal, latest_timestamp, max_u32, max_u64,
    mentioned_domains, parent_of, DomainView, RulesetView, StateView,
};
use crate::event::{
    CreateDomainEventView, CreateRulesetEventView, EnforceDomainEventView, EventView,
    HierarchySnapshotView, KernelTimestamp,
};
use crate::state::{DomainParent, LifecycleState};

verus! {

broadcast use vstd::seq_lib::group_seq_properties;

/// The state after applying `events` in order to `state`.
pub open spec fn applied(state: StateView, events: Seq<EventView>) -> StateView
    decreases events.len(),
{
    if events.len() == 0 {
        state
    } else {
        applied(state, events.drop_last()).apply(events.last())
    }
}

/// What an event makes of domain `id`, known as `domain` before it.
pub open spec fn domain_step(domain: DomainView, event: EventView, id: u64) -> DomainView {
    match event {
        EventView::CreateDomain(e) => if e.domain_id@ == id {
            domain.created(e)
        } else {
            domain
        },
        EventView::FreeDomain(e) => if e.domain_id@ == id {
            domain.freed(e)
        } else {
            domain
        },
        EventView::EnforceDomain(e) => if e.domain_id@ == id {
            domain.enforced(e)
        } else {
            domain
        },
        _ => match event.denial_context() {
            Some(context) => if context.hierarchy.domain_id@ == id {
                domain.denied(context.hierarchy, context.cumulative_denial_count)
            } else {
                domain
            },
            None => domain,
        },
    }
}

/// One observation: domain `id` is known after it exactly when it was
/// known before or the event mentions it, and it is what the event makes of
/// what was known, or of an unknown domain.
proof fn lemma_apply_step(state: StateView, event: EventView, id: u64)
    ensures
        state.apply(event).domains.contains_key(id) <==> (state.domains.contains_key(id)
            || mentioned_domains(event).contains(id)),
        state.apply(event).domains.contains_key(id) ==> state.apply(event).domains[id] == domain_step(
            if state.domains.contains_key(id) {
                state.domains[id]
            } else {
                DomainView::unknown(state.apply(event).domains[id].id)
            },
            event,
            id,
        ),
{
}

/// Whether one of `events` satisfies `test`.
pub open spec fn some_event(events: Seq<EventView>, test: spec_fn(EventView) -> bool) -> bool {
    exists|i: int| 0 <= i < events.len() && #[trigger] test(events[i])
}

proof fn lemma_some_event_last(events: Seq<EventView>, test: spec_fn(EventView) -> bool)
    requires
        events.len() > 0,
    ensures
        some_event(events, test) == (some_event(events.drop_last(), test) || test(events.last())),
{
    let prefix = events.drop_last();
    if some_event(events, test) && !test(events.last()) {
        let i = choose|i: int| 0 <= i < events.len() && #[trigger] test(events[i]);
        assert(i < events.len() - 1);
        assert(prefix[i] == events[i]);
    }
    if some_event(prefix, test) {
        let i = choose|i: int| 0 <= i < prefix.len() && #[trigger] test(prefix[i]);
        assert(events[i] == prefix[i]);
    }
}

/// Whether an event mentions domain `id`.
pub open spec fn mentions(id: u64) -> spec_fn(EventView) -> bool {
    |event: EventView| mentioned_domains(event).contains(id)
}

/// Whether an event is the deallocation of domain `id`.
pub open spec fn frees(id: u64) -> spec_fn(EventView) -> bool {
    |event: EventView| event matches EventView::FreeDomain(e) && e.domain_id@ == id
}

/// Whether an event proves domain `id` allocated: its creation, its
/// enforcement, its deallocation, or a denial by it.
pub open spec fn concerns(id: u64) -> spec_fn(EventView) -> bool {
    |event: EventView|
        match event {
            EventView::CreateDomain(e) => e.domain_id@ == id,
            EventView::FreeDomain(e) => e.domain_id@ == id,
            EventView::EnforceDomain(e) => e.domain_id@ == id,
            _ => event.denial_context() matches Some(context) && context.hierarchy.domain_id@
                == id,
        }
}

/// After observing `events` from the empty state, domain `id` is known
/// exactly when some event mentioned it. It is deallocated when one of the
/// events freed it; otherwise allocated when one created, enforced or
/// denied by it; otherwise, known only as a parent or the other party of a
/// denial, of unknown lifecycle.
pub proof fn lemma_domain_lifecycle_over_events(events: Seq<EventView>, id: u64)
    ensures
        applied(StateView::empty(), events).domains.contains_key(id) <==> some_event(events, mentions(id)),
        applied(StateView::empty(), events).domains.contains_key(id) ==> applied(
            StateView::empty(),
            events,
        ).domains[id].lifecycle == if some_event(events, frees(id)) {
            LifecycleState::Deallocated
        } else if some_event(events, concerns(id)) {
            LifecycleState::Allocated
        } else {
            LifecycleState::Unknown
        },
    decreases events.len(),
{
    if events.len() > 0 {
        let prefix = events.drop_last();
        let event = events.last();
        lemma_domain_lifecycle_over_events(prefix, id);
        lemma_apply_step(applied(StateView::empty(), prefix), event, id);
        lemma_some_event_last(events, mentions(id));
        lemma_some_event_last(events, frees(id));
        lemma_some_event_last(events, concerns(id));
        let before = applied(StateView::empty(), prefix);
        let after = applied(StateView::empty(), events);
        assert(after == before.apply(event));
        if after.domains.contains_key(id) {
            let base = if before.domains.contains_key(id) {
                before.domains[id]
            } else {
                DomainView::unknown(after.domains[id].id)
            };
            assert(after.domains[id] == domain_step(base, event, id));
            if !before.domains.contains_key(id) {
                if some_event(prefix, concerns(id)) {
                    let i = choose|i: int| 0 <= i < prefix.len() && #[trigger] concerns(id)(prefix[i]);
                    assert(mentions(id)(prefix[i]));
                }
            }
            if some_event(prefix, frees(id)) {
                let i = choose|i: int| 0 <= i < prefix.len() && #[trigger] frees(id)(prefix[i]);
                assert(concerns(id)(prefix[i]));
            }
            if frees(id)(event) {
            } else if concerns(id)(event) {
                assert(after.domains[id].lifecycle == allocated(base.lifecycle));
            } else {
                assert(after.domains[id].lifecycle == base.lifecycle);
            }
        }
    }
}

/// Whether an event is a process-wide enforcement of domain `id`.
pub open spec fn enforces_process_wide(id: u64) -> spec_fn(EventView) -> bool {
    |event: EventView| event matches EventView::EnforceDomain(e) && e.domain_id@ == id && e.process_wide
}

/// Whether an event is an enforcement of domain `id` by thread `tid`.
pub open spec fn enforces_by(event: EventView, id: u64, tid: u32) -> bool {
    event matches EventView::EnforceDomain(e) && e.domain_id@ == id && e.enforcing_tid == tid
}

/// The enforcement of domain `id` by thread `tid` that `events` select:
/// the one with the greatest timestamp, the last applied winning ties.
pub open spec fn selected_enforcement(events: Seq<EventView>, id: u64, tid: u32) -> Option<
    EnforceDomainEventView,
>
    decreases events.len(),
{
    if events.len() == 0 {
        None
    } else {
        let previous = selected_enforcement(events.drop_last(), id, tid);
        match events.last() {
            EventView::EnforceDomain(e) => if e.domain_id@ == id && e.enforcing_tid == tid && !(
            previous matches Some(p) && e.timestamp@ < p.timestamp@) {
                Some(e)
            } else {
                previous
            },
            _ => previous,
        }
    }
}

/// After observing `events` from the empty state, a known domain `id` has
/// a process-wide enforcement exactly when one of the events enforced it
/// process-wide, even if a later event of the same thread superseded it;
/// and for each thread it keeps the selected enforcement of that thread,
/// and none for a thread that never enforced it.
pub proof fn lemma_domain_enforcement_over_events(events: Seq<EventView>, id: u64, tid: u32)
    ensures
        applied(StateView::empty(), events).domains.contains_key(id) ==> {
            let domain = applied(StateView::empty(), events).domains[id];
            &&& domain.any_process_wide_enforcement == some_event(events, enforces_process_wide(id))
            &&& domain.enforcement_events.contains_key(tid) == selected_enforcement(events, id, tid) is Some
            &&& domain.enforcement_events.contains_key(tid) ==> Some(domain.enforcement_events[tid])
                == selected_enforcement(events, id, tid)
        },
    decreases events.len(),
{
    if events.len() > 0 {
        let prefix = events.drop_last();
        let event = events.last();
        lemma_domain_enforcement_over_events(prefix, id, tid);
        lemma_domain_lifecycle_over_events(prefix, id);
        lemma_apply_step(applied(StateView::empty(), prefix), event, id);
        lemma_some_event_last(events, enforces_process_wide(id));
        let before = applied(StateView::empty(), prefix);
        let after = applied(StateView::empty(), events);
        assert(after == before.apply(event));
        if after.domains.contains_key(id) {
            let base = if before.domains.contains_key(id) {
                before.domains[id]
            } else {
                DomainView::unknown(after.domains[id].id)
            };
            assert(after.domains[id] == domain_step(base, event, id));
            if !before.domains.contains_key(id) {
                lemma_unmentioned_has_no_enforcement(prefix, id, tid);
            }
        }
    }
}

/// Events that never mention domain `id` select no enforcement of it.
proof fn lemma_unmentioned_has_no_enforcement(events: Seq<EventView>, id: u64, tid: u32)
    requires
        !some_event(events, mentions(id)),
    ensures
        selected_enforcement(events, id, tid) is None,
        !some_event(events, enforces_process_wide(id)),
    decreases events.len(),
{
    if events.len() > 0 {
        lemma_some_event_last(events, mentions(id));
        lemma_some_event_last(events, enforces_process_wide(id));
        lemma_unmentioned_has_no_enforcement(events.drop_last(), id, tid);
        assert(!mentions(id)(events.last()));
    }
}

/// The denial count that an event reports of domain `id`: zero at its
/// creation, the final count at its deallocation, and the cumulative count
/// that a denial by it captured.
pub open spec fn reported_denial_count(id: u64) -> spec_fn(EventView) -> Option<u64> {
    |event: EventView|
        match event {
            EventView::CreateDomain(e) => if e.domain_id@ == id {
                Some(0u64)
            } else {
                None
            },
            EventView::FreeDomain(e) => if e.domain_id@ == id {
                Some(e.denial_count)
            } else {
                None
            },
            EventView::EnforceDomain(_) => None,
            _ => match event.denial_context() {
                Some(context) => if context.hierarchy.domain_id@ == id {
                    Some(context.cumulative_denial_count)
                } else {
                    None
                },
                None => None,
            },
        }
}

/// The final denial count that the deallocation of domain `id` reports.
pub open spec fn final_denial_count_reported(id: u64) -> spec_fn(EventView) -> Option<u64> {
    |event: EventView|
        match event {
            EventView::FreeDomain(e) => if e.domain_id@ == id {
                Some(e.denial_count)
            } else {
                None
            },
            _ => None,
        }
}

/// The greatest count that `events` report, `None` when none reports one.
pub open spec fn greatest_count(events: Seq<EventView>, report: spec_fn(EventView) -> Option<u64>) -> Option<u64>
    decreases events.len(),
{
    if events.len() == 0 {
        None
    } else {
        match report(events.last()) {
            Some(count) => max_u64(greatest_count(events.drop_last(), report), count),
            None => greatest_count(events.drop_last(), report),
        }
    }
}

/// The latest timestamp of a deallocation of domain `id` among `events`.
pub open spec fn latest_free(events: Seq<EventView>, id: u64) -> Option<KernelTimestamp>
    decreases events.len(),
{
    if events.len() == 0 {
        None
    } else {
        let previous = latest_free(events.drop_last(), id);
        match events.last() {
            EventView::FreeDomain(e) => if e.domain_id@ == id {
                latest_timestamp(previous, e.timestamp)
            } else {
                previous
            },
            _ => previous,
        }
    }
}

/// Whether an event reports a count.
pub open spec fn reports(report: spec_fn(EventView) -> Option<u64>) -> spec_fn(EventView) -> bool {
    |event: EventView| report(event) is Some
}

/// The greatest reported count is a maximum: no event reports more, one
/// event reports it, and there is one exactly when some event reports a
/// count.
pub proof fn lemma_greatest_count_is_maximum(events: Seq<EventView>, report: spec_fn(EventView) -> Option<u64>)
    ensures
        greatest_count(events, report) is None <==> !some_event(events, reports(report)),
        greatest_count(events, report) matches Some(greatest) ==> {
            &&& forall|i: int|
                0 <= i < events.len() ==> (#[trigger] report(events[i]) matches Some(count) ==> count
                    <= greatest)
            &&& exists|i: int| 0 <= i < events.len() && #[trigger] report(events[i]) == Some(greatest)
        },
    decreases events.len(),
{
    if events.len() > 0 {
        let prefix = events.drop_last();
        lemma_greatest_count_is_maximum(prefix, report);
        lemma_some_event_last(events, reports(report));
        if let Some(greatest) = greatest_count(events, report) {
            assert forall|i: int|
                0 <= i < events.len() implies (#[trigger] report(events[i]) matches Some(count) ==> count
                <= greatest) by {
                if i < prefix.len() {
                    assert(events[i] == prefix[i]);
                    if let Some(count) = report(prefix[i]) {
                        assert(reports(report)(prefix[i]));
                        assert(some_event(prefix, reports(report)));
                    }
                }
            }
            if report(events.last()) == Some(greatest) {
                assert(report(events[events.len() - 1]) == Some(greatest));
            } else {
                let i = choose|i: int| 0 <= i < prefix.len() && #[trigger] report(prefix[i]) == Some(greatest);
                assert(events[i] == prefix[i]);
            }
        }
    }
}

proof fn lemma_unmentioned_reports_nothing(events: Seq<EventView>, id: u64)
    requires
        !some_event(events, mentions(id)),
    ensures
        greatest_count(events, reported_denial_count(id)) is None,
        greatest_count(events, final_denial_count_reported(id)) is None,
        latest_free(events, id) is None,
    decreases events.len(),
{
    if events.len() > 0 {
        lemma_some_event_last(events, mentions(id));
        lemma_unmentioned_reports_nothing(events.drop_last(), id);
        assert(!mentions(id)(events.last()));
    }
}

/// After observing `events` from the empty state, the cumulative denial
/// count of a known domain `id` is the greatest count that its creation,
/// its deallocations and the denials by it reported (counts are never
/// summed), its final denial count the greatest that its deallocations
/// reported, and its deallocation time the latest of theirs.
pub proof fn lemma_domain_counts_over_events(events: Seq<EventView>, id: u64)
    ensures
        applied(StateView::empty(), events).domains.contains_key(id) ==> {
            let domain = applied(StateView::empty(), events).domains[id];
            &&& domain.cumulative_denial_count == greatest_count(events, reported_denial_count(id))
            &&& domain.final_denial_count == greatest_count(events, final_denial_count_reported(id))
            &&& domain.free_timestamp == latest_free(events, id)
        },
    decreases events.len(),
{
    if events.len() > 0 {
        let prefix = events.drop_last();
        let event = events.last();
        lemma_domain_counts_over_events(prefix, id);
        lemma_domain_lifecycle_over_events(prefix, id);
        lemma_apply_step(applied(StateView::empty(), prefix), event, id);
        let before = applied(StateView::empty(), prefix);
        let after = applied(StateView::empty(), events);
        assert(after == before.apply(event));
        if after.domains.contains_key(id) {
            let base = if before.domains.contains_key(id) {
                before.domains[id]
            } else {
                DomainView::unknown(after.domains[id].id)
            };
            assert(after.domains[id] == domain_step(base, event, id));
            if !before.domains.contains_key(id) {
                lemma_unmentioned_reports_nothing(prefix, id);
            }
        }
    }
}

/// A known domain never reports a final denial count above its cumulative
/// one: every deallocation's count is also a cumulative report.
pub proof fn lemma_final_count_within_cumulative(events: Seq<EventView>, id: u64)
    ensures
        greatest_count(events, final_denial_count_reported(id)) matches Some(last) ==> (greatest_count(
            events,
            reported_denial_count(id),
        ) matches Some(cumulative) && last <= cumulative),
{
    lemma_greatest_count_is_maximum(events, final_denial_count_reported(id));
    lemma_greatest_count_is_maximum(events, reported_denial_count(id));
    if let Some(last) = greatest_count(events, final_denial_count_reported(id)) {
        let i = choose|i: int|
            0 <= i < events.len() && #[trigger] final_denial_count_reported(id)(events[i]) == Some(last);
        assert(reported_denial_count(id)(events[i]) == Some(last));
        assert(reports(reported_denial_count(id))(events[i]));
    }
}

/// The timestamp of a creation event, if any.
pub open spec fn creation_time(creation: Option<CreateDomainEventView>) -> Option<KernelTimestamp> {
    match creation {
        Some(e) => Some(e.timestamp),
        None => None,
    }
}

/// The creation event of domain `id` that `events` select: the one with
/// the greatest timestamp, the last applied winning ties.
pub open spec fn latest_creation(events: Seq<EventView>, id: u64) -> Option<CreateDomainEventView>
    decreases events.len(),
{
    if events.len() == 0 {
        None
    } else {
        let previous = latest_creation(events.drop_last(), id);
        match events.last() {
            EventView::CreateDomain(e) => if e.domain_id@ == id && later_or_equal(
                e.timestamp,
                creation_time(previous),
            ) {
                Some(e)
            } else {
                previous
            },
            _ => previous,
        }
    }
}

/// The hierarchy snapshot of the first applied denial by domain `id`.
pub open spec fn first_denial_snapshot(events: Seq<EventView>, id: u64) -> Option<HierarchySnapshotView>
    decreases events.len(),
{
    if events.len() == 0 {
        None
    } else {
        let previous = first_denial_snapshot(events.drop_last(), id);
        if previous is Some {
            previous
        } else {
            match events.last().denial_context() {
                Some(context) => if context.hierarchy.domain_id@ == id {
                    Some(context.hierarchy)
                } else {
                    None
                },
                None => None,
            }
        }
    }
}

proof fn lemma_unmentioned_has_no_parentage(events: Seq<EventView>, id: u64)
    requires
        !some_event(events, mentions(id)),
    ensures
        latest_creation(events, id) is None,
        first_denial_snapshot(events, id) is None,
    decreases events.len(),
{
    if events.len() > 0 {
        lemma_some_event_last(events, mentions(id));
        lemma_unmentioned_has_no_parentage(events.drop_last(), id);
        assert(!mentions(id)(events.last()));
    }
}

/// After observing `events` from the empty state, a known domain `id` takes
/// its creation time and parent from its selected creation event, a null
/// parent being the root; without a creation event, its parent is the one
/// that the first denial by it captured, and unknown when no denial did.
pub proof fn lemma_domain_parent_over_events(events: Seq<EventView>, id: u64)
    ensures
        applied(StateView::empty(), events).domains.contains_key(id) ==> {
            let domain = applied(StateView::empty(), events).domains[id];
            &&& domain.creation_timestamp == creation_time(latest_creation(events, id))
            &&& domain.parent == match latest_creation(events, id) {
                Some(creation) => Some(parent_of(creation.parent_id)),
                None => match first_denial_snapshot(events, id) {
                    Some(hierarchy) => Some(parent_of(hierarchy.parent_id)),
                    None => None,
                },
            }
        },
    decreases events.len(),
{
    if events.len() > 0 {
        let prefix = events.drop_last();
        let event = events.last();
        lemma_domain_parent_over_events(prefix, id);
        lemma_domain_lifecycle_over_events(prefix, id);
        lemma_apply_step(applied(StateView::empty(), prefix), event, id);
        let before = applied(StateView::empty(), prefix);
        let after = applied(StateView::empty(), events);
        assert(after == before.apply(event));
        if after.domains.contains_key(id) {
            let base = if before.domains.contains_key(id) {
                before.domains[id]
            } else {
                DomainView::unknown(after.domains[id].id)
            };
            assert(after.domains[id] == domain_step(base, event, id));
            if !before.domains.contains_key(id) {
                lemma_unmentioned_has_no_parentage(prefix, id);
            }
        }
    }
}

/// The timestamp of an enforcement or creation event.
pub open spec fn event_time(event: EventView) -> u64 {
    event.timestamp()@
}

/// Whether the `i`-th of `events` is the latest enforcement of domain `id`
/// by thread `tid`: no such enforcement is later, and none applied after it
/// is as late.
pub open spec fn is_latest_enforcement(events: Seq<EventView>, id: u64, tid: u32, i: int) -> bool {
    &&& 0 <= i < events.len()
    &&& enforces_by(events[i], id, tid)
    &&& forall|j: int|
        0 <= j < events.len() && enforces_by(#[trigger] events[j], id, tid) ==> if j <= i {
            event_time(events[j]) <= event_time(events[i])
        } else {
            event_time(events[j]) < event_time(events[i])
        }
}

/// The selected enforcement of a thread is the latest one: the one with
/// the greatest timestamp, the last applied among equally late ones; there
/// is one exactly when the thread enforced the domain.
pub proof fn lemma_selected_enforcement_is_latest(events: Seq<EventView>, id: u64, tid: u32)
    ensures
        selected_enforcement(events, id, tid) is None <==> !exists|j: int|
            0 <= j < events.len() && enforces_by(#[trigger] events[j], id, tid),
        selected_enforcement(events, id, tid) matches Some(e) ==> exists|i: int|
            is_latest_enforcement(events, id, tid, i) && #[trigger] events[i] == EventView::EnforceDomain(e),
    decreases events.len(),
{
    if events.len() > 0 {
        let prefix = events.drop_last();
        let n = events.len() - 1;
        lemma_selected_enforcement_is_latest(prefix, id, tid);
        assert forall|j: int| 0 <= j < n implies #[trigger] events[j] == prefix[j] by {}
        let previous = selected_enforcement(prefix, id, tid);
        let last = events.last();
        let chose_last = match last {
            EventView::EnforceDomain(x) => x.domain_id@ == id && x.enforcing_tid == tid && !(
            previous matches Some(p) && x.timestamp@ < p.timestamp@),
            _ => false,
        };
        if chose_last {
            assert(events[n] == last);
            assert forall|j: int|
                0 <= j < events.len() && enforces_by(#[trigger] events[j], id, tid) implies (if j <= n {
                event_time(events[j]) <= event_time(events[n])
            } else {
                event_time(events[j]) < event_time(events[n])
            }) by {
                if j < n {
                    assert(enforces_by(prefix[j], id, tid));
                    let p = previous->0;
                    let i = choose|i: int|
                        is_latest_enforcement(prefix, id, tid, i) && #[trigger] prefix[i]
                            == EventView::EnforceDomain(p);
                }
            }
            assert(is_latest_enforcement(events, id, tid, n));
        } else if let Some(p) = previous {
            let i = choose|i: int|
                is_latest_enforcement(prefix, id, tid, i) && #[trigger] prefix[i] == EventView::EnforceDomain(p);
            assert(events[i] == prefix[i]);
            assert(is_latest_enforcement(events, id, tid, i));
        } else {
            assert forall|j: int| 0 <= j < events.len() implies !enforces_by(#[trigger] events[j], id, tid) by {
                if j < n {
                    assert(events[j] == prefix[j]);
                }
            }
        }
        if exists|j: int| 0 <= j < prefix.len() && enforces_by(#[trigger] prefix[j], id, tid) {
            let j = choose|j: int| 0 <= j < prefix.len() && enforces_by(#[trigger] prefix[j], id, tid);
            assert(events[j] == prefix[j]);
        }
    }
}

/// Whether an event is the creation of domain `id`.
pub open spec fn creates(event: EventView, id: u64) -> bool {
    event matches EventView::CreateDomain(e) && e.domain_id@ == id
}

/// Whether an event is a denial by domain `id`.
pub open spec fn denied_by(event: EventView, id: u64) -> bool {
    event.denial_context() matches Some(context) && context.hierarchy.domain_id@ == id
}

/// Whether the `i`-th of `events` is the latest creation of domain `id`:
/// no creation of it is later, and none applied after it is as late.
pub open spec fn is_latest_creation(events: Seq<EventView>, id: u64, i: int) -> bool {
    &&& 0 <= i < events.len()
    &&& creates(events[i], id)
    &&& forall|j: int|
        0 <= j < events.len() && creates(#[trigger] events[j], id) ==> if j <= i {
            event_time(events[j]) <= event_time(events[i])
        } else {
            event_time(events[j]) < event_time(events[i])
        }
}

/// The selected creation is the latest one: the one with the greatest
/// timestamp, the last applied among equally late ones; there is one
/// exactly when some event created the domain.
pub proof fn lemma_latest_creation_is_latest(events: Seq<EventView>, id: u64)
    ensures
        latest_creation(events, id) is None <==> !exists|j: int|
            0 <= j < events.len() && creates(#[trigger] events[j], id),
        latest_creation(events, id) matches Some(e) ==> exists|i: int|
            is_latest_creation(events, id, i) && #[trigger] events[i] == EventView::CreateDomain(e),
    decreases events.len(),
{
    if events.len() > 0 {
        let prefix = events.drop_last();
        let n = events.len() - 1;
        lemma_latest_creation_is_latest(prefix, id);
        assert forall|j: int| 0 <= j < n implies #[trigger] events[j] == prefix[j] by {}
        let previous = latest_creation(prefix, id);
        let last = events.last();
        let chose_last = match last {
            EventView::CreateDomain(x) => x.domain_id@ == id && later_or_equal(
                x.timestamp,
                creation_time(previous),
            ),
            _ => false,
        };
        if chose_last {
            assert(events[n] == last);
            assert forall|j: int|
                0 <= j < events.len() && creates(#[trigger] events[j], id) implies (if j <= n {
                event_time(events[j]) <= event_time(events[n])
            } else {
                event_time(events[j]) < event_time(events[n])
            }) by {
                if j < n {
                    assert(creates(prefix[j], id));
                    let p = previous->0;
                    let i = choose|i: int|
                        is_latest_creation(prefix, id, i) && #[trigger] prefix[i] == EventView::CreateDomain(p);
                }
            }
            assert(is_latest_creation(events, id, n));
        } else if let Some(p) = previous {
            let i = choose|i: int|
                is_latest_creation(prefix, id, i) && #[trigger] prefix[i] == EventView::CreateDomain(p);
            assert(events[i] == prefix[i]);
            assert(is_latest_creation(events, id, i));
        } else {
            assert forall|j: int| 0 <= j < events.len() implies !creates(#[trigger] events[j], id) by {
                if j < n {
                    assert(events[j] == prefix[j]);
                }
            }
        }
        if exists|j: int| 0 <= j < prefix.len() && creates(#[trigger] prefix[j], id) {
            let j = choose|j: int| 0 <= j < prefix.len() && creates(#[trigger] prefix[j], id);
            assert(events[j] == prefix[j]);
        }
    }
}

/// The snapshot kept from denials is that of the first denial by the
/// domain; there is one exactly when the domain denied something.
pub proof fn lemma_first_denial_snapshot_is_first(events: Seq<EventView>, id: u64)
    ensures
        first_denial_snapshot(events, id) is None <==> !exists|j: int|
            0 <= j < events.len() && denied_by(#[trigger] events[j], id),
        first_denial_snapshot(events, id) matches Some(hierarchy) ==> exists|i: int|
            0 <= i < events.len() && denied_by(#[trigger] events[i], id)
                && events[i].denial_context()->0.hierarchy == hierarchy && forall|j: int|
                0 <= j < i ==> !denied_by(#[trigger] events[j], id),
    decreases events.len(),
{
    if events.len() > 0 {
        let prefix = events.drop_last();
        let n = events.len() - 1;
        lemma_first_denial_snapshot_is_first(prefix, id);
        assert forall|j: int| 0 <= j < n implies #[trigger] events[j] == prefix[j] by {}
        if let Some(hierarchy) = first_denial_snapshot(prefix, id) {
            let i = choose|i: int|
                0 <= i < prefix.len() && denied_by(#[trigger] prefix[i], id)
                    && prefix[i].denial_context()->0.hierarchy == hierarchy && forall|j: int|
                    0 <= j < i ==> !denied_by(#[trigger] prefix[j], id);
            assert(events[i] == prefix[i]);
            assert(forall|j: int| 0 <= j < i ==> !denied_by(#[trigger] events[j], id));
        } else {
            assert(events[n] == events.last());
            assert(forall|j: int| 0 <= j < n ==> !denied_by(#[trigger] events[j], id));
        }
        if exists|j: int| 0 <= j < prefix.len() && denied_by(#[trigger] prefix[j], id) {
            let j = choose|j: int| 0 <= j < prefix.len() && denied_by(#[trigger] prefix[j], id);
            assert(events[j] == prefix[j]);
        }
    }
}

/// What an event makes of ruleset `id`, known as `ruleset` before it.
pub open spec fn ruleset_step(ruleset: RulesetView, event: EventView, id: u64) -> RulesetView {
    match event {
        EventView::CreateRuleset(e) => if e.ruleset_id@ == id {
            ruleset.created(e)
        } else {
            ruleset
        },
        EventView::AddRuleFs(e) => if e.ruleset_id@ == id {
            ruleset.with_filesystem_rule(e)
        } else {
            ruleset
        },
        EventView::AddRuleNet(e) => if e.ruleset_id@ == id {
            ruleset.with_network_rule(e)
        } else {
            ruleset
        },
        EventView::CreateDomain(e) => if e.ruleset_id@ == id {
            ruleset.touched(e.ruleset_version)
        } else {
            ruleset
        },
        EventView::FreeRuleset(e) => if e.ruleset_id@ == id {
            ruleset.freed(e)
        } else {
            ruleset
        },
        _ => ruleset,
    }
}

/// The version at which an event names ruleset `id`: its creation, a rule
/// addition, a domain created from it, or its deallocation.
pub open spec fn ruleset_version_named(id: u64) -> spec_fn(EventView) -> Option<u32> {
    |event: EventView|
        match event {
            EventView::CreateRuleset(e) => if e.ruleset_id@ == id {
                Some(e.ruleset_version)
            } else {
                None
            },
            EventView::AddRuleFs(e) => if e.ruleset_id@ == id {
                Some(e.ruleset_version)
            } else {
                None
            },
            EventView::AddRuleNet(e) => if e.ruleset_id@ == id {
                Some(e.ruleset_version)
            } else {
                None
            },
            EventView::CreateDomain(e) => if e.ruleset_id@ == id {
                Some(e.ruleset_version)
            } else {
                None
            },
            EventView::FreeRuleset(e) => if e.ruleset_id@ == id {
                Some(e.ruleset_version)
            } else {
                None
            },
            _ => None,
        }
}

/// The version at which the deallocation of ruleset `id` reports it.
pub open spec fn final_version_reported(id: u64) -> spec_fn(EventView) -> Option<u32> {
    |event: EventView|
        match event {
            EventView::FreeRuleset(e) => if e.ruleset_id@ == id {
                Some(e.ruleset_version)
            } else {
                None
            },
            _ => None,
        }
}

/// Whether an event names ruleset `id`.
pub open spec fn names_ruleset(id: u64) -> spec_fn(EventView) -> bool {
    |event: EventView| ruleset_version_named(id)(event) is Some
}

/// Whether an event is the deallocation of ruleset `id`.
pub open spec fn frees_ruleset(id: u64) -> spec_fn(EventView) -> bool {
    |event: EventView| final_version_reported(id)(event) is Some
}

/// The greatest version that `events` report, `None` when none reports one.
pub open spec fn greatest_version(events: Seq<EventView>, report: spec_fn(EventView) -> Option<u32>) -> Option<u32>
    decreases events.len(),
{
    if events.len() == 0 {
        None
    } else {
        match report(events.last()) {
            Some(version) => max_u32(greatest_version(events.drop_last(), report), version),
            None => greatest_version(events.drop_last(), report),
        }
    }
}

/// The creation time of a ruleset creation event, if any.
pub open spec fn ruleset_creation_time(creation: Option<CreateRulesetEventView>) -> Option<KernelTimestamp> {
    match creation {
        Some(e) => Some(e.timestamp),
        None => None,
    }
}

/// The creation event of ruleset `id` that `events` select: the one with
/// the greatest timestamp, the last applied winning ties.
pub open spec fn latest_ruleset_creation(events: Seq<EventView>, id: u64) -> Option<CreateRulesetEventView>
    decreases events.len(),
{
    if events.len() == 0 {
        None
    } else {
        let previous = latest_ruleset_creation(events.drop_last(), id);
        match events.last() {
            EventView::CreateRuleset(e) => if e.ruleset_id@ == id && later_or_equal(
                e.timestamp,
                ruleset_creation_time(previous),
            ) {
                Some(e)
            } else {
                previous
            },
            _ => previous,
        }
    }
}

/// The union of the accesses that the rule additions of ruleset `id` for
/// the filesystem target `key` allowed, `None` when there was none.
pub open spec fn filesystem_access_allowed(events: Seq<EventView>, id: u64, key: u128) -> Option<u32>
    decreases events.len(),
{
    if events.len() == 0 {
        None
    } else {
        let previous = filesystem_access_allowed(events.drop_last(), id, key);
        match events.last() {
            EventView::AddRuleFs(e) => if e.ruleset_id@ == id && filesystem_rule_key(e.device, e.inode)
                == key {
                match previous {
                    Some(access) => Some(access | e.access_rights@),
                    None => Some(e.access_rights@),
                }
            } else {
                previous
            },
            _ => previous,
        }
    }
}

/// The union of the accesses that the rule additions of ruleset `id` for
/// `port` allowed, `None` when there was none.
pub open spec fn network_access_allowed(events: Seq<EventView>, id: u64, port: u64) -> Option<u32>
    decreases events.len(),
{
    if events.len() == 0 {
        None
    } else {
        let previous = network_access_allowed(events.drop_last(), id, port);
        match events.last() {
            EventView::AddRuleNet(e) => if e.ruleset_id@ == id && e.port == port {
                match previous {
                    Some(access) => Some(access | e.access_rights@),
                    None => Some(e.access_rights@),
                }
            } else {
                previous
            },
            _ => previous,
        }
    }
}

/// One observation: ruleset `id` is known after it exactly when it was
/// known before or the event names it, and it is what the event makes of
/// what was known, or of an unknown ruleset.
proof fn lemma_apply_ruleset_step(state: StateView, event: EventView, id: u64)
    ensures
        state.apply(event).rulesets.contains_key(id) <==> (state.rulesets.contains_key(id)
            || names_ruleset(id)(event)),
        state.apply(event).rulesets.contains_key(id) ==> state.apply(event).rulesets[id] == ruleset_step(
            if state.rulesets.contains_key(id) {
                state.rulesets[id]
            } else {
                RulesetView::unknown(state.apply(event).rulesets[id].id)
            },
            event,
            id,
        ),
{
}

proof fn lemma_unnamed_ruleset_has_nothing(events: Seq<EventView>, id: u64, key: u128, port: u64)
    requires
        !some_event(events, names_ruleset(id)),
    ensures
        greatest_version(events, ruleset_version_named(id)) is None,
        greatest_version(events, final_version_reported(id)) is None,
        latest_ruleset_creation(events, id) is None,
        filesystem_access_allowed(events, id, key) is None,
        network_access_allowed(events, id, port) is None,
        !some_event(events, frees_ruleset(id)),
    decreases events.len(),
{
    if events.len() > 0 {
        lemma_some_event_last(events, names_ruleset(id));
        lemma_some_event_last(events, frees_ruleset(id));
        lemma_unnamed_ruleset_has_nothing(events.drop_last(), id, key, port);
        assert(!names_ruleset(id)(events.last()));
    }
}

/// After observing `events` from the empty state, ruleset `id` is known
/// exactly when some event named it. It is then deallocated when one of the
/// events freed it, else allocated. Its greatest observed version is the
/// greatest version any event named it at, its final version the greatest
/// its deallocations reported; its creation time and handled accesses come
/// from its selected creation event. It has a filesystem rule for a target,
/// or a network rule for a port, exactly when a rule addition named them,
/// allowing the union of the accesses that those additions allowed.
pub proof fn lemma_ruleset_over_events(events: Seq<EventView>, id: u64, key: u128, port: u64)
    ensures
        applied(StateView::empty(), events).rulesets.contains_key(id) <==> some_event(events, names_ruleset(id)),
        applied(StateView::empty(), events).rulesets.contains_key(id) ==> {
            let ruleset = applied(StateView::empty(), events).rulesets[id];
            &&& ruleset.lifecycle == if some_event(events, frees_ruleset(id)) {
                LifecycleState::Deallocated
            } else {
                LifecycleState::Allocated
            }
            &&& ruleset.max_observed_version == greatest_version(events, ruleset_version_named(id))
            &&& ruleset.final_version == greatest_version(events, final_version_reported(id))
            &&& ruleset.creation_timestamp == ruleset_creation_time(latest_ruleset_creation(events, id))
            &&& ruleset.handled_fs == match latest_ruleset_creation(events, id) {
                Some(e) => Some(e.handled_fs),
                None => None,
            }
            &&& ruleset.handled_net == match latest_ruleset_creation(events, id) {
                Some(e) => Some(e.handled_net),
                None => None,
            }
            &&& ruleset.scoped == match latest_ruleset_creation(events, id) {
                Some(e) => Some(e.scoped),
                None => None,
            }
            &&& ruleset.filesystem_rules.contains_key(key) == filesystem_access_allowed(events, id, key) is Some
            &&& ruleset.filesystem_rules.contains_key(key) ==> Some(ruleset.filesystem_rules[key].access_rights)
                == filesystem_access_allowed(events, id, key)
            &&& ruleset.network_rules.contains_key(port) == network_access_allowed(events, id, port) is Some
            &&& ruleset.network_rules.contains_key(port) ==> Some(ruleset.network_rules[port].access_rights)
                == network_access_allowed(events, id, port)
        },
    decreases events.len(),
{
    if events.len() > 0 {
        let prefix = events.drop_last();
        let event = events.last();
        lemma_ruleset_over_events(prefix, id, key, port);
        lemma_apply_ruleset_step(applied(StateView::empty(), prefix), event, id);
        lemma_some_event_last(events, names_ruleset(id));
        lemma_some_event_last(events, frees_ruleset(id));
        let before = applied(StateView::empty(), prefix);
        let after = applied(StateView::empty(), events);
        assert(after == before.apply(event));
        if after.rulesets.contains_key(id) {
            let base = if before.rulesets.contains_key(id) {
                before.rulesets[id]
            } else {
                RulesetView::unknown(after.rulesets[id].id)
            };
            assert(after.rulesets[id] == ruleset_step(base, event, id));
            if !before.rulesets.contains_key(id) {
                lemma_unnamed_ruleset_has_nothing(prefix, id, key, port);
            }
            if some_event(prefix, frees_ruleset(id)) {
                let i = choose|i: int| 0 <= i < prefix.len() && #[trigger] frees_ruleset(id)(prefix[i]);
                assert(names_ruleset(id)(prefix[i]));
            }
        }
    }
}

/// After observing `events` from the empty state, the known domains are
/// exactly those that some event mentioned, so the domain count is the
/// number of distinct domains the events mentioned.
pub proof fn lemma_known_domains_over_events(events: Seq<EventView>)
    ensures
        applied(StateView::empty(), events).domains.dom() == Set::new(
            |id: u64| some_event(events, mentions(id)),
        ),
{
    assert forall|id: u64|
        applied(StateView::empty(), events).domains.dom().contains(id) <==> some_event(
            events,
            mentions(id),
        ) by {
        lemma_domain_lifecycle_over_events(events, id);
    }
    assert(applied(StateView::empty(), events).domains.dom() =~= Set::new(
        |id: u64| some_event(events, mentions(id)),
    ));
}

/// Applying one more event applies it to the state after the others.
pub proof fn lemma_applied_push(state: StateView, events: Seq<EventView>, event: EventView)
    ensures
        applied(state, events.push(event)) == applied(state, events).apply(event),
{
    assert(events.push(event).drop_last() =~= events);
}

} // verus!
