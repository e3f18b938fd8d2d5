use landlock_observability::event::{
    AddRuleFsEvent, AddRuleNetEvent, CapturedString, CreateDomainEvent, CreateRulesetEvent,
    DenialContext, DenyAccessFsEvent, DenyAccessNetEvent, DenyPtraceEvent,
    DenyScopeAbstractUnixSocketEvent, DenyScopeSignalEvent, DomainId, DomainMembership,
    EnforceDomainEvent, Event, FilesystemAccess, FreeDomainEvent, FreeRulesetEvent,
    HierarchySnapshot, KernelTimestamp, NetworkAccess, RulesetId, ScopeAccess, UnknownEvent,
};
use landlock_observability::state::{DomainParent, LifecycleState, RulesetVersion, State};

fn timestamp(value: u64) -> KernelTimestamp {
    KernelTimestamp::from_nanoseconds(value)
}

fn string(value: &[u8]) -> CapturedString {
    CapturedString::new(value.to_vec(), false).unwrap()
}

fn hierarchy(
    domain: u64,
    parent: Option<u64>,
    creator_tgid: u32,
    creator_comm: &[u8],
) -> HierarchySnapshot {
    HierarchySnapshot::new(
        DomainId::new(domain),
        parent.map(DomainId::new),
        creator_tgid,
        string(creator_comm),
    )
}

fn context(hierarchy: HierarchySnapshot, count: u64) -> DenialContext {
    DenialContext::new(hierarchy, count, false, true)
}

fn apply(state: &mut State, event: Event) {
    state.apply(&event);
}

#[test]
fn full_ruleset_create_and_access() {
    let mut state = State::new();
    apply(
        &mut state,
        Event::CreateRuleset(CreateRulesetEvent::new(
            timestamp(10),
            RulesetId::new(7),
            0,
            FilesystemAccess::from_bits(0x8000_0001),
            NetworkAccess::from_bits(0x8000_0002),
            ScopeAccess::from_bits(0x8000_0001),
        )),
    );

    let ruleset = state.ruleset(RulesetId::new(7)).unwrap();
    assert_eq!(ruleset.ruleset_id(), RulesetId::new(7));
    assert_eq!(ruleset.lifecycle(), LifecycleState::Allocated);
    assert_eq!(ruleset.creation_timestamp(), Some(timestamp(10)));
    assert_eq!(ruleset.max_observed_version(), Some(0));
    assert_eq!(ruleset.handled_fs().unwrap().bits(), 0x8000_0001);
    assert_eq!(ruleset.handled_net().unwrap().bits(), 0x8000_0002);
    assert_eq!(ruleset.scoped().unwrap().bits(), 0x8000_0001);
    assert_eq!(state.ruleset_count(), 1);
    assert_eq!(state.rulesets().len(), 1);
    let default = State::default();
    assert_eq!(default.ruleset_count(), 0);
    assert_eq!(default.domain_count(), 0);
}

#[test]
fn inferred_rules_merge_by_natural_target_and_versions_are_monotonic() {
    let mut state = State::new();
    let id = RulesetId::new(8);
    for event in [
        Event::AddRuleFs(AddRuleFsEvent::new(
            timestamp(20),
            id,
            5,
            FilesystemAccess::from_bits(0x8000_0001),
            3,
            4,
            string(b"new"),
        )),
        Event::AddRuleFs(AddRuleFsEvent::new(
            timestamp(10),
            id,
            2,
            FilesystemAccess::from_bits(0x4000_0002),
            3,
            4,
            string(b"old"),
        )),
        Event::AddRuleFs(AddRuleFsEvent::new(
            timestamp(30),
            id,
            4,
            FilesystemAccess::from_bits(4),
            3,
            5,
            string(b"separate"),
        )),
        Event::AddRuleNet(AddRuleNetEvent::new(
            timestamp(40),
            id,
            8,
            NetworkAccess::from_bits(0x8000_0001),
            80,
        )),
        Event::AddRuleNet(AddRuleNetEvent::new(
            timestamp(35),
            id,
            7,
            NetworkAccess::from_bits(0x4000_0002),
            80,
        )),
        Event::AddRuleNet(AddRuleNetEvent::new(
            timestamp(45),
            id,
            6,
            NetworkAccess::from_bits(4),
            81,
        )),
        Event::AddRuleNet(AddRuleNetEvent::new(
            timestamp(50),
            RulesetId::new(9),
            0,
            NetworkAccess::from_bits(8),
            90,
        )),
    ] {
        apply(&mut state, event);
    }

    let ruleset = state.ruleset(id).unwrap();
    assert_eq!(ruleset.lifecycle(), LifecycleState::Allocated);
    assert_eq!(ruleset.creation_timestamp(), None);
    assert_eq!(ruleset.max_observed_version(), Some(8));
    assert_eq!(ruleset.filesystem_rule_count(), 2);
    assert_eq!(ruleset.filesystem_rules().len(), 2);
    let fs = ruleset.filesystem_rule(3, 4).unwrap();
    assert_eq!(fs.access_rights().bits(), 0xc000_0003);
    assert_eq!(fs.pathname().as_bytes(), b"new");
    assert_eq!(
        ruleset
            .filesystem_rule(3, 5)
            .unwrap()
            .access_rights()
            .bits(),
        4
    );
    assert_eq!(ruleset.network_rule_count(), 2);
    assert_eq!(ruleset.network_rules().len(), 2);
    assert_eq!(
        ruleset.network_rule(80).unwrap().access_rights().bits(),
        0xc000_0003
    );
    assert_eq!(ruleset.network_rule(81).unwrap().access_rights().bits(), 4);
    let network_only = state.ruleset(RulesetId::new(9)).unwrap();
    assert_eq!(network_only.lifecycle(), LifecycleState::Allocated);
    assert_eq!(network_only.creation_timestamp(), None);
    assert_eq!(network_only.max_observed_version(), Some(0));
    assert_eq!(
        network_only
            .network_rule(90)
            .unwrap()
            .access_rights()
            .bits(),
        8
    );
}

#[test]
fn full_domain_create_distinguishes_root_and_unknown_parent() {
    let mut state = State::new();
    apply(
        &mut state,
        Event::CreateDomain(CreateDomainEvent::new(
            timestamp(10),
            RulesetId::new(2),
            3,
            DomainId::new(4),
            None,
            100,
            string(b"creator"),
        )),
    );
    apply(
        &mut state,
        Event::EnforceDomain(EnforceDomainEvent::new(
            timestamp(11),
            DomainId::new(5),
            101,
            false,
            false,
            true,
        )),
    );

    let root = state.domain(DomainId::new(4)).unwrap();
    assert_eq!(root.lifecycle(), LifecycleState::Allocated);
    assert_eq!(root.creation_timestamp(), Some(timestamp(10)));
    assert_eq!(root.parent(), Some(DomainParent::Root));
    assert_eq!(root.no_new_privs(), None);
    assert_eq!(root.creator_tgid(), Some(100));
    assert_eq!(root.creator_comm().unwrap().as_bytes(), b"creator");
    assert_eq!(
        root.ruleset(),
        Some(RulesetVersion::new(RulesetId::new(2), 3))
    );
    assert_eq!(root.cumulative_denial_count(), Some(0));
    assert_eq!(state.domain(DomainId::new(5)).unwrap().parent(), None);
    assert_eq!(state.domain_count(), 2);
    assert_eq!(state.domains().len(), 2);
}

#[test]
fn non_root_domain_create_materializes_unknown_cross_references() {
    let mut state = State::new();
    let ruleset_id = RulesetId::new(6);
    let parent_id = DomainId::new(7);
    let domain_id = DomainId::new(8);
    apply(
        &mut state,
        Event::CreateDomain(CreateDomainEvent::new(
            timestamp(20),
            ruleset_id,
            9,
            domain_id,
            Some(parent_id),
            100,
            string(b"creator"),
        )),
    );

    let domain = state.domain(domain_id).unwrap();
    assert_eq!(domain.lifecycle(), LifecycleState::Allocated);
    assert_eq!(domain.parent(), Some(DomainParent::Domain(parent_id)));
    assert_eq!(domain.ruleset(), Some(RulesetVersion::new(ruleset_id, 9)));
    let parent = state.domain(parent_id).unwrap();
    assert_eq!(parent.lifecycle(), LifecycleState::Unknown);
    assert_eq!(parent.creation_timestamp(), None);
    assert_eq!(parent.cumulative_denial_count(), None);
    assert_eq!(parent.final_denial_count(), None);
    assert_eq!(state.domain_count(), 2);

    let ruleset = state.ruleset(ruleset_id).unwrap();
    assert_eq!(ruleset.lifecycle(), LifecycleState::Allocated);
    assert_eq!(ruleset.creation_timestamp(), None);
    assert_eq!(ruleset.handled_fs(), None);
    assert_eq!(ruleset.handled_net(), None);
    assert_eq!(ruleset.scoped(), None);
    assert_eq!(ruleset.max_observed_version(), Some(9));
    assert_eq!(ruleset.final_version(), None);
    assert_eq!(ruleset.filesystem_rule_count(), 0);
    assert_eq!(ruleset.network_rule_count(), 0);
    assert_eq!(state.ruleset_count(), 1);
}

#[test]
fn domain_create_does_not_reallocate_deallocated_cross_references() {
    let mut state = State::new();
    let parent_id = DomainId::new(10);
    let ruleset_id = RulesetId::new(11);
    let domain_id = DomainId::new(12);
    apply(
        &mut state,
        Event::FreeDomain(FreeDomainEvent::new(timestamp(20), parent_id, 4)),
    );
    apply(
        &mut state,
        Event::FreeRuleset(FreeRulesetEvent::new(timestamp(21), ruleset_id, 5)),
    );
    apply(
        &mut state,
        Event::CreateDomain(CreateDomainEvent::new(
            timestamp(22),
            ruleset_id,
            7,
            domain_id,
            Some(parent_id),
            100,
            string(b"creator"),
        )),
    );

    let domain = state.domain(domain_id).unwrap();
    assert_eq!(domain.lifecycle(), LifecycleState::Allocated);
    assert_eq!(domain.parent(), Some(DomainParent::Domain(parent_id)));
    assert_eq!(domain.ruleset(), Some(RulesetVersion::new(ruleset_id, 7)));
    let parent = state.domain(parent_id).unwrap();
    assert_eq!(parent.lifecycle(), LifecycleState::Deallocated);
    assert_eq!(parent.free_timestamp(), Some(timestamp(20)));
    assert_eq!(parent.final_denial_count(), Some(4));
    assert_eq!(parent.cumulative_denial_count(), Some(4));
    let ruleset = state.ruleset(ruleset_id).unwrap();
    assert_eq!(ruleset.lifecycle(), LifecycleState::Deallocated);
    assert_eq!(ruleset.free_timestamp(), Some(timestamp(21)));
    assert_eq!(ruleset.final_version(), Some(5));
    assert_eq!(ruleset.max_observed_version(), Some(7));
    assert_eq!(state.domain_count(), 2);
    assert_eq!(state.ruleset_count(), 1);
}

#[test]
fn denial_infers_creator_only_from_one_meaningful_pair() {
    let mut state = State::new();
    let id = DomainId::new(9);
    for snapshot in [hierarchy(9, None, 100, b""), hierarchy(9, None, 0, b"comm")] {
        apply(
            &mut state,
            Event::DenyAccessFs(DenyAccessFsEvent::new(
                timestamp(1),
                context(snapshot, 1),
                FilesystemAccess::from_bits(1),
                1,
                2,
                string(b"path"),
            )),
        );
        let domain = state.domain(id).unwrap();
        assert_eq!(domain.creator_tgid(), None);
        assert_eq!(domain.creator_comm(), None);
    }

    apply(
        &mut state,
        Event::DenyAccessFs(DenyAccessFsEvent::new(
            timestamp(2),
            context(hierarchy(9, None, 200, b"paired"), 2),
            FilesystemAccess::from_bits(1),
            1,
            2,
            string(b"path"),
        )),
    );
    let domain = state.domain(id).unwrap();
    assert_eq!(domain.creator_tgid(), Some(200));
    assert_eq!(domain.creator_comm().unwrap().as_bytes(), b"paired");
}

#[test]
fn every_denial_family_uses_common_late_start_inference_without_double_counting() {
    let mut state = State::new();
    let events = [
        Event::DenyAccessFs(DenyAccessFsEvent::new(
            timestamp(1),
            context(hierarchy(10, Some(20), 0, b""), 7),
            FilesystemAccess::from_bits(1),
            1,
            2,
            string(b"path"),
        )),
        Event::DenyAccessNet(DenyAccessNetEvent::new(
            timestamp(2),
            context(hierarchy(11, None, 111, b"net"), 8),
            NetworkAccess::from_bits(1),
            10,
            20,
        )),
        Event::DenyPtrace(DenyPtraceEvent::new(
            timestamp(3),
            context(hierarchy(12, None, 112, b"ptrace"), 9),
            DomainMembership::Unsandboxed,
            1,
            string(b"target"),
        )),
        Event::DenyScopeSignal(DenyScopeSignalEvent::new(
            timestamp(4),
            context(hierarchy(13, None, 113, b"signal"), 10),
            DomainMembership::Unsandboxed,
            1,
            string(b"target"),
        )),
        Event::DenyScopeAbstractUnixSocket(DenyScopeAbstractUnixSocketEvent::new(
            timestamp(5),
            context(hierarchy(14, None, 114, b"unix"), 11),
            DomainMembership::Unsandboxed,
            1,
        )),
    ];
    for event in events {
        apply(&mut state, event);
    }
    apply(
        &mut state,
        Event::DenyAccessFs(DenyAccessFsEvent::new(
            timestamp(6),
            context(hierarchy(10, Some(20), 0, b""), 7),
            FilesystemAccess::from_bits(1),
            1,
            2,
            string(b"path"),
        )),
    );

    let denying = state.domain(DomainId::new(10)).unwrap();
    assert_eq!(denying.lifecycle(), LifecycleState::Allocated);
    assert_eq!(
        denying.parent(),
        Some(DomainParent::Domain(DomainId::new(20)))
    );
    assert_eq!(denying.creator_tgid(), None);
    assert_eq!(denying.creator_comm(), None);
    assert_eq!(denying.cumulative_denial_count(), Some(7));
    let parent = state.domain(DomainId::new(20)).unwrap();
    assert_eq!(parent.lifecycle(), LifecycleState::Unknown);
    assert_eq!(parent.parent(), None);
    assert_eq!(parent.cumulative_denial_count(), None);
    for (id, count) in [(11, 8), (12, 9), (13, 10), (14, 11)] {
        let domain = state.domain(DomainId::new(id)).unwrap();
        assert_eq!(domain.lifecycle(), LifecycleState::Allocated);
        assert_eq!(domain.cumulative_denial_count(), Some(count));
        assert!(domain.creator_tgid().is_some());
        assert!(domain.creator_comm().is_some());
    }
}

#[test]
fn late_create_upgrades_inference_without_lowering_count_or_reallocating() {
    let mut state = State::new();
    let id = DomainId::new(30);
    apply(
        &mut state,
        Event::DenyAccessFs(DenyAccessFsEvent::new(
            timestamp(30),
            context(hierarchy(30, Some(31), 300, b"inferred"), 50),
            FilesystemAccess::from_bits(1),
            1,
            2,
            string(b"path"),
        )),
    );
    apply(
        &mut state,
        Event::FreeDomain(FreeDomainEvent::new(timestamp(40), id, 45)),
    );
    apply(
        &mut state,
        Event::CreateDomain(CreateDomainEvent::new(
            timestamp(10),
            RulesetId::new(6),
            7,
            id,
            None,
            301,
            string(b"explicit"),
        )),
    );

    let domain = state.domain(id).unwrap();
    assert_eq!(domain.lifecycle(), LifecycleState::Deallocated);
    assert_eq!(domain.creation_timestamp(), Some(timestamp(10)));
    assert_eq!(domain.parent(), Some(DomainParent::Root));
    assert_eq!(domain.creator_tgid(), Some(301));
    assert_eq!(domain.creator_comm().unwrap().as_bytes(), b"explicit");
    assert_eq!(
        domain.ruleset(),
        Some(RulesetVersion::new(RulesetId::new(6), 7))
    );
    assert_eq!(domain.cumulative_denial_count(), Some(50));
}

#[test]
fn unseen_deallocation_tombstones_are_monotonic_and_never_reallocate() {
    let mut state = State::new();
    let domain_id = DomainId::new(40);
    let ruleset_id = RulesetId::new(41);
    for event in [
        Event::FreeDomain(FreeDomainEvent::new(timestamp(30), domain_id, 9)),
        Event::FreeDomain(FreeDomainEvent::new(timestamp(20), domain_id, 7)),
        Event::FreeDomain(FreeDomainEvent::new(timestamp(40), domain_id, 11)),
        Event::FreeRuleset(FreeRulesetEvent::new(timestamp(30), ruleset_id, 9)),
        Event::FreeRuleset(FreeRulesetEvent::new(timestamp(20), ruleset_id, 7)),
        Event::FreeRuleset(FreeRulesetEvent::new(timestamp(40), ruleset_id, 11)),
    ] {
        apply(&mut state, event);
    }
    apply(
        &mut state,
        Event::EnforceDomain(EnforceDomainEvent::new(
            timestamp(50),
            domain_id,
            1,
            true,
            true,
            true,
        )),
    );
    apply(
        &mut state,
        Event::AddRuleNet(AddRuleNetEvent::new(
            timestamp(50),
            ruleset_id,
            12,
            NetworkAccess::from_bits(1),
            80,
        )),
    );

    let domain = state.domain(domain_id).unwrap();
    assert_eq!(domain.lifecycle(), LifecycleState::Deallocated);
    assert_eq!(domain.free_timestamp(), Some(timestamp(40)));
    assert_eq!(domain.final_denial_count(), Some(11));
    assert_eq!(domain.cumulative_denial_count(), Some(11));
    let ruleset = state.ruleset(ruleset_id).unwrap();
    assert_eq!(ruleset.lifecycle(), LifecycleState::Deallocated);
    assert_eq!(ruleset.free_timestamp(), Some(timestamp(40)));
    assert_eq!(ruleset.final_version(), Some(11));
    assert_eq!(ruleset.max_observed_version(), Some(12));
}

#[test]
fn enforcement_keeps_latest_per_tid_and_survives_deallocation() {
    let mut state = State::new();
    let id = DomainId::new(50);
    assert!(state.domain(id).is_none());
    for event in [
        Event::EnforceDomain(EnforceDomainEvent::new(
            timestamp(20),
            id,
            100,
            true,
            true,
            true,
        )),
        Event::EnforceDomain(EnforceDomainEvent::new(
            timestamp(10),
            id,
            100,
            false,
            false,
            false,
        )),
        Event::EnforceDomain(EnforceDomainEvent::new(
            timestamp(25),
            id,
            100,
            false,
            false,
            false,
        )),
        Event::EnforceDomain(EnforceDomainEvent::new(
            timestamp(10),
            id,
            100,
            true,
            false,
            true,
        )),
    ] {
        apply(&mut state, event);
    }
    let selected = state.domain(id).unwrap().enforcement_event(100).unwrap();
    assert_eq!(selected.timestamp(), timestamp(25));
    assert!(!selected.complete());
    assert!(state.domain(id).unwrap().any_process_wide_enforcement());

    for event in [
        Event::EnforceDomain(EnforceDomainEvent::new(
            timestamp(25),
            id,
            100,
            true,
            false,
            false,
        )),
        Event::EnforceDomain(EnforceDomainEvent::new(
            timestamp(30),
            id,
            101,
            false,
            false,
            true,
        )),
        Event::FreeDomain(FreeDomainEvent::new(timestamp(40), id, 0)),
    ] {
        apply(&mut state, event);
    }

    let domain = state.domain(id).unwrap();
    assert_eq!(domain.lifecycle(), LifecycleState::Deallocated);
    assert_eq!(domain.enforcement_event_count(), 2);
    assert_eq!(domain.enforcement_events().len(), 2);
    let first = domain.enforcement_event(100).unwrap();
    assert_eq!(first.domain_id(), id);
    assert_eq!(first.enforcing_tid(), 100);
    assert_eq!(first.timestamp(), timestamp(25));
    assert!(first.complete());
    assert!(!first.process_wide());
    assert!(!first.no_new_privs());
    let second = domain.enforcement_event(101).unwrap();
    assert_eq!(second.domain_id(), id);
    assert_eq!(second.enforcing_tid(), 101);
    assert_eq!(second.timestamp(), timestamp(30));
    assert!(!second.complete());
    assert!(!second.process_wide());
    assert!(second.no_new_privs());
    assert!(domain.any_process_wide_enforcement());
    assert_eq!(domain.no_new_privs(), Some(false));

    apply(
        &mut state,
        Event::EnforceDomain(EnforceDomainEvent::new(
            timestamp(50),
            id,
            100,
            true,
            true,
            true,
        )),
    );
    let domain = state.domain(id).unwrap();
    assert_eq!(domain.lifecycle(), LifecycleState::Deallocated);
    assert_eq!(domain.no_new_privs(), Some(true));
}

#[test]
fn relational_placeholders_exclude_unsandboxed_zero() {
    let mut state = State::new();
    apply(
        &mut state,
        Event::DenyPtrace(DenyPtraceEvent::new(
            timestamp(1),
            context(hierarchy(60, None, 1, b"one"), 1),
            DomainMembership::Sandboxed(DomainId::new(61)),
            2,
            string(b"two"),
        )),
    );
    apply(
        &mut state,
        Event::DenyScopeSignal(DenyScopeSignalEvent::new(
            timestamp(2),
            context(hierarchy(62, None, 1, b"one"), 1),
            DomainMembership::Unsandboxed,
            2,
            string(b"two"),
        )),
    );

    let other = state.domain(DomainId::new(61)).unwrap();
    assert_eq!(other.lifecycle(), LifecycleState::Unknown);
    assert_eq!(other.cumulative_denial_count(), None);
    assert!(state.domain(DomainId::new(0)).is_none());
}

#[test]
fn unknown_is_noop_and_duplicate_lifecycle_events_are_idempotent() {
    let mut state = State::new();
    apply(
        &mut state,
        Event::Unknown(UnknownEvent::new(timestamp(1), 200, 344)),
    );
    assert_eq!(state.ruleset_count(), 0);
    assert_eq!(state.domain_count(), 0);

    let id = RulesetId::new(70);
    let create = Event::CreateRuleset(CreateRulesetEvent::new(
        timestamp(2),
        id,
        1,
        FilesystemAccess::from_bits(1),
        NetworkAccess::from_bits(2),
        ScopeAccess::from_bits(1),
    ));
    apply(&mut state, create.clone());
    apply(&mut state, create);
    assert_eq!(state.ruleset_count(), 1);
    let ruleset = state.ruleset(id).unwrap();
    assert_eq!(ruleset.lifecycle(), LifecycleState::Allocated);
    assert_eq!(ruleset.creation_timestamp(), Some(timestamp(2)));
    assert_eq!(ruleset.max_observed_version(), Some(1));
    assert_eq!(ruleset.handled_fs().unwrap().bits(), 1);
    assert_eq!(ruleset.handled_net().unwrap().bits(), 2);
    assert_eq!(ruleset.scoped().unwrap().bits(), 1);
    assert_eq!(ruleset.filesystem_rule_count(), 0);
    assert_eq!(ruleset.network_rule_count(), 0);

    let free = Event::FreeRuleset(FreeRulesetEvent::new(timestamp(3), id, 1));
    apply(&mut state, free.clone());
    apply(&mut state, free);
    assert_eq!(state.ruleset_count(), 1);
    let ruleset = state.ruleset(id).unwrap();
    assert_eq!(ruleset.lifecycle(), LifecycleState::Deallocated);
    assert_eq!(ruleset.free_timestamp(), Some(timestamp(3)));
    assert_eq!(ruleset.final_version(), Some(1));
    assert_eq!(ruleset.max_observed_version(), Some(1));
}

