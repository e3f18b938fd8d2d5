use landlock_observability::event::{
    AddRuleFsEvent, AddRuleNetEvent, CapturedString, CreateDomainEvent, CreateRulesetEvent,
    DenialContext, DenyAccessFsEvent, DomainId, EnforceDomainEvent, Event, FilesystemAccess,
    FreeDomainEvent, FreeRulesetEvent, HierarchySnapshot, KernelTimestamp, NetworkAccess,
    RulesetId, ScopeAccess,
};
use landlock_observability::state::{DomainParent, LifecycleState, State};

fn at(nanoseconds: u64) -> KernelTimestamp {
    KernelTimestamp::from_nanoseconds(nanoseconds)
}

fn captured(bytes: &[u8]) -> CapturedString {
    CapturedString::new(bytes.to_vec(), false).unwrap()
}

fn create(time: u64, id: u64, parent: Option<u64>) -> Event {
    Event::CreateDomain(CreateDomainEvent::new(
        at(time),
        RulesetId::new(1),
        2,
        DomainId::new(id),
        parent.map(DomainId::new),
        7,
        captured(b"shell"),
    ))
}

fn denial(time: u64, id: u64, parent: Option<u64>, count: u64) -> Event {
    Event::DenyAccessFs(DenyAccessFsEvent::new(
        at(time),
        DenialContext::new(
            HierarchySnapshot::new(DomainId::new(id), parent.map(DomainId::new), 7, captured(b"x")),
            count,
            true,
            false,
        ),
        FilesystemAccess::from_bits(4),
        1,
        2,
        captured(b"/f"),
    ))
}

fn enforce(time: u64, id: u64, tid: u32, process_wide: bool, no_new_privs: bool) -> Event {
    Event::EnforceDomain(EnforceDomainEvent::new(
        at(time),
        DomainId::new(id),
        tid,
        true,
        process_wide,
        no_new_privs,
    ))
}

fn applied(events: &[Event]) -> State {
    let mut state = State::new();
    for event in events {
        state.apply(event);
    }
    state
}

#[test]
fn lifecycle_follows_the_strongest_observation() {
    let state = applied(&[denial(1, 10, Some(11), 3), create(2, 12, None)]);
    assert_eq!(state.domain(DomainId::new(10)).unwrap().lifecycle(), LifecycleState::Allocated);
    assert_eq!(state.domain(DomainId::new(11)).unwrap().lifecycle(), LifecycleState::Unknown);
    assert_eq!(state.domain_count(), 3);
    let state = applied(&[
        Event::FreeDomain(FreeDomainEvent::new(at(5), DomainId::new(10), 4)),
        enforce(6, 10, 1, false, true),
    ]);
    assert_eq!(state.domain(DomainId::new(10)).unwrap().lifecycle(), LifecycleState::Deallocated);
}

#[test]
fn enforcement_keeps_the_latest_per_thread_and_any_process_wide() {
    let state = applied(&[
        enforce(20, 5, 1, true, true),
        enforce(25, 5, 1, false, false),
        enforce(10, 5, 1, true, true),
        enforce(30, 5, 2, false, true),
        enforce(30, 5, 2, false, false),
    ]);
    let domain = state.domain(DomainId::new(5)).unwrap();
    assert!(domain.any_process_wide_enforcement());
    assert_eq!(domain.enforcement_event_count(), 2);
    assert_eq!(domain.enforcement_event(1).unwrap().timestamp(), at(25));
    assert!(!domain.enforcement_event(2).unwrap().no_new_privs());
    assert!(domain.enforcement_event(3).is_none());
    assert_eq!(domain.no_new_privs(), Some(false));
}

#[test]
fn denial_counts_take_the_greatest_report() {
    let state = applied(&[
        denial(1, 10, None, 5),
        denial(2, 10, None, 3),
        Event::FreeDomain(FreeDomainEvent::new(at(3), DomainId::new(10), 4)),
        Event::FreeDomain(FreeDomainEvent::new(at(2), DomainId::new(10), 2)),
    ]);
    let domain = state.domain(DomainId::new(10)).unwrap();
    assert_eq!(domain.cumulative_denial_count(), Some(5));
    assert_eq!(domain.final_denial_count(), Some(4));
    assert_eq!(domain.free_timestamp(), Some(at(3)));
    let state = applied(&[enforce(1, 11, 1, false, true)]);
    assert_eq!(state.domain(DomainId::new(11)).unwrap().cumulative_denial_count(), None);
}

#[test]
fn parent_comes_from_the_latest_creation_else_the_first_denial() {
    let state = applied(&[denial(1, 10, Some(20), 1), denial(2, 10, Some(21), 1)]);
    assert_eq!(
        state.domain(DomainId::new(10)).unwrap().parent(),
        Some(DomainParent::Domain(DomainId::new(20)))
    );
    let state = applied(&[
        denial(1, 10, Some(20), 1),
        create(5, 10, None),
        create(4, 10, Some(30)),
    ]);
    assert_eq!(state.domain(DomainId::new(10)).unwrap().parent(), Some(DomainParent::Root));
}

#[test]
fn ruleset_rules_unite_their_accesses() {
    let id = RulesetId::new(9);
    let state = applied(&[
        Event::AddRuleFs(AddRuleFsEvent::new(
            at(1),
            id,
            1,
            FilesystemAccess::from_bits(1),
            3,
            4,
            captured(b"/a"),
        )),
        Event::AddRuleFs(AddRuleFsEvent::new(
            at(2),
            id,
            3,
            FilesystemAccess::from_bits(2),
            3,
            4,
            captured(b"/b"),
        )),
        Event::AddRuleNet(AddRuleNetEvent::new(at(3), id, 2, NetworkAccess::from_bits(1), 80)),
        Event::CreateRuleset(CreateRulesetEvent::new(
            at(0),
            id,
            0,
            FilesystemAccess::from_bits(3),
            NetworkAccess::from_bits(1),
            ScopeAccess::from_bits(0),
        )),
        Event::FreeRuleset(FreeRulesetEvent::new(at(9), id, 4)),
    ]);
    let ruleset = state.ruleset(id).unwrap();
    assert_eq!(ruleset.lifecycle(), LifecycleState::Deallocated);
    assert_eq!(ruleset.max_observed_version(), Some(4));
    assert_eq!(ruleset.final_version(), Some(4));
    assert_eq!(ruleset.handled_fs(), Some(FilesystemAccess::from_bits(3)));
    let rule = ruleset.filesystem_rule(3, 4).unwrap();
    assert_eq!(rule.access_rights(), FilesystemAccess::from_bits(3));
    assert_eq!(rule.pathname().as_bytes(), b"/b");
    assert_eq!(ruleset.network_rule(80).unwrap().access_rights(), NetworkAccess::from_bits(1));
    assert!(ruleset.network_rule(81).is_none());
}
