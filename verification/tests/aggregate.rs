use landlock_observability::aggregate::{
    AbstractUnixSocketDenialKey, DenialAggregator, DenialKey, FilesystemDenialKey,
    InvalidCapacityError, NetworkDenialKey, PtraceDenialKey, SignalDenialKey,
};
use landlock_observability::event::{
    CapturedString, DenialContext, DenyAccessFsEvent, DenyAccessNetEvent, DenyPtraceEvent,
    DenyScopeAbstractUnixSocketEvent, DenyScopeSignalEvent, DomainId, DomainMembership, Event,
    FilesystemAccess, FreeDomainEvent, HierarchySnapshot, KernelTimestamp, NetworkAccess,
    UnknownEvent,
};

fn string(value: &[u8]) -> CapturedString {
    CapturedString::new(value.to_vec(), false).unwrap()
}

fn context(domain: u64, cumulative: u64, same_exec: bool, logged: bool) -> DenialContext {
    DenialContext::new(
        HierarchySnapshot::new(DomainId::new(domain), None, 10, string(b"creator")),
        cumulative,
        same_exec,
        logged,
    )
}

fn fs(
    timestamp: u64,
    domain: u64,
    cumulative: u64,
    blockers: u32,
    target: (u32, u64, &[u8]),
    flags: (bool, bool),
) -> Event {
    Event::DenyAccessFs(DenyAccessFsEvent::new(
        KernelTimestamp::from_nanoseconds(timestamp),
        context(domain, cumulative, flags.0, flags.1),
        FilesystemAccess::from_bits(blockers),
        target.0,
        target.1,
        string(target.2),
    ))
}

fn network(timestamp: u64, domain: u64, blockers: u32, ports: (u64, u64)) -> Event {
    Event::DenyAccessNet(DenyAccessNetEvent::new(
        KernelTimestamp::from_nanoseconds(timestamp),
        context(domain, 1, false, true),
        NetworkAccess::from_bits(blockers),
        ports.0,
        ports.1,
    ))
}

#[test]
fn keys_cover_all_denial_families_and_fields() {
    let ptrace = Event::DenyPtrace(DenyPtraceEvent::new(
        KernelTimestamp::from_nanoseconds(3),
        context(12, 1, false, false),
        DomainMembership::Sandboxed(DomainId::new(20)),
        30,
        string(b"tracee"),
    ));
    let signal = Event::DenyScopeSignal(DenyScopeSignalEvent::new(
        KernelTimestamp::from_nanoseconds(4),
        context(13, 1, false, false),
        DomainMembership::Unsandboxed,
        31,
        string(b"target"),
    ));
    let unix = Event::DenyScopeAbstractUnixSocket(DenyScopeAbstractUnixSocketEvent::new(
        KernelTimestamp::from_nanoseconds(5),
        context(14, 1, false, false),
        DomainMembership::Sandboxed(DomainId::new(21)),
        32,
    ));
    let mut aggregator = DenialAggregator::new();
    aggregator.observe(&fs(1, 10, 1, 0x8000_0001, (2, 3, b"/a"), (false, false)));
    aggregator.observe(&network(2, 11, 0x8000_0002, (100, 200)));
    aggregator.observe(&ptrace);
    aggregator.observe(&signal);
    aggregator.observe(&unix);

    assert_eq!(aggregator.len(), 5);
    let fs_key = DenialKey::Filesystem(FilesystemDenialKey::new(
        DomainId::new(10),
        FilesystemAccess::from_bits(0x8000_0001),
        2,
        3,
    ));
    let network_key = DenialKey::Network(NetworkDenialKey::new(
        DomainId::new(11),
        NetworkAccess::from_bits(0x8000_0002),
        100,
        200,
    ));
    let ptrace_key = DenialKey::Ptrace(PtraceDenialKey::new(
        DomainId::new(12),
        DomainMembership::Sandboxed(DomainId::new(20)),
        30,
        string(b"tracee"),
    ));
    let signal_key = DenialKey::Signal(SignalDenialKey::new(
        DomainId::new(13),
        DomainMembership::Unsandboxed,
        31,
        string(b"target"),
    ));
    let unix_key = DenialKey::AbstractUnixSocket(AbstractUnixSocketDenialKey::new(
        DomainId::new(14),
        DomainMembership::Sandboxed(DomainId::new(21)),
        32,
    ));
    assert!(aggregator.get(&fs_key).is_some());
    assert!(aggregator.get(&network_key).is_some());
    assert!(aggregator.get(&ptrace_key).is_some());
    assert!(aggregator.get(&signal_key).is_some());
    assert!(aggregator.get(&unix_key).is_some());
    assert_eq!(fs_key.domain_id(), DomainId::new(10));

    let DenialKey::Filesystem(key) = fs_key else {
        panic!("filesystem key changed variant");
    };
    assert_eq!(key.blockers().bits(), 0x8000_0001);
    assert_eq!((key.device(), key.inode()), (2, 3));
    let DenialKey::Network(key) = network_key else {
        panic!("network key changed variant");
    };
    assert_eq!(key.blockers().bits(), 0x8000_0002);
    assert_eq!((key.source_port(), key.destination_port()), (100, 200));
    let DenialKey::Ptrace(key) = ptrace_key else {
        panic!("ptrace key changed variant");
    };
    assert_eq!(
        key.tracee_domain(),
        DomainMembership::Sandboxed(DomainId::new(20))
    );
    assert_eq!(key.tracee_pid(), 30);
    assert_eq!(key.tracee_comm().as_bytes(), b"tracee");
    let DenialKey::Signal(key) = signal_key else {
        panic!("signal key changed variant");
    };
    assert_eq!(key.target_domain(), DomainMembership::Unsandboxed);
    assert_eq!(key.target_pid(), 31);
    assert_eq!(key.target_comm().as_bytes(), b"target");
    let DenialKey::AbstractUnixSocket(key) = unix_key else {
        panic!("abstract UNIX key changed variant");
    };
    assert_eq!(
        key.peer_domain(),
        DomainMembership::Sandboxed(DomainId::new(21))
    );
    assert_eq!(key.peer_pid(), 32);
}

#[test]
fn matching_filesystem_events_keep_ingestion_order_and_latest_path() {
    let first = fs(50, 7, 900, 1, (2, 3, b"/old"), (false, true));
    let latest = fs(40, 7, 4, 1, (2, 3, b"/new"), (true, false));
    let equal = fs(40, 7, 1000, 1, (2, 3, b"/equal"), (false, true));
    let mut aggregator = DenialAggregator::new();
    aggregator.observe(&first);
    aggregator.observe(&latest);
    let entry = aggregator.observe_entry(&equal).unwrap();
    assert_eq!(entry.occurrence_count(), 3);
    assert_eq!(entry.first_timestamp().as_nanoseconds(), 50);
    assert_eq!(entry.latest_timestamp().as_nanoseconds(), 40);
    assert!(!entry.same_exec());
    assert!(entry.logged());
    let Event::DenyAccessFs(latest) = entry.latest_event() else {
        panic!("latest event is not a filesystem denial");
    };
    assert_eq!(latest.timestamp().as_nanoseconds(), 40);
    assert_eq!(latest.pathname().as_bytes(), b"/equal");
    assert_eq!(latest.context().cumulative_denial_count(), 1000);
}

#[test]
fn identity_dimensions_remain_distinct() {
    let task_denial = |signal, domain_membership, task_pid, task_comm: &[u8]| {
        let timestamp = KernelTimestamp::from_nanoseconds(1);
        let context = context(1, 1, false, false);
        if signal {
            Event::DenyScopeSignal(DenyScopeSignalEvent::new(
                timestamp,
                context,
                domain_membership,
                task_pid,
                string(task_comm),
            ))
        } else {
            Event::DenyPtrace(DenyPtraceEvent::new(
                timestamp,
                context,
                domain_membership,
                task_pid,
                string(task_comm),
            ))
        }
    };
    let unix_denial = |peer_domain, peer_pid| {
        Event::DenyScopeAbstractUnixSocket(DenyScopeAbstractUnixSocketEvent::new(
            KernelTimestamp::from_nanoseconds(1),
            context(1, 1, false, false),
            peer_domain,
            peer_pid,
        ))
    };
    let events = [
        fs(1, 1, 1, 1, (1, 1, b"/a"), (false, false)),
        fs(1, 2, 1, 1, (1, 1, b"/a"), (false, false)),
        fs(1, 1, 1, 2, (1, 1, b"/a"), (false, false)),
        fs(1, 1, 1, 1, (2, 1, b"/a"), (false, false)),
        fs(1, 1, 1, 1, (1, 2, b"/a"), (false, false)),
        network(1, 1, 1, (1, 1)),
        network(1, 1, 1, (2, 1)),
        network(1, 1, 1, (1, 2)),
        task_denial(false, DomainMembership::Unsandboxed, 1, b"task"),
        task_denial(true, DomainMembership::Unsandboxed, 1, b"task"),
        task_denial(
            false,
            DomainMembership::Sandboxed(DomainId::new(2)),
            1,
            b"task",
        ),
        task_denial(false, DomainMembership::Unsandboxed, 2, b"task"),
        task_denial(false, DomainMembership::Unsandboxed, 1, b"other"),
        unix_denial(DomainMembership::Unsandboxed, 1),
        unix_denial(DomainMembership::Sandboxed(DomainId::new(2)), 1),
        unix_denial(DomainMembership::Unsandboxed, 2),
    ];
    let mut aggregator = DenialAggregator::new();
    for event in &events {
        aggregator.observe(event);
    }
    assert_eq!(aggregator.len(), events.len());
}

#[test]
fn unknown_bits_and_domain_membership_are_identity() {
    let signal = |target_domain| {
        Event::DenyScopeSignal(DenyScopeSignalEvent::new(
            KernelTimestamp::from_nanoseconds(1),
            context(1, 1, false, false),
            target_domain,
            2,
            string(b"target"),
        ))
    };
    let mut aggregator = DenialAggregator::new();
    aggregator.observe(&fs(1, 1, 1, 1, (1, 1, b"/a"), (false, false)));
    aggregator.observe(&fs(1, 1, 1, 0x8000_0001, (1, 1, b"/a"), (false, false)));
    aggregator.observe(&signal(DomainMembership::Unsandboxed));
    aggregator.observe(&signal(DomainMembership::Sandboxed(DomainId::new(2))));
    assert_eq!(aggregator.len(), 4);
}

#[test]
fn non_denials_and_unknown_events_are_ignored() {
    let mut aggregator = DenialAggregator::new();
    aggregator.observe(&Event::FreeDomain(FreeDomainEvent::new(
        KernelTimestamp::from_nanoseconds(1),
        DomainId::new(1),
        2,
    )));
    aggregator.observe(&Event::Unknown(UnknownEvent::new(
        KernelTimestamp::from_nanoseconds(2),
        99,
        344,
    )));
    assert!(aggregator.is_empty());
    assert_eq!(aggregator.len(), 0);
    assert_eq!(aggregator.capacity(), 1000);
}

#[test]
fn capacity_is_checked_and_exact() {
    assert_eq!(
        DenialAggregator::with_capacity(0).unwrap_err(),
        InvalidCapacityError
    );
    assert_eq!(
        InvalidCapacityError.to_string(),
        "denial aggregation capacity must be nonzero"
    );

    let mut aggregator = DenialAggregator::with_capacity(1).unwrap();
    assert_eq!(aggregator.capacity(), 1);
    aggregator.observe(&fs(1, 1, 1, 1, (1, 1, b"/a"), (false, false)));
    aggregator.observe(&fs(1, 2, 1, 1, (1, 1, b"/b"), (false, false)));
    assert_eq!(aggregator.len(), 1);
    assert_eq!(
        aggregator.entries().first().unwrap().key().domain_id(),
        DomainId::new(2)
    );
}

#[test]
fn counters_do_not_panic_at_their_numeric_limits() {
    let first = fs(1, 1, 1, 1, (1, 1, b"/first"), (false, false));
    let second = fs(1, 2, 1, 1, (1, 1, b"/second"), (false, false));
    let third = fs(1, 3, 1, 1, (1, 1, b"/third"), (false, false));
    let first_key = DenialKey::Filesystem(FilesystemDenialKey::new(
        DomainId::new(1),
        FilesystemAccess::from_bits(1),
        1,
        1,
    ));
    let second_key = DenialKey::Filesystem(FilesystemDenialKey::new(
        DomainId::new(2),
        FilesystemAccess::from_bits(1),
        1,
        1,
    ));
    let mut aggregator = DenialAggregator::with_capacity(2).unwrap();
    aggregator.observe(&first);
    aggregator.observe(&second);
    assert!(aggregator.set_occurrence_count(&first_key, u64::MAX));
    aggregator.observe(&first);
    aggregator.set_ingestion_sequence(u128::MAX);

    aggregator.observe(&third);

    assert_eq!(
        aggregator.get(&first_key).unwrap().occurrence_count(),
        u64::MAX
    );
    assert!(aggregator.get(&second_key).is_none());
}

#[test]
fn lru_hits_refresh_recency_independently_of_timestamps() {
    let first = fs(7, 1, 1, 1, (1, 1, b"/first"), (false, false));
    let second = fs(7, 2, 1, 1, (1, 1, b"/second"), (false, false));
    let third = fs(7, 3, 1, 1, (1, 1, b"/third"), (false, false));
    let first_key = DenialKey::Filesystem(FilesystemDenialKey::new(
        DomainId::new(1),
        FilesystemAccess::from_bits(1),
        1,
        1,
    ));
    let second_key = DenialKey::Filesystem(FilesystemDenialKey::new(
        DomainId::new(2),
        FilesystemAccess::from_bits(1),
        1,
        1,
    ));
    let third_key = DenialKey::Filesystem(FilesystemDenialKey::new(
        DomainId::new(3),
        FilesystemAccess::from_bits(1),
        1,
        1,
    ));
    let mut aggregator = DenialAggregator::with_capacity(2).unwrap();
    aggregator.observe(&first);
    aggregator.observe(&second);
    aggregator.observe(&first);
    aggregator.observe(&third);

    assert_eq!(aggregator.len(), 2);
    assert!(aggregator.get(&first_key).is_some());
    assert!(aggregator.get(&second_key).is_none());
    assert!(aggregator.get(&third_key).is_some());
    assert_eq!(aggregator.get(&first_key).unwrap().occurrence_count(), 2);
}

