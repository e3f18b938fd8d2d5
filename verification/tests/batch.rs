use landlock_observability::event::{
    CapturedString, CreateDomainEvent, DenialContext, DenyAccessFsEvent, DenyAccessNetEvent,
    DenyPtraceEvent, DenyScopeAbstractUnixSocketEvent, DenyScopeSignalEvent, DomainId,
    DomainMembership, EnforceDomainEvent, Event, FilesystemAccess, FreeDomainEvent,
    FreeRulesetEvent, HierarchySnapshot, KernelTimestamp, NetworkAccess, RulesetId, UnknownEvent,
};
use landlock_observability::lltop::batch::Batch;
use landlock_observability::lltop::records::{escape, DenialKind, Stats};

fn timestamp(seconds: u64) -> KernelTimestamp {
    KernelTimestamp::from_nanoseconds(seconds * 1_000_000_000)
}

fn captured(bytes: &[u8]) -> CapturedString {
    CapturedString::new(bytes.to_vec(), false).unwrap()
}

fn context(domain: u64, parent: Option<u64>, count: u64) -> DenialContext {
    DenialContext::new(
        HierarchySnapshot::new(
            DomainId::new(domain),
            parent.map(DomainId::new),
            10,
            captured(b"creator"),
        ),
        count,
        true,
        false,
    )
}

fn fs(seconds: u64, blockers: u32, path: &[u8]) -> Event {
    Event::DenyAccessFs(DenyAccessFsEvent::new(
        timestamp(seconds),
        context(0x10, None, seconds),
        FilesystemAccess::from_bits(blockers),
        1,
        2,
        captured(path),
    ))
}

#[test]
fn lifecycle_records_are_identity_deduplicated_and_accept_late_objects() {
    let create = Event::CreateDomain(CreateDomainEvent::new(
        timestamp(1),
        RulesetId::new(0x20),
        3,
        DomainId::new(0x10),
        None,
        42,
        captured(b"shell"),
    ));
    let mut batch = Batch::new();
    assert_eq!(
        batch.process(&create),
        [
            "DOMAIN domain=10 parent=0 ruleset=20.3 creator=shell[42] no_new_privs=?",
            "STATS domains=1/1 denials=0 (fs=0 net=0 ptrace=0 signal=0 abstract_unix=0)",
        ]
    );
    assert!(batch.process(&create).is_empty());

    let late_create = Event::CreateDomain(CreateDomainEvent::new(
        timestamp(2),
        RulesetId::new(0x30),
        4,
        DomainId::new(0x10),
        Some(DomainId::new(0x11)),
        43,
        captured(b"upgraded"),
    ));
    assert_eq!(
        batch.process(&late_create),
        [
            "DOMAIN domain=10 parent=11 ruleset=30.4 creator=upgraded[43] no_new_privs=?",
            "DOMAIN domain=11 parent=? ruleset=? creator=? no_new_privs=?",
            "STATS domains=1/2 denials=0 (fs=0 net=0 ptrace=0 signal=0 abstract_unix=0)",
        ]
    );
    assert!(batch.process(&late_create).is_empty());

    let late_free =
        Event::FreeRuleset(FreeRulesetEvent::new(timestamp(2), RulesetId::new(0xab), 7));
    assert_eq!(
        batch.process(&late_free),
        [
            "DROP_RULESET ruleset=ab.7",
            "STATS domains=1/2 denials=0 (fs=0 net=0 ptrace=0 signal=0 abstract_unix=0)",
        ]
    );
    assert!(batch.process(&late_free).is_empty());

    let late_domain =
        Event::FreeDomain(FreeDomainEvent::new(timestamp(3), DomainId::new(0xcd), 0));
    assert_eq!(
        batch.process(&late_domain),
        [
            "DOMAIN domain=cd parent=? ruleset=? creator=? no_new_privs=?",
            "STATS domains=1/3 denials=0 (fs=0 net=0 ptrace=0 signal=0 abstract_unix=0)",
        ]
    );
}

#[test]
fn enforcement_reports_weakest_observed_no_new_privs_fact() {
    let mut batch = Batch::new();
    let id = DomainId::new(0x10);
    let first = Event::EnforceDomain(EnforceDomainEvent::new(
        timestamp(1),
        id,
        100,
        false,
        true,
        true,
    ));
    let weakest = Event::EnforceDomain(EnforceDomainEvent::new(
        timestamp(2),
        id,
        101,
        true,
        true,
        false,
    ));
    let updated = Event::EnforceDomain(EnforceDomainEvent::new(
        timestamp(3),
        id,
        101,
        true,
        true,
        true,
    ));
    assert_eq!(
        batch.process(&first),
        [
            "DOMAIN domain=10 parent=? ruleset=? creator=? no_new_privs=1",
            "STATS domains=1/1 denials=0 (fs=0 net=0 ptrace=0 signal=0 abstract_unix=0)",
        ]
    );
    assert_eq!(
        batch.process(&weakest),
        [
            "DOMAIN domain=10 parent=? ruleset=? creator=? no_new_privs=0",
            "STATS domains=1/1 denials=0 (fs=0 net=0 ptrace=0 signal=0 abstract_unix=0)",
        ]
    );
    assert_eq!(
        batch.process(&updated),
        [
            "DOMAIN domain=10 parent=? ruleset=? creator=? no_new_privs=1",
            "STATS domains=1/1 denials=0 (fs=0 net=0 ptrace=0 signal=0 abstract_unix=0)",
        ]
    );
}

#[test]
fn all_denial_kinds_have_lines_relations_and_independent_counters() {
    let events = [
        fs(1, 4, b"/tmp/file"),
        Event::DenyAccessNet(DenyAccessNetEvent::new(
            timestamp(2),
            context(0x10, None, 2),
            NetworkAccess::from_bits(2),
            0,
            443,
        )),
        Event::DenyPtrace(DenyPtraceEvent::new(
            timestamp(3),
            context(0x10, None, 3),
            DomainMembership::Unsandboxed,
            20,
            captured(b"tracee"),
        )),
        Event::DenyScopeSignal(DenyScopeSignalEvent::new(
            timestamp(4),
            context(0x10, None, 4),
            DomainMembership::Sandboxed(DomainId::new(0x22)),
            21,
            captured(b"tar:get"),
        )),
        Event::DenyScopeAbstractUnixSocket(DenyScopeAbstractUnixSocketEvent::new(
            timestamp(5),
            context(0x10, None, 5),
            DomainMembership::Unsandboxed,
            22,
        )),
    ];
    let mut batch = Batch::new();
    let output = events
        .iter()
        .flat_map(|event| batch.process(event))
        .collect::<Vec<_>>()
        .join("\n");

    let denials = output
        .lines()
        .filter(|line| line.starts_with("DENIAL "))
        .collect::<Vec<_>>();
    assert_eq!(
        denials,
        [
            "DENIAL type=FS domain=10 blockers=FS:read_file target=/tmp/file count=1 age=0s same_exec=1 logged=0",
            "DENIAL type=NET domain=10 blockers=Net:connect_tcp target=dport:443 count=1 age=0s same_exec=1 logged=0",
            "DENIAL type=PTRACE domain=10 blockers=ptrace target=pid:20:tracee count=1 age=0s same_exec=1 logged=0 tracee_domain=0",
            "DENIAL type=SIGNAL domain=10 blockers=Scope:signal target=pid:21:tar\\x3aget count=1 age=0s same_exec=1 logged=0 target_domain=22",
            "DENIAL type=ABSTRACT_UNIX domain=10 blockers=Scope:abstract_unix_socket target=peer:22 count=1 age=0s same_exec=1 logged=0 peer_domain=0",
        ]
    );
    assert!(output.ends_with(
        "STATS domains=1/2 denials=5 (fs=1 net=1 ptrace=1 signal=1 abstract_unix=1)"
    ));
}

#[test]
fn denial_flags_are_rendered_exactly() {
    let event = Event::DenyAccessFs(DenyAccessFsEvent::new(
        timestamp(1),
        DenialContext::new(
            HierarchySnapshot::new(DomainId::new(0x10), None, 10, captured(b"creator")),
            1,
            false,
            true,
        ),
        FilesystemAccess::from_bits(4),
        1,
        2,
        captured(b"/tmp/file"),
    ));

    assert_eq!(
        Batch::new().process(&event)[1],
        "DENIAL type=FS domain=10 blockers=FS:read_file target=/tmp/file count=1 age=0s same_exec=0 logged=1"
    );
}

#[test]
fn unknown_access_bits_are_numeric_alongside_semantic_names() {
    let mut batch = Batch::new();
    let output = batch.process(&fs(1, 0x8000_0004, b"/x"));
    assert!(output[1].contains("blockers=FS:read_file,0x80000000"));

    let network = Event::DenyAccessNet(DenyAccessNetEvent::new(
        timestamp(2),
        context(0x10, None, 2),
        NetworkAccess::from_bits(0x8000_0001),
        7,
        9,
    ));
    let output = batch.process(&network);
    assert!(output[0].contains("blockers=Net:bind_tcp,0x80000000"));
}

#[test]
fn kernel_bytes_are_escaped_without_utf8_or_terminal_interpretation() {
    assert_eq!(
        escape(&captured(b"safe/path A=%,\\\n\x1b\xff")),
        "safe/path\\x20A\\x3d\\x25\\x2c\\x5c\\x0a\\x1b\\xff"
    );
    let create = Event::CreateDomain(CreateDomainEvent::new(
        timestamp(1),
        RulesetId::new(1),
        0,
        DomainId::new(2),
        None,
        3,
        captured(b"a b]\\\x1b"),
    ));
    assert!(Batch::new().process(&create)[0].contains("creator=a\\x20b\\x5d\\x5c\\x1b[3]"));
}

#[test]
fn network_target_direction_comes_from_access_even_for_zero_ports() {
    let mut batch = Batch::new();
    let bind = Event::DenyAccessNet(DenyAccessNetEvent::new(
        timestamp(1),
        context(1, None, 1),
        NetworkAccess::from_bits(4),
        0,
        99,
    ));
    assert!(batch.process(&bind)[1].contains("target=sport:0"));

    let connect = Event::DenyAccessNet(DenyAccessNetEvent::new(
        timestamp(2),
        context(1, None, 2),
        NetworkAccess::from_bits(8),
        99,
        0,
    ));
    assert!(batch.process(&connect)[0].contains("target=dport:0"));

    let unknown = Event::DenyAccessNet(DenyAccessNetEvent::new(
        timestamp(3),
        context(1, None, 3),
        NetworkAccess::from_bits(0x8000_0000),
        7,
        8,
    ));
    assert!(batch.process(&unknown)[0].contains("target=sport:7,dport:8"));
}

#[test]
fn aggregation_updates_count_age_and_latest_flags() {
    let mut batch = Batch::new();
    batch.process(&fs(2, 4, b"/same"));
    let output = batch.process(&fs(67, 4, b"/new-description"));
    assert!(output[0].contains("count=2 age=1m5s same_exec=1 logged=0"));
    assert!(output[0].contains("target=/new-description"));
    assert!(output[1].contains("denials=2 (fs=2"));

    let mut decreasing = Batch::new();
    decreasing.process(&fs(67, 4, b"/same"));
    let output = decreasing.process(&fs(2, 4, b"/same"));
    assert!(output[0].contains("count=2 age=0s same_exec=1 logged=0"));
}

#[test]
fn irrelevant_events_are_silent_and_stats_use_reconstructed_lifecycle() {
    let mut batch = Batch::new();
    assert!(batch
        .process(&Event::Unknown(UnknownEvent::new(timestamp(1), 99, 16)))
        .is_empty());

    let relational = Event::DenyScopeSignal(DenyScopeSignalEvent::new(
        timestamp(2),
        context(1, None, 1),
        DomainMembership::Sandboxed(DomainId::new(2)),
        3,
        captured(b"target"),
    ));
    let output = batch.process(&relational);
    assert_eq!(
        output,
        [
            "DOMAIN domain=1 parent=0 ruleset=? creator=creator[10] no_new_privs=?",
            "DOMAIN domain=2 parent=? ruleset=? creator=? no_new_privs=?",
            "DENIAL type=SIGNAL domain=1 blockers=Scope:signal target=pid:3:target count=1 age=0s same_exec=1 logged=0 target_domain=2",
            "STATS domains=1/2 denials=1 (fs=0 net=0 ptrace=0 signal=1 abstract_unix=0)",
        ]
    );

    let deallocated = batch.process(&Event::FreeDomain(FreeDomainEvent::new(
        timestamp(3),
        DomainId::new(1),
        1,
    )));
    assert_eq!(
        deallocated,
        ["STATS domains=0/2 denials=1 (fs=0 net=0 ptrace=0 signal=1 abstract_unix=0)"]
    );
}

#[test]
fn observed_stats_counters_saturate_independently() {
    let mut stats = Stats {
        total_denials: u64::MAX,
        denials: [u64::MAX, 7, 8, 9, 10],
    };
    stats.observe(DenialKind::Fs);
    assert_eq!(stats.total_denials, u64::MAX);
    assert_eq!(stats.denials, [u64::MAX, 7, 8, 9, 10]);
    stats.observe(DenialKind::Net);
    assert_eq!(stats.denials, [u64::MAX, 8, 8, 9, 10]);
}

