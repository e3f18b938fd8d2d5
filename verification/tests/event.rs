use landlock_observability::event::{
    DomainId, DomainMembership, FilesystemAccess, KernelTimestamp, NetworkAccess, RulesetId,
    ScopeAccess,
};

#[test]
fn access_names_and_unknown_bits() {
    let fs = FilesystemAccess::from_bits(u32::MAX);
    let network = NetworkAccess::from_bits((1 << 31) | 0b0101);
    let scope = ScopeAccess::from_bits((1 << 31) | 0b10);

    assert_eq!(FilesystemAccess::all_known_names().len(), 17);
    assert_eq!(NetworkAccess::all_known_names().len(), 4);
    assert_eq!(ScopeAccess::all_known_names().len(), 2);
    assert_eq!(fs.known_names().len(), 17);
    assert_eq!(fs.known_bits(), 0x1ffff);
    assert_eq!(fs.unknown_bits(), 0xfffe0000);
    assert_eq!(network.bits(), 0x80000005);
    assert_eq!(network.known_bits(), 5);
    assert_eq!(network.unknown_bits(), 1 << 31);
    assert_eq!(scope.known_bits(), 2);
    assert_eq!(scope.unknown_bits(), 1 << 31);
    assert_eq!(
        network
            .known_names()
            .into_iter()
            .map(|name| (name.bit(), name.as_str()))
            .collect::<Vec<_>>(),
        vec![(1, "bind_tcp"), (4, "bind_udp")]
    );
}

#[test]
fn scalar_public_constructors() {
    assert_eq!(RulesetId::new(7).get(), 7);
    assert_eq!(DomainId::new(9).get(), 9);
    assert_eq!(KernelTimestamp::from_nanoseconds(11).as_nanoseconds(), 11);
    assert_eq!(DomainMembership::Unsandboxed.domain_id(), None);
    assert_eq!(
        DomainMembership::Sandboxed(DomainId::new(9)).domain_id(),
        Some(DomainId::new(9))
    );
}

