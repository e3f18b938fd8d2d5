use landlock_observability::event::{CapturedString, FilesystemAccess, NetworkAccess, ScopeAccess};
use landlock_observability::lltop::format::{
    escape, filesystem, filesystem_rights, network, network_rights, scope, scope_rights, wrap,
};

#[test]
fn access_rights_support_prefixed_denials_and_unprefixed_fields() {
    let fs_access = FilesystemAccess::from_bits((1 << 2) | 0x8000_0000);
    let net_access = NetworkAccess::from_bits((1 << 1) | 0x8000_0000);
    let scoped = ScopeAccess::from_bits((1 << 1) | 0x8000_0000);

    assert_eq!(filesystem_rights(fs_access), "read_file, 0x80000000");
    assert_eq!(network_rights(net_access), "connect_tcp, 0x80000000");
    assert_eq!(scope_rights(scoped), "signal, 0x80000000");
    assert_eq!(filesystem(fs_access), "FS: read_file, 0x80000000");
    assert_eq!(network(net_access), "Net: connect_tcp, 0x80000000");
    assert_eq!(scope(scoped), "Scope: signal, 0x80000000");
}

#[test]
fn escaping_blocks_terminal_control_and_marks_truncation() {
    let value = CapturedString::new(b"a b,\\\n\x1b\xff".to_vec(), true).unwrap();
    assert_eq!(escape(&value), "a\\x20b\\x2c\\x5c\\x0a\\x1b\\xff…");
}

#[test]
fn wrapping_prefers_semantic_boundaries_and_is_utf8_safe() {
    assert_eq!(
        wrap("read_file, write_file", 12, 10),
        ["read_file, ", "write_file"]
    );
    assert_eq!(wrap("/long/path/name", 10, 8), ["/long/", "path/", "name"]);
    assert_eq!(wrap("éééé", 2, 2), ["éé", "éé"]);
    assert_eq!(wrap("界界", 2, 2), ["界", "界"]);
    assert_eq!(wrap("🔕x", 2, 2), ["🔕", "x"]);
    assert_eq!(wrap("🔔x", 2, 2), ["🔔", "x"]);
    assert_eq!(wrap("abcdef", 3, 2), ["abc", "de", "f"]);
}
