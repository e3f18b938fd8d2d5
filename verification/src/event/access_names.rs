//! Kernel names of the known Landlock access rights, in bit order.
use vstd::prelude::*;

verus! {

/// The number of known filesystem access rights.
pub const FILESYSTEM_ACCESS_COUNT: u32 = 17;

/// The number of known network access rights.
pub const NETWORK_ACCESS_COUNT: u32 = 4;

/// The number of known scope rights.
pub const SCOPE_COUNT: u32 = 2;

/// The kernel name of the filesystem access right at bit `index`.
pub open spec fn filesystem_access_name_spec(index: int) -> Seq<char> {
    if index == 0 {
        "execute"@
    } else if index == 1 {
        "write_file"@
    } else if index == 2 {
        "read_file"@
    } else if index == 3 {
        "read_dir"@
    } else if index == 4 {
        "remove_dir"@
    } else if index == 5 {
        "remove_file"@
    } else if index == 6 {
        "make_char"@
    } else if index == 7 {
        "make_dir"@
    } else if index == 8 {
        "make_reg"@
    } else if index == 9 {
        "make_sock"@
    } else if index == 10 {
        "make_fifo"@
    } else if index == 11 {
        "make_block"@
    } else if index == 12 {
        "make_sym"@
    } else if index == 13 {
        "refer"@
    } else if index == 14 {
        "truncate"@
    } else if index == 15 {
        "ioctl_dev"@
    } else {
        "resolve_unix"@
    }
}

/// The kernel name of the network access right at bit `index`.
pub open spec fn network_access_name_spec(index: int) -> Seq<char> {
    if index == 0 {
        "bind_tcp"@
    } else if index == 1 {
        "connect_tcp"@
    } else if index == 2 {
        "bind_udp"@
    } else {
        "connect_send_udp"@
    }
}

/// The kernel name of the scope right at bit `index`.
pub open spec fn scope_name_spec(index: int) -> Seq<char> {
    if index == 0 {
        "abstract_unix_socket"@
    } else {
        "signal"@
    }
}

/// Returns the kernel name of the filesystem access right at bit `index`.
pub fn filesystem_access_name(index: u32) -> (name: &'static str)
    requires
        index < 17,
    ensures
        name@ == filesystem_access_name_spec(index as int),
{
    match index {
        0 => "execute",
        1 => "write_file",
        2 => "read_file",
        3 => "read_dir",
        4 => "remove_dir",
        5 => "remove_file",
        6 => "make_char",
        7 => "make_dir",
        8 => "make_reg",
        9 => "make_sock",
        10 => "make_fifo",
        11 => "make_block",
        12 => "make_sym",
        13 => "refer",
        14 => "truncate",
        15 => "ioctl_dev",
        _ => "resolve_unix",
    }
}

/// Returns the kernel name of the network access right at bit `index`.
pub fn network_access_name(index: u32) -> (name: &'static str)
    requires
        index < 4,
    ensures
        name@ == network_access_name_spec(index as int),
{
    match index {
        0 => "bind_tcp",
        1 => "connect_tcp",
        2 => "bind_udp",
        _ => "connect_send_udp",
    }
}

/// Returns the kernel name of the scope right at bit `index`.
pub fn scope_name(index: u32) -> (name: &'static str)
    requires
        index < 2,
    ensures
        name@ == scope_name_spec(index as int),
{
    match index {
        0 => "abstract_unix_socket",
        _ => "signal",
    }
}

} // verus!
