//! The lines of the batch protocol: one record per line, fields separated by
//! spaces, kernel bytes escaped so that no field holds a space or a control
//! character.
use vstd::prelude::*;

use super::text::{
    decimal_text, escaped_text, hex_text, push_decimal, push_escaped, push_hex, push_str,
    string_from_chars,
};
use crate::aggregate::{AggregatedDenial, AggregatedDenialView};
use crate::event::{
    known_mask, known_names_of, AccessFamily, CapturedString, CapturedStringView, DomainId, DomainMembership,
    Event, EventView, FilesystemAccess, NetworkAccess, RulesetId, ScopeAccess,
};
use crate::state::{DomainParent, DomainState, DomainView};

verus! {

/// The number of denial kinds.
pub const DENIAL_KIND_COUNT: usize = 5;

/// The five kinds of Landlock denials, in the order of their counters.
#[derive(Clone, Copy, Debug, PartialEq, Eq, Structural)]
pub enum DenialKind {
    Fs,
    Net,
    Ptrace,
    Signal,
    AbstractUnix,
}

impl DenialKind {
    /// The position of the kind's counter.
    pub open spec fn position(self) -> nat {
        match self {
            DenialKind::Fs => 0,
            DenialKind::Net => 1,
            DenialKind::Ptrace => 2,
            DenialKind::Signal => 3,
            DenialKind::AbstractUnix => 4,
        }
    }

    /// The kind's name in denial records.
    pub open spec fn label_text(self) -> Seq<char> {
        match self {
            DenialKind::Fs => "FS"@,
            DenialKind::Net => "NET"@,
            DenialKind::Ptrace => "PTRACE"@,
            DenialKind::Signal => "SIGNAL"@,
            DenialKind::AbstractUnix => "ABSTRACT_UNIX"@,
        }
    }

    /// The kind's name in statistics records.
    pub open spec fn stats_label_text(self) -> Seq<char> {
        match self {
            DenialKind::Fs => "fs"@,
            DenialKind::Net => "net"@,
            DenialKind::Ptrace => "ptrace"@,
            DenialKind::Signal => "signal"@,
            DenialKind::AbstractUnix => "abstract_unix"@,
        }
    }

    /// The kind of a denial event, or `None` for every other event.
    pub open spec fn of_event(event: EventView) -> Option<DenialKind> {
        match event {
            EventView::DenyAccessFs(_) => Some(DenialKind::Fs),
            EventView::DenyAccessNet(_) => Some(DenialKind::Net),
            EventView::DenyPtrace(_) => Some(DenialKind::Ptrace),
            EventView::DenyScopeSignal(_) => Some(DenialKind::Signal),
            EventView::DenyScopeAbstractUnixSocket(_) => Some(DenialKind::AbstractUnix),
            _ => None,
        }
    }

    /// Returns the position of the kind's counter.
    pub fn index(self) -> (index: usize)
        ensures
            index == self.position(),
            index < DENIAL_KIND_COUNT,
    {
        match self {
            DenialKind::Fs => 0,
            DenialKind::Net => 1,
            DenialKind::Ptrace => 2,
            DenialKind::Signal => 3,
            DenialKind::AbstractUnix => 4,
        }
    }

    /// Returns the kind's name in denial records.
    pub fn label(self) -> (label: &'static str)
        ensures
            label@ == self.label_text(),
    {
        match self {
            DenialKind::Fs => "FS",
            DenialKind::Net => "NET",
            DenialKind::Ptrace => "PTRACE",
            DenialKind::Signal => "SIGNAL",
            DenialKind::AbstractUnix => "ABSTRACT_UNIX",
        }
    }

    /// Returns the kind's name in statistics records.
    pub fn stats_label(self) -> (label: &'static str)
        ensures
            label@ == self.stats_label_text(),
    {
        match self {
            DenialKind::Fs => "fs",
            DenialKind::Net => "net",
            DenialKind::Ptrace => "ptrace",
            DenialKind::Signal => "signal",
            DenialKind::AbstractUnix => "abstract_unix",
        }
    }

    /// Returns the kind of a denial event, or `None` for every other event.
    pub fn from_event(event: &Event) -> (kind: Option<DenialKind>)
        ensures
            kind == DenialKind::of_event(event@),
    {
        match event {
            Event::DenyAccessFs(_) => Some(DenialKind::Fs),
            Event::DenyAccessNet(_) => Some(DenialKind::Net),
            Event::DenyPtrace(_) => Some(DenialKind::Ptrace),
            Event::DenyScopeSignal(_) => Some(DenialKind::Signal),
            Event::DenyScopeAbstractUnixSocket(_) => Some(DenialKind::AbstractUnix),
            _ => None,
        }
    }
}

/// Denial counters: the total and one per kind, each saturating at
/// [`u64::MAX`].
pub struct Stats {
    pub total_denials: u64,
    pub denials: [u64; 5],
}

/// `count + 1`, saturating at [`u64::MAX`].
pub open spec fn saturated_increment(count: u64) -> u64 {
    if count == u64::MAX {
        count
    } else {
        (count + 1) as u64
    }
}

impl Stats {
    /// Counts one denial of `kind`.
    pub fn observe(&mut self, kind: DenialKind)
        ensures
            final(self).total_denials == saturated_increment(old(self).total_denials),
            final(self).denials@ == old(self).denials@.update(
                kind.position() as int,
                saturated_increment(old(self).denials@[kind.position() as int]),
            ),
    {
        self.total_denials = self.total_denials.saturating_add(1);
        let index = kind.index();
        let counter = self.denials[index];
        self.denials[index] = counter.saturating_add(1);
    }
}

impl Default for Stats {
    fn default() -> (stats: Self)
        ensures
            stats.total_denials == 0,
            stats.denials@ == seq![0u64, 0u64, 0u64, 0u64, 0u64],
    {
        Stats { total_denials: 0, denials: [0, 0, 0, 0, 0] }
    }
}

/// A ruleset identity and version: the hexadecimal ID, a dot and the
/// decimal version.
pub open spec fn ruleset_text(id: RulesetId, version: u32) -> Seq<char> {
    hex_text(id@ as nat) + "."@ + decimal_text(version as nat)
}

/// A known parent: `0` for a root domain, the parent's hexadecimal ID, or
/// `?` when unknown.
pub open spec fn parent_text(parent: Option<DomainParent>) -> Seq<char> {
    match parent {
        None => "?"@,
        Some(DomainParent::Root) => "0"@,
        Some(DomainParent::Domain(id)) => hex_text(id@ as nat),
    }
}

/// The creator as its escaped command and thread-group ID in brackets, or `?`
/// unless both are known.
pub open spec fn creator_text(comm: Option<CapturedStringView>, tgid: Option<u32>) -> Seq<char> {
    match (comm, tgid) {
        (Some(comm), Some(tgid)) => escaped_text(comm.bytes) + "["@ + decimal_text(tgid as nat)
            + "]"@,
        _ => "?"@,
    }
}

/// A known boolean as `1` or `0`.
pub open spec fn flag_text(value: bool) -> Seq<char> {
    decimal_text(if value { 1 } else { 0 })
}

/// An optional boolean as `1` or `0`, or `?` when unknown.
pub open spec fn optional_flag_text(value: Option<bool>) -> Seq<char> {
    match value {
        None => "?"@,
        Some(true) => "1"@,
        Some(false) => "0"@,
    }
}

/// The record of a domain's reconstructed facts.
pub open spec fn domain_record(domain: DomainView) -> Seq<char> {
    "DOMAIN domain="@ + hex_text(domain.id@ as nat) + " parent="@ + parent_text(domain.parent)
        + " ruleset="@ + match domain.ruleset {
        None => "?"@,
        Some((id, version)) => ruleset_text(id, version),
    } + " creator="@ + creator_text(domain.creator_comm, domain.creator_tgid) + " no_new_privs="@
        + optional_flag_text(domain.no_new_privs())
}

/// The parts joined with `separator` between consecutive parts.
pub open spec fn joined(parts: Seq<Seq<char>>, separator: Seq<char>) -> Seq<char>
    decreases parts.len(),
{
    if parts.len() == 0 {
        Seq::empty()
    } else if parts.len() == 1 {
        parts[0]
    } else {
        joined(parts.drop_last(), separator) + separator + parts.last()
    }
}

/// The names of `(bit, name)` pairs, in order.
pub open spec fn names_only(names: Seq<(u32, Seq<char>)>) -> Seq<Seq<char>> {
    names.map_values(|pair: (u32, Seq<char>)| pair.1)
}

/// The rights that blocked an operation: the family prefix, a colon and the
/// known names followed by the unknown bits in hexadecimal, comma-separated;
/// `0x0` when no bit is set.
pub open spec fn blockers_text(prefix: Seq<char>, names: Seq<Seq<char>>, unknown: u32) -> Seq<char> {
    let parts = if unknown != 0 {
        names.push("0x"@ + hex_text(unknown as nat))
    } else {
        names
    };
    if parts.len() == 0 {
        "0x"@ + hex_text(unknown as nat)
    } else {
        prefix + ":"@ + joined(parts, ","@)
    }
}

/// Whether one of the names starts with `prefix`.
pub open spec fn any_name_starts_with(names: Seq<(u32, Seq<char>)>, prefix: Seq<char>) -> bool {
    exists|i: int| 0 <= i < names.len() && prefix.is_prefix_of(#[trigger] names[i].1)
}

/// The ports of a network denial: the source port for a bind-only denial,
/// the destination port for a connect-only one, and both otherwise.
pub open spec fn network_target_text(
    blockers: u32,
    source_port: u64,
    destination_port: u64,
    separator: Seq<char>,
) -> Seq<char> {
    let names = known_names_of(AccessFamily::Network, blockers);
    let bind = any_name_starts_with(names, "bind_"@);
    let connect = any_name_starts_with(names, "connect_"@);
    if bind && !connect {
        "sport:"@ + decimal_text(source_port as nat)
    } else if !bind && connect {
        "dport:"@ + decimal_text(destination_port as nat)
    } else {
        "sport:"@ + decimal_text(source_port as nat) + separator + "dport:"@ + decimal_text(
            destination_port as nat,
        )
    }
}

/// The age of an aggregated denial: whole seconds under a minute, minutes and
/// seconds under an hour, hours and minutes beyond.
pub open spec fn elapsed_text(first_ns: u64, latest_ns: u64) -> Seq<char> {
    let seconds: nat = if latest_ns >= first_ns {
        ((latest_ns - first_ns) / 1_000_000_000) as nat
    } else {
        0
    };
    if seconds < 60 {
        decimal_text(seconds) + "s"@
    } else if seconds < 3600 {
        decimal_text(seconds / 60) + "m"@ + decimal_text(seconds % 60) + "s"@
    } else {
        decimal_text(seconds / 3600) + "h"@ + decimal_text((seconds % 3600) / 60) + "m"@
    }
}

/// The kernel ID of a membership, `0` for an unsandboxed party.
pub open spec fn membership_value(membership: DomainMembership) -> u64 {
    match membership {
        DomainMembership::Unsandboxed => 0,
        DomainMembership::Sandboxed(id) => id@,
    }
}

/// The relation of a task denial to the other party's domain.
pub open spec fn relation_text(label: Seq<char>, membership: DomainMembership) -> Seq<char> {
    " "@ + label + "="@ + hex_text(membership_value(membership) as nat)
}

/// The denying domain, blockers, target and relation of a denial event.
pub open spec fn denial_fields(event: EventView) -> (DomainId, Seq<char>, Seq<char>, Seq<char>) {
    match event {
        EventView::DenyAccessFs(e) => (
            e.context.hierarchy.domain_id,
            blockers_text(
                "FS"@,
                names_only(known_names_of(AccessFamily::Filesystem, e.blockers@)),
                e.blockers@ & !known_mask(AccessFamily::Filesystem),
            ),
            escaped_text(e.pathname.bytes),
            Seq::empty(),
        ),
        EventView::DenyAccessNet(e) => (
            e.context.hierarchy.domain_id,
            blockers_text(
                "Net"@,
                names_only(known_names_of(AccessFamily::Network, e.blockers@)),
                e.blockers@ & !known_mask(AccessFamily::Network),
            ),
            network_target_text(e.blockers@, e.source_port, e.destination_port, ","@),
            Seq::empty(),
        ),
        EventView::DenyPtrace(e) => (
            e.context.hierarchy.domain_id,
            "ptrace"@,
            "pid:"@ + decimal_text(e.tracee_pid as nat) + ":"@ + escaped_text(e.tracee_comm.bytes),
            relation_text("tracee_domain"@, e.tracee_domain),
        ),
        EventView::DenyScopeSignal(e) => (
            e.context.hierarchy.domain_id,
            "Scope:signal"@,
            "pid:"@ + decimal_text(e.target_pid as nat) + ":"@ + escaped_text(e.target_comm.bytes),
            relation_text("target_domain"@, e.target_domain),
        ),
        EventView::DenyScopeAbstractUnixSocket(e) => (
            e.context.hierarchy.domain_id,
            "Scope:abstract_unix_socket"@,
            "peer:"@ + decimal_text(e.peer_pid as nat),
            relation_text("peer_domain"@, e.peer_domain),
        ),
        _ => (arbitrary(), Seq::empty(), Seq::empty(), Seq::empty()),
    }
}

/// The record of an aggregated denial of `kind`.
pub open spec fn denial_record(kind: DenialKind, denial: AggregatedDenialView) -> Seq<char> {
    let (domain, blockers, target, relation) = denial_fields(denial.latest_event);
    "DENIAL type="@ + kind.label_text() + " domain="@ + hex_text(domain@ as nat) + " blockers="@
        + blockers + " target="@ + target + " count="@ + decimal_text(
        denial.occurrence_count as nat,
    ) + " age="@ + elapsed_text(denial.first_timestamp@, denial.latest_timestamp@)
        + " same_exec="@ + flag_text(denial.same_exec) + " logged="@ + flag_text(denial.logged)
        + relation
}

/// The statistics record: allocated and total domains, then the denial
/// counters.
pub open spec fn stats_record(allocated: nat, total: nat, total_denials: u64, denials: Seq<u64>) -> Seq<
    char,
> {
    "STATS domains="@ + decimal_text(allocated) + "/"@ + decimal_text(total) + " denials="@
        + decimal_text(total_denials as nat) + " ("@ + "fs="@ + decimal_text(denials[0] as nat)
        + " net="@ + decimal_text(denials[1] as nat) + " ptrace="@ + decimal_text(
        denials[2] as nat,
    ) + " signal="@ + decimal_text(denials[3] as nat) + " abstract_unix="@ + decimal_text(
        denials[4] as nat,
    ) + ")"@
}

/// Appends the characters of `chars` to `out`.
pub(crate) fn push_chars(out: &mut Vec<char>, chars: &Vec<char>)
    ensures
        final(out)@ == old(out)@ + chars@,
{
    let ghost start = out@;
    let mut index: usize = 0;
    while index < chars.len()
        invariant
            index <= chars@.len(),
            out@ == start + chars@.take(index as int),
        decreases chars@.len() - index,
    {
        out.push(chars[index]);
        proof {
            assert(chars@.take(index + 1) =~= chars@.take(index as int).push(chars@[index as int]));
        }
        index = index + 1;
    }
    assert(chars@.take(chars@.len() as int) =~= chars@);
}

/// The texts of `names`, in order.
pub open spec fn str_texts(names: Seq<&'static str>) -> Seq<Seq<char>> {
    names.map_values(|name: &'static str| name@)
}

/// The texts of `parts`, in order.
pub open spec fn part_texts(parts: Seq<Vec<char>>) -> Seq<Seq<char>> {
    parts.map_values(|part: Vec<char>| part@)
}

/// Appends `parts` to `out`, with `separator` between consecutive parts.
pub(crate) fn push_joined(out: &mut Vec<char>, parts: &Vec<Vec<char>>, separator: &str)
    ensures
        final(out)@ == old(out)@ + joined(part_texts(parts@), separator@),
{
    let ghost start = out@;
    let ghost texts = part_texts(parts@);
    let mut index: usize = 0;
    while index < parts.len()
        invariant
            index <= parts@.len(),
            texts == part_texts(parts@),
            out@ == start + joined(texts.take(index as int), separator@),
        decreases parts@.len() - index,
    {
        if index > 0 {
            push_str(out, separator);
        }
        push_chars(out, &parts[index]);
        proof {
            let next = texts.take(index + 1);
            assert(next.drop_last() =~= texts.take(index as int));
            assert(next.last() == parts@[index as int]@);
            if index == 0 {
                assert(joined(texts.take(0), separator@) =~= Seq::empty());
                assert(out@ =~= start + joined(next, separator@));
            } else {
                assert(out@ =~= start + joined(next, separator@));
            }
        }
        index = index + 1;
    }
    assert(texts.take(parts@.len() as int) =~= texts);
}

/// Returns whether `text` starts with `prefix`.
pub(crate) fn starts_with(text: &str, prefix: &str) -> (starts: bool)
    ensures
        starts == prefix@.is_prefix_of(text@),
{
    let mut text_chars: Vec<char> = Vec::new();
    push_str(&mut text_chars, text);
    let mut prefix_chars: Vec<char> = Vec::new();
    push_str(&mut prefix_chars, prefix);
    assert(text_chars@ =~= text@);
    assert(prefix_chars@ =~= prefix@);
    if prefix_chars.len() > text_chars.len() {
        return false;
    }
    let mut index: usize = 0;
    while index < prefix_chars.len()
        invariant
            index <= prefix_chars@.len(),
            prefix_chars@.len() <= text_chars@.len(),
            prefix_chars@ == prefix@,
            text_chars@ == text@,
            forall|i: int| 0 <= i < index ==> prefix_chars@[i] == text_chars@[i],
        decreases prefix_chars@.len() - index,
    {
        if prefix_chars[index] != text_chars[index] {
            assert(!prefix@.is_prefix_of(text@)) by {
                if prefix@.is_prefix_of(text@) {
                    assert(prefix@[index as int] == text@.subrange(0, prefix@.len() as int)[index as int]);
                }
            }
            return false;
        }
        index = index + 1;
    }
    assert(prefix_chars@ =~= text_chars@.subrange(0, prefix_chars@.len() as int));
    true
}

/// Returns the lower-case hexadecimal numeral of `value`.
pub fn hex_id(value: u64) -> (text: String)
    ensures
        text@ == hex_text(value as nat),
{
    let mut out: Vec<char> = Vec::new();
    push_hex(&mut out, value);
    assert(out@ =~= hex_text(value as nat));
    string_from_chars(out)
}

fn push_ruleset(out: &mut Vec<char>, id: RulesetId, version: u32)
    ensures
        final(out)@ == old(out)@ + ruleset_text(id, version),
{
    push_hex(out, id.get());
    push_str(out, ".");
    push_decimal(out, version as u64);
    assert(final(out)@ =~= old(out)@ + ruleset_text(id, version));
}

/// Returns a ruleset identity and version.
pub fn ruleset(id: RulesetId, version: u32) -> (text: String)
    ensures
        text@ == ruleset_text(id, version),
{
    let mut out: Vec<char> = Vec::new();
    push_ruleset(&mut out, id, version);
    assert(out@ =~= ruleset_text(id, version));
    string_from_chars(out)
}

/// Returns the captured bytes, each shown as itself or escaped.
pub fn escape(value: &CapturedString) -> (text: String)
    ensures
        text@ == escaped_text(value@.bytes),
{
    let mut out: Vec<char> = Vec::new();
    push_escaped(&mut out, value.as_bytes());
    assert(out@ =~= escaped_text(value@.bytes));
    string_from_chars(out)
}

/// Returns the record of a domain's reconstructed facts.
pub fn format_domain(domain: &DomainState) -> (record: String)
    ensures
        record@ == domain_record(domain@),
{
    let mut out: Vec<char> = Vec::new();
    push_str(&mut out, "DOMAIN domain=");
    push_hex(&mut out, domain.domain_id().get());
    push_str(&mut out, " parent=");
    match domain.parent() {
        None => push_str(&mut out, "?"),
        Some(DomainParent::Root) => push_str(&mut out, "0"),
        Some(DomainParent::Domain(id)) => push_hex(&mut out, id.get()),
    }
    push_str(&mut out, " ruleset=");
    match domain.ruleset() {
        None => push_str(&mut out, "?"),
        Some(value) => push_ruleset(&mut out, value.ruleset_id(), value.ruleset_version()),
    }
    push_str(&mut out, " creator=");
    match (domain.creator_comm(), domain.creator_tgid()) {
        (Some(comm), Some(tgid)) => {
            push_escaped(&mut out, comm.as_bytes());
            push_str(&mut out, "[");
            push_decimal(&mut out, tgid as u64);
            push_str(&mut out, "]");
        },
        _ => push_str(&mut out, "?"),
    }
    push_str(&mut out, " no_new_privs=");
    match domain.no_new_privs() {
        None => push_str(&mut out, "?"),
        Some(true) => push_str(&mut out, "1"),
        Some(false) => push_str(&mut out, "0"),
    }
    assert(out@ =~= domain_record(domain@));
    string_from_chars(out)
}

/// Appends the rights that blocked an operation, given the family prefix,
/// the known names and the unknown bits.
fn push_blockers(out: &mut Vec<char>, prefix: &str, names: Vec<Vec<char>>, unknown: u32)
    ensures
        final(out)@ == old(out)@ + blockers_text(prefix@, part_texts(names@), unknown),
{
    let ghost known = part_texts(names@);
    let mut parts = names;
    if unknown != 0 {
        let mut part: Vec<char> = Vec::new();
        push_str(&mut part, "0x");
        push_hex(&mut part, unknown as u64);
        parts.push(part);
        assert(part_texts(parts@) =~= known.push("0x"@ + hex_text(unknown as nat)));
    }
    if parts.len() == 0 {
        push_str(out, "0x");
        push_hex(out, unknown as u64);
    } else {
        push_str(out, prefix);
        push_str(out, ":");
        push_joined(out, &parts, ",");
    }
    assert(final(out)@ =~= old(out)@ + blockers_text(prefix@, known, unknown));
}

/// The characters of each `&str` name, in order.
pub(crate) fn name_chars(names: &Vec<&'static str>) -> (parts: Vec<Vec<char>>)
    ensures
        part_texts(parts@) == str_texts(names@),
{
    let mut parts: Vec<Vec<char>> = Vec::new();
    let mut index: usize = 0;
    while index < names.len()
        invariant
            index <= names@.len(),
            parts@.len() == index,
            part_texts(parts@) == str_texts(names@).take(index as int),
        decreases names@.len() - index,
    {
        let mut part: Vec<char> = Vec::new();
        push_str(&mut part, names[index]);
        parts.push(part);
        proof {
            assert(part_texts(parts@)[index as int] == str_texts(names@)[index as int]);
            assert(part_texts(parts@) =~= str_texts(names@).take(
                index + 1,
            ));
        }
        index = index + 1;
    }
    assert(str_texts(names@).take(names@.len() as int)
        =~= str_texts(names@));
    parts
}

/// The known filesystem names set in `access`.
pub(crate) fn filesystem_names(access: FilesystemAccess) -> (names: Vec<&'static str>)
    ensures
        str_texts(names@) == names_only(
            known_names_of(AccessFamily::Filesystem, access@),
        ),
{
    let known = access.known_names();
    let mut names: Vec<&'static str> = Vec::new();
    let mut index: usize = 0;
    while index < known.len()
        invariant
            index <= known@.len(),
            names@.len() == index,
            known@.len() == known_names_of(AccessFamily::Filesystem, access@).len(),
            forall|i: int|
                0 <= i < known@.len() ==> (#[trigger] known@[i])@ == known_names_of(
                    AccessFamily::Filesystem,
                    access@,
                )[i],
            str_texts(names@) == names_only(
                known_names_of(AccessFamily::Filesystem, access@),
            ).take(index as int),
        decreases known@.len() - index,
    {
        names.push(known[index].as_str());
        proof {
            assert(str_texts(names@)[index as int] == known@[index as int]@.1);
            assert(str_texts(names@) =~= names_only(
                known_names_of(AccessFamily::Filesystem, access@),
            ).take(index + 1));
        }
        index = index + 1;
    }
    assert(names_only(known_names_of(AccessFamily::Filesystem, access@)).take(known@.len() as int)
        =~= names_only(known_names_of(AccessFamily::Filesystem, access@)));
    names
}

/// The known network names set in `access`.
pub(crate) fn network_names(access: NetworkAccess) -> (names: Vec<&'static str>)
    ensures
        str_texts(names@) == names_only(
            known_names_of(AccessFamily::Network, access@),
        ),
{
    let known = access.known_names();
    let mut names: Vec<&'static str> = Vec::new();
    let mut index: usize = 0;
    while index < known.len()
        invariant
            index <= known@.len(),
            names@.len() == index,
            known@.len() == known_names_of(AccessFamily::Network, access@).len(),
            forall|i: int|
                0 <= i < known@.len() ==> (#[trigger] known@[i])@ == known_names_of(
                    AccessFamily::Network,
                    access@,
                )[i],
            str_texts(names@) == names_only(
                known_names_of(AccessFamily::Network, access@),
            ).take(index as int),
        decreases known@.len() - index,
    {
        names.push(known[index].as_str());
        proof {
            assert(str_texts(names@)[index as int] == known@[index as int]@.1);
            assert(str_texts(names@) =~= names_only(
                known_names_of(AccessFamily::Network, access@),
            ).take(index + 1));
        }
        index = index + 1;
    }
    assert(names_only(known_names_of(AccessFamily::Network, access@)).take(known@.len() as int)
        =~= names_only(known_names_of(AccessFamily::Network, access@)));
    names
}

/// The known scope names set in `access`.
pub(crate) fn scope_names(access: ScopeAccess) -> (names: Vec<&'static str>)
    ensures
        str_texts(names@) == names_only(known_names_of(AccessFamily::Scope, access@)),
{
    let known = access.known_names();
    let mut names: Vec<&'static str> = Vec::new();
    let mut index: usize = 0;
    while index < known.len()
        invariant
            index <= known@.len(),
            names@.len() == index,
            known@.len() == known_names_of(AccessFamily::Scope, access@).len(),
            forall|i: int|
                0 <= i < known@.len() ==> (#[trigger] known@[i])@ == known_names_of(
                    AccessFamily::Scope,
                    access@,
                )[i],
            str_texts(names@) == names_only(known_names_of(AccessFamily::Scope, access@)).take(
                index as int,
            ),
        decreases known@.len() - index,
    {
        names.push(known[index].as_str());
        proof {
            assert(str_texts(names@)[index as int] == known@[index as int]@.1);
            assert(str_texts(names@) =~= names_only(known_names_of(AccessFamily::Scope, access@)).take(
                index + 1,
            ));
        }
        index = index + 1;
    }
    assert(names_only(known_names_of(AccessFamily::Scope, access@)).take(known@.len() as int)
        =~= names_only(known_names_of(AccessFamily::Scope, access@)));
    names
}

/// Returns the rights that blocked an operation: `prefix`, a colon and the
/// comma-separated names and unknown bits, or `0x0` when no bit is set.
pub fn access_blockers(prefix: &str, names: &Vec<&'static str>, unknown_bits: u32) -> (text: String)
    ensures
        text@ == blockers_text(
            prefix@,
            str_texts(names@),
            unknown_bits,
        ),
{
    let mut out: Vec<char> = Vec::new();
    push_blockers(&mut out, prefix, name_chars(names), unknown_bits);
    assert(out@ =~= blockers_text(prefix@, str_texts(names@), unknown_bits));
    string_from_chars(out)
}

/// Returns the filesystem rights that blocked an operation.
pub fn filesystem_blockers(access: FilesystemAccess) -> (text: String)
    ensures
        text@ == blockers_text(
            "FS"@,
            names_only(known_names_of(AccessFamily::Filesystem, access@)),
            access@ & !known_mask(AccessFamily::Filesystem),
        ),
{
    access_blockers("FS", &filesystem_names(access), access.unknown_bits())
}

/// Returns the network rights that blocked an operation.
pub fn network_blockers(access: NetworkAccess) -> (text: String)
    ensures
        text@ == blockers_text(
            "Net"@,
            names_only(known_names_of(AccessFamily::Network, access@)),
            access@ & !known_mask(AccessFamily::Network),
        ),
{
    access_blockers("Net", &network_names(access), access.unknown_bits())
}

/// Returns the kernel ID of a membership, `0` for an unsandboxed party.
pub fn domain_membership(value: DomainMembership) -> (id: u64)
    ensures
        id == membership_value(value),
{
    match value.domain_id() {
        Some(id) => id.get(),
        None => 0,
    }
}

pub(crate) fn push_elapsed(out: &mut Vec<char>, first_ns: u64, latest_ns: u64)
    ensures
        final(out)@ == old(out)@ + elapsed_text(first_ns, latest_ns),
{
    let seconds = latest_ns.saturating_sub(first_ns) / 1_000_000_000;
    if seconds < 60 {
        push_decimal(out, seconds);
        push_str(out, "s");
    } else if seconds < 3600 {
        push_decimal(out, seconds / 60);
        push_str(out, "m");
        push_decimal(out, seconds % 60);
        push_str(out, "s");
    } else {
        push_decimal(out, seconds / 3600);
        push_str(out, "h");
        push_decimal(out, (seconds % 3600) / 60);
        push_str(out, "m");
    }
    assert(final(out)@ =~= old(out)@ + elapsed_text(first_ns, latest_ns));
}

/// Returns the age of an aggregated denial from its first and latest
/// timestamps.
pub fn elapsed(first_ns: u64, latest_ns: u64) -> (text: String)
    ensures
        text@ == elapsed_text(first_ns, latest_ns),
{
    let mut out: Vec<char> = Vec::new();
    push_elapsed(&mut out, first_ns, latest_ns);
    assert(out@ =~= elapsed_text(first_ns, latest_ns));
    string_from_chars(out)
}

pub(crate) fn push_network_target(
    out: &mut Vec<char>,
    blockers: NetworkAccess,
    source_port: u64,
    destination_port: u64,
    separator: &str,
)
    ensures
        final(out)@ == old(out)@ + network_target_text(
            blockers@,
            source_port,
            destination_port,
            separator@,
        ),
{
    let ghost names = known_names_of(AccessFamily::Network, blockers@);
    let known = blockers.known_names();
    let mut bind = false;
    let mut connect = false;
    let mut index: usize = 0;
    while index < known.len()
        invariant
            index <= known@.len(),
            known@.len() == names.len(),
            forall|i: int| 0 <= i < known@.len() ==> (#[trigger] known@[i])@ == names[i],
            bind == exists|i: int| 0 <= i < index && "bind_"@.is_prefix_of(#[trigger] names[i].1),
            connect == exists|i: int|
                0 <= i < index && "connect_"@.is_prefix_of(#[trigger] names[i].1),
        decreases known@.len() - index,
    {
        let name = known[index].as_str();
        let is_bind = starts_with(name, "bind_");
        let is_connect = starts_with(name, "connect_");
        proof {
            assert(names[index as int].1 == name@);
            if bind {
                let i = choose|i: int| 0 <= i < index && "bind_"@.is_prefix_of(#[trigger] names[i].1);
                assert(0 <= i < index + 1 && "bind_"@.is_prefix_of(names[i].1));
            }
            if connect {
                let i = choose|i: int|
                    0 <= i < index && "connect_"@.is_prefix_of(#[trigger] names[i].1);
                assert(0 <= i < index + 1 && "connect_"@.is_prefix_of(names[i].1));
            }
        }
        bind = bind || is_bind;
        connect = connect || is_connect;
        index = index + 1;
    }
    if bind && !connect {
        push_str(out, "sport:");
        push_decimal(out, source_port);
    } else if !bind && connect {
        push_str(out, "dport:");
        push_decimal(out, destination_port);
    } else {
        push_str(out, "sport:");
        push_decimal(out, source_port);
        push_str(out, separator);
        push_str(out, "dport:");
        push_decimal(out, destination_port);
    }
    assert(final(out)@ =~= old(out)@ + network_target_text(
        blockers@,
        source_port,
        destination_port,
        separator@,
    ));
}

fn push_relation(out: &mut Vec<char>, label: &str, membership: DomainMembership)
    ensures
        final(out)@ == old(out)@ + relation_text(label@, membership),
{
    push_str(out, " ");
    push_str(out, label);
    push_str(out, "=");
    push_hex(out, domain_membership(membership));
    assert(final(out)@ =~= old(out)@ + relation_text(label@, membership));
}

/// Returns the record of an aggregated denial of `kind`.
pub fn format_denial(kind: DenialKind, denial: &AggregatedDenial) -> (record: String)
    requires
        DenialKind::of_event(denial@.latest_event) is Some,
    ensures
        record@ == denial_record(kind, denial@),
{
    let event = denial.latest_event();
    let mut blockers: Vec<char> = Vec::new();
    let mut target: Vec<char> = Vec::new();
    let mut relation: Vec<char> = Vec::new();
    let domain = match event {
        Event::DenyAccessFs(event) => {
            let access = event.blockers();
            push_blockers(&mut blockers, "FS", name_chars(&filesystem_names(access)), access.unknown_bits());
            push_escaped(&mut target, event.pathname().as_bytes());
            event.context().hierarchy().domain_id()
        },
        Event::DenyAccessNet(event) => {
            let access = event.blockers();
            push_blockers(&mut blockers, "Net", name_chars(&network_names(access)), access.unknown_bits());
            push_network_target(
                &mut target,
                access,
                event.source_port(),
                event.destination_port(),
                ",",
            );
            event.context().hierarchy().domain_id()
        },
        Event::DenyPtrace(event) => {
            push_str(&mut blockers, "ptrace");
            push_str(&mut target, "pid:");
            push_decimal(&mut target, event.tracee_pid() as u64);
            push_str(&mut target, ":");
            push_escaped(&mut target, event.tracee_comm().as_bytes());
            push_relation(&mut relation, "tracee_domain", event.tracee_domain());
            event.context().hierarchy().domain_id()
        },
        Event::DenyScopeSignal(event) => {
            push_str(&mut blockers, "Scope:signal");
            push_str(&mut target, "pid:");
            push_decimal(&mut target, event.target_pid() as u64);
            push_str(&mut target, ":");
            push_escaped(&mut target, event.target_comm().as_bytes());
            push_relation(&mut relation, "target_domain", event.target_domain());
            event.context().hierarchy().domain_id()
        },
        Event::DenyScopeAbstractUnixSocket(event) => {
            push_str(&mut blockers, "Scope:abstract_unix_socket");
            push_str(&mut target, "peer:");
            push_decimal(&mut target, event.peer_pid() as u64);
            push_relation(&mut relation, "peer_domain", event.peer_domain());
            event.context().hierarchy().domain_id()
        },
        _ => {
            proof {
                assert(false);
            }
            DomainId::new(0)
        },
    };
    let ghost fields = denial_fields(denial@.latest_event);
    assert(domain == fields.0 && blockers@ =~= fields.1 && target@ =~= fields.2 && relation@ =~= fields.3);
    let mut out: Vec<char> = Vec::new();
    push_str(&mut out, "DENIAL type=");
    push_str(&mut out, kind.label());
    push_str(&mut out, " domain=");
    push_hex(&mut out, domain.get());
    push_str(&mut out, " blockers=");
    push_chars(&mut out, &blockers);
    push_str(&mut out, " target=");
    push_chars(&mut out, &target);
    push_str(&mut out, " count=");
    push_decimal(&mut out, denial.occurrence_count());
    push_str(&mut out, " age=");
    push_elapsed(&mut out, denial.first_timestamp().as_nanoseconds(), denial.latest_timestamp().as_nanoseconds());
    push_str(&mut out, " same_exec=");
    push_decimal(&mut out, if denial.same_exec() { 1 } else { 0 });
    push_str(&mut out, " logged=");
    push_decimal(&mut out, if denial.logged() { 1 } else { 0 });
    push_chars(&mut out, &relation);
    assert(out@ =~= denial_record(kind, denial@));
    string_from_chars(out)
}

/// Returns the statistics record: allocated and total domains, then the
/// denial counters.
pub fn format_stats(allocated: usize, total: usize, stats: &Stats) -> (record: String)
    ensures
        record@ == stats_record(allocated as nat, total as nat, stats.total_denials, stats.denials@),
{
    let mut out: Vec<char> = Vec::new();
    push_str(&mut out, "STATS domains=");
    push_decimal(&mut out, allocated as u64);
    push_str(&mut out, "/");
    push_decimal(&mut out, total as u64);
    push_str(&mut out, " denials=");
    push_decimal(&mut out, stats.total_denials);
    push_str(&mut out, " (");
    push_str(&mut out, "fs=");
    push_decimal(&mut out, stats.denials[0]);
    push_str(&mut out, " net=");
    push_decimal(&mut out, stats.denials[1]);
    push_str(&mut out, " ptrace=");
    push_decimal(&mut out, stats.denials[2]);
    push_str(&mut out, " signal=");
    push_decimal(&mut out, stats.denials[3]);
    push_str(&mut out, " abstract_unix=");
    push_decimal(&mut out, stats.denials[4]);
    push_str(&mut out, ")");
    assert(out@ =~= stats_record(allocated as nat, total as nat, stats.total_denials, stats.denials@));
    string_from_chars(out)
}

} // verus!
