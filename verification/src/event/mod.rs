//! Semantic Landlock events and values.
use vstd::prelude::*;

mod access_names;
mod string;

pub use access_names::{
    filesystem_access_name_spec, network_access_name_spec, scope_name_spec,
    FILESYSTEM_ACCESS_COUNT, NETWORK_ACCESS_COUNT, SCOPE_COUNT,
};
use access_names::{filesystem_access_name, network_access_name, scope_name};
pub use string::{no_nul, CapturedString, CapturedStringError, CapturedStringView};

verus! {

/// An ID assigned by the kernel to a Landlock ruleset.
///
/// Kernel-assigned ruleset IDs are nonzero.  Synthetic events are expected to
/// preserve that invariant.
#[derive(Clone, Copy, Debug, PartialEq, Eq, Hash, Structural)]
#[non_exhaustive]
pub struct RulesetId(u64);

impl View for RulesetId {
    type V = u64;

    closed spec fn view(&self) -> u64 {
        self.0
    }
}

impl RulesetId {
    /// Creates a ruleset ID from a caller-supplied kernel value.
    ///
    /// This constructor does not validate synthetic input; callers are expected
    /// to provide a nonzero ID.
    pub fn new(value: u64) -> (id: Self)
        ensures
            id@ == value,
    {
        RulesetId(value)
    }

    /// Returns the kernel-assigned ID.
    pub fn get(self) -> (value: u64)
        ensures
            value == self@,
    {
        self.0
    }
}

/// Two ruleset IDs with the same kernel value are the same ID.
pub proof fn lemma_ruleset_id_view_injective(a: RulesetId, b: RulesetId)
    requires
        a@ == b@,
    ensures
        a == b,
{
}

/// An ID assigned by the kernel to a Landlock domain.
///
/// Kernel-assigned domain IDs are nonzero.  A zero value represents the absence
/// of a domain in relationships and must not be wrapped in this type by
/// synthetic event producers.
#[derive(Clone, Copy, Debug, PartialEq, Eq, Hash, Structural)]
#[non_exhaustive]
pub struct DomainId(u64);

impl View for DomainId {
    type V = u64;

    closed spec fn view(&self) -> u64 {
        self.0
    }
}

impl DomainId {
    /// Creates a domain ID from a caller-supplied kernel value.
    ///
    /// This constructor does not validate synthetic input; callers are expected
    /// to provide a nonzero ID.
    pub fn new(value: u64) -> (id: Self)
        ensures
            id@ == value,
    {
        DomainId(value)
    }

    /// Returns the kernel-assigned ID.
    pub fn get(self) -> (value: u64)
        ensures
            value == self@,
    {
        self.0
    }
}

/// Two domain IDs with the same kernel value are the same ID.
pub proof fn lemma_domain_id_view_injective(a: DomainId, b: DomainId)
    requires
        a@ == b@,
    ensures
        a == b,
{
}

/// A monotonic timestamp captured by the kernel, in nanoseconds.
///
/// This is a boot-relative clock reading, not wall-clock or UNIX time. Compare
/// it only with other observations from the same boot.
#[derive(Clone, Copy, Debug, PartialEq, Eq, Structural)]
#[non_exhaustive]
pub struct KernelTimestamp(u64);

impl View for KernelTimestamp {
    type V = u64;

    closed spec fn view(&self) -> u64 {
        self.0
    }
}

impl KernelTimestamp {
    /// Creates a timestamp from a monotonic nanosecond value.
    pub fn from_nanoseconds(value: u64) -> (timestamp: Self)
        ensures
            timestamp@ == value,
    {
        KernelTimestamp(value)
    }

    /// Returns the monotonic nanosecond value.
    pub fn as_nanoseconds(self) -> (value: u64)
        ensures
            value == self@,
    {
        self.0
    }
}

/// The three families of Landlock access rights.
pub enum AccessFamily {
    /// Filesystem access rights.
    Filesystem,
    /// Network access rights.
    Network,
    /// Scope rights.
    Scope,
}

/// The number of known rights of a family.
pub open spec fn known_count(family: AccessFamily) -> nat {
    match family {
        AccessFamily::Filesystem => FILESYSTEM_ACCESS_COUNT as nat,
        AccessFamily::Network => NETWORK_ACCESS_COUNT as nat,
        AccessFamily::Scope => SCOPE_COUNT as nat,
    }
}

/// The kernel name of the right of a family at bit `index`.
pub open spec fn known_name(family: AccessFamily, index: int) -> Seq<char> {
    match family {
        AccessFamily::Filesystem => filesystem_access_name_spec(index),
        AccessFamily::Network => network_access_name_spec(index),
        AccessFamily::Scope => scope_name_spec(index),
    }
}

/// The single bit of position `index`.
pub open spec fn bit_at(index: nat) -> u32 {
    (1u32 << (index as u32))
}

/// The `(bit, name)` pairs, in bit order, of the known rights of `family` whose
/// bit is set in `bits`, among the first `count` bit positions.
pub open spec fn known_names_below(family: AccessFamily, bits: u32, count: nat) -> Seq<(u32, Seq<char>)>
    decreases count,
{
    if count == 0 {
        Seq::empty()
    } else {
        let index = (count - 1) as nat;
        let rest = known_names_below(family, bits, index);
        if bits & bit_at(index) != 0 {
            rest.push((bit_at(index), known_name(family, index as int)))
        } else {
            rest
        }
    }
}

/// The `(bit, name)` pairs, in bit order, of the known rights of `family` whose
/// bit is set in `bits`.
pub open spec fn known_names_of(family: AccessFamily, bits: u32) -> Seq<(u32, Seq<char>)> {
    known_names_below(family, bits, known_count(family))
}

/// Every `(bit, name)` pair of the known rights of `family`, in bit order.
pub open spec fn all_known_names_of(family: AccessFamily) -> Seq<(u32, Seq<char>)> {
    Seq::new(known_count(family), |index: int| (bit_at(index as nat), known_name(family, index)))
}

/// The mask of every known bit of `family`.
pub open spec fn known_mask(family: AccessFamily) -> u32 {
    match family {
        AccessFamily::Filesystem => 0x1ffffu32,
        AccessFamily::Network => 0xfu32,
        AccessFamily::Scope => 0x3u32,
    }
}

fn family_count(family: &AccessFamily) -> (count: u32)
    ensures
        count == known_count(*family),
        count <= 17,
{
    match family {
        AccessFamily::Filesystem => FILESYSTEM_ACCESS_COUNT,
        AccessFamily::Network => NETWORK_ACCESS_COUNT,
        AccessFamily::Scope => SCOPE_COUNT,
    }
}

fn family_mask(family: &AccessFamily) -> (mask: u32)
    ensures
        mask == known_mask(*family),
{
    match family {
        AccessFamily::Filesystem => 0x1ffff,
        AccessFamily::Network => 0xf,
        AccessFamily::Scope => 0x3,
    }
}

fn family_name(family: &AccessFamily, index: u32) -> (name: &'static str)
    requires
        index < known_count(*family),
    ensures
        name@ == known_name(*family, index as int),
{
    match family {
        AccessFamily::Filesystem => filesystem_access_name(index),
        AccessFamily::Network => network_access_name(index),
        AccessFamily::Scope => scope_name(index),
    }
}

/// Collects the `(bit, name)` pairs of the known rights of `family` set in `bits`.
fn collect_known_names(family: &AccessFamily, bits: u32) -> (names: Vec<(u32, &'static str)>)
    ensures
        names@.len() == known_names_of(*family, bits).len(),
        forall|i: int|
            0 <= i < names@.len() ==> (#[trigger] names@[i]).0 == known_names_of(*family, bits)[i].0
                && names@[i].1@ == known_names_of(*family, bits)[i].1,
{
    let count = family_count(family);
    let mut names: Vec<(u32, &'static str)> = Vec::new();
    let mut index: u32 = 0;
    while index < count
        invariant
            index <= count,
            count == known_count(*family),
            count <= 17,
            names@.len() == known_names_below(*family, bits, index as nat).len(),
            forall|i: int|
                0 <= i < names@.len() ==> (#[trigger] names@[i]).0 == known_names_below(
                    *family,
                    bits,
                    index as nat,
                )[i].0 && names@[i].1@ == known_names_below(*family, bits, index as nat)[i].1,
        decreases count - index,
    {
        let bit: u32 = 1u32 << index;
        assert(bit == bit_at(index as nat));
        if bits & bit != 0 {
            names.push((bit, family_name(family, index)));
        }
        index = index + 1;
    }
    names
}

/// Collects every `(bit, name)` pair of the known rights of `family`.
fn collect_all_names(family: &AccessFamily) -> (names: Vec<(u32, &'static str)>)
    ensures
        names@.len() == all_known_names_of(*family).len(),
        forall|i: int|
            0 <= i < names@.len() ==> (#[trigger] names@[i]).0 == all_known_names_of(*family)[i].0
                && names@[i].1@ == all_known_names_of(*family)[i].1,
{
    let count = family_count(family);
    let mut names: Vec<(u32, &'static str)> = Vec::new();
    let mut index: u32 = 0;
    while index < count
        invariant
            index <= count,
            count == known_count(*family),
            count <= 17,
            names@.len() == index,
            forall|i: int|
                0 <= i < index ==> (#[trigger] names@[i]).0 == bit_at(i as nat) && names@[i].1@
                    == known_name(*family, i),
        decreases count - index,
    {
        let bit: u32 = 1u32 << index;
        assert(bit == bit_at(index as nat));
        names.push((bit, family_name(family, index)));
        index = index + 1;
    }
    names
}

/// A filesystem access mask.
#[derive(Clone, Copy, Debug, PartialEq, Eq, Hash, Structural)]
#[non_exhaustive]
pub struct FilesystemAccess(u32);

impl View for FilesystemAccess {
    type V = u32;

    closed spec fn view(&self) -> u32 {
        self.0
    }
}

/// A known name in a filesystem access mask.
#[derive(Clone, Copy, Debug, PartialEq, Eq, Hash)]
#[non_exhaustive]
pub struct FilesystemAccessName {
    bit: u32,
    name: &'static str,
}

impl View for FilesystemAccessName {
    type V = (u32, Seq<char>);

    closed spec fn view(&self) -> (u32, Seq<char>) {
        (self.bit, self.name@)
    }
}

impl FilesystemAccessName {
    /// Returns the single bit represented by this name.
    pub fn bit(self) -> (bit: u32)
        ensures
            bit == self@.0,
    {
        self.bit
    }

    /// Returns the unprefixed kernel name.
    pub fn as_str(self) -> (name: &'static str)
        ensures
            name@ == self@.1,
    {
        self.name
    }
}

impl FilesystemAccess {
    /// Creates a mask while preserving every bit.
    pub fn from_bits(bits: u32) -> (mask: Self)
        ensures
            mask@ == bits,
    {
        FilesystemAccess(bits)
    }

    /// Returns every bit, including bits unknown to this library.
    pub fn bits(self) -> (bits: u32)
        ensures
            bits == self@,
    {
        self.0
    }

    /// Returns the set bits known to this library.
    pub fn known_bits(self) -> (bits: u32)
        ensures
            bits == self@ & known_mask(AccessFamily::Filesystem),
    {
        self.0 & family_mask(&AccessFamily::Filesystem)
    }

    /// Returns the set bits unknown to this library.
    pub fn unknown_bits(self) -> (bits: u32)
        ensures
            bits == self@ & !known_mask(AccessFamily::Filesystem),
    {
        self.0 & !family_mask(&AccessFamily::Filesystem)
    }

    /// Returns the known names whose bits are set, in bit order.
    pub fn known_names(self) -> (names: Vec<FilesystemAccessName>)
        ensures
            names@.len() == known_names_of(AccessFamily::Filesystem, self@).len(),
            forall|i: int|
                0 <= i < names@.len() ==> (#[trigger] names@[i])@ == known_names_of(
                    AccessFamily::Filesystem,
                    self@,
                )[i],
    {
        let pairs = collect_known_names(&AccessFamily::Filesystem, self.0);
        let mut names: Vec<FilesystemAccessName> = Vec::new();
        let mut index: usize = 0;
        while index < pairs.len()
            invariant
                index <= pairs@.len(),
                names@.len() == index,
                forall|i: int|
                    0 <= i < index ==> (#[trigger] names@[i])@ == (pairs@[i].0, pairs@[i].1@),
            decreases pairs@.len() - index,
        {
            let (bit, name) = pairs[index];
            names.push(FilesystemAccessName { bit, name });
            index = index + 1;
        }
        names
    }

    /// Returns every known name in bit order.
    pub fn all_known_names() -> (names: Vec<FilesystemAccessName>)
        ensures
            names@.len() == all_known_names_of(AccessFamily::Filesystem).len(),
            forall|i: int|
                0 <= i < names@.len() ==> (#[trigger] names@[i])@ == all_known_names_of(
                    AccessFamily::Filesystem,
                )[i],
    {
        let pairs = collect_all_names(&AccessFamily::Filesystem);
        let mut names: Vec<FilesystemAccessName> = Vec::new();
        let mut index: usize = 0;
        while index < pairs.len()
            invariant
                index <= pairs@.len(),
                names@.len() == index,
                forall|i: int|
                    0 <= i < index ==> (#[trigger] names@[i])@ == (pairs@[i].0, pairs@[i].1@),
            decreases pairs@.len() - index,
        {
            let (bit, name) = pairs[index];
            names.push(FilesystemAccessName { bit, name });
            index = index + 1;
        }
        names
    }
}

/// A network access mask.
#[derive(Clone, Copy, Debug, PartialEq, Eq, Hash, Structural)]
#[non_exhaustive]
pub struct NetworkAccess(u32);

impl View for NetworkAccess {
    type V = u32;

    closed spec fn view(&self) -> u32 {
        self.0
    }
}

/// A known name in a network access mask.
#[derive(Clone, Copy, Debug, PartialEq, Eq, Hash)]
#[non_exhaustive]
pub struct NetworkAccessName {
    bit: u32,
    name: &'static str,
}

impl View for NetworkAccessName {
    type V = (u32, Seq<char>);

    closed spec fn view(&self) -> (u32, Seq<char>) {
        (self.bit, self.name@)
    }
}

impl NetworkAccessName {
    /// Returns the single bit represented by this name.
    pub fn bit(self) -> (bit: u32)
        ensures
            bit == self@.0,
    {
        self.bit
    }

    /// Returns the unprefixed kernel name.
    pub fn as_str(self) -> (name: &'static str)
        ensures
            name@ == self@.1,
    {
        self.name
    }
}

impl NetworkAccess {
    /// Creates a mask while preserving every bit.
    pub fn from_bits(bits: u32) -> (mask: Self)
        ensures
            mask@ == bits,
    {
        NetworkAccess(bits)
    }

    /// Returns every bit, including bits unknown to this library.
    pub fn bits(self) -> (bits: u32)
        ensures
            bits == self@,
    {
        self.0
    }

    /// Returns the set bits known to this library.
    pub fn known_bits(self) -> (bits: u32)
        ensures
            bits == self@ & known_mask(AccessFamily::Network),
    {
        self.0 & family_mask(&AccessFamily::Network)
    }

    /// Returns the set bits unknown to this library.
    pub fn unknown_bits(self) -> (bits: u32)
        ensures
            bits == self@ & !known_mask(AccessFamily::Network),
    {
        self.0 & !family_mask(&AccessFamily::Network)
    }

    /// Returns the known names whose bits are set, in bit order.
    pub fn known_names(self) -> (names: Vec<NetworkAccessName>)
        ensures
            names@.len() == known_names_of(AccessFamily::Network, self@).len(),
            forall|i: int|
                0 <= i < names@.len() ==> (#[trigger] names@[i])@ == known_names_of(
                    AccessFamily::Network,
                    self@,
                )[i],
    {
        let pairs = collect_known_names(&AccessFamily::Network, self.0);
        let mut names: Vec<NetworkAccessName> = Vec::new();
        let mut index: usize = 0;
        while index < pairs.len()
            invariant
                index <= pairs@.len(),
                names@.len() == index,
                forall|i: int|
                    0 <= i < index ==> (#[trigger] names@[i])@ == (pairs@[i].0, pairs@[i].1@),
            decreases pairs@.len() - index,
        {
            let (bit, name) = pairs[index];
            names.push(NetworkAccessName { bit, name });
            index = index + 1;
        }
        names
    }

    /// Returns every known name in bit order.
    pub fn all_known_names() -> (names: Vec<NetworkAccessName>)
        ensures
            names@.len() == all_known_names_of(AccessFamily::Network).len(),
            forall|i: int|
                0 <= i < names@.len() ==> (#[trigger] names@[i])@ == all_known_names_of(
                    AccessFamily::Network,
                )[i],
    {
        let pairs = collect_all_names(&AccessFamily::Network);
        let mut names: Vec<NetworkAccessName> = Vec::new();
        let mut index: usize = 0;
        while index < pairs.len()
            invariant
                index <= pairs@.len(),
                names@.len() == index,
                forall|i: int|
                    0 <= i < index ==> (#[trigger] names@[i])@ == (pairs@[i].0, pairs@[i].1@),
            decreases pairs@.len() - index,
        {
            let (bit, name) = pairs[index];
            names.push(NetworkAccessName { bit, name });
            index = index + 1;
        }
        names
    }
}

/// A scope mask.
#[derive(Clone, Copy, Debug, PartialEq, Eq, Hash, Structural)]
#[non_exhaustive]
pub struct ScopeAccess(u32);

impl View for ScopeAccess {
    type V = u32;

    closed spec fn view(&self) -> u32 {
        self.0
    }
}

/// A known name in a scope mask.
#[derive(Clone, Copy, Debug, PartialEq, Eq, Hash)]
#[non_exhaustive]
pub struct ScopeAccessName {
    bit: u32,
    name: &'static str,
}

impl View for ScopeAccessName {
    type V = (u32, Seq<char>);

    closed spec fn view(&self) -> (u32, Seq<char>) {
        (self.bit, self.name@)
    }
}

impl ScopeAccessName {
    /// Returns the single bit represented by this name.
    pub fn bit(self) -> (bit: u32)
        ensures
            bit == self@.0,
    {
        self.bit
    }

    /// Returns the unprefixed kernel name.
    pub fn as_str(self) -> (name: &'static str)
        ensures
            name@ == self@.1,
    {
        self.name
    }
}

impl ScopeAccess {
    /// Creates a mask while preserving every bit.
    pub fn from_bits(bits: u32) -> (mask: Self)
        ensures
            mask@ == bits,
    {
        ScopeAccess(bits)
    }

    /// Returns every bit, including bits unknown to this library.
    pub fn bits(self) -> (bits: u32)
        ensures
            bits == self@,
    {
        self.0
    }

    /// Returns the set bits known to this library.
    pub fn known_bits(self) -> (bits: u32)
        ensures
            bits == self@ & known_mask(AccessFamily::Scope),
    {
        self.0 & family_mask(&AccessFamily::Scope)
    }

    /// Returns the set bits unknown to this library.
    pub fn unknown_bits(self) -> (bits: u32)
        ensures
            bits == self@ & !known_mask(AccessFamily::Scope),
    {
        self.0 & !family_mask(&AccessFamily::Scope)
    }

    /// Returns the known names whose bits are set, in bit order.
    pub fn known_names(self) -> (names: Vec<ScopeAccessName>)
        ensures
            names@.len() == known_names_of(AccessFamily::Scope, self@).len(),
            forall|i: int|
                0 <= i < names@.len() ==> (#[trigger] names@[i])@ == known_names_of(
                    AccessFamily::Scope,
                    self@,
                )[i],
    {
        let pairs = collect_known_names(&AccessFamily::Scope, self.0);
        let mut names: Vec<ScopeAccessName> = Vec::new();
        let mut index: usize = 0;
        while index < pairs.len()
            invariant
                index <= pairs@.len(),
                names@.len() == index,
                forall|i: int|
                    0 <= i < index ==> (#[trigger] names@[i])@ == (pairs@[i].0, pairs@[i].1@),
            decreases pairs@.len() - index,
        {
            let (bit, name) = pairs[index];
            names.push(ScopeAccessName { bit, name });
            index = index + 1;
        }
        names
    }

    /// Returns every known name in bit order.
    pub fn all_known_names() -> (names: Vec<ScopeAccessName>)
        ensures
            names@.len() == all_known_names_of(AccessFamily::Scope).len(),
            forall|i: int|
                0 <= i < names@.len() ==> (#[trigger] names@[i])@ == all_known_names_of(
                    AccessFamily::Scope,
                )[i],
    {
        let pairs = collect_all_names(&AccessFamily::Scope);
        let mut names: Vec<ScopeAccessName> = Vec::new();
        let mut index: usize = 0;
        while index < pairs.len()
            invariant
                index <= pairs@.len(),
                names@.len() == index,
                forall|i: int|
                    0 <= i < index ==> (#[trigger] names@[i])@ == (pairs@[i].0, pairs@[i].1@),
            decreases pairs@.len() - index,
        {
            let (bit, name) = pairs[index];
            names.push(ScopeAccessName { bit, name });
            index = index + 1;
        }
        names
    }
}

/// Whether the other party was unsandboxed or belonged to a Landlock domain.
///
/// A complete event field is either the kernel's zero sentinel or one nonzero
/// domain ID, so these variants exhaust the possible membership states.
#[derive(Clone, Copy, Debug, PartialEq, Eq, Hash, Structural)]
pub enum DomainMembership {
    /// The other party was unsandboxed at the decision point.
    Unsandboxed,
    /// The other party belonged to the contained nonzero Landlock domain.
    Sandboxed(DomainId),
}

impl DomainMembership {
    /// Returns the sandboxed identity, or `None` for an unsandboxed party.
    pub fn domain_id(self) -> (id: Option<DomainId>)
        ensures
            id == membership_domain(self),
    {
        match self {
            DomainMembership::Unsandboxed => None,
            DomainMembership::Sandboxed(id) => Some(id),
        }
    }
}

/// The sandboxed identity of a membership, or `None` for an unsandboxed party.
pub open spec fn membership_domain(membership: DomainMembership) -> Option<DomainId> {
    match membership {
        DomainMembership::Unsandboxed => None,
        DomainMembership::Sandboxed(id) => Some(id),
    }
}

/// The captured facts of an [`Event`].
pub enum EventView {
    CreateRuleset(CreateRulesetEventView),
    AddRuleFs(AddRuleFsEventView),
    AddRuleNet(AddRuleNetEventView),
    CreateDomain(CreateDomainEventView),
    DenyAccessFs(DenyAccessFsEventView),
    DenyAccessNet(DenyAccessNetEventView),
    DenyPtrace(DenyPtraceEventView),
    DenyScopeSignal(DenyScopeSignalEventView),
    DenyScopeAbstractUnixSocket(DenyScopeAbstractUnixSocketEventView),
    FreeDomain(FreeDomainEventView),
    FreeRuleset(FreeRulesetEventView),
    EnforceDomain(EnforceDomainEventView),
    Unknown(UnknownEventView),
}

impl EventView {
    /// The monotonic kernel timestamp captured for the event.
    pub open spec fn timestamp(self) -> KernelTimestamp {
        match self {
            EventView::CreateRuleset(e) => e.timestamp,
            EventView::AddRuleFs(e) => e.timestamp,
            EventView::AddRuleNet(e) => e.timestamp,
            EventView::CreateDomain(e) => e.timestamp,
            EventView::DenyAccessFs(e) => e.timestamp,
            EventView::DenyAccessNet(e) => e.timestamp,
            EventView::DenyPtrace(e) => e.timestamp,
            EventView::DenyScopeSignal(e) => e.timestamp,
            EventView::DenyScopeAbstractUnixSocket(e) => e.timestamp,
            EventView::FreeDomain(e) => e.timestamp,
            EventView::FreeRuleset(e) => e.timestamp,
            EventView::EnforceDomain(e) => e.timestamp,
            EventView::Unknown(e) => e.timestamp,
        }
    }

    /// Whether the event is one of the five denial kinds.
    pub open spec fn is_denial(self) -> bool {
        ||| self is DenyAccessFs
        ||| self is DenyAccessNet
        ||| self is DenyPtrace
        ||| self is DenyScopeSignal
        ||| self is DenyScopeAbstractUnixSocket
    }

    /// The shared denial facts of a denial event.
    pub open spec fn denial_context(self) -> Option<DenialContextView> {
        match self {
            EventView::DenyAccessFs(e) => Some(e.context),
            EventView::DenyAccessNet(e) => Some(e.context),
            EventView::DenyPtrace(e) => Some(e.context),
            EventView::DenyScopeSignal(e) => Some(e.context),
            EventView::DenyScopeAbstractUnixSocket(e) => Some(e.context),
            _ => None,
        }
    }
}

/// A semantic Landlock observation.
#[derive(Debug, PartialEq, Eq)]
#[non_exhaustive]
pub enum Event {
    /// A ruleset was created.
    CreateRuleset(CreateRulesetEvent),
    /// A filesystem rule was added.
    AddRuleFs(AddRuleFsEvent),
    /// A network rule was added.
    AddRuleNet(AddRuleNetEvent),
    /// A domain was created.
    CreateDomain(CreateDomainEvent),
    /// Filesystem access was denied.
    DenyAccessFs(DenyAccessFsEvent),
    /// Network access was denied.
    DenyAccessNet(DenyAccessNetEvent),
    /// Ptrace access was denied.
    DenyPtrace(DenyPtraceEvent),
    /// Signal delivery was denied.
    DenyScopeSignal(DenyScopeSignalEvent),
    /// Abstract UNIX socket communication was denied.
    DenyScopeAbstractUnixSocket(DenyScopeAbstractUnixSocketEvent),
    /// A domain was freed.
    FreeDomain(FreeDomainEvent),
    /// A ruleset was freed.
    FreeRuleset(FreeRulesetEvent),
    /// A domain was enforced on a thread.
    EnforceDomain(EnforceDomainEvent),
    /// The producer supplied an event kind unknown to this library.
    Unknown(UnknownEvent),
}

impl View for Event {
    type V = EventView;

    open spec fn view(&self) -> EventView {
        match self {
            Event::CreateRuleset(e) => EventView::CreateRuleset(e@),
            Event::AddRuleFs(e) => EventView::AddRuleFs(e@),
            Event::AddRuleNet(e) => EventView::AddRuleNet(e@),
            Event::CreateDomain(e) => EventView::CreateDomain(e@),
            Event::DenyAccessFs(e) => EventView::DenyAccessFs(e@),
            Event::DenyAccessNet(e) => EventView::DenyAccessNet(e@),
            Event::DenyPtrace(e) => EventView::DenyPtrace(e@),
            Event::DenyScopeSignal(e) => EventView::DenyScopeSignal(e@),
            Event::DenyScopeAbstractUnixSocket(e) => EventView::DenyScopeAbstractUnixSocket(e@),
            Event::FreeDomain(e) => EventView::FreeDomain(e@),
            Event::FreeRuleset(e) => EventView::FreeRuleset(e@),
            Event::EnforceDomain(e) => EventView::EnforceDomain(e@),
            Event::Unknown(e) => EventView::Unknown(e@),
        }
    }
}

/// The variant of an [`Event`] is the variant of its view.
pub broadcast proof fn lemma_event_view_variant(event: Event)
    ensures
        (#[trigger] event@ is CreateRuleset) <==> event is CreateRuleset,
        event@ is AddRuleFs <==> event is AddRuleFs,
        event@ is AddRuleNet <==> event is AddRuleNet,
        event@ is CreateDomain <==> event is CreateDomain,
        event@ is DenyAccessFs <==> event is DenyAccessFs,
        event@ is DenyAccessNet <==> event is DenyAccessNet,
        event@ is DenyPtrace <==> event is DenyPtrace,
        event@ is DenyScopeSignal <==> event is DenyScopeSignal,
        event@ is DenyScopeAbstractUnixSocket <==> event is DenyScopeAbstractUnixSocket,
        event@ is FreeDomain <==> event is FreeDomain,
        event@ is FreeRuleset <==> event is FreeRuleset,
        event@ is EnforceDomain <==> event is EnforceDomain,
        event@ is Unknown <==> event is Unknown,
{
}

impl Event {
    /// Returns the monotonic kernel timestamp captured for this event.
    pub fn timestamp(&self) -> (timestamp: KernelTimestamp)
        ensures
            timestamp == self@.timestamp(),
    {
        match self {
            Event::CreateRuleset(event) => event.timestamp(),
            Event::AddRuleFs(event) => event.timestamp(),
            Event::AddRuleNet(event) => event.timestamp(),
            Event::CreateDomain(event) => event.timestamp(),
            Event::DenyAccessFs(event) => event.timestamp(),
            Event::DenyAccessNet(event) => event.timestamp(),
            Event::DenyPtrace(event) => event.timestamp(),
            Event::DenyScopeSignal(event) => event.timestamp(),
            Event::DenyScopeAbstractUnixSocket(event) => event.timestamp(),
            Event::FreeDomain(event) => event.timestamp(),
            Event::FreeRuleset(event) => event.timestamp(),
            Event::EnforceDomain(event) => event.timestamp(),
            Event::Unknown(event) => event.timestamp(),
        }
    }
}

impl Clone for Event {
    fn clone(&self) -> (copy: Self)
        ensures
            copy@ == self@,
    {
        match self {
            Event::CreateRuleset(e) => Event::CreateRuleset(e.clone()),
            Event::AddRuleFs(e) => Event::AddRuleFs(e.clone()),
            Event::AddRuleNet(e) => Event::AddRuleNet(e.clone()),
            Event::CreateDomain(e) => Event::CreateDomain(e.clone()),
            Event::DenyAccessFs(e) => Event::DenyAccessFs(e.clone()),
            Event::DenyAccessNet(e) => Event::DenyAccessNet(e.clone()),
            Event::DenyPtrace(e) => Event::DenyPtrace(e.clone()),
            Event::DenyScopeSignal(e) => Event::DenyScopeSignal(e.clone()),
            Event::DenyScopeAbstractUnixSocket(e) => Event::DenyScopeAbstractUnixSocket(e.clone()),
            Event::FreeDomain(e) => Event::FreeDomain(e.clone()),
            Event::FreeRuleset(e) => Event::FreeRuleset(e.clone()),
            Event::EnforceDomain(e) => Event::EnforceDomain(e.clone()),
            Event::Unknown(e) => Event::Unknown(e.clone()),
        }
    }
}

/// The captured facts of a [`HierarchySnapshot`].
pub struct HierarchySnapshotView {
    pub domain_id: DomainId,
    pub parent_id: Option<DomainId>,
    pub creator_tgid: u32,
    pub creator_comm: CapturedStringView,
}

/// A captured domain hierarchy snapshot.
#[derive(Debug, PartialEq, Eq)]
#[non_exhaustive]
pub struct HierarchySnapshot {
    domain_id: DomainId,
    parent_id: Option<DomainId>,
    creator_tgid: u32,
    creator_comm: CapturedString,
}

impl View for HierarchySnapshot {
    type V = HierarchySnapshotView;

    closed spec fn view(&self) -> HierarchySnapshotView {
        HierarchySnapshotView {
            domain_id: self.domain_id,
            parent_id: self.parent_id,
            creator_tgid: self.creator_tgid,
            creator_comm: self.creator_comm@,
        }
    }
}

impl HierarchySnapshot {
    /// Creates a hierarchy snapshot.
    ///
    /// A present `parent_id` is expected to be nonzero; use `None` for a
    /// domain without a parent.
    pub fn new(
        domain_id: DomainId,
        parent_id: Option<DomainId>,
        creator_tgid: u32,
        creator_comm: CapturedString,
    ) -> (value: Self)
        ensures
            value@ == (HierarchySnapshotView {
                domain_id,
                parent_id,
                creator_tgid,
                creator_comm: creator_comm@,
            }),
    {
        HierarchySnapshot {
            domain_id,
            parent_id,
            creator_tgid,
            creator_comm,
        }
    }

    /// Returns the denying domain identity.
    pub fn domain_id(&self) -> (value: DomainId)
        ensures
            value == self@.domain_id,
    {
        self.domain_id
    }

    /// Returns the parent, or `None` when the snapshot records no parent.
    pub fn parent_id(&self) -> (value: Option<DomainId>)
        ensures
            value == self@.parent_id,
    {
        self.parent_id
    }

    /// Returns the thread-group ID that created the domain.
    pub fn creator_tgid(&self) -> (value: u32)
        ensures
            value == self@.creator_tgid,
    {
        self.creator_tgid
    }

    /// Returns the captured creator command.
    pub fn creator_comm(&self) -> (value: &CapturedString)
        ensures
            value@ == self@.creator_comm,
    {
        &self.creator_comm
    }
}

impl Clone for HierarchySnapshot {
    fn clone(&self) -> (copy: Self)
        ensures
            copy@ == self@,
    {
        HierarchySnapshot {
            domain_id: self.domain_id,
            parent_id: self.parent_id,
            creator_tgid: self.creator_tgid,
            creator_comm: self.creator_comm.clone(),
        }
    }
}

/// The captured facts of a [`DenialContext`].
pub struct DenialContextView {
    pub hierarchy: HierarchySnapshotView,
    pub cumulative_denial_count: u64,
    pub same_exec: bool,
    pub logged: bool,
}

/// Facts shared by all denial events.
#[derive(Debug, PartialEq, Eq)]
#[non_exhaustive]
pub struct DenialContext {
    hierarchy: HierarchySnapshot,
    cumulative_denial_count: u64,
    same_exec: bool,
    logged: bool,
}

impl View for DenialContext {
    type V = DenialContextView;

    closed spec fn view(&self) -> DenialContextView {
        DenialContextView {
            hierarchy: self.hierarchy@,
            cumulative_denial_count: self.cumulative_denial_count,
            same_exec: self.same_exec,
            logged: self.logged,
        }
    }
}

impl DenialContext {
    /// Creates shared denial facts.
    pub fn new(
        hierarchy: HierarchySnapshot,
        cumulative_denial_count: u64,
        same_exec: bool,
        logged: bool,
    ) -> (value: Self)
        ensures
            value@ == (DenialContextView {
                hierarchy: hierarchy@,
                cumulative_denial_count,
                same_exec,
                logged,
            }),
    {
        DenialContext {
            hierarchy,
            cumulative_denial_count,
            same_exec,
            logged,
        }
    }

    /// Returns the hierarchy snapshot.
    pub fn hierarchy(&self) -> (value: &HierarchySnapshot)
        ensures
            value@ == self@.hierarchy,
    {
        &self.hierarchy
    }

    /// Returns the kernel's cumulative denial count.
    pub fn cumulative_denial_count(&self) -> (value: u64)
        ensures
            value == self@.cumulative_denial_count,
    {
        self.cumulative_denial_count
    }

    /// Returns whether the denial occurred in the creator's executable image.
    pub fn same_exec(&self) -> (value: bool)
        ensures
            value == self@.same_exec,
    {
        self.same_exec
    }

    /// Returns whether the kernel selected the denial for audit logging.
    pub fn logged(&self) -> (value: bool)
        ensures
            value == self@.logged,
    {
        self.logged
    }
}

impl Clone for DenialContext {
    fn clone(&self) -> (copy: Self)
        ensures
            copy@ == self@,
    {
        DenialContext {
            hierarchy: self.hierarchy.clone(),
            cumulative_denial_count: self.cumulative_denial_count,
            same_exec: self.same_exec,
            logged: self.logged,
        }
    }
}

/// The captured facts of a [`CreateRulesetEvent`].
pub struct CreateRulesetEventView {
    pub timestamp: KernelTimestamp,
    pub ruleset_id: RulesetId,
    pub ruleset_version: u32,
    pub handled_fs: FilesystemAccess,
    pub handled_net: NetworkAccess,
    pub scoped: ScopeAccess,
}

/// A ruleset creation event.
#[derive(Debug, PartialEq, Eq)]
#[non_exhaustive]
pub struct CreateRulesetEvent {
    timestamp: KernelTimestamp,
    ruleset_id: RulesetId,
    ruleset_version: u32,
    handled_fs: FilesystemAccess,
    handled_net: NetworkAccess,
    scoped: ScopeAccess,
}

impl View for CreateRulesetEvent {
    type V = CreateRulesetEventView;

    closed spec fn view(&self) -> CreateRulesetEventView {
        CreateRulesetEventView {
            timestamp: self.timestamp,
            ruleset_id: self.ruleset_id,
            ruleset_version: self.ruleset_version,
            handled_fs: self.handled_fs,
            handled_net: self.handled_net,
            scoped: self.scoped,
        }
    }
}

impl CreateRulesetEvent {
    /// Creates an event.
    pub fn new(
        timestamp: KernelTimestamp,
        ruleset_id: RulesetId,
        ruleset_version: u32,
        handled_fs: FilesystemAccess,
        handled_net: NetworkAccess,
        scoped: ScopeAccess,
    ) -> (value: Self)
        ensures
            value@ == (CreateRulesetEventView {
                timestamp,
                ruleset_id,
                ruleset_version,
                handled_fs,
                handled_net,
                scoped,
            }),
    {
        CreateRulesetEvent {
            timestamp,
            ruleset_id,
            ruleset_version,
            handled_fs,
            handled_net,
            scoped,
        }
    }

    /// Returns the event timestamp.
    pub fn timestamp(&self) -> (value: KernelTimestamp)
        ensures
            value == self@.timestamp,
    {
        self.timestamp
    }

    /// Returns the kernel-assigned ruleset identity.
    pub fn ruleset_id(&self) -> (value: RulesetId)
        ensures
            value == self@.ruleset_id,
    {
        self.ruleset_id
    }

    /// Returns the ruleset version captured for this event.
    pub fn ruleset_version(&self) -> (value: u32)
        ensures
            value == self@.ruleset_version,
    {
        self.ruleset_version
    }

    /// Returns the filesystem access rights handled by the ruleset.
    pub fn handled_fs(&self) -> (value: FilesystemAccess)
        ensures
            value == self@.handled_fs,
    {
        self.handled_fs
    }

    /// Returns the network access rights handled by the ruleset.
    pub fn handled_net(&self) -> (value: NetworkAccess)
        ensures
            value == self@.handled_net,
    {
        self.handled_net
    }

    /// Returns the access rights scoped by the ruleset.
    pub fn scoped(&self) -> (value: ScopeAccess)
        ensures
            value == self@.scoped,
    {
        self.scoped
    }
}

impl Clone for CreateRulesetEvent {
    fn clone(&self) -> (copy: Self)
        ensures
            copy@ == self@,
    {
        CreateRulesetEvent {
            timestamp: self.timestamp,
            ruleset_id: self.ruleset_id,
            ruleset_version: self.ruleset_version,
            handled_fs: self.handled_fs,
            handled_net: self.handled_net,
            scoped: self.scoped,
        }
    }
}

/// The captured facts of an [`AddRuleFsEvent`].
pub struct AddRuleFsEventView {
    pub timestamp: KernelTimestamp,
    pub ruleset_id: RulesetId,
    pub ruleset_version: u32,
    pub access_rights: FilesystemAccess,
    pub device: u32,
    pub inode: u64,
    pub pathname: CapturedStringView,
}

/// A filesystem rule addition event.
#[derive(Debug, PartialEq, Eq)]
#[non_exhaustive]
pub struct AddRuleFsEvent {
    timestamp: KernelTimestamp,
    ruleset_id: RulesetId,
    ruleset_version: u32,
    access_rights: FilesystemAccess,
    device: u32,
    inode: u64,
    pathname: CapturedString,
}

impl View for AddRuleFsEvent {
    type V = AddRuleFsEventView;

    closed spec fn view(&self) -> AddRuleFsEventView {
        AddRuleFsEventView {
            timestamp: self.timestamp,
            ruleset_id: self.ruleset_id,
            ruleset_version: self.ruleset_version,
            access_rights: self.access_rights,
            device: self.device,
            inode: self.inode,
            pathname: self.pathname@,
        }
    }
}

impl AddRuleFsEvent {
    /// Creates this semantic value from its captured fields.
    pub fn new(
        timestamp: KernelTimestamp,
        ruleset_id: RulesetId,
        ruleset_version: u32,
        access_rights: FilesystemAccess,
        device: u32,
        inode: u64,
        pathname: CapturedString,
    ) -> (value: Self)
        ensures
            value@ == (AddRuleFsEventView {
                timestamp,
                ruleset_id,
                ruleset_version,
                access_rights,
                device,
                inode,
                pathname: pathname@,
            }),
    {
        AddRuleFsEvent {
            timestamp,
            ruleset_id,
            ruleset_version,
            access_rights,
            device,
            inode,
            pathname,
        }
    }

    /// Returns the event timestamp.
    pub fn timestamp(&self) -> (value: KernelTimestamp)
        ensures
            value == self@.timestamp,
    {
        self.timestamp
    }

    /// Returns the kernel-assigned ruleset identity.
    pub fn ruleset_id(&self) -> (value: RulesetId)
        ensures
            value == self@.ruleset_id,
    {
        self.ruleset_id
    }

    /// Returns the ruleset version captured for this event.
    pub fn ruleset_version(&self) -> (value: u32)
        ensures
            value == self@.ruleset_version,
    {
        self.ruleset_version
    }

    /// Returns the access rights allowed by the added rule.
    pub fn access_rights(&self) -> (value: FilesystemAccess)
        ensures
            value == self@.access_rights,
    {
        self.access_rights
    }

    /// Returns the captured filesystem device number.
    pub fn device(&self) -> (value: u32)
        ensures
            value == self@.device,
    {
        self.device
    }

    /// Returns the captured filesystem inode number.
    pub fn inode(&self) -> (value: u64)
        ensures
            value == self@.inode,
    {
        self.inode
    }

    /// Returns the captured filesystem pathname.
    pub fn pathname(&self) -> (value: &CapturedString)
        ensures
            value@ == self@.pathname,
    {
        &self.pathname
    }
}

impl Clone for AddRuleFsEvent {
    fn clone(&self) -> (copy: Self)
        ensures
            copy@ == self@,
    {
        AddRuleFsEvent {
            timestamp: self.timestamp,
            ruleset_id: self.ruleset_id,
            ruleset_version: self.ruleset_version,
            access_rights: self.access_rights,
            device: self.device,
            inode: self.inode,
            pathname: self.pathname.clone(),
        }
    }
}

/// The captured facts of an [`AddRuleNetEvent`].
pub struct AddRuleNetEventView {
    pub timestamp: KernelTimestamp,
    pub ruleset_id: RulesetId,
    pub ruleset_version: u32,
    pub access_rights: NetworkAccess,
    pub port: u64,
}

/// A network rule addition event.
#[derive(Debug, PartialEq, Eq)]
#[non_exhaustive]
pub struct AddRuleNetEvent {
    timestamp: KernelTimestamp,
    ruleset_id: RulesetId,
    ruleset_version: u32,
    access_rights: NetworkAccess,
    port: u64,
}

impl View for AddRuleNetEvent {
    type V = AddRuleNetEventView;

    closed spec fn view(&self) -> AddRuleNetEventView {
        AddRuleNetEventView {
            timestamp: self.timestamp,
            ruleset_id: self.ruleset_id,
            ruleset_version: self.ruleset_version,
            access_rights: self.access_rights,
            port: self.port,
        }
    }
}

impl AddRuleNetEvent {
    /// Creates this semantic value from its captured fields.
    pub fn new(
        timestamp: KernelTimestamp,
        ruleset_id: RulesetId,
        ruleset_version: u32,
        access_rights: NetworkAccess,
        port: u64,
    ) -> (value: Self)
        ensures
            value@ == (AddRuleNetEventView {
                timestamp,
                ruleset_id,
                ruleset_version,
                access_rights,
                port,
            }),
    {
        AddRuleNetEvent {
            timestamp,
            ruleset_id,
            ruleset_version,
            access_rights,
            port,
        }
    }

    /// Returns the event timestamp.
    pub fn timestamp(&self) -> (value: KernelTimestamp)
        ensures
            value == self@.timestamp,
    {
        self.timestamp
    }

    /// Returns the kernel-assigned ruleset identity.
    pub fn ruleset_id(&self) -> (value: RulesetId)
        ensures
            value == self@.ruleset_id,
    {
        self.ruleset_id
    }

    /// Returns the ruleset version captured for this event.
    pub fn ruleset_version(&self) -> (value: u32)
        ensures
            value == self@.ruleset_version,
    {
        self.ruleset_version
    }

    /// Returns the access rights allowed by the added rule.
    pub fn access_rights(&self) -> (value: NetworkAccess)
        ensures
            value == self@.access_rights,
    {
        self.access_rights
    }

    /// Returns the network-rule port supplied by the tracepoint.
    pub fn port(&self) -> (value: u64)
        ensures
            value == self@.port,
    {
        self.port
    }
}

impl Clone for AddRuleNetEvent {
    fn clone(&self) -> (copy: Self)
        ensures
            copy@ == self@,
    {
        AddRuleNetEvent {
            timestamp: self.timestamp,
            ruleset_id: self.ruleset_id,
            ruleset_version: self.ruleset_version,
            access_rights: self.access_rights,
            port: self.port,
        }
    }
}

/// The captured facts of a [`CreateDomainEvent`].
pub struct CreateDomainEventView {
    pub timestamp: KernelTimestamp,
    pub ruleset_id: RulesetId,
    pub ruleset_version: u32,
    pub domain_id: DomainId,
    pub parent_id: Option<DomainId>,
    pub creator_tgid: u32,
    pub creator_comm: CapturedStringView,
}

/// A domain creation event.
#[derive(Debug, PartialEq, Eq)]
#[non_exhaustive]
pub struct CreateDomainEvent {
    timestamp: KernelTimestamp,
    ruleset_id: RulesetId,
    ruleset_version: u32,
    domain_id: DomainId,
    parent_id: Option<DomainId>,
    creator_tgid: u32,
    creator_comm: CapturedString,
}

impl View for CreateDomainEvent {
    type V = CreateDomainEventView;

    closed spec fn view(&self) -> CreateDomainEventView {
        CreateDomainEventView {
            timestamp: self.timestamp,
            ruleset_id: self.ruleset_id,
            ruleset_version: self.ruleset_version,
            domain_id: self.domain_id,
            parent_id: self.parent_id,
            creator_tgid: self.creator_tgid,
            creator_comm: self.creator_comm@,
        }
    }
}

impl CreateDomainEvent {
    /// Creates this semantic value from its captured fields.
    ///
    /// A present `parent_id` is expected to be nonzero; use `None` for a
    /// domain without a parent.
    pub fn new(
        timestamp: KernelTimestamp,
        ruleset_id: RulesetId,
        ruleset_version: u32,
        domain_id: DomainId,
        parent_id: Option<DomainId>,
        creator_tgid: u32,
        creator_comm: CapturedString,
    ) -> (value: Self)
        ensures
            value@ == (CreateDomainEventView {
                timestamp,
                ruleset_id,
                ruleset_version,
                domain_id,
                parent_id,
                creator_tgid,
                creator_comm: creator_comm@,
            }),
    {
        CreateDomainEvent {
            timestamp,
            ruleset_id,
            ruleset_version,
            domain_id,
            parent_id,
            creator_tgid,
            creator_comm,
        }
    }

    /// Returns the event timestamp.
    pub fn timestamp(&self) -> (value: KernelTimestamp)
        ensures
            value == self@.timestamp,
    {
        self.timestamp
    }

    /// Returns the kernel-assigned ruleset identity.
    pub fn ruleset_id(&self) -> (value: RulesetId)
        ensures
            value == self@.ruleset_id,
    {
        self.ruleset_id
    }

    /// Returns the ruleset version frozen into the new domain.
    pub fn ruleset_version(&self) -> (value: u32)
        ensures
            value == self@.ruleset_version,
    {
        self.ruleset_version
    }

    /// Returns the kernel-assigned domain identity.
    pub fn domain_id(&self) -> (value: DomainId)
        ensures
            value == self@.domain_id,
    {
        self.domain_id
    }

    /// Returns the parent domain identity, or `None` for no parent.
    pub fn parent_id(&self) -> (value: Option<DomainId>)
        ensures
            value == self@.parent_id,
    {
        self.parent_id
    }

    /// Returns the thread-group ID of the task that created the domain.
    pub fn creator_tgid(&self) -> (value: u32)
        ensures
            value == self@.creator_tgid,
    {
        self.creator_tgid
    }

    /// Returns the command name of the task that created the domain.
    pub fn creator_comm(&self) -> (value: &CapturedString)
        ensures
            value@ == self@.creator_comm,
    {
        &self.creator_comm
    }
}

impl Clone for CreateDomainEvent {
    fn clone(&self) -> (copy: Self)
        ensures
            copy@ == self@,
    {
        CreateDomainEvent {
            timestamp: self.timestamp,
            ruleset_id: self.ruleset_id,
            ruleset_version: self.ruleset_version,
            domain_id: self.domain_id,
            parent_id: self.parent_id,
            creator_tgid: self.creator_tgid,
            creator_comm: self.creator_comm.clone(),
        }
    }
}

/// The captured facts of a [`DenyAccessFsEvent`].
pub struct DenyAccessFsEventView {
    pub timestamp: KernelTimestamp,
    pub context: DenialContextView,
    pub blockers: FilesystemAccess,
    pub device: u32,
    pub inode: u64,
    pub pathname: CapturedStringView,
}

/// A filesystem access denial.
#[derive(Debug, PartialEq, Eq)]
#[non_exhaustive]
pub struct DenyAccessFsEvent {
    timestamp: KernelTimestamp,
    context: DenialContext,
    blockers: FilesystemAccess,
    device: u32,
    inode: u64,
    pathname: CapturedString,
}

impl View for DenyAccessFsEvent {
    type V = DenyAccessFsEventView;

    closed spec fn view(&self) -> DenyAccessFsEventView {
        DenyAccessFsEventView {
            timestamp: self.timestamp,
            context: self.context@,
            blockers: self.blockers,
            device: self.device,
            inode: self.inode,
            pathname: self.pathname@,
        }
    }
}

impl DenyAccessFsEvent {
    /// Creates this semantic value from its captured fields.
    pub fn new(
        timestamp: KernelTimestamp,
        context: DenialContext,
        blockers: FilesystemAccess,
        device: u32,
        inode: u64,
        pathname: CapturedString,
    ) -> (value: Self)
        ensures
            value@ == (DenyAccessFsEventView {
                timestamp,
                context: context@,
                blockers,
                device,
                inode,
                pathname: pathname@,
            }),
    {
        DenyAccessFsEvent {
            timestamp,
            context,
            blockers,
            device,
            inode,
            pathname,
        }
    }

    /// Returns the monotonic kernel timestamp captured for this event.
    pub fn timestamp(&self) -> (value: KernelTimestamp)
        ensures
            value == self@.timestamp,
    {
        self.timestamp
    }

    /// Returns the hierarchy and kernel denial facts shared by denial events.
    pub fn context(&self) -> (value: &DenialContext)
        ensures
            value@ == self@.context,
    {
        &self.context
    }

    /// Returns the access rights that blocked the operation.
    pub fn blockers(&self) -> (value: FilesystemAccess)
        ensures
            value == self@.blockers,
    {
        self.blockers
    }

    /// Returns the captured filesystem device number.
    pub fn device(&self) -> (value: u32)
        ensures
            value == self@.device,
    {
        self.device
    }

    /// Returns the captured filesystem inode number.
    pub fn inode(&self) -> (value: u64)
        ensures
            value == self@.inode,
    {
        self.inode
    }

    /// Returns the captured filesystem pathname.
    pub fn pathname(&self) -> (value: &CapturedString)
        ensures
            value@ == self@.pathname,
    {
        &self.pathname
    }
}

impl Clone for DenyAccessFsEvent {
    fn clone(&self) -> (copy: Self)
        ensures
            copy@ == self@,
    {
        DenyAccessFsEvent {
            timestamp: self.timestamp,
            context: self.context.clone(),
            blockers: self.blockers,
            device: self.device,
            inode: self.inode,
            pathname: self.pathname.clone(),
        }
    }
}

/// The captured facts of a [`DenyAccessNetEvent`].
pub struct DenyAccessNetEventView {
    pub timestamp: KernelTimestamp,
    pub context: DenialContextView,
    pub blockers: NetworkAccess,
    pub source_port: u64,
    pub destination_port: u64,
}

/// A network access denial.
#[derive(Debug, PartialEq, Eq)]
#[non_exhaustive]
pub struct DenyAccessNetEvent {
    timestamp: KernelTimestamp,
    context: DenialContext,
    blockers: NetworkAccess,
    source_port: u64,
    destination_port: u64,
}

impl View for DenyAccessNetEvent {
    type V = DenyAccessNetEventView;

    closed spec fn view(&self) -> DenyAccessNetEventView {
        DenyAccessNetEventView {
            timestamp: self.timestamp,
            context: self.context@,
            blockers: self.blockers,
            source_port: self.source_port,
            destination_port: self.destination_port,
        }
    }
}

impl DenyAccessNetEvent {
    /// Creates this semantic value from its captured fields.
    pub fn new(
        timestamp: KernelTimestamp,
        context: DenialContext,
        blockers: NetworkAccess,
        source_port: u64,
        destination_port: u64,
    ) -> (value: Self)
        ensures
            value@ == (DenyAccessNetEventView {
                timestamp,
                context: context@,
                blockers,
                source_port,
                destination_port,
            }),
    {
        DenyAccessNetEvent {
            timestamp,
            context,
            blockers,
            source_port,
            destination_port,
        }
    }

    /// Returns the monotonic kernel timestamp captured for this event.
    pub fn timestamp(&self) -> (value: KernelTimestamp)
        ensures
            value == self@.timestamp,
    {
        self.timestamp
    }

    /// Returns the hierarchy and kernel denial facts shared by denial events.
    pub fn context(&self) -> (value: &DenialContext)
        ensures
            value@ == self@.context,
    {
        &self.context
    }

    /// Returns the access rights that blocked the operation.
    pub fn blockers(&self) -> (value: NetworkAccess)
        ensures
            value == self@.blockers,
    {
        self.blockers
    }

    /// Returns the bind-side source port captured by the tracepoint.
    pub fn source_port(&self) -> (value: u64)
        ensures
            value == self@.source_port,
    {
        self.source_port
    }

    /// Returns the connect or send-side destination port captured by the tracepoint.
    pub fn destination_port(&self) -> (value: u64)
        ensures
            value == self@.destination_port,
    {
        self.destination_port
    }
}

impl Clone for DenyAccessNetEvent {
    fn clone(&self) -> (copy: Self)
        ensures
            copy@ == self@,
    {
        DenyAccessNetEvent {
            timestamp: self.timestamp,
            context: self.context.clone(),
            blockers: self.blockers,
            source_port: self.source_port,
            destination_port: self.destination_port,
        }
    }
}

/// The captured facts of a [`DenyPtraceEvent`].
pub struct DenyPtraceEventView {
    pub timestamp: KernelTimestamp,
    pub context: DenialContextView,
    pub tracee_domain: DomainMembership,
    pub tracee_pid: u32,
    pub tracee_comm: CapturedStringView,
}

/// A ptrace denial.
#[derive(Debug, PartialEq, Eq)]
#[non_exhaustive]
pub struct DenyPtraceEvent {
    timestamp: KernelTimestamp,
    context: DenialContext,
    tracee_domain: DomainMembership,
    tracee_pid: u32,
    tracee_comm: CapturedString,
}

impl View for DenyPtraceEvent {
    type V = DenyPtraceEventView;

    closed spec fn view(&self) -> DenyPtraceEventView {
        DenyPtraceEventView {
            timestamp: self.timestamp,
            context: self.context@,
            tracee_domain: self.tracee_domain,
            tracee_pid: self.tracee_pid,
            tracee_comm: self.tracee_comm@,
        }
    }
}

impl DenyPtraceEvent {
    /// Creates this semantic value from its captured fields.
    pub fn new(
        timestamp: KernelTimestamp,
        context: DenialContext,
        tracee_domain: DomainMembership,
        tracee_pid: u32,
        tracee_comm: CapturedString,
    ) -> (value: Self)
        ensures
            value@ == (DenyPtraceEventView {
                timestamp,
                context: context@,
                tracee_domain,
                tracee_pid,
                tracee_comm: tracee_comm@,
            }),
    {
        DenyPtraceEvent {
            timestamp,
            context,
            tracee_domain,
            tracee_pid,
            tracee_comm,
        }
    }

    /// Returns the monotonic kernel timestamp captured for this event.
    pub fn timestamp(&self) -> (value: KernelTimestamp)
        ensures
            value == self@.timestamp,
    {
        self.timestamp
    }

    /// Returns the hierarchy and kernel denial facts shared by denial events.
    pub fn context(&self) -> (value: &DenialContext)
        ensures
            value@ == self@.context,
    {
        &self.context
    }

    /// Returns whether the tracee was unsandboxed or in a domain.
    pub fn tracee_domain(&self) -> (value: DomainMembership)
        ensures
            value == self@.tracee_domain,
    {
        self.tracee_domain
    }

    /// Returns the thread-group ID of the tracee task.
    pub fn tracee_pid(&self) -> (value: u32)
        ensures
            value == self@.tracee_pid,
    {
        self.tracee_pid
    }

    /// Returns the captured command name of the tracee task.
    pub fn tracee_comm(&self) -> (value: &CapturedString)
        ensures
            value@ == self@.tracee_comm,
    {
        &self.tracee_comm
    }
}

impl Clone for DenyPtraceEvent {
    fn clone(&self) -> (copy: Self)
        ensures
            copy@ == self@,
    {
        DenyPtraceEvent {
            timestamp: self.timestamp,
            context: self.context.clone(),
            tracee_domain: self.tracee_domain,
            tracee_pid: self.tracee_pid,
            tracee_comm: self.tracee_comm.clone(),
        }
    }
}

/// The captured facts of a [`DenyScopeSignalEvent`].
pub struct DenyScopeSignalEventView {
    pub timestamp: KernelTimestamp,
    pub context: DenialContextView,
    pub target_domain: DomainMembership,
    pub target_pid: u32,
    pub target_comm: CapturedStringView,
}

/// A signal denial.
#[derive(Debug, PartialEq, Eq)]
#[non_exhaustive]
pub struct DenyScopeSignalEvent {
    timestamp: KernelTimestamp,
    context: DenialContext,
    target_domain: DomainMembership,
    target_pid: u32,
    target_comm: CapturedString,
}

impl View for DenyScopeSignalEvent {
    type V = DenyScopeSignalEventView;

    closed spec fn view(&self) -> DenyScopeSignalEventView {
        DenyScopeSignalEventView {
            timestamp: self.timestamp,
            context: self.context@,
            target_domain: self.target_domain,
            target_pid: self.target_pid,
            target_comm: self.target_comm@,
        }
    }
}

impl DenyScopeSignalEvent {
    /// Creates this semantic value from its captured fields.
    pub fn new(
        timestamp: KernelTimestamp,
        context: DenialContext,
        target_domain: DomainMembership,
        target_pid: u32,
        target_comm: CapturedString,
    ) -> (value: Self)
        ensures
            value@ == (DenyScopeSignalEventView {
                timestamp,
                context: context@,
                target_domain,
                target_pid,
                target_comm: target_comm@,
            }),
    {
        DenyScopeSignalEvent {
            timestamp,
            context,
            target_domain,
            target_pid,
            target_comm,
        }
    }

    /// Returns the monotonic kernel timestamp captured for this event.
    pub fn timestamp(&self) -> (value: KernelTimestamp)
        ensures
            value == self@.timestamp,
    {
        self.timestamp
    }

    /// Returns the hierarchy and kernel denial facts shared by denial events.
    pub fn context(&self) -> (value: &DenialContext)
        ensures
            value@ == self@.context,
    {
        &self.context
    }

    /// Returns whether the target was unsandboxed or in a domain.
    pub fn target_domain(&self) -> (value: DomainMembership)
        ensures
            value == self@.target_domain,
    {
        self.target_domain
    }

    /// Returns the thread-group ID of the target task.
    pub fn target_pid(&self) -> (value: u32)
        ensures
            value == self@.target_pid,
    {
        self.target_pid
    }

    /// Returns the captured command name of the target task.
    pub fn target_comm(&self) -> (value: &CapturedString)
        ensures
            value@ == self@.target_comm,
    {
        &self.target_comm
    }
}

impl Clone for DenyScopeSignalEvent {
    fn clone(&self) -> (copy: Self)
        ensures
            copy@ == self@,
    {
        DenyScopeSignalEvent {
            timestamp: self.timestamp,
            context: self.context.clone(),
            target_domain: self.target_domain,
            target_pid: self.target_pid,
            target_comm: self.target_comm.clone(),
        }
    }
}

/// The captured facts of a [`DenyScopeAbstractUnixSocketEvent`].
pub struct DenyScopeAbstractUnixSocketEventView {
    pub timestamp: KernelTimestamp,
    pub context: DenialContextView,
    pub peer_domain: DomainMembership,
    pub peer_pid: u32,
}

/// An abstract UNIX socket denial.
#[derive(Debug, PartialEq, Eq)]
#[non_exhaustive]
pub struct DenyScopeAbstractUnixSocketEvent {
    timestamp: KernelTimestamp,
    context: DenialContext,
    peer_domain: DomainMembership,
    peer_pid: u32,
}

impl View for DenyScopeAbstractUnixSocketEvent {
    type V = DenyScopeAbstractUnixSocketEventView;

    closed spec fn view(&self) -> DenyScopeAbstractUnixSocketEventView {
        DenyScopeAbstractUnixSocketEventView {
            timestamp: self.timestamp,
            context: self.context@,
            peer_domain: self.peer_domain,
            peer_pid: self.peer_pid,
        }
    }
}

impl DenyScopeAbstractUnixSocketEvent {
    /// Creates this semantic value from its captured fields.
    pub fn new(
        timestamp: KernelTimestamp,
        context: DenialContext,
        peer_domain: DomainMembership,
        peer_pid: u32,
    ) -> (value: Self)
        ensures
            value@ == (DenyScopeAbstractUnixSocketEventView {
                timestamp,
                context: context@,
                peer_domain,
                peer_pid,
            }),
    {
        DenyScopeAbstractUnixSocketEvent {
            timestamp,
            context,
            peer_domain,
            peer_pid,
        }
    }

    /// Returns the monotonic kernel timestamp captured for this event.
    pub fn timestamp(&self) -> (value: KernelTimestamp)
        ensures
            value == self@.timestamp,
    {
        self.timestamp
    }

    /// Returns the hierarchy and kernel denial facts shared by denial events.
    pub fn context(&self) -> (value: &DenialContext)
        ensures
            value@ == self@.context,
    {
        &self.context
    }

    /// Returns whether the peer was unsandboxed or in a domain.
    pub fn peer_domain(&self) -> (value: DomainMembership)
        ensures
            value == self@.peer_domain,
    {
        self.peer_domain
    }

    /// Returns the socket peer PID captured by the kernel.
    pub fn peer_pid(&self) -> (value: u32)
        ensures
            value == self@.peer_pid,
    {
        self.peer_pid
    }
}

impl Clone for DenyScopeAbstractUnixSocketEvent {
    fn clone(&self) -> (copy: Self)
        ensures
            copy@ == self@,
    {
        DenyScopeAbstractUnixSocketEvent {
            timestamp: self.timestamp,
            context: self.context.clone(),
            peer_domain: self.peer_domain,
            peer_pid: self.peer_pid,
        }
    }
}

/// The captured facts of a [`FreeDomainEvent`].
pub struct FreeDomainEventView {
    pub timestamp: KernelTimestamp,
    pub domain_id: DomainId,
    pub denial_count: u64,
}

/// A domain destruction event.
#[derive(Debug, PartialEq, Eq)]
#[non_exhaustive]
pub struct FreeDomainEvent {
    timestamp: KernelTimestamp,
    domain_id: DomainId,
    denial_count: u64,
}

impl View for FreeDomainEvent {
    type V = FreeDomainEventView;

    closed spec fn view(&self) -> FreeDomainEventView {
        FreeDomainEventView {
            timestamp: self.timestamp,
            domain_id: self.domain_id,
            denial_count: self.denial_count,
        }
    }
}

impl FreeDomainEvent {
    /// Creates this semantic value from its captured fields.
    pub fn new(
        timestamp: KernelTimestamp,
        domain_id: DomainId,
        denial_count: u64,
    ) -> (value: Self)
        ensures
            value@ == (FreeDomainEventView {
                timestamp,
                domain_id,
                denial_count,
            }),
    {
        FreeDomainEvent {
            timestamp,
            domain_id,
            denial_count,
        }
    }

    /// Returns the event timestamp.
    pub fn timestamp(&self) -> (value: KernelTimestamp)
        ensures
            value == self@.timestamp,
    {
        self.timestamp
    }

    /// Returns the kernel-assigned domain identity.
    pub fn domain_id(&self) -> (value: DomainId)
        ensures
            value == self@.domain_id,
    {
        self.domain_id
    }

    /// Returns the domain's final cumulative kernel denial count.
    pub fn denial_count(&self) -> (value: u64)
        ensures
            value == self@.denial_count,
    {
        self.denial_count
    }
}

impl Clone for FreeDomainEvent {
    fn clone(&self) -> (copy: Self)
        ensures
            copy@ == self@,
    {
        FreeDomainEvent {
            timestamp: self.timestamp,
            domain_id: self.domain_id,
            denial_count: self.denial_count,
        }
    }
}

/// The captured facts of a [`FreeRulesetEvent`].
pub struct FreeRulesetEventView {
    pub timestamp: KernelTimestamp,
    pub ruleset_id: RulesetId,
    pub ruleset_version: u32,
}

/// A ruleset destruction event.
#[derive(Debug, PartialEq, Eq)]
#[non_exhaustive]
pub struct FreeRulesetEvent {
    timestamp: KernelTimestamp,
    ruleset_id: RulesetId,
    ruleset_version: u32,
}

impl View for FreeRulesetEvent {
    type V = FreeRulesetEventView;

    closed spec fn view(&self) -> FreeRulesetEventView {
        FreeRulesetEventView {
            timestamp: self.timestamp,
            ruleset_id: self.ruleset_id,
            ruleset_version: self.ruleset_version,
        }
    }
}

impl FreeRulesetEvent {
    /// Creates this semantic value from its captured fields.
    pub fn new(
        timestamp: KernelTimestamp,
        ruleset_id: RulesetId,
        ruleset_version: u32,
    ) -> (value: Self)
        ensures
            value@ == (FreeRulesetEventView {
                timestamp,
                ruleset_id,
                ruleset_version,
            }),
    {
        FreeRulesetEvent {
            timestamp,
            ruleset_id,
            ruleset_version,
        }
    }

    /// Returns the event timestamp.
    pub fn timestamp(&self) -> (value: KernelTimestamp)
        ensures
            value == self@.timestamp,
    {
        self.timestamp
    }

    /// Returns the kernel-assigned ruleset identity.
    pub fn ruleset_id(&self) -> (value: RulesetId)
        ensures
            value == self@.ruleset_id,
    {
        self.ruleset_id
    }

    /// Returns the ruleset's final version.
    pub fn ruleset_version(&self) -> (value: u32)
        ensures
            value == self@.ruleset_version,
    {
        self.ruleset_version
    }
}

impl Clone for FreeRulesetEvent {
    fn clone(&self) -> (copy: Self)
        ensures
            copy@ == self@,
    {
        FreeRulesetEvent {
            timestamp: self.timestamp,
            ruleset_id: self.ruleset_id,
            ruleset_version: self.ruleset_version,
        }
    }
}

/// The captured facts of an [`EnforceDomainEvent`].
pub struct EnforceDomainEventView {
    pub timestamp: KernelTimestamp,
    pub domain_id: DomainId,
    pub enforcing_tid: u32,
    pub complete: bool,
    pub process_wide: bool,
    pub no_new_privs: bool,
}

/// A domain enforcement outcome event.
#[derive(Debug, PartialEq, Eq)]
#[non_exhaustive]
pub struct EnforceDomainEvent {
    timestamp: KernelTimestamp,
    domain_id: DomainId,
    enforcing_tid: u32,
    complete: bool,
    process_wide: bool,
    no_new_privs: bool,
}

impl View for EnforceDomainEvent {
    type V = EnforceDomainEventView;

    closed spec fn view(&self) -> EnforceDomainEventView {
        EnforceDomainEventView {
            timestamp: self.timestamp,
            domain_id: self.domain_id,
            enforcing_tid: self.enforcing_tid,
            complete: self.complete,
            process_wide: self.process_wide,
            no_new_privs: self.no_new_privs,
        }
    }
}

impl EnforceDomainEvent {
    /// Creates this semantic value from its captured fields.
    pub fn new(
        timestamp: KernelTimestamp,
        domain_id: DomainId,
        enforcing_tid: u32,
        complete: bool,
        process_wide: bool,
        no_new_privs: bool,
    ) -> (value: Self)
        ensures
            value@ == (EnforceDomainEventView {
                timestamp,
                domain_id,
                enforcing_tid,
                complete,
                process_wide,
                no_new_privs,
            }),
    {
        EnforceDomainEvent {
            timestamp,
            domain_id,
            enforcing_tid,
            complete,
            process_wide,
            no_new_privs,
        }
    }

    /// Returns the event timestamp.
    pub fn timestamp(&self) -> (value: KernelTimestamp)
        ensures
            value == self@.timestamp,
    {
        self.timestamp
    }

    /// Returns the kernel-assigned domain identity.
    pub fn domain_id(&self) -> (value: DomainId)
        ensures
            value == self@.domain_id,
    {
        self.domain_id
    }

    /// Returns the thread ID on which this enforcement outcome occurred.
    pub fn enforcing_tid(&self) -> (value: u32)
        ensures
            value == self@.enforcing_tid,
    {
        self.enforcing_tid
    }

    /// Returns whether this was the caller's concluding enforcement event.
    ///
    /// This does not claim that reconstructed domain state is complete.
    pub fn complete(&self) -> (value: bool)
        ensures
            value == self@.complete,
    {
        self.complete
    }

    /// Returns whether eligible sibling threads were covered or none existed.
    pub fn process_wide(&self) -> (value: bool)
        ensures
            value == self@.process_wide,
    {
        self.process_wide
    }

    /// Returns whether the enforcing thread had `no_new_privs` set.
    pub fn no_new_privs(&self) -> (value: bool)
        ensures
            value == self@.no_new_privs,
    {
        self.no_new_privs
    }
}

impl Clone for EnforceDomainEvent {
    fn clone(&self) -> (copy: Self)
        ensures
            copy@ == self@,
    {
        EnforceDomainEvent {
            timestamp: self.timestamp,
            domain_id: self.domain_id,
            enforcing_tid: self.enforcing_tid,
            complete: self.complete,
            process_wide: self.process_wide,
            no_new_privs: self.no_new_privs,
        }
    }
}

/// The captured facts of an [`UnknownEvent`].
pub struct UnknownEventView {
    pub timestamp: KernelTimestamp,
    pub numeric_kind: u8,
    pub record_length: usize,
}

/// An event kind not understood by this library.
#[derive(Debug, PartialEq, Eq)]
#[non_exhaustive]
pub struct UnknownEvent {
    timestamp: KernelTimestamp,
    numeric_kind: u8,
    record_length: usize,
}

impl View for UnknownEvent {
    type V = UnknownEventView;

    closed spec fn view(&self) -> UnknownEventView {
        UnknownEventView {
            timestamp: self.timestamp,
            numeric_kind: self.numeric_kind,
            record_length: self.record_length,
        }
    }
}

impl UnknownEvent {
    /// Creates an event for an unrecognized producer kind.
    ///
    /// An unknown event retains its numeric kind so a newer producer
    /// observation is not discarded.
    pub fn new(
        timestamp: KernelTimestamp,
        numeric_kind: u8,
        record_length: usize,
    ) -> (value: Self)
        ensures
            value@ == (UnknownEventView {
                timestamp,
                numeric_kind,
                record_length,
            }),
    {
        UnknownEvent {
            timestamp,
            numeric_kind,
            record_length,
        }
    }

    /// Returns the monotonic kernel timestamp captured for this event.
    pub fn timestamp(&self) -> (value: KernelTimestamp)
        ensures
            value == self@.timestamp,
    {
        self.timestamp
    }

    /// Returns the producer's unrecognized numeric event kind.
    pub fn numeric_kind(&self) -> (value: u8)
        ensures
            value == self@.numeric_kind,
    {
        self.numeric_kind
    }

    /// Returns the captured record length carrying the unknown kind.
    pub fn record_length(&self) -> (value: usize)
        ensures
            value == self@.record_length,
    {
        self.record_length
    }
}

impl Clone for UnknownEvent {
    fn clone(&self) -> (copy: Self)
        ensures
            copy@ == self@,
    {
        UnknownEvent {
            timestamp: self.timestamp,
            numeric_kind: self.numeric_kind,
            record_length: self.record_length,
        }
    }
}

} // verus!
