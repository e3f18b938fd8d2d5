//! Semantic identities of denials.
use vstd::prelude::*;

use crate::event::{
    CapturedString, CapturedStringView, DomainId, DomainMembership, Event, EventView,
    FilesystemAccess, NetworkAccess,
};

verus! {

/// The identity facts of a [`FilesystemDenialKey`].
pub struct FilesystemDenialKeyView {
    pub domain_id: DomainId,
    pub blockers: FilesystemAccess,
    pub device: u32,
    pub inode: u64,
}

/// A filesystem denial aggregation key.
#[derive(Clone, Copy, Debug, PartialEq, Eq, Hash, Structural)]
#[non_exhaustive]
pub struct FilesystemDenialKey {
    domain_id: DomainId,
    blockers: FilesystemAccess,
    device: u32,
    inode: u64,
}

impl View for FilesystemDenialKey {
    type V = FilesystemDenialKeyView;

    closed spec fn view(&self) -> FilesystemDenialKeyView {
        FilesystemDenialKeyView {
            domain_id: self.domain_id,
            blockers: self.blockers,
            device: self.device,
            inode: self.inode,
        }
    }
}

impl FilesystemDenialKey {
    /// Creates a filesystem denial key.
    pub fn new(domain_id: DomainId, blockers: FilesystemAccess, device: u32, inode: u64) -> (key:
        Self)
        ensures
            key@ == (FilesystemDenialKeyView { domain_id, blockers, device, inode }),
    {
        FilesystemDenialKey { domain_id, blockers, device, inode }
    }

    /// Returns the denying domain identity.
    pub fn domain_id(&self) -> (value: DomainId)
        ensures
            value == self@.domain_id,
    {
        self.domain_id
    }

    /// Returns the access rights that blocked the operation.
    pub fn blockers(&self) -> (value: FilesystemAccess)
        ensures
            value == self@.blockers,
    {
        self.blockers
    }

    /// Returns the captured filesystem device number.
    pub fn device(&self) -> (value: u32)
        ensures
            value == self@.device,
    {
        self.device
    }

    /// Returns the captured filesystem inode number.
    pub fn inode(&self) -> (value: u64)
        ensures
            value == self@.inode,
    {
        self.inode
    }
}

/// The identity facts of a [`NetworkDenialKey`].
pub struct NetworkDenialKeyView {
    pub domain_id: DomainId,
    pub blockers: NetworkAccess,
    pub source_port: u64,
    pub destination_port: u64,
}

/// A network denial aggregation key.
#[derive(Clone, Copy, Debug, PartialEq, Eq, Hash, Structural)]
#[non_exhaustive]
pub struct NetworkDenialKey {
    domain_id: DomainId,
    blockers: NetworkAccess,
    source_port: u64,
    destination_port: u64,
}

impl View for NetworkDenialKey {
    type V = NetworkDenialKeyView;

    closed spec fn view(&self) -> NetworkDenialKeyView {
        NetworkDenialKeyView {
            domain_id: self.domain_id,
            blockers: self.blockers,
            source_port: self.source_port,
            destination_port: self.destination_port,
        }
    }
}

impl NetworkDenialKey {
    /// Creates a network denial key.
    pub fn new(
        domain_id: DomainId,
        blockers: NetworkAccess,
        source_port: u64,
        destination_port: u64,
    ) -> (key: Self)
        ensures
            key@ == (NetworkDenialKeyView { domain_id, blockers, source_port, destination_port }),
    {
        NetworkDenialKey { domain_id, blockers, source_port, destination_port }
    }

    /// Returns the denying domain identity.
    pub fn domain_id(&self) -> (value: DomainId)
        ensures
            value == self@.domain_id,
    {
        self.domain_id
    }

    /// Returns the access rights that blocked the operation.
    pub fn blockers(&self) -> (value: NetworkAccess)
        ensures
            value == self@.blockers,
    {
        self.blockers
    }

    /// Returns the bind-side source port captured by the tracepoint.
    pub fn source_port(&self) -> (value: u64)
        ensures
            value == self@.source_port,
    {
        self.source_port
    }

    /// Returns the connect or send-side destination port captured by the tracepoint.
    pub fn destination_port(&self) -> (value: u64)
        ensures
            value == self@.destination_port,
    {
        self.destination_port
    }
}

/// The identity facts of a task denial key: the denying domain, the other
/// task's membership, its thread-group ID and its captured command name.
pub struct TaskDenialKeyView {
    pub domain_id: DomainId,
    pub domain: DomainMembership,
    pub pid: u32,
    pub comm: CapturedStringView,
}

/// A ptrace denial aggregation key. The captured tracee command is part of the identity.
#[derive(Debug, PartialEq, Eq, Hash)]
#[non_exhaustive]
pub struct PtraceDenialKey {
    domain_id: DomainId,
    tracee_domain: DomainMembership,
    tracee_pid: u32,
    tracee_comm: CapturedString,
}

impl View for PtraceDenialKey {
    type V = TaskDenialKeyView;

    closed spec fn view(&self) -> TaskDenialKeyView {
        TaskDenialKeyView {
            domain_id: self.domain_id,
            domain: self.tracee_domain,
            pid: self.tracee_pid,
            comm: self.tracee_comm@,
        }
    }
}

impl PtraceDenialKey {
    /// Creates a task denial key.
    pub fn new(
        domain_id: DomainId,
        tracee_domain: DomainMembership,
        tracee_pid: u32,
        tracee_comm: CapturedString,
    ) -> (key: Self)
        ensures
            key@ == (TaskDenialKeyView {
                domain_id,
                domain: tracee_domain,
                pid: tracee_pid,
                comm: tracee_comm@,
            }),
    {
        PtraceDenialKey { domain_id, tracee_domain, tracee_pid, tracee_comm }
    }

    /// Returns the denying domain identity.
    pub fn domain_id(&self) -> (value: DomainId)
        ensures
            value == self@.domain_id,
    {
        self.domain_id
    }

    /// Returns whether the tracee was unsandboxed or in a domain.
    pub fn tracee_domain(&self) -> (value: DomainMembership)
        ensures
            value == self@.domain,
    {
        self.tracee_domain
    }

    /// Returns the thread-group ID of the tracee task.
    pub fn tracee_pid(&self) -> (value: u32)
        ensures
            value == self@.pid,
    {
        self.tracee_pid
    }

    /// Returns the captured command name of the tracee task.
    pub fn tracee_comm(&self) -> (value: &CapturedString)
        ensures
            value@ == self@.comm,
    {
        &self.tracee_comm
    }

    /// Returns whether both keys name the same denial identity.
    pub fn same_as(&self, other: &PtraceDenialKey) -> (same: bool)
        ensures
            same == (self@ == other@),
    {
        self.domain_id == other.domain_id && self.tracee_domain == other.tracee_domain
            && self.tracee_pid == other.tracee_pid && self.tracee_comm.same_as(&other.tracee_comm)
    }
}

impl Clone for PtraceDenialKey {
    fn clone(&self) -> (copy: Self)
        ensures
            copy@ == self@,
    {
        PtraceDenialKey {
            domain_id: self.domain_id,
            tracee_domain: self.tracee_domain,
            tracee_pid: self.tracee_pid,
            tracee_comm: self.tracee_comm.clone(),
        }
    }
}

/// A signal denial aggregation key. The captured target command is part of the identity.
#[derive(Debug, PartialEq, Eq, Hash)]
#[non_exhaustive]
pub struct SignalDenialKey {
    domain_id: DomainId,
    target_domain: DomainMembership,
    target_pid: u32,
    target_comm: CapturedString,
}

impl View for SignalDenialKey {
    type V = TaskDenialKeyView;

    closed spec fn view(&self) -> TaskDenialKeyView {
        TaskDenialKeyView {
            domain_id: self.domain_id,
            domain: self.target_domain,
            pid: self.target_pid,
            comm: self.target_comm@,
        }
    }
}

impl SignalDenialKey {
    /// Creates a task denial key.
    pub fn new(
        domain_id: DomainId,
        target_domain: DomainMembership,
        target_pid: u32,
        target_comm: CapturedString,
    ) -> (key: Self)
        ensures
            key@ == (TaskDenialKeyView {
                domain_id,
                domain: target_domain,
                pid: target_pid,
                comm: target_comm@,
            }),
    {
        SignalDenialKey { domain_id, target_domain, target_pid, target_comm }
    }

    /// Returns the denying domain identity.
    pub fn domain_id(&self) -> (value: DomainId)
        ensures
            value == self@.domain_id,
    {
        self.domain_id
    }

    /// Returns whether the target was unsandboxed or in a domain.
    pub fn target_domain(&self) -> (value: DomainMembership)
        ensures
            value == self@.domain,
    {
        self.target_domain
    }

    /// Returns the thread-group ID of the target task.
    pub fn target_pid(&self) -> (value: u32)
        ensures
            value == self@.pid,
    {
        self.target_pid
    }

    /// Returns the captured command name of the target task.
    pub fn target_comm(&self) -> (value: &CapturedString)
        ensures
            value@ == self@.comm,
    {
        &self.target_comm
    }

    /// Returns whether both keys name the same denial identity.
    pub fn same_as(&self, other: &SignalDenialKey) -> (same: bool)
        ensures
            same == (self@ == other@),
    {
        self.domain_id == other.domain_id && self.target_domain == other.target_domain
            && self.target_pid == other.target_pid && self.target_comm.same_as(&other.target_comm)
    }
}

impl Clone for SignalDenialKey {
    fn clone(&self) -> (copy: Self)
        ensures
            copy@ == self@,
    {
        SignalDenialKey {
            domain_id: self.domain_id,
            target_domain: self.target_domain,
            target_pid: self.target_pid,
            target_comm: self.target_comm.clone(),
        }
    }
}

/// The identity facts of an [`AbstractUnixSocketDenialKey`].
pub struct AbstractUnixSocketDenialKeyView {
    pub domain_id: DomainId,
    pub peer_domain: DomainMembership,
    pub peer_pid: u32,
}

/// An abstract UNIX socket denial aggregation key.
#[derive(Clone, Copy, Debug, PartialEq, Eq, Hash, Structural)]
#[non_exhaustive]
pub struct AbstractUnixSocketDenialKey {
    domain_id: DomainId,
    peer_domain: DomainMembership,
    peer_pid: u32,
}

impl View for AbstractUnixSocketDenialKey {
    type V = AbstractUnixSocketDenialKeyView;

    closed spec fn view(&self) -> AbstractUnixSocketDenialKeyView {
        AbstractUnixSocketDenialKeyView {
            domain_id: self.domain_id,
            peer_domain: self.peer_domain,
            peer_pid: self.peer_pid,
        }
    }
}

impl AbstractUnixSocketDenialKey {
    /// Creates an abstract UNIX socket denial key.
    pub fn new(domain_id: DomainId, peer_domain: DomainMembership, peer_pid: u32) -> (key: Self)
        ensures
            key@ == (AbstractUnixSocketDenialKeyView { domain_id, peer_domain, peer_pid }),
    {
        AbstractUnixSocketDenialKey { domain_id, peer_domain, peer_pid }
    }

    /// Returns the denying domain identity.
    pub fn domain_id(&self) -> (value: DomainId)
        ensures
            value == self@.domain_id,
    {
        self.domain_id
    }

    /// Returns whether the peer was unsandboxed or in a domain.
    pub fn peer_domain(&self) -> (value: DomainMembership)
        ensures
            value == self@.peer_domain,
    {
        self.peer_domain
    }

    /// Returns the socket peer PID captured by the kernel.
    pub fn peer_pid(&self) -> (value: u32)
        ensures
            value == self@.peer_pid,
    {
        self.peer_pid
    }
}

/// The identity facts of a [`DenialKey`].
pub enum DenialKeyView {
    Filesystem(FilesystemDenialKeyView),
    Network(NetworkDenialKeyView),
    Ptrace(TaskDenialKeyView),
    Signal(TaskDenialKeyView),
    AbstractUnixSocket(AbstractUnixSocketDenialKeyView),
}

impl DenialKeyView {
    /// The identity of the domain that denied the operation.
    pub open spec fn domain_id(self) -> DomainId {
        match self {
            DenialKeyView::Filesystem(key) => key.domain_id,
            DenialKeyView::Network(key) => key.domain_id,
            DenialKeyView::Ptrace(key) => key.domain_id,
            DenialKeyView::Signal(key) => key.domain_id,
            DenialKeyView::AbstractUnixSocket(key) => key.domain_id,
        }
    }
}

/// A type-safe denial aggregation key.
///
/// Each variant contains only the blocker and target categories carried by its
/// denial family. Filesystem paths are descriptive event data and are not part
/// of filesystem target identity.
#[derive(Debug, PartialEq, Eq, Hash)]
#[non_exhaustive]
pub enum DenialKey {
    /// A filesystem denial key.
    Filesystem(FilesystemDenialKey),
    /// A network denial key.
    Network(NetworkDenialKey),
    /// A ptrace denial key.
    Ptrace(PtraceDenialKey),
    /// A signal denial key.
    Signal(SignalDenialKey),
    /// An abstract UNIX socket denial key.
    AbstractUnixSocket(AbstractUnixSocketDenialKey),
}

impl View for DenialKey {
    type V = DenialKeyView;

    open spec fn view(&self) -> DenialKeyView {
        match self {
            DenialKey::Filesystem(key) => DenialKeyView::Filesystem(key@),
            DenialKey::Network(key) => DenialKeyView::Network(key@),
            DenialKey::Ptrace(key) => DenialKeyView::Ptrace(key@),
            DenialKey::Signal(key) => DenialKeyView::Signal(key@),
            DenialKey::AbstractUnixSocket(key) => DenialKeyView::AbstractUnixSocket(key@),
        }
    }
}

impl DenialKey {
    /// Returns the identity of the domain that denied the operation.
    pub fn domain_id(&self) -> (id: DomainId)
        ensures
            id == self@.domain_id(),
    {
        match self {
            DenialKey::Filesystem(key) => key.domain_id(),
            DenialKey::Network(key) => key.domain_id(),
            DenialKey::Ptrace(key) => key.domain_id(),
            DenialKey::Signal(key) => key.domain_id(),
            DenialKey::AbstractUnixSocket(key) => key.domain_id(),
        }
    }

    /// Returns whether both keys name the same denial identity.
    pub fn same_as(&self, other: &DenialKey) -> (same: bool)
        ensures
            same == (self@ == other@),
    {
        match (self, other) {
            (DenialKey::Filesystem(a), DenialKey::Filesystem(b)) => {
                let same = *a == *b;
                proof {
                    if !same {
                        assert(a@ != b@) by {
                            if a@ == b@ {
                                assert(a.domain_id == b.domain_id);
                            }
                        }
                    }
                }
                same
            },
            (DenialKey::Network(a), DenialKey::Network(b)) => {
                let same = *a == *b;
                proof {
                    if !same {
                        assert(a@ != b@) by {
                            if a@ == b@ {
                                assert(a.domain_id == b.domain_id);
                            }
                        }
                    }
                }
                same
            },
            (DenialKey::Ptrace(a), DenialKey::Ptrace(b)) => a.same_as(b),
            (DenialKey::Signal(a), DenialKey::Signal(b)) => a.same_as(b),
            (DenialKey::AbstractUnixSocket(a), DenialKey::AbstractUnixSocket(b)) => {
                let same = *a == *b;
                proof {
                    if !same {
                        assert(a@ != b@) by {
                            if a@ == b@ {
                                assert(a.domain_id == b.domain_id);
                            }
                        }
                    }
                }
                same
            },
            _ => false,
        }
    }
}

impl Clone for DenialKey {
    fn clone(&self) -> (copy: Self)
        ensures
            copy@ == self@,
    {
        match self {
            DenialKey::Filesystem(key) => DenialKey::Filesystem(*key),
            DenialKey::Network(key) => DenialKey::Network(*key),
            DenialKey::Ptrace(key) => DenialKey::Ptrace(key.clone()),
            DenialKey::Signal(key) => DenialKey::Signal(key.clone()),
            DenialKey::AbstractUnixSocket(key) => DenialKey::AbstractUnixSocket(*key),
        }
    }
}

/// The identity, `same_exec` and `logged` facts of a denial event, or `None`
/// for every other event.
pub open spec fn denial_facts_of(event: EventView) -> Option<(DenialKeyView, bool, bool)> {
    match event {
        EventView::DenyAccessFs(e) => Some(
            (
                DenialKeyView::Filesystem(
                    FilesystemDenialKeyView {
                        domain_id: e.context.hierarchy.domain_id,
                        blockers: e.blockers,
                        device: e.device,
                        inode: e.inode,
                    },
                ),
                e.context.same_exec,
                e.context.logged,
            ),
        ),
        EventView::DenyAccessNet(e) => Some(
            (
                DenialKeyView::Network(
                    NetworkDenialKeyView {
                        domain_id: e.context.hierarchy.domain_id,
                        blockers: e.blockers,
                        source_port: e.source_port,
                        destination_port: e.destination_port,
                    },
                ),
                e.context.same_exec,
                e.context.logged,
            ),
        ),
        EventView::DenyPtrace(e) => Some(
            (
                DenialKeyView::Ptrace(
                    TaskDenialKeyView {
                        domain_id: e.context.hierarchy.domain_id,
                        domain: e.tracee_domain,
                        pid: e.tracee_pid,
                        comm: e.tracee_comm,
                    },
                ),
                e.context.same_exec,
                e.context.logged,
            ),
        ),
        EventView::DenyScopeSignal(e) => Some(
            (
                DenialKeyView::Signal(
                    TaskDenialKeyView {
                        domain_id: e.context.hierarchy.domain_id,
                        domain: e.target_domain,
                        pid: e.target_pid,
                        comm: e.target_comm,
                    },
                ),
                e.context.same_exec,
                e.context.logged,
            ),
        ),
        EventView::DenyScopeAbstractUnixSocket(e) => Some(
            (
                DenialKeyView::AbstractUnixSocket(
                    AbstractUnixSocketDenialKeyView {
                        domain_id: e.context.hierarchy.domain_id,
                        peer_domain: e.peer_domain,
                        peer_pid: e.peer_pid,
                    },
                ),
                e.context.same_exec,
                e.context.logged,
            ),
        ),
        _ => None,
    }
}

/// Returns the identity, `same_exec` and `logged` facts of a denial event, or
/// `None` for every other event.
pub(crate) fn denial_facts(event: &Event) -> (facts: Option<(DenialKey, bool, bool)>)
    ensures
        match facts {
            Some((key, same_exec, logged)) => denial_facts_of(event@) == Some(
                (key@, same_exec, logged),
            ),
            None => denial_facts_of(event@) is None,
        },
{
    match event {
        Event::DenyAccessFs(denial) => {
            let context = denial.context();
            let key = DenialKey::Filesystem(
                FilesystemDenialKey::new(
                    context.hierarchy().domain_id(),
                    denial.blockers(),
                    denial.device(),
                    denial.inode(),
                ),
            );
            Some((key, context.same_exec(), context.logged()))
        },
        Event::DenyAccessNet(denial) => {
            let context = denial.context();
            let key = DenialKey::Network(
                NetworkDenialKey::new(
                    context.hierarchy().domain_id(),
                    denial.blockers(),
                    denial.source_port(),
                    denial.destination_port(),
                ),
            );
            Some((key, context.same_exec(), context.logged()))
        },
        Event::DenyPtrace(denial) => {
            let context = denial.context();
            let key = DenialKey::Ptrace(
                PtraceDenialKey::new(
                    context.hierarchy().domain_id(),
                    denial.tracee_domain(),
                    denial.tracee_pid(),
                    denial.tracee_comm().clone(),
                ),
            );
            Some((key, context.same_exec(), context.logged()))
        },
        Event::DenyScopeSignal(denial) => {
            let context = denial.context();
            let key = DenialKey::Signal(
                SignalDenialKey::new(
                    context.hierarchy().domain_id(),
                    denial.target_domain(),
                    denial.target_pid(),
                    denial.target_comm().clone(),
                ),
            );
            Some((key, context.same_exec(), context.logged()))
        },
        Event::DenyScopeAbstractUnixSocket(denial) => {
            let context = denial.context();
            let key = DenialKey::AbstractUnixSocket(
                AbstractUnixSocketDenialKey::new(
                    context.hierarchy().domain_id(),
                    denial.peer_domain(),
                    denial.peer_pid(),
                ),
            );
            Some((key, context.same_exec(), context.logged()))
        },
        _ => None,
    }
}

} // verus!
