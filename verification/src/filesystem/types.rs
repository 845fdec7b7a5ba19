//! Identifiers and small enumerations shared by the filesystem.

use vstd::prelude::*;

verus! {

/// A process.
#[derive(Debug, Clone, Copy, PartialEq, Eq, Hash, Structural)]
pub struct ProcessId(pub u64);

/// A file descriptor number of one process.
#[derive(Debug, Clone, Copy, PartialEq, Eq, Hash, Structural)]
pub struct FileDescriptor(pub u64);

impl FileDescriptor {
    pub fn from_u64(v: u64) -> (r: Self)
        ensures
            r.0 == v,
    {
        FileDescriptor(v)
    }

    pub fn as_u64(&self) -> (r: u64)
        ensures
            r == self.0,
    {
        self.0
    }

    /// The descriptor numbered one higher.
    pub fn next(&self) -> (r: Self)
        requires
            self.0 < u64::MAX,
        ensures
            r.0 == self.0 + 1,
    {
        FileDescriptor(self.0 + 1)
    }
}

/// An event that wakes the processes waiting for it.
#[derive(Debug, Clone, Copy, PartialEq, Eq, Hash, Structural)]
pub struct ExplicitEventId(pub u64);

/// Why a process failed.
#[derive(Debug, Clone, Copy, PartialEq, Eq, Structural)]
pub enum ProcessError {
    /// Terminated because a process it depended on was.
    ChainedTermination,
}

/// How a process ended.
#[derive(Debug, Clone, Copy, PartialEq, Eq, Structural)]
pub enum ProcessResult {
    Completed(u64),
    Failed(ProcessError),
}

/// What a process waits for before it retries an operation.
#[derive(Debug, Clone, PartialEq, Eq)]
pub enum WaitFor {
    /// Ready now: nothing to wait for.
    NoWait,
    Event(ExplicitEventId),
    Process(ProcessId),
}

/// Errors of filesystem operations.
#[allow(non_camel_case_types)]
#[derive(Debug, Clone, Copy, PartialEq, Eq, Structural)]
pub enum ErrorCode {
    fs_node_not_found,
    fs_node_is_leaf,
    fs_node_exists,
    fs_node_path_blocked,
    fs_file_destroyed,
    fs_readonly,
    fs_unknown_control_function,
}

/// Globally unique file descriptor
#[derive(Debug, Clone, Copy, PartialEq, Eq, Hash, Structural)]
pub struct FileClientId {
    /// `None` here repensents that the operation
    /// was initiated by the kernel, and not any process.
    pub process: Option<ProcessId>,
    /// Per-process file descriptor
    pub fd: FileDescriptor,
}

impl FileClientId {
    pub fn kernel(fd: FileDescriptor) -> (r: Self)
        ensures
            r.process is None,
            r.fd == fd,
    {
        Self { process: None, fd }
    }

    pub fn process(pid: ProcessId, fd: FileDescriptor) -> (r: Self)
        ensures
            r.process == Some(pid),
            r.fd == fd,
    {
        Self { process: Some(pid), fd }
    }

    pub fn is_kernel(&self) -> (r: bool)
        ensures
            r == self.process is None,
    {
        self.process.is_none()
    }
}

/// A node of the filesystem.
#[derive(Debug, Clone, Copy, PartialEq, Eq, Hash, Structural)]
pub struct NodeId(pub u64);

impl NodeId {
    pub fn first() -> (r: Self)
        ensures
            r.0 == 0,
    {
        NodeId(0)
    }

    pub fn next(self) -> (r: Self)
        requires
            self.0 < u64::MAX,
        ensures
            r.0 == self.0 + 1,
    {
        NodeId(self.0 + 1)
    }
}

#[derive(Debug, Clone, Copy, PartialEq, Eq, Structural)]
pub enum Leafness {
    /// Leaf node
    Leaf,
    /// Branch node managed by an attachment
    Branch,
    /// Internal branching node, that does not
    /// use normal ReadBranch protocol, but
    /// transmits internal ids instead
    InternalBranch,
}

/// What closing a descriptor asks of the filesystem.
#[derive(Debug, Clone, Copy, PartialEq, Eq, Structural)]
pub enum CloseAction {
    /// Nothing more.
    Normal,
    /// Destroy the node.
    Destroy,
}

/// IO errors never contain a value, so the type is replaced with Missing
pub struct Missing;

} // verus!
