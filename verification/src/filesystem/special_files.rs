//! Special files implemented in the kernel VFS for performance and
//! simplicity, and the other kernel-side file kinds.

use vstd::prelude::*;
use super::result::{IoResult, IoResultPure};
use super::types::{ErrorCode, FileClientId, Leafness, ProcessId, ProcessResult, WaitFor};

verus! {

/// `/dev/null`
pub struct NullDevice;

impl NullDevice {
    pub fn leafness(&self) -> (r: Leafness)
        ensures
            r == Leafness::Leaf,
    {
        Leafness::Leaf
    }

    /// Immediately provides EOF
    pub fn read(&mut self, fc: FileClientId, buf: &mut Vec<u8>) -> (r: IoResult<usize>)
        ensures
            r.inner == IoResultPure::<usize>::Success(0),
            r.events@.len() == 0,
            final(buf)@ == old(buf)@,
    {
        IoResult::success(0)
    }

    pub fn read_waiting_for(&mut self, fc: FileClientId) -> (r: WaitFor)
        ensures
            r == WaitFor::NoWait,
    {
        WaitFor::NoWait
    }

    /// Discards all data
    pub fn write(&mut self, fc: FileClientId, buf: &[u8]) -> (r: IoResult<usize>)
        ensures
            r.inner == IoResultPure::<usize>::Success(buf@.len() as usize),
            r.events@.len() == 0,
    {
        IoResult::success(buf.len())
    }
}

/// `/dev/zero`
pub struct ZeroDevice;

impl ZeroDevice {
    pub fn leafness(&self) -> (r: Leafness)
        ensures
            r == Leafness::Leaf,
    {
        Leafness::Leaf
    }

    /// Zeroes the buffer
    pub fn read(&mut self, fc: FileClientId, buf: &mut Vec<u8>) -> (r: IoResult<usize>)
        ensures
            r.inner == IoResultPure::<usize>::Success(old(buf)@.len() as usize),
            r.events@.len() == 0,
            final(buf)@.len() == old(buf)@.len(),
            forall|i: int| 0 <= i < final(buf)@.len() ==> final(buf)@[i] == 0,
    {
        let mut i: usize = 0;
        while i < buf.len()
            invariant
                i <= buf@.len(),
                buf@.len() == old(buf)@.len(),
                forall|j: int| 0 <= j < i ==> buf@[j] == 0,
            decreases buf@.len() - i,
        {
            buf.set(i, 0);
            i = i + 1;
        }
        IoResult::success(buf.len())
    }

    pub fn read_waiting_for(&mut self, fc: FileClientId) -> (r: WaitFor)
        ensures
            r == WaitFor::NoWait,
    {
        WaitFor::NoWait
    }

    /// No data will be written
    pub fn write(&mut self, fc: FileClientId, buf: &[u8]) -> (r: IoResult<usize>)
        ensures
            r.inner == IoResultPure::<usize>::Success(0),
            r.events@.len() == 0,
    {
        IoResult::success(0)
    }
}

/// `/dev/test`
/// Testing device for fs features
pub struct TestDevice {
    pub rounds: u8,
}

impl TestDevice {
    pub fn leafness(&self) -> (r: Leafness)
        ensures
            r == Leafness::Leaf,
    {
        Leafness::Leaf
    }

    /// Reports that the test rounds are over. The device stops the kernel
    /// while rounds are left.
    pub fn read(&mut self, fc: FileClientId, buf: &mut Vec<u8>) -> (r: IoResult<usize>)
        requires
            old(self).rounds == 0,
        ensures
            r.inner == IoResultPure::<usize>::Error(ErrorCode::fs_unknown_control_function),
            r.events@.len() == 0,
            final(self).rounds == 0,
            final(buf)@ == old(buf)@,
    {
        IoResult::error(ErrorCode::fs_unknown_control_function)
    }

    pub fn read_waiting_for(&mut self, fc: FileClientId) -> (r: WaitFor)
        ensures
            r == WaitFor::NoWait,
    {
        WaitFor::NoWait
    }

    pub fn write(&mut self, fc: FileClientId, buf: &[u8]) -> (r: IoResult<usize>)
        ensures
            r.inner == IoResultPure::<usize>::Success(0),
            r.events@.len() == 0,
    {
        IoResult::success(0)
    }
}

/// # Process
/// Reading a process blocks until the process is
/// completed, and then returns its exit status.
pub struct ProcessFile {
    /// Id of the process
    pid: ProcessId,
    /// Result of the process, if it's completed
    result: Option<ProcessResult>,
}

impl ProcessFile {
    pub closed spec fn spec_pid(&self) -> ProcessId {
        self.pid
    }

    pub closed spec fn spec_result(&self) -> Option<ProcessResult> {
        self.result
    }

    /// The file of a running process.
    pub fn new(pid: ProcessId) -> (r: Self)
        ensures
            r.spec_pid() == pid,
            r.spec_result() is None,
    {
        ProcessFile { pid, result: None }
    }

    pub fn leafness(&self) -> (r: Leafness)
        ensures
            r == Leafness::Leaf,
    {
        Leafness::Leaf
    }

    /// Blocks until the process is complete. Reading the result of a
    /// completed process is not supported.
    pub fn read(&mut self, fc: FileClientId, buf: &mut Vec<u8>) -> (r: IoResult<usize>)
        requires
            old(self).spec_result() is None,
        ensures
            r.inner == IoResultPure::<usize>::RepeatAfter(WaitFor::Process(old(self).spec_pid())),
            r.events@.len() == 0,
            final(self).spec_pid() == old(self).spec_pid(),
            final(self).spec_result() == old(self).spec_result(),
            final(buf)@ == old(buf)@,
    {
        IoResult::repeat_after(WaitFor::Process(self.pid))
    }
}

/// Simplex FIFO communication channel,
/// which can be used for IPC messages.
///
/// Processes can obtain pipes from `/dev/pipe`.
pub struct Pipe {
    /// Buffer
    buffer: Vec<u8>,
    /// Max size for the buffer, in bytes. Must be nonzero.
    buffer_limit: u64,
}

/// # Mount point
/// This node and its contents are managed by a driver
/// software. On branch nodes, the driver can provide
/// child nodes that are used in addition to the ones
/// described here.
pub struct MountTarget {
    /// Identifier of this mount point.
    /// Used by the managing process to differentiate
    /// multiple mount points.
    mount_id: u64,
    /// Process managing the mount point
    process_id: ProcessId,
    /// Leafness is a static property of a mount,
    /// the controlling process cannot change this
    is_leaf: bool,
}

} // verus!
