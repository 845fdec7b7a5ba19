//! Attachment points: nodes whose contents a managing process serves.
//! Each client of the node goes through a small state machine; the
//! manager takes requests from a queue and answers them.

use vstd::prelude::*;
use std::collections::VecDeque;
use super::event_queue::{woken, EventQueue};
use super::path::{Path, PathBuf};
use super::result::{IoResult, IoResultPure};
use super::trigger::{no_processes, EventSet, Trigger};
use super::types::{CloseAction, ErrorCode, ExplicitEventId, FileClientId, FileDescriptor, ProcessId, WaitFor};

verus! {

/// A client as the attachment tells clients apart: its descriptor and the
/// path left after the attachment point, compared by characters.
pub type KeyView = (FileClientId, Option<Seq<char>>);

/// A client of an attachment: a descriptor and the path left after the
/// attachment point.
#[derive(Debug, Clone, PartialEq, Eq, Hash)]
pub struct ClientKey {
    pub fc: FileClientId,
    pub suffix: Option<PathBuf>,
}

impl View for ClientKey {
    type V = KeyView;

    open spec fn view(&self) -> KeyView {
        (self.fc, match self.suffix {
            Some(p) => Some(p@),
            None => None,
        })
    }
}

/// A copy of `k`.
pub fn copy_key(k: &ClientKey) -> (r: ClientKey)
    ensures
        r@ == k@,
{
    let suffix = match &k.suffix {
        Some(p) => Some(p.as_path().to_path_buf()),
        None => None,
    };
    ClientKey { fc: k.fc, suffix }
}

/// The state of a client, with byte buffers as sequences.
pub enum ClientStateView {
    Ready,
    ReadPending(ExplicitEventId, usize),
    ReadInProgress(ExplicitEventId),
    ReadComplete(Seq<u8>),
    WritePending(ExplicitEventId, Seq<u8>),
    WriteInProgress(ExplicitEventId),
    WriteComplete(usize),
    ClosePending,
    Closed,
    Error(ErrorCode),
}

#[derive(Debug, Clone)]
pub enum ClientState {
    /// Waiting for the client to start a new operation
    Ready,
    /// Waiting for the manager to start processing a read operation
    ReadPending(ExplicitEventId, usize),
    /// Waiting for the manager to respond to a read operation
    ReadInProgress(ExplicitEventId),
    /// Waiting for the client to retrieve results of a read operation
    ReadComplete(VecDeque<u8>),
    /// Waiting for the manager to start processing a write operation
    WritePending(ExplicitEventId, VecDeque<u8>),
    /// Waiting for the manager to respond to a write operation
    WriteInProgress(ExplicitEventId),
    /// Waiting for the client to retrieve results of a write operation
    WriteComplete(usize),
    /// Waiting for the manager to process a close notification
    ClosePending,
    /// File closed
    Closed,
    /// Client respoded with an error
    Error(ErrorCode),
}

impl View for ClientState {
    type V = ClientStateView;

    open spec fn view(&self) -> ClientStateView {
        match self {
            ClientState::Ready => ClientStateView::Ready,
            ClientState::ReadPending(e, n) => ClientStateView::ReadPending(*e, *n),
            ClientState::ReadInProgress(e) => ClientStateView::ReadInProgress(*e),
            ClientState::ReadComplete(d) => ClientStateView::ReadComplete(d@),
            ClientState::WritePending(e, d) => ClientStateView::WritePending(*e, d@),
            ClientState::WriteInProgress(e) => ClientStateView::WriteInProgress(*e),
            ClientState::WriteComplete(n) => ClientStateView::WriteComplete(*n),
            ClientState::ClosePending => ClientStateView::ClosePending,
            ClientState::Closed => ClientStateView::Closed,
            ClientState::Error(c) => ClientStateView::Error(*c),
        }
    }
}

/// The event a client in state `s` sleeps on, woken when the attachment
/// is destroyed.
pub open spec fn state_event(s: ClientStateView) -> Option<ExplicitEventId> {
    match s {
        ClientStateView::ReadPending(e, _) => Some(e),
        ClientStateView::ReadInProgress(e) => Some(e),
        ClientStateView::WritePending(e, _) => Some(e),
        ClientStateView::WriteInProgress(e) => Some(e),
        _ => None,
    }
}

/// A copy of the bytes of `d`.
fn copy_deque(d: &VecDeque<u8>) -> (r: VecDeque<u8>)
    ensures
        r@ == d@,
{
    let mut r: VecDeque<u8> = VecDeque::new();
    let mut i: usize = 0;
    while i < d.len()
        invariant
            i <= d@.len(),
            r@ == d@.take(i as int),
        decreases d@.len() - i,
    {
        r.push_back(d[i]);
        i = i + 1;
        proof {
            assert(r@ =~= d@.take(i as int));
        }
    }
    proof {
        assert(d@.take(d@.len() as int) =~= d@);
    }
    r
}

/// The bytes of `v`, in a queue.
fn deque_of(v: &Vec<u8>) -> (r: VecDeque<u8>)
    ensures
        r@ == v@,
{
    let mut r: VecDeque<u8> = VecDeque::new();
    let mut i: usize = 0;
    while i < v.len()
        invariant
            i <= v@.len(),
            r@ == v@.take(i as int),
        decreases v@.len() - i,
    {
        r.push_back(v[i]);
        i = i + 1;
        proof {
            assert(r@ =~= v@.take(i as int));
        }
    }
    proof {
        assert(v@.take(v@.len() as int) =~= v@);
    }
    r
}

/// The bytes of `d`, in a vector.
fn vec_of(d: &VecDeque<u8>) -> (r: Vec<u8>)
    ensures
        r@ == d@,
{
    let mut r: Vec<u8> = Vec::new();
    let mut i: usize = 0;
    while i < d.len()
        invariant
            i <= d@.len(),
            r@ == d@.take(i as int),
        decreases d@.len() - i,
    {
        r.push(d[i]);
        i = i + 1;
        proof {
            assert(r@ =~= d@.take(i as int));
        }
    }
    proof {
        assert(d@.take(d@.len() as int) =~= d@);
    }
    r
}

impl ClientState {
    /// Client wakeup id, if any, for attachment destruction
    pub fn event(&self) -> (r: Option<ExplicitEventId>)
        ensures
            r == state_event(self@),
    {
        match self {
            ClientState::Ready => None,
            ClientState::ReadPending(event, _) => Some(*event),
            ClientState::ReadInProgress(event) => Some(*event),
            ClientState::ReadComplete(_) => None,
            ClientState::WritePending(event, _) => Some(*event),
            ClientState::WriteInProgress(event) => Some(*event),
            ClientState::WriteComplete(_) => None,
            ClientState::ClosePending => None,
            ClientState::Closed => None,
            ClientState::Error(_) => None,
        }
    }

    /// A copy of the state.
    pub fn copy(&self) -> (r: ClientState)
        ensures
            r@ == self@,
    {
        match self {
            ClientState::Ready => ClientState::Ready,
            ClientState::ReadPending(e, n) => ClientState::ReadPending(*e, *n),
            ClientState::ReadInProgress(e) => ClientState::ReadInProgress(*e),
            ClientState::ReadComplete(d) => ClientState::ReadComplete(copy_deque(d)),
            ClientState::WritePending(e, d) => ClientState::WritePending(*e, copy_deque(d)),
            ClientState::WriteInProgress(e) => ClientState::WriteInProgress(*e),
            ClientState::WriteComplete(n) => ClientState::WriteComplete(*n),
            ClientState::ClosePending => ClientState::ClosePending,
            ClientState::Closed => ClientState::Closed,
            ClientState::Error(c) => ClientState::Error(*c),
        }
    }
}

#[derive(Debug, Clone)]
pub struct Client {
    state: ClientState,
}

impl View for Client {
    type V = ClientStateView;

    closed spec fn view(&self) -> ClientStateView {
        self.state@
    }
}

impl Client {
    pub fn new() -> (r: Self)
        ensures
            r@ == ClientStateView::Ready,
    {
        Client { state: ClientState::Ready }
    }

    pub fn clone_state(&self) -> (r: ClientState)
        ensures
            r@ == self@,
    {
        self.state.copy()
    }

    pub fn state(&self) -> (r: &ClientState)
        ensures
            r@ == self@,
    {
        &self.state
    }

    pub fn state_mut(&mut self) -> (r: &mut ClientState)
        ensures
            r@ == old(self)@,
            final(self)@ == final(r)@,
    {
        &mut self.state
    }

    pub fn set_state(&mut self, key: &ClientKey, new_state: ClientState)
        ensures
            final(self)@ == new_state@,
    {
        self.state = new_state;
    }
}

/// The clients of an attachment, by key.
#[verifier::external_body]
pub struct ClientMap {
    map: hashbrown::HashMap<ClientKey, Client>,
}

/// The state of each client, by the key's view.
pub uninterp spec fn client_map_contents(m: ClientMap) -> Map<KeyView, ClientStateView>;

/// No clients.
pub open spec fn no_clients() -> Map<KeyView, ClientStateView> {
    Map::empty()
}

/// `hashbrown::HashMap::new`: a map without clients.
#[verifier::external_body]
fn client_map_new() -> (r: ClientMap)
    ensures
        client_map_contents(r) == no_clients(),
{
    ClientMap { map: hashbrown::HashMap::new() }
}

/// `hashbrown::HashMap::insert`: `k` now maps to `v`, in place of any
/// earlier client with an equal key. Keys compare by the derived `==`,
/// which on `ClientKey` is equality of the descriptor and of the suffix's
/// characters.
#[verifier::external_body]
fn client_map_insert(m: &mut ClientMap, k: ClientKey, v: Client)
    ensures
        client_map_contents(*final(m)) == client_map_contents(*old(m)).insert(k@, v@),
{
    m.map.insert(k, v);
}

/// `hashbrown::HashMap::remove`: takes the client of `k` out, if any.
#[verifier::external_body]
fn client_map_remove(m: &mut ClientMap, k: &ClientKey) -> (r: Option<Client>)
    ensures
        client_map_contents(*final(m)) == client_map_contents(*old(m)).remove(k@),
        match r {
            Some(c) => client_map_contents(*old(m)).contains_key(k@) && c@ == client_map_contents(
                *old(m),
            )[k@],
            None => !client_map_contents(*old(m)).contains_key(k@),
        },
{
    m.map.remove(k)
}

/// `hashbrown::HashMap::get`: the client of `k`, if any.
#[verifier::external_body]
fn client_map_get<'a>(m: &'a ClientMap, k: &ClientKey) -> (r: Option<&'a Client>)
    ensures
        match r {
            Some(c) => client_map_contents(*m).contains_key(k@) && c@ == client_map_contents(
                *m,
            )[k@],
            None => !client_map_contents(*m).contains_key(k@),
        },
{
    m.map.get(k)
}

/// `hashbrown::HashMap::keys`: every key once, in the order the table is
/// walked, which this contract leaves open.
#[verifier::external_body]
fn client_map_keys(m: &ClientMap) -> (r: Vec<ClientKey>)
    ensures
        forall|i: int| 0 <= i < r@.len() ==> client_map_contents(*m).contains_key(#[trigger] r@[i]@),
        forall|k: KeyView| client_map_contents(*m).contains_key(k) ==> exists|i: int| 0 <= i < r@.len() && #[trigger] r@[i]@ == k,
        forall|i: int, j: int| 0 <= i < j < r@.len() ==> r@[i]@ != r@[j]@,
{
    m.map.keys().cloned().collect()
}

/// Who sent a request or is answered by a response.
#[derive(Debug, Clone, Copy, PartialEq, Eq, Structural)]
pub struct Sender {
    pub pid: Option<ProcessId>,
    pub f: u64,
}

/// What a client asks of the manager.
#[derive(Debug, Clone)]
pub enum RequestFileOperation {
    Read(u64),
    Write(Vec<u8>),
    Close,
}

/// A request handed to the manager when it reads the attachment.
#[derive(Debug, Clone)]
pub struct Request {
    pub sender: Sender,
    pub suffix: Option<String>,
    pub operation: RequestFileOperation,
}

/// The manager's answer to a request.
#[derive(Debug, Clone)]
pub enum ResponseFileOperation {
    Read(Vec<u8>),
    Write(u64),
    Error(ErrorCode),
}

/// A response written by the manager.
#[derive(Debug, Clone)]
pub struct Response {
    pub sender: Sender,
    pub suffix: Option<String>,
    pub operation: ResponseFileOperation,
}

/// The sender naming client `fc`.
pub open spec fn sender_of(fc: FileClientId) -> Sender {
    Sender { pid: fc.process, f: fc.fd.0 }
}

/// The suffix as characters.
pub open spec fn suffix_view(s: Option<String>) -> Option<Seq<char>> {
    match s {
        Some(t) => Some(t@),
        None => None,
    }
}

/// The key of the client a response answers.
pub open spec fn response_key(r: Response) -> KeyView {
    (FileClientId { process: r.sender.pid, fd: FileDescriptor(r.sender.f) }, suffix_view(r.suffix))
}

/// Whether `st` has a request for the manager.
pub open spec fn is_request_state(st: ClientStateView) -> bool {
    ||| st is ReadPending
    ||| st is WritePending
    ||| st is ClosePending
}

/// `r` is the request of client `k` in state `st`.
pub open spec fn request_of(r: Request, k: KeyView, st: ClientStateView) -> bool {
    &&& r.sender == sender_of(k.0)
    &&& suffix_view(r.suffix) == k.1
    &&& match st {
        ClientStateView::ReadPending(_, n) => r.operation matches RequestFileOperation::Read(c) && c
            == n,
        ClientStateView::WritePending(_, d) => r.operation matches RequestFileOperation::Write(
            data,
        ) && data@ == d,
        ClientStateView::ClosePending => r.operation is Close,
        _ => false,
    }
}

/// The state a request leaves its client in once the manager took it.
pub open spec fn state_after_request(st: ClientStateView) -> ClientStateView {
    match st {
        ClientStateView::ReadPending(e, _) => ClientStateView::ReadInProgress(e),
        ClientStateView::WritePending(e, _) => ClientStateView::WriteInProgress(e),
        _ => ClientStateView::Closed,
    }
}

/// Whether the manager's response `r` fits the state `st` of its client.
pub open spec fn response_fits(r: Response, st: ClientStateView) -> bool {
    match r.operation {
        ResponseFileOperation::Read(_) => st is ReadInProgress,
        ResponseFileOperation::Write(_) => st is WriteInProgress,
        ResponseFileOperation::Error(_) => st is ReadInProgress || st is WriteInProgress,
    }
}

/// The state a response leaves its client in.
pub open spec fn state_after_response(r: Response) -> ClientStateView {
    match r.operation {
        ResponseFileOperation::Read(data) => ClientStateView::ReadComplete(data@),
        ResponseFileOperation::Write(count) => ClientStateView::WriteComplete(count as usize),
        ResponseFileOperation::Error(code) => ClientStateView::Error(code),
    }
}

/// Whether a client in state `st` may read.
pub open spec fn client_can_read(st: ClientStateView) -> bool {
    ||| st is Ready
    ||| st is ReadComplete
    ||| st is WriteComplete
    ||| st is Error
}

/// Whether a client in state `st` may write.
pub open spec fn client_can_write(st: ClientStateView) -> bool {
    ||| st is Ready
    ||| st is WriteComplete
    ||| st is Error
}

/// The smaller of two lengths.
pub open spec fn min_len(a: nat, b: nat) -> nat {
    if a < b {
        a
    } else {
        b
    }
}

/// The state a client read with a buffer of `buf_len` bytes leaves behind;
/// `fresh` is the event a new read sleeps on.
pub open spec fn state_after_read(st: ClientStateView, buf_len: nat, fresh: ExplicitEventId) -> ClientStateView {
    match st {
        ClientStateView::Ready => ClientStateView::ReadPending(fresh, buf_len as usize),
        ClientStateView::ReadComplete(d) => if d.len() <= buf_len {
            ClientStateView::Ready
        } else {
            ClientStateView::ReadComplete(d.skip(buf_len as int))
        },
        ClientStateView::WriteComplete(_) => ClientStateView::Ready,
        ClientStateView::Error(_) => ClientStateView::Ready,
        _ => st,
    }
}

/// What a client read returns.
pub open spec fn result_of_read(st: ClientStateView, buf_len: nat, fresh: ExplicitEventId) -> IoResultPure<usize> {
    match st {
        ClientStateView::Ready => IoResultPure::RepeatAfter(WaitFor::Event(fresh)),
        ClientStateView::ReadComplete(d) => IoResultPure::Success(min_len(buf_len, d.len()) as usize),
        ClientStateView::WriteComplete(n) => IoResultPure::Success(n),
        ClientStateView::Error(c) => IoResultPure::Error(c),
        _ => IoResultPure::Success(0),
    }
}

/// The state a client write of `data` leaves behind.
pub open spec fn state_after_write(st: ClientStateView, data: Seq<u8>, fresh: ExplicitEventId) -> ClientStateView {
    match st {
        ClientStateView::Ready => ClientStateView::WritePending(fresh, data),
        ClientStateView::WriteComplete(_) => ClientStateView::Ready,
        _ => st,
    }
}

/// What a client write returns.
pub open spec fn result_of_write(st: ClientStateView, fresh: ExplicitEventId) -> IoResultPure<usize> {
    match st {
        ClientStateView::Ready => IoResultPure::RepeatAfter(WaitFor::Event(fresh)),
        ClientStateView::WriteComplete(n) => IoResultPure::Success(n),
        ClientStateView::Error(c) => IoResultPure::Error(c),
        _ => IoResultPure::Success(0),
    }
}

/// The key views of a queue of keys.
pub open spec fn key_views(s: Seq<ClientKey>) -> Seq<KeyView> {
    Seq::new(s.len(), |i: int| s[i]@)
}

/// # Attachment point
/// This node and its contents are managed by a driver
/// software. On branch nodes, the driver can provide
/// child nodes that are used. The nodes themselves,
/// however, must exist before a read is attempted.
pub struct Attachment {
    /// Process and file descriptor managing this attachment
    manager: FileClientId,
    /// Leafness is a static property of an attachment,
    /// the controlling process cannot change this
    is_leaf: bool,
    /// All clients, key is (fc_id, suffix)
    clients: ClientMap,
    /// Manager queue for pending client events
    manager_pending_events: EventQueue<ClientKey>,
}

impl Attachment {
    pub closed spec fn spec_manager(&self) -> FileClientId {
        self.manager
    }

    pub closed spec fn spec_is_leaf(&self) -> bool {
        self.is_leaf
    }

    /// Each client's state.
    pub closed spec fn spec_clients(&self) -> Map<KeyView, ClientStateView> {
        client_map_contents(self.clients)
    }

    /// The clients the manager is yet to hear from, oldest first.
    pub closed spec fn spec_queue(&self) -> Seq<KeyView> {
        key_views(self.manager_pending_events.items())
    }

    /// The event the manager sleeps on, if it does.
    pub closed spec fn spec_waiting(&self) -> Option<ExplicitEventId> {
        self.manager_pending_events.waiting()
    }

    /// The manager can read: a client is queued, it is known, and it has a
    /// request.
    pub open spec fn manager_can_read(&self) -> bool {
        &&& self.spec_queue().len() > 0
        &&& self.spec_clients().contains_key(self.spec_queue()[0])
        &&& is_request_state(self.spec_clients()[self.spec_queue()[0]])
    }

    pub fn new(manager: FileClientId, is_leaf: bool) -> (r: Self)
        ensures
            r.spec_manager() == manager,
            r.spec_is_leaf() == is_leaf,
            r.spec_clients() == no_clients(),
            r.spec_queue().len() == 0,
            r.spec_waiting() is None,
    {
        let r = Attachment {
            manager,
            is_leaf,
            clients: client_map_new(),
            manager_pending_events: EventQueue::new(),
        };
        proof {
            assert(r.spec_queue() =~= Seq::<KeyView>::empty());
        }
        r
    }

    /// The managing process.
    pub fn pid(&self) -> (r: IoResultPure<ProcessId>)
        requires
            self.spec_manager().process is Some,
        ensures
            r == IoResultPure::<ProcessId>::Success(self.spec_manager().process.unwrap()),
    {
        match self.manager.process {
            Some(p) => IoResultPure::Success(p),
            None => unreached(),
        }
    }

    /// Whether the manager is the client `fc`.
    pub fn is_manager(&self, fc: &FileClientId) -> (r: bool)
        ensures
            r == (*fc == self.spec_manager()),
    {
        self.manager == *fc
    }

    /// Registers a client, ready for its first operation.
    pub fn open(&mut self, suffix: Option<PathBuf>, fc: FileClientId) -> (r: IoResult<()>)
        ensures
            r.inner == IoResultPure::<()>::Success(()),
            r.events@.len() == 0,
            final(self).spec_clients() == old(self).spec_clients().insert(
                (ClientKey { fc, suffix })@,
                ClientStateView::Ready,
            ),
            final(self).spec_queue() == old(self).spec_queue(),
            final(self).spec_waiting() == old(self).spec_waiting(),
            final(self).spec_manager() == old(self).spec_manager(),
            final(self).spec_is_leaf() == old(self).spec_is_leaf(),
    {
        let key = ClientKey { fc, suffix };
        client_map_insert(&mut self.clients, key, Client::new());
        IoResult::success(())
    }

    /// The state of the client `key`, if it is known.
    pub fn client_state(&self, key: &ClientKey) -> (r: Option<ClientState>)
        ensures
            match r {
                Some(st) => self.spec_clients().contains_key(key@) && st@ == self.spec_clients()[key@],
                None => !self.spec_clients().contains_key(key@),
            },
    {
        match client_map_get(&self.clients, key) {
            Some(c) => Some(c.clone_state()),
            None => None,
        }
    }

    /// Whether the manager can read: a known client with a request is
    /// first in its queue.
    pub fn manager_has_request(&self) -> (r: bool)
        ensures
            r == self.manager_can_read(),
    {
        match self.manager_pending_events.first() {
            None => false,
            Some(key) => match client_map_get(&self.clients, key) {
                None => false,
                Some(c) => match c.state() {
                    ClientState::ReadPending(_, _) => true,
                    ClientState::WritePending(_, _) => true,
                    ClientState::ClosePending => true,
                    _ => false,
                },
            },
        }
    }

    /// The request the manager's next read delivers.
    pub fn manager_request(&self) -> (r: Request)
        requires
            self.manager_can_read(),
        ensures
            request_of(r, self.spec_queue()[0], self.spec_clients()[self.spec_queue()[0]]),
    {
        let ghost k = self.spec_queue()[0];
        let key = match self.manager_pending_events.first() {
            Some(key) => key,
            None => unreached(),
        };
        let client = match client_map_get(&self.clients, key) {
            Some(c) => c,
            None => unreached(),
        };
        let suffix = match &key.suffix {
            Some(p) => Some(String::from_str(p.as_path().as_str())),
            None => None,
        };
        let sender = Sender { pid: key.fc.process, f: key.fc.fd.as_u64() };
        let operation = match client.state() {
            ClientState::ReadPending(_, count) => RequestFileOperation::Read(*count as u64),
            ClientState::WritePending(_, data) => RequestFileOperation::Write(vec_of(data)),
            _ => RequestFileOperation::Close,
        };
        Request { sender, suffix, operation }
    }

    /// The manager reads its next request, already encoded as `request`,
    /// which is copied to the front of `buf`. The client leaves its
    /// request state; a read client is queued again behind the others.
    pub fn manager_read(&mut self, buf: &mut Vec<u8>, request: &Vec<u8>) -> (r: IoResult<usize>)
        requires
            old(self).manager_can_read(),
            request@.len() <= old(buf)@.len(),
        ensures
            manager_read_done(*old(self), *final(self), old(buf)@, final(buf)@, request@, r),
    {
        let ghost k = self.spec_queue()[0];
        let ghost st = self.spec_clients()[k];
        let key = match self.manager_pending_events.pop_event() {
            Some(key) => key,
            None => unreached(),
        };
        proof {
            assert(self.spec_queue() =~= old(self).spec_queue().drop_first());
        }
        let mut client = match client_map_remove(&mut self.clients, &key) {
            Some(c) => c,
            None => unreached(),
        };
        copy_into(buf, request);
        let requeue = match client.state() {
            ClientState::ReadPending(e, _) => {
                client.set_state(&key, ClientState::ReadInProgress(*e));
                true
            },
            ClientState::WritePending(e, _) => {
                client.set_state(&key, ClientState::WriteInProgress(*e));
                false
            },
            _ => {
                client.set_state(&key, ClientState::Closed);
                false
            },
        };
        let again = copy_key(&key);
        client_map_insert(&mut self.clients, key, client);
        proof {
            assert(self.spec_clients() =~= old(self).spec_clients().insert(k, state_after_request(st)));
        }
        if requeue {
            let pushed = self.manager_pending_events.push_io(again);
            proof {
                assert(self.spec_queue() =~= old(self).spec_queue().drop_first().push(k));
            }
            pushed.map(|u: ()| -> (n: usize) ensures n == request@.len() { request.len() })
        } else {
            IoResult::success(request.len())
        }
    }

    /// A client reads: a ready client starts a read and sleeps on `fresh`,
    /// which the manager is woken to serve; a completed read hands out its
    /// bytes; a completed write or an error is reported once.
    pub fn client_read(&mut self, key: ClientKey, buf: &mut Vec<u8>, fresh: ExplicitEventId) -> (r: IoResult<usize>)
        requires
            old(self).spec_clients().contains_key(key@),
            client_can_read(old(self).spec_clients()[key@]),
        ensures
            client_read_done(*old(self), *final(self), key@, old(buf)@, final(buf)@, fresh, r),
    {
        let ghost st = self.spec_clients()[key@];
        let ghost buf0 = buf@;
        let mut client = match client_map_remove(&mut self.clients, &key) {
            Some(c) => c,
            None => unreached(),
        };
        let buf_len = buf.len();
        let r = match client.clone_state() {
            ClientState::Ready => {
                client.set_state(&key, ClientState::ReadPending(fresh, buf_len));
                let again = copy_key(&key);
                client_map_insert(&mut self.clients, key, client);
                let woke = self.manager_pending_events.push(again);
                proof {
                    assert(self.spec_queue() =~= old(self).spec_queue().push(key@));
                }
                let res = match woke {
                    Some(e) => IoResult::repeat_after(WaitFor::Event(fresh)).with_event(e),
                    None => IoResult::repeat_after(WaitFor::Event(fresh)),
                };
                proof {
                    assert(res.events@ =~= woken(old(self).spec_waiting()));
                }
                res
            },
            ClientState::ReadComplete(data) => {
                let mut data = data;
                let n = pop_into(&mut data, buf);
                if data.len() == 0 {
                    client.set_state(&key, ClientState::Ready);
                } else {
                    client.set_state(&key, ClientState::ReadComplete(data));
                }
                client_map_insert(&mut self.clients, key, client);
                IoResult::success(n)
            },
            ClientState::WriteComplete(count) => {
                client.set_state(&key, ClientState::Ready);
                client_map_insert(&mut self.clients, key, client);
                IoResult::success(count)
            },
            ClientState::Error(code) => {
                client.set_state(&key, ClientState::Ready);
                client_map_insert(&mut self.clients, key, client);
                IoResult::error(code)
            },
            _ => unreached(),
        };
        proof {
            assert(self.spec_clients() =~= old(self).spec_clients().insert(
                key@,
                state_after_read(st, buf0.len(), fresh),
            ));
        }
        r
    }

    /// A client writes `data`: a ready client queues it for the manager
    /// and sleeps on `fresh`; a completed write reports its count once; an
    /// error is reported and kept.
    pub fn client_write(&mut self, key: ClientKey, data: &Vec<u8>, fresh: ExplicitEventId) -> (r: IoResult<usize>)
        requires
            old(self).spec_clients().contains_key(key@),
            client_can_write(old(self).spec_clients()[key@]),
        ensures
            client_write_done(*old(self), *final(self), key@, data@, fresh, r),
    {
        let ghost st = self.spec_clients()[key@];
        let mut client = match client_map_remove(&mut self.clients, &key) {
            Some(c) => c,
            None => unreached(),
        };
        let r = match client.clone_state() {
            ClientState::Ready => {
                client.set_state(&key, ClientState::WritePending(fresh, deque_of(data)));
                let again = copy_key(&key);
                client_map_insert(&mut self.clients, key, client);
                let (result, ctx) = self.manager_pending_events.push_io(again).separate_events();
                proof {
                    assert(self.spec_queue() =~= old(self).spec_queue().push(key@));
                }
                let res = IoResult::repeat_after(WaitFor::Event(fresh)).with_events(ctx);
                proof {
                    assert(res.events@ =~= woken(old(self).spec_waiting()));
                }
                res
            },
            ClientState::WriteComplete(count) => {
                client.set_state(&key, ClientState::Ready);
                client_map_insert(&mut self.clients, key, client);
                IoResult::success(count)
            },
            ClientState::Error(code) => {
                client_map_insert(&mut self.clients, key, client);
                IoResult::error(code)
            },
            _ => unreached(),
        };
        proof {
            assert(self.spec_clients() =~= old(self).spec_clients().insert(
                key@,
                state_after_write(st, data@, fresh),
            ));
        }
        r
    }

    /// The manager writes `response`, whose encoding took `consumed`
    /// bytes: the client it answers completes its operation and is woken.
    pub fn manager_write(&mut self, response: Response, consumed: usize) -> (r: IoResult<usize>)
        requires
            old(self).spec_clients().contains_key(response_key(response)),
            response_fits(response, old(self).spec_clients()[response_key(response)]),
        ensures
            manager_write_done(*old(self), *final(self), response, consumed, r),
    {
        let ghost k = response_key(response);
        let ghost st = self.spec_clients()[k];
        let client_fc = FileClientId {
            process: response.sender.pid,
            fd: FileDescriptor::from_u64(response.sender.f),
        };
        let suffix = match &response.suffix {
            Some(s) => Some(Path::new(s.as_str()).to_path_buf()),
            None => None,
        };
        let key = ClientKey { fc: client_fc, suffix };
        assert(key@ == k);
        let mut client = match client_map_remove(&mut self.clients, &key) {
            Some(c) => c,
            None => unreached(),
        };
        let event_id = match client.state().event() {
            Some(e) => e,
            None => unreached(),
        };
        match response.operation {
            ResponseFileOperation::Read(data) => {
                client.set_state(&key, ClientState::ReadComplete(deque_of(&data)));
            },
            ResponseFileOperation::Write(count) => {
                client.set_state(&key, ClientState::WriteComplete(count as usize));
            },
            ResponseFileOperation::Error(code) => {
                client.set_state(&key, ClientState::Error(code));
            },
        }
        client_map_insert(&mut self.clients, key, client);
        proof {
            assert(self.spec_clients() =~= old(self).spec_clients().insert(k, state_after_response(response)));
        }
        let res = IoResult::success(consumed).with_event(event_id);
        proof {
            assert(res.events@ =~= seq![event_id]);
        }
        res
    }

    /// Reads by the manager or by a client. For the manager, `request` is
    /// the encoding of `manager_request()`; for a client, `fresh` is the
    /// event a new read sleeps on.
    pub fn read(
        &mut self,
        suffix: Option<PathBuf>,
        fc: FileClientId,
        buf: &mut Vec<u8>,
        request: &Vec<u8>,
        fresh: ExplicitEventId,
    ) -> (r: IoResult<usize>)
        requires
            fc == old(self).spec_manager() ==> suffix is None && old(self).manager_can_read()
                && request@.len() <= old(buf)@.len(),
            fc != old(self).spec_manager() ==> old(self).spec_clients().contains_key(
                (ClientKey { fc, suffix })@,
            ) && client_can_read(old(self).spec_clients()[(ClientKey { fc, suffix })@]),
        ensures
            fc == old(self).spec_manager() ==> manager_read_done(
                *old(self),
                *final(self),
                old(buf)@,
                final(buf)@,
                request@,
                r,
            ),
            fc != old(self).spec_manager() ==> client_read_done(
                *old(self),
                *final(self),
                (ClientKey { fc, suffix })@,
                old(buf)@,
                final(buf)@,
                fresh,
                r,
            ),
    {
        if fc == self.manager {
            self.manager_read(buf, request)
        } else {
            self.client_read(ClientKey { fc, suffix }, buf, fresh)
        }
    }

    /// Writes by the manager or by a client. For the manager, `response`
    /// holds its decoded response and the number of bytes it took; for a
    /// client, `buf` is the data and `fresh` the event a new write sleeps
    /// on.
    pub fn write(
        &mut self,
        suffix: Option<PathBuf>,
        fc: FileClientId,
        buf: &Vec<u8>,
        response: Option<(Response, usize)>,
        fresh: ExplicitEventId,
    ) -> (r: IoResult<usize>)
        requires
            fc == old(self).spec_manager() ==> suffix is None && (response matches Some((resp, _))
                && old(self).spec_clients().contains_key(response_key(resp)) && response_fits(
                resp,
                old(self).spec_clients()[response_key(resp)],
            )),
            fc != old(self).spec_manager() ==> old(self).spec_clients().contains_key(
                (ClientKey { fc, suffix })@,
            ) && client_can_write(old(self).spec_clients()[(ClientKey { fc, suffix })@]),
        ensures
            fc == old(self).spec_manager() ==> (response matches Some((resp, consumed))
                && manager_write_done(*old(self), *final(self), resp, consumed, r)),
            fc != old(self).spec_manager() ==> client_write_done(
                *old(self),
                *final(self),
                (ClientKey { fc, suffix })@,
                buf@,
                fresh,
                r,
            ),
    {
        if fc == self.manager {
            match response {
                Some((resp, consumed)) => self.manager_write(resp, consumed),
                None => unreached(),
            }
        } else {
            self.client_write(ClientKey { fc, suffix }, buf, fresh)
        }
    }

    /// When manager closes the file, destroy this, triggering all waiting
    /// processes. When client closes the file, send close message.
    pub fn close(&mut self, suffix: Option<PathBuf>, fc: FileClientId) -> (r: IoResult<CloseAction>)
        ensures
            close_done(*old(self), *final(self), (ClientKey { fc, suffix })@, r),
    {
        let key = ClientKey { fc, suffix };
        if fc == self.manager {
            return IoResult::success(CloseAction::Destroy);
        }
        match client_map_remove(&mut self.clients, &key) {
            Some(client) => {
                let mut client = client;
                client.set_state(&key, ClientState::ClosePending);
                let again = copy_key(&key);
                client_map_insert(&mut self.clients, key, client);
                proof {
                    assert(self.spec_clients() =~= old(self).spec_clients().insert(
                        again@,
                        ClientStateView::ClosePending,
                    ));
                }
                let (result, ctx) = self.manager_pending_events.push_io(again).separate_events();
                proof {
                    assert(self.spec_queue() =~= old(self).spec_queue().push(again@));
                }
                IoResult::success(CloseAction::Normal).with_events(ctx)
            },
            None => {
                proof {
                    assert(self.spec_clients() =~= old(self).spec_clients());
                }
                IoResult::success(CloseAction::Normal)
            },
        }
    }

    /// What a reader waits for: the manager for the next queued client
    /// (sleeping on `fresh` if it does not sleep yet), a client for the
    /// event of its operation in flight.
    pub fn read_waiting_for(&mut self, suffix: Option<PathBuf>, fc: FileClientId, fresh: ExplicitEventId) -> (r: WaitFor)
        requires
            fc == old(self).spec_manager() ==> suffix is None,
        ensures
            final(self).spec_manager() == old(self).spec_manager(),
            final(self).spec_is_leaf() == old(self).spec_is_leaf(),
            final(self).spec_clients() == old(self).spec_clients(),
            final(self).spec_queue() == old(self).spec_queue(),
            fc == old(self).spec_manager() ==> if old(self).spec_queue().len() > 0 {
                r == WaitFor::NoWait && final(self).spec_waiting() == old(self).spec_waiting()
            } else {
                match old(self).spec_waiting() {
                    Some(e) => r == WaitFor::Event(e) && final(self).spec_waiting() == old(self).spec_waiting(),
                    None => r == WaitFor::Event(fresh) && final(self).spec_waiting() == Some(fresh),
                }
            },
            fc != old(self).spec_manager() ==> final(self).spec_waiting() == old(self).spec_waiting() && r == ({
                let k = (ClientKey { fc, suffix })@;
                if old(self).spec_clients().contains_key(k) {
                    match state_event(old(self).spec_clients()[k]) {
                        Some(e) => WaitFor::Event(e),
                        None => WaitFor::NoWait,
                    }
                } else {
                    WaitFor::NoWait
                }
            }),
    {
        if fc == self.manager {
            return self.manager_pending_events.wait_for(fresh);
        }
        let key = ClientKey { fc, suffix };
        match client_map_get(&self.clients, &key) {
            Some(client) => match client.state().event() {
                Some(e) => WaitFor::Event(e),
                None => WaitFor::NoWait,
            },
            None => WaitFor::NoWait,
        }
    }

    /// Trigger all waiting processes: the events of the clients that wait
    /// for the manager.
    pub fn destroy(&self) -> (r: Trigger)
        ensures
            destroy_trigger(*self, r),
    {
        let keys = client_map_keys(&self.clients);
        let mut events = EventSet::new();
        let mut i: usize = 0;
        while i < keys.len()
            invariant
                i <= keys@.len(),
                forall|j: int| 0 <= j < keys@.len() ==> self.spec_clients().contains_key(#[trigger] keys@[j]@),
                forall|e: ExplicitEventId| events.view().contains(e) <==> exists|j: int| 0 <= j < i
                    && state_event(self.spec_clients()[#[trigger] keys@[j]@]) == Some(e),
            decreases keys@.len() - i,
        {
            let client = match client_map_get(&self.clients, &keys[i]) {
                Some(c) => c,
                None => unreached(),
            };
            let ghost ev0 = events.view();
            let ev = client.state().event();
            match ev {
                Some(e) => events.insert(e),
                None => {},
            }
            proof {
                assert forall|e2: ExplicitEventId| events.view().contains(e2) <==> exists|j: int| 0 <= j < i + 1
                    && state_event(self.spec_clients()[#[trigger] keys@[j]@]) == Some(e2) by {
                    assert(events.view().contains(e2) <==> (ev0.contains(e2) || ev == Some(e2)));
                    assert(ev0.contains(e2) <==> exists|j: int| 0 <= j < i
                        && state_event(self.spec_clients()[#[trigger] keys@[j]@]) == Some(e2));
                    if exists|j: int| 0 <= j < i + 1 && state_event(self.spec_clients()[#[trigger] keys@[j]@]) == Some(e2) {
                        let j = choose|j: int| 0 <= j < i + 1 && state_event(self.spec_clients()[#[trigger] keys@[j]@]) == Some(e2);
                        if j < i {
                            assert(0 <= j < i && state_event(self.spec_clients()[keys@[j]@]) == Some(e2));
                        }
                    }
                    if ev == Some(e2) {
                        assert(state_event(self.spec_clients()[keys@[i as int]@]) == Some(e2));
                    }
                    if exists|j: int| 0 <= j < i && state_event(self.spec_clients()[#[trigger] keys@[j]@]) == Some(e2) {
                        let j = choose|j: int| 0 <= j < i && state_event(self.spec_clients()[#[trigger] keys@[j]@]) == Some(e2);
                        assert(0 <= j < i + 1 && state_event(self.spec_clients()[keys@[j]@]) == Some(e2));
                    }
                }
            }
            i = i + 1;
        }
        proof {
            assert forall|e: ExplicitEventId| (exists|k: KeyView| #[trigger] self.spec_clients().contains_key(k)
                && state_event(self.spec_clients()[k]) == Some(e)) implies events.view().contains(e) by {
                let k = choose|k: KeyView| #[trigger] self.spec_clients().contains_key(k)
                    && state_event(self.spec_clients()[k]) == Some(e);
                let j = choose|j: int| 0 <= j < keys@.len() && #[trigger] keys@[j]@ == k;
                assert(state_event(self.spec_clients()[keys@[j]@]) == Some(e));
            }
        }
        Trigger::events(events)
    }
}

/// Copies `src` to the front of `dst`.
fn copy_into(dst: &mut Vec<u8>, src: &Vec<u8>)
    requires
        src@.len() <= old(dst)@.len(),
    ensures
        final(dst)@.len() == old(dst)@.len(),
        final(dst)@.take(src@.len() as int) == src@,
        final(dst)@.skip(src@.len() as int) == old(dst)@.skip(src@.len() as int),
{
    let mut i: usize = 0;
    while i < src.len()
        invariant
            i <= src@.len(),
            src@.len() <= dst@.len(),
            dst@.len() == old(dst)@.len(),
            forall|j: int| 0 <= j < i ==> dst@[j] == src@[j],
            forall|j: int| i <= j < dst@.len() ==> dst@[j] == old(dst)@[j],
        decreases src@.len() - i,
    {
        dst.set(i, src[i]);
        i = i + 1;
    }
    assert(dst@.take(src@.len() as int) =~= src@);
    assert(dst@.skip(src@.len() as int) =~= old(dst)@.skip(src@.len() as int));
}

/// Moves bytes from the front of `data` to the front of `buf`, as many as
/// both have, and returns their number.
fn pop_into(data: &mut VecDeque<u8>, buf: &mut Vec<u8>) -> (n: usize)
    ensures
        n == min_len(old(buf)@.len(), old(data)@.len()),
        final(data)@ == old(data)@.skip(n as int),
        final(buf)@.len() == old(buf)@.len(),
        final(buf)@.take(n as int) == old(data)@.take(n as int),
        final(buf)@.skip(n as int) == old(buf)@.skip(n as int),
{
    let mut i: usize = 0;
    let mut more = true;
    while more && i < buf.len()
        invariant
            i <= old(buf)@.len(),
            buf@.len() == old(buf)@.len(),
            i <= old(data)@.len(),
            !more ==> i == old(data)@.len(),
            data@ == old(data)@.skip(i as int),
            forall|j: int| 0 <= j < i ==> buf@[j] == old(data)@[j],
            forall|j: int| i <= j < buf@.len() ==> buf@[j] == old(buf)@[j],
        decreases old(buf)@.len() - i + (if more { 1int } else { 0int }),
    {
        match data.pop_front() {
            Some(byte) => {
                buf.set(i, byte);
                i = i + 1;
                proof {
                    assert(data@ =~= old(data)@.skip(i as int));
                }
            },
            None => {
                more = false;
            },
        }
    }
    assert(buf@.take(i as int) =~= old(data)@.take(i as int));
    assert(buf@.skip(i as int) =~= old(buf)@.skip(i as int));
    i
}

/// `b` is `a` after the client `k` closed, answered by `r`: the manager's
/// close destroys the node; a known client's close is queued for the
/// manager, waking it; another is forgotten already.
pub open spec fn close_done(a: Attachment, b: Attachment, k: KeyView, r: IoResult<CloseAction>) -> bool {
    &&& b.spec_manager() == a.spec_manager()
    &&& b.spec_is_leaf() == a.spec_is_leaf()
    &&& if k.0 == a.spec_manager() {
        &&& r.inner == IoResultPure::<CloseAction>::Success(CloseAction::Destroy)
        &&& r.events@.len() == 0
        &&& b.spec_clients() == a.spec_clients()
        &&& b.spec_queue() == a.spec_queue()
        &&& b.spec_waiting() == a.spec_waiting()
    } else if a.spec_clients().contains_key(k) {
        &&& r.inner == IoResultPure::<CloseAction>::Success(CloseAction::Normal)
        &&& r.events@ == woken(a.spec_waiting())
        &&& b.spec_clients() == a.spec_clients().insert(k, ClientStateView::ClosePending)
        &&& b.spec_queue() == a.spec_queue().push(k)
        &&& b.spec_waiting() is None
    } else {
        &&& r.inner == IoResultPure::<CloseAction>::Success(CloseAction::Normal)
        &&& r.events@.len() == 0
        &&& b.spec_clients() == a.spec_clients()
        &&& b.spec_queue() == a.spec_queue()
        &&& b.spec_waiting() == a.spec_waiting()
    }
}

/// `t` wakes exactly the events that clients of `a` wait on, and kills no
/// process.
pub open spec fn destroy_trigger(a: Attachment, t: Trigger) -> bool {
    &&& forall|e: ExplicitEventId| t.spec_events().contains(e) <==> exists|k: KeyView| #[trigger] a.spec_clients().contains_key(k)
        && state_event(a.spec_clients()[k]) == Some(e)
    &&& t.spec_kills() == no_processes()
}

/// The manager's read of its next request, encoded as `request`, took
/// `a` to `b` and filled `buf1` from `buf0`.
pub open spec fn manager_read_done(
    a: Attachment,
    b: Attachment,
    buf0: Seq<u8>,
    buf1: Seq<u8>,
    request: Seq<u8>,
    r: IoResult<usize>,
) -> bool {
    let k = a.spec_queue()[0];
    let st = a.spec_clients()[k];
    &&& b.spec_manager() == a.spec_manager()
    &&& b.spec_is_leaf() == a.spec_is_leaf()
    &&& b.spec_clients() == a.spec_clients().insert(k, state_after_request(st))
    &&& r.inner == IoResultPure::<usize>::Success(request.len() as usize)
    &&& buf1.len() == buf0.len()
    &&& buf1.take(request.len() as int) == request
    &&& buf1.skip(request.len() as int) == buf0.skip(request.len() as int)
    &&& if st is ReadPending {
        &&& b.spec_queue() == a.spec_queue().drop_first().push(k)
        &&& b.spec_waiting() is None
        &&& r.events@ == woken(a.spec_waiting())
    } else {
        &&& b.spec_queue() == a.spec_queue().drop_first()
        &&& b.spec_waiting() == a.spec_waiting()
        &&& r.events@.len() == 0
    }
}

/// Client `k`'s write of `data` took `a` to `b`; `fresh` is the event a
/// new write sleeps on.
pub open spec fn client_write_done(
    a: Attachment,
    b: Attachment,
    k: KeyView,
    data: Seq<u8>,
    fresh: ExplicitEventId,
    r: IoResult<usize>,
) -> bool {
    let st = a.spec_clients()[k];
    &&& b.spec_manager() == a.spec_manager()
    &&& b.spec_is_leaf() == a.spec_is_leaf()
    &&& b.spec_clients() == a.spec_clients().insert(k, state_after_write(st, data, fresh))
    &&& r.inner == result_of_write(st, fresh)
    &&& if st is Ready {
        &&& b.spec_queue() == a.spec_queue().push(k)
        &&& b.spec_waiting() is None
        &&& r.events@ == woken(a.spec_waiting())
    } else {
        &&& b.spec_queue() == a.spec_queue()
        &&& b.spec_waiting() == a.spec_waiting()
        &&& r.events@.len() == 0
    }
}

/// The manager's write of `resp`, whose encoding took `consumed` bytes,
/// took `a` to `b`: the client answered completes and its event is
/// triggered.
pub open spec fn manager_write_done(a: Attachment, b: Attachment, resp: Response, consumed: usize, r: IoResult<usize>) -> bool {
    let k = response_key(resp);
    let st = a.spec_clients()[k];
    &&& b.spec_manager() == a.spec_manager()
    &&& b.spec_is_leaf() == a.spec_is_leaf()
    &&& b.spec_clients() == a.spec_clients().insert(k, state_after_response(resp))
    &&& b.spec_queue() == a.spec_queue()
    &&& b.spec_waiting() == a.spec_waiting()
    &&& r.inner == IoResultPure::<usize>::Success(consumed)
    &&& r.events@ == seq![state_event(st).unwrap()]
}

/// Client `k`'s read into a buffer `buf0`, which became `buf1`, took `a`
/// to `b`; `fresh` is the event a new read sleeps on.
pub open spec fn client_read_done(
    a: Attachment,
    b: Attachment,
    k: KeyView,
    buf0: Seq<u8>,
    buf1: Seq<u8>,
    fresh: ExplicitEventId,
    r: IoResult<usize>,
) -> bool {
    let st = a.spec_clients()[k];
    &&& b.spec_manager() == a.spec_manager()
    &&& b.spec_is_leaf() == a.spec_is_leaf()
    &&& b.spec_clients() == a.spec_clients().insert(k, state_after_read(st, buf0.len(), fresh))
    &&& r.inner == result_of_read(st, buf0.len(), fresh)
    &&& buf1.len() == buf0.len()
    &&& match st {
        ClientStateView::ReadComplete(d) => {
            let n = min_len(buf0.len(), d.len()) as int;
            &&& buf1.take(n) == d.take(n)
            &&& buf1.skip(n) == buf0.skip(n)
        },
        _ => buf1 == buf0,
    }
    &&& if st is Ready {
        &&& b.spec_queue() == a.spec_queue().push(k)
        &&& b.spec_waiting() is None
        &&& r.events@ == woken(a.spec_waiting())
    } else {
        &&& b.spec_queue() == a.spec_queue()
        &&& b.spec_waiting() == a.spec_waiting()
        &&& r.events@.len() == 0
    }
}

} // verus!
