//! Properties that span several operations of the library.

use vstd::prelude::*;
use crate::filesystem::attachment::{
    client_read_done, manager_read_done, manager_write_done, min_len, response_key, Attachment,
    ClientStateView, KeyView, Response, ResponseFileOperation,
};
use crate::filesystem::event_queue::EventQueue;
use crate::filesystem::internal_branch::{internal_read_done, InternalBranch};
use crate::filesystem::result::{IoResult, IoResultPure};
use crate::filesystem::staticfs::{static_read_done, StaticFSLeaf};
use crate::filesystem::types::{CloseAction, ExplicitEventId, FileClientId, NodeId, ProcessId, WaitFor};
use crate::filesystem::node::Leaf;
use crate::filesystem::vfs::{fd_created, leaf_opened, node_closed, relative, Destroyed, ObjectSlot, VirtualFS};
use crate::filesystem::tree::{inserted, is_chain, lemma_split_shorter, split_left, tree_map_contents, tree_resolve, Tree};
use crate::rtl8139::{next_rx_offset, RX_BUFFER_SIZE};
use crate::vga_console::{console_write_bytes, ConsoleState};
use crate::acpi::tables::{entries_map, signature_key};
use crate::vga_buffer::{cell_index, spec_write_byte, spec_write_bytes_in, CellColor, CharCell, TermState, SCREEN_CELLS, SCREEN_HEIGHT, SCREEN_WIDTH};
use crate::elf_parser::{header_error, loadable_headers, ph_offset, spec_header};
use crate::acpi::madt::{entries_ok, entry_ok, madt_overrides, InterruptSourceOverride};
use crate::apic::io::{irq_route, legacy_entry, overrides_fit, IRQ_VECTOR_BASE, LEGACY_IRQ_COUNT};
use crate::bytes::{le_u16, le_u32, le_u64};
use crate::filesystem::path::{is_root_path, last_slash, lemma_slash_from_bounds, slash_from, spec_file_name, spec_normalized, spec_parent, trim_end_slashes};

verus! {

/// A read through an attachment is served by its manager: a ready client's
/// read sleeps on its event and queues the client; when the manager has
/// taken the request and answers it with `data`, the answer wakes exactly
/// that event, and the client's next read hands out the front of `data`,
/// as much as its buffer holds.
pub proof fn law_attachment_read_roundtrip(
    a0: Attachment,
    a1: Attachment,
    a2: Attachment,
    a3: Attachment,
    a4: Attachment,
    k: KeyView,
    fresh: ExplicitEventId,
    fresh2: ExplicitEventId,
    buf0: Seq<u8>,
    buf1: Seq<u8>,
    mbuf0: Seq<u8>,
    mbuf1: Seq<u8>,
    request: Seq<u8>,
    resp: Response,
    consumed: usize,
    cbuf0: Seq<u8>,
    cbuf1: Seq<u8>,
    r1: IoResult<usize>,
    r2: IoResult<usize>,
    r3: IoResult<usize>,
    r4: IoResult<usize>,
)
    requires
        a0.spec_clients().contains_key(k),
        a0.spec_clients()[k] == ClientStateView::Ready,
        a0.spec_queue().len() == 0,
        client_read_done(a0, a1, k, buf0, buf1, fresh, r1),
        manager_read_done(a1, a2, mbuf0, mbuf1, request, r2),
        response_key(resp) == k,
        resp.operation is Read,
        manager_write_done(a2, a3, resp, consumed, r3),
        client_read_done(a3, a4, k, cbuf0, cbuf1, fresh2, r4),
    ensures
        r1.inner == IoResultPure::<usize>::RepeatAfter(WaitFor::Event(fresh)),
        r3.events@ == seq![fresh],
        ({
            let data = resp.operation->Read_0@;
            let n = min_len(cbuf0.len(), data.len()) as int;
            &&& r4.inner == IoResultPure::<usize>::Success(n as usize)
            &&& cbuf1.take(n) == data.take(n)
            &&& cbuf1.skip(n) == cbuf0.skip(n)
        }),
{
    assert(a1.spec_queue() =~= seq![k]);
    assert(a1.spec_clients()[k] == ClientStateView::ReadPending(fresh, buf0.len() as usize));
    assert(a2.spec_clients()[k] == ClientStateView::ReadInProgress(fresh));
    assert(a3.spec_clients()[k] == ClientStateView::ReadComplete(resp.operation->Read_0@));
}

/// The listing of an internal branch reads back as it was stored: once
/// `contents` is the snapshot of a client, a read with a buffer at least
/// as long gives exactly `contents` and leaves nothing pending.
pub proof fn law_internal_branch_listing(
    b0: InternalBranch,
    b1: InternalBranch,
    b2: InternalBranch,
    fc: FileClientId,
    contents: Seq<u8>,
    buf0: Seq<u8>,
    buf1: Seq<u8>,
    r: IoResult<usize>,
)
    requires
        b1.spec_readers() == b0.spec_readers().insert(fc, contents.reverse()),
        buf0.len() >= contents.len(),
        internal_read_done(b1, b2, fc, buf0, buf1, r),
    ensures
        r.inner == IoResultPure::<usize>::Success(contents.len() as usize),
        buf1.take(contents.len() as int) == contents,
        b2.spec_readers()[fc].len() == 0,
{
    let pending = contents.reverse();
    assert(pending.skip(0) =~= pending);
    assert(pending.reverse() =~= contents);
}

/// Successive reads of a static file continue each other: two reads hand
/// out consecutive stretches of the file, starting where the client
/// stopped before.
pub proof fn law_staticfs_reads_continue(
    l0: StaticFSLeaf,
    l1: StaticFSLeaf,
    l2: StaticFSLeaf,
    fc: FileClientId,
    a0: Seq<u8>,
    a1: Seq<u8>,
    b0: Seq<u8>,
    b1: Seq<u8>,
    r1: IoResult<usize>,
    r2: IoResult<usize>,
)
    requires
        l0.wf(),
        l0.spec_data() is Some,
        static_read_done(l0, l1, fc, a0, a1, r1),
        static_read_done(l1, l2, fc, b0, b1, r2),
    ensures
        r1.inner matches IoResultPure::Success(n1) && r2.inner matches IoResultPure::Success(n2) && {
            let data = l0.spec_data()->0;
            let start = l0.offset_of(fc);
            a1.take(n1 as int) + b1.take(n2 as int) == data.subrange(start, start + n1 + n2)
                && l2.offset_of(fc) == start + n1 + n2
        },
{
    let data = l0.spec_data()->0;
    let start = l0.offset_of(fc);
    assert(l0.spec_readers().contains_key(fc) ==> l0.spec_readers()[fc] <= data.len());
    let n1 = crate::filesystem::staticfs::min_len(data.len() - start, a0.len() as int);
    assert(l1.offset_of(fc) == start + n1);
    let n2 = crate::filesystem::staticfs::min_len(data.len() - (start + n1), b0.len() as int);
    assert(a1.take(n1) + b1.take(n2) =~= data.subrange(start, start + n1 + n2));
}

/// Items leave an event queue in the order they came: after `push`, the
/// next `pop_event` gives the oldest item, which is the pushed one when the
/// queue was empty.
pub proof fn law_event_queue_fifo<T>(q0: EventQueue<T>, q1: EventQueue<T>, q2: EventQueue<T>, item: T, popped: Option<T>)
    requires
        q1.items() == q0.items().push(item),
        q1.items().len() > 0 ==> popped == Some(q1.items()[0]) && q2.items() == q1.items().drop_first(),
    ensures
        q0.items().len() == 0 ==> popped == Some(item) && q2.items().len() == 0,
        q0.items().len() > 0 ==> popped == Some(q0.items()[0]) && q2.items() == q0.items().drop_first().push(item),
{
    if q0.items().len() > 0 {
        assert(q1.items().drop_first() =~= q0.items().drop_first().push(item));
    }
}

/// The receive ring offset the driver moves to is inside the ring and
/// aligned to four bytes, whatever packet it moved past.
pub proof fn law_rx_offset_aligned(off: int, length: int)
    requires
        0 <= off < RX_BUFFER_SIZE,
        0 <= length < 0x600,
    ensures
        0 <= next_rx_offset(off, length) < RX_BUFFER_SIZE,
        next_rx_offset(off, length) % 4 == 0,
{
    let x = (off + length + 4 + 3) as u16;
    let y = x & !3u16;
    assert(y % 4 == 0) by (bit_vector)
        requires
            y == x & !3u16,
    ;
    assert((y as int % 32768) % 4 == 0) by (nonlinear_arith)
        requires
            y % 4 == 0,
    ;
}

/// `trim_end_slashes` leaves a prefix without a trailing slash.
proof fn lemma_trim_shape(s: Seq<char>)
    ensures
        trim_end_slashes(s).len() <= s.len(),
        trim_end_slashes(s) == s.take(trim_end_slashes(s).len() as int),
        trim_end_slashes(s).len() == 0 || trim_end_slashes(s).last() != '/',
    decreases s.len(),
{
    if s.len() > 0 && s.last() == '/' {
        lemma_trim_shape(s.drop_last());
        let t = trim_end_slashes(s.drop_last());
        assert(s.drop_last().take(t.len() as int) =~= s.take(t.len() as int));
    } else {
        assert(s.take(s.len() as int) =~= s);
    }
}

/// The last slash found among the first `n` characters is one of them.
proof fn lemma_last_slash_found(s: Seq<char>, n: int)
    ensures
        last_slash(s, n) matches Some(i) ==> 0 <= i < n && s[i] == '/',
        last_slash(s, n) matches Some(i) ==> forall|j: int| i < j < n ==> s[j] != '/',
    decreases n,
{
    if n > 0 && s[n - 1] != '/' {
        lemma_last_slash_found(s, n - 1);
    }
}

/// Normalizing a path twice is normalizing it once.
pub proof fn law_normalized_idempotent(s: Seq<char>)
    ensures
        spec_normalized(spec_normalized(s)) == spec_normalized(s),
{
    if !is_root_path(s) {
        let t = trim_end_slashes(s);
        lemma_trim_shape(s);
        if t.len() > 0 {
            assert(t.last() != '/');
        }
        assert(!is_root_path(t)) by {
            if is_root_path(t) {
                assert(t.last() == '/');
            }
        }
    }
}

/// A path that has a parent other than the root is, without its trailing
/// slashes, its parent, a slash, and its file name; the file name holds no
/// slash.
pub proof fn law_parent_slash_file_name(s: Seq<char>)
    requires
        spec_parent(s) is Some,
        spec_parent(s) != Some(seq!['/']),
    ensures
        spec_file_name(s) is Some,
        spec_parent(s)->0 + seq!['/'] + spec_file_name(s)->0 == spec_normalized(s),
        !spec_file_name(s)->0.contains('/'),
{
    let t = spec_normalized(s);
    lemma_trim_shape(s);
    lemma_last_slash_found(t, t.len() as int);
    let i = last_slash(t, t.len() as int)->0;
    assert(t[i] == s[i]);
    assert(s.take(i) =~= t.take(i));
    assert(t.take(i) + seq!['/'] + t.skip(i + 1) =~= t);
    let f = t.skip(i + 1);
    assert forall|k: int| 0 <= k < f.len() implies #[trigger] f[k] != '/' by {
        assert(f[k] == t[i + 1 + k]);
    }
}

/// A chain built for a path leads along it to its leaf.
proof fn lemma_chain_resolves(t: Tree, s: Seq<char>, id: NodeId)
    requires
        is_chain(t, s, id),
    ensures
        tree_resolve(t, Some(s)) == Some((id, None::<Seq<char>>)),
    decreases s.len(),
{
    lemma_split_shorter(s);
    let (h, tl) = split_left(s);
    match t {
        Tree::Branch(m) => {
            assert(tree_map_contents(m).dom().contains(h));
            match tl {
                Some(rest) => lemma_chain_resolves(tree_map_contents(m)[h], rest, id),
                None => {},
            }
        },
        Tree::Leaf(_) => {},
    }
}

/// What is inserted at a path is found there: after `id` is inserted at
/// `s`, resolving `s` leads to `id` with nothing left of the path.
pub proof fn law_tree_insert_then_resolve(t: Tree, t2: Tree, s: Seq<char>, id: NodeId)
    requires
        inserted(t, t2, s, id),
    ensures
        tree_resolve(t2, Some(s)) == Some((id, None::<Seq<char>>)),
    decreases s.len(),
{
    lemma_split_shorter(s);
    let (h, tl) = split_left(s);
    match (t, t2) {
        (Tree::Branch(m), Tree::Branch(m2)) => {
            let c = tree_map_contents(m);
            let c2 = tree_map_contents(m2);
            assert(c2.dom().contains(h));
            match tl {
                Some(rest) => {
                    if c.contains_key(h) {
                        law_tree_insert_then_resolve(c[h], c2[h], rest, id);
                    } else {
                        lemma_chain_resolves(c2[h], rest, id);
                    }
                },
                None => {},
            }
        },
        _ => {},
    }
}

/// An insertion leaves the rest of the tree alone: a path whose first
/// component differs from that of the inserted path resolves as before.
pub proof fn law_tree_insert_keeps_others(t: Tree, t2: Tree, s: Seq<char>, id: NodeId, q: Seq<char>)
    requires
        inserted(t, t2, s, id),
        split_left(q).0 != split_left(s).0,
    ensures
        tree_resolve(t2, Some(q)) == tree_resolve(t, Some(q)),
{
    lemma_split_shorter(q);
    let hq = split_left(q).0;
    match (t, t2) {
        (Tree::Branch(m), Tree::Branch(m2)) => {
            let c = tree_map_contents(m);
            let c2 = tree_map_contents(m2);
            if c.contains_key(hq) {
                assert(c2[hq] == c[hq]);
            }
            assert(c2.contains_key(hq) == c.contains_key(hq));
        },
        _ => {},
    }
}

/// A printed byte is found where the cursor stood: at that cell, or, when
/// it filled the last cell of the screen and the screen scrolled, one row
/// higher.
pub proof fn law_terminal_print_then_cell(t: TermState, byte: u8, color: CellColor)
    requires
        t.screen.len() == SCREEN_CELLS,
        0 <= t.row < SCREEN_HEIGHT,
        0 <= t.col < SCREEN_WIDTH,
        byte != 0x0a,
        byte != 0x08,
    ensures
        ({
            let after = spec_write_byte(t, byte, color);
            let cell = CharCell { character: byte, color };
            if t.row == SCREEN_HEIGHT - 1 && t.col == SCREEN_WIDTH - 1 {
                after.screen[cell_index(t.row - 1, t.col)] == cell
            } else {
                after.screen[cell_index(t.row, t.col)] == cell
            }
        }),
{
    assert(0 <= cell_index(t.row, t.col) < SCREEN_CELLS) by (nonlinear_arith)
        requires
            0 <= t.row < 25,
            0 <= t.col < 80,
    ;
}

/// What is created at a path is what the path opens: once a node was
/// inserted at the absolute path `p`, opening `p` finds that node, with
/// nothing left of the path.
pub proof fn law_vfs_created_node_opens(a: VirtualFS, b: VirtualFS, p: Seq<char>, id: NodeId)
    requires
        inserted(a.spec_tree(), b.spec_tree(), relative(p), id),
    ensures
        b.resolves(p) == Some((id, None::<Seq<char>>)),
{
    law_tree_insert_then_resolve(a.spec_tree(), b.spec_tree(), relative(p), id);
}

/// A descriptor is never handed out twice: the one a process opens is
/// one it did not have, and it holds the node and path it was opened on.
pub proof fn law_vfs_descriptor_fresh(
    a: VirtualFS,
    b: VirtualFS,
    pid: ProcessId,
    id: NodeId,
    suffix: Option<Seq<char>>,
)
    requires
        a.wf(),
        a.spec_processes().contains_key(pid),
        fd_created(a.spec_processes(), b.spec_processes(), pid, id, suffix),
    ensures
        ({
            let fd = a.spec_processes()[pid].spec_next_fd();
            &&& !a.spec_processes()[pid].spec_descriptors().contains_key(fd)
            &&& b.spec_processes()[pid].spec_descriptors()[fd] == (id, suffix)
        }),
{
}

/// Opening a node and closing the descriptor again leaves its count of
/// descriptors as it was, where the node stays; a node left without
/// descriptors does not stay.
pub proof fn law_vfs_open_close_count(
    l: Leaf<ObjectSlot>,
    l2: Leaf<ObjectSlot>,
    fc: FileClientId,
    suffix: Option<Seq<char>>,
    nodes: Map<NodeId, Leaf<ObjectSlot>>,
    nodes2: Map<NodeId, Leaf<ObjectSlot>>,
    id: NodeId,
    closed: Leaf<ObjectSlot>,
    action: CloseAction,
    d: Option<Destroyed>,
)
    requires
        leaf_opened(l, l2, fc, suffix),
        closed.fc_refcount == l2.fc_refcount - 1,
        node_closed(nodes, nodes2, id, closed, action, d),
    ensures
        nodes2.contains_key(id) ==> nodes2[id].fc_refcount == l.fc_refcount,
        l.fc_refcount == 0 ==> !nodes2.contains_key(id),
{
}

/// The first slash at or after `i` is the first index from `i` on that
/// holds a slash, or the length where none does.
proof fn lemma_slash_from_is(s: Seq<char>, i: int, k: int)
    requires
        0 <= i <= k <= s.len(),
        k == s.len() || s[k] == '/',
        forall|j: int| i <= j < k ==> s[j] != '/',
    ensures
        slash_from(s, i) == k,
    decreases k - i,
{
    if i < k {
        lemma_slash_from_is(s, i + 1, k);
    }
}

/// A path below a file leads to that file: where the relative path `s`
/// leads to node `id` with nothing left, `s`, a slash and `q` lead to
/// `id` with `q` left.
pub proof fn law_tree_resolve_below_leaf(t: Tree, s: Seq<char>, q: Seq<char>, id: NodeId)
    requires
        tree_resolve(t, Some(s)) == Some((id, None::<Seq<char>>)),
    ensures
        tree_resolve(t, Some(s + seq!['/'] + q)) == Some((id, Some(q))),
    decreases s.len(),
{
    let s2 = s + seq!['/'] + q;
    lemma_split_shorter(s);
    lemma_split_shorter(s2);
    lemma_slash_from_bounds(s, 0);
    let i = slash_from(s, 0);
    match t {
        Tree::Leaf(x) => {
            assert(tree_resolve(t, Some(s)) == Some((x, Some(s))));
        },
        Tree::Branch(m) => {
            let c = tree_map_contents(m);
            if i < s.len() {
                lemma_slash_from_is(s2, 0, i);
                let r = s.skip(i + 1);
                assert(s2.take(i) =~= s.take(i));
                assert(s2.skip(i + 1) =~= r + seq!['/'] + q);
                assert(c.contains_key(s.take(i)));
                law_tree_resolve_below_leaf(c[s.take(i)], r, q, id);
            } else {
                lemma_slash_from_is(s2, 0, s.len() as int);
                assert(s2.take(s.len() as int) =~= s);
                assert(s2.skip(s.len() as int + 1) =~= q);
                assert(c.contains_key(s));
                assert(tree_resolve(t, Some(s)) == tree_resolve(c[s], None));
                match c[s] {
                    Tree::Leaf(x) => {
                        assert(tree_resolve(c[s], None) == Some((x, None::<Seq<char>>)));
                        assert(tree_resolve(c[s], Some(q)) == Some((x, Some(q))));
                    },
                    Tree::Branch(_) => {
                        assert(tree_resolve(c[s], None) is None);
                    },
                }
            }
        },
    }
}

/// A path below a file of the filesystem opens that file: where the
/// absolute `p` leads to node `id` with nothing left, `p`, a slash and `q`
/// lead to `id` with `q` left after it.
pub proof fn law_vfs_path_below_file(fs: VirtualFS, p: Seq<char>, q: Seq<char>, id: NodeId)
    requires
        p.len() > 0,
        fs.resolves(p) == Some((id, None::<Seq<char>>)),
    ensures
        fs.resolves(p + seq!['/'] + q) == Some((id, Some(q))),
{
    assert(relative(p + seq!['/'] + q) =~= relative(p) + seq!['/'] + q);
    law_tree_resolve_below_leaf(fs.spec_tree(), relative(p), q, id);
}

/// Printing two texts one after the other is printing them joined.
pub proof fn law_terminal_print_concat(t: TermState, a: Seq<u8>, b: Seq<u8>, color: CellColor)
    ensures
        spec_write_bytes_in(t, a + b, color) == spec_write_bytes_in(spec_write_bytes_in(t, a, color), b, color),
    decreases b.len(),
{
    if b.len() == 0 {
        assert(a + b =~= a);
    } else {
        law_terminal_print_concat(t, a, b.drop_last(), color);
        assert((a + b).drop_last() =~= a + b.drop_last());
    }
}

/// On the console too, printing two texts one after the other is printing
/// them joined.
pub proof fn law_console_print_concat(t: ConsoleState, a: Seq<u8>, b: Seq<u8>)
    ensures
        console_write_bytes(t, a + b) == console_write_bytes(console_write_bytes(t, a), b),
    decreases b.len(),
{
    if b.len() == 0 {
        assert(a + b =~= a);
    } else {
        law_console_print_concat(t, a, b.drop_last());
        assert((a + b).drop_last() =~= a + b.drop_last());
    }
}

/// Signatures with the same key are the same four bytes.
proof fn lemma_signature_key_injective(a: [u8; 4], b: [u8; 4])
    requires
        signature_key(a) == signature_key(b),
    ensures
        a@ == b@,
{
    let (a0, a1, a2, a3) = (a[0] as int, a[1] as int, a[2] as int, a[3] as int);
    let (b0, b1, b2, b3) = (b[0] as int, b[1] as int, b[2] as int, b[3] as int);
    assert(a0 + a1 * 0x100 + a2 * 0x1_0000 + a3 * 0x100_0000 < 0x1_0000_0000) by (nonlinear_arith)
        requires
            0 <= a0 < 256,
            0 <= a1 < 256,
            0 <= a2 < 256,
            0 <= a3 < 256,
    ;
    assert(b0 + b1 * 0x100 + b2 * 0x1_0000 + b3 * 0x100_0000 < 0x1_0000_0000) by (nonlinear_arith)
        requires
            0 <= b0 < 256,
            0 <= b1 < 256,
            0 <= b2 < 256,
            0 <= b3 < 256,
    ;
    assert(a0 == b0 && a1 == b1 && a2 == b2 && a3 == b3) by (nonlinear_arith)
        requires
            0 <= a0 < 256,
            0 <= a1 < 256,
            0 <= a2 < 256,
            0 <= a3 < 256,
            0 <= b0 < 256,
            0 <= b1 < 256,
            0 <= b2 < 256,
            0 <= b3 < 256,
            a0 + a1 * 0x100 + a2 * 0x1_0000 + a3 * 0x100_0000 == b0 + b1 * 0x100 + b2 * 0x1_0000 + b3 * 0x100_0000,
    ;
    assert(a@ =~= b@);
}

/// The last root table entry with a signature wins: where entry `j` is the
/// last of the first `n` entries whose signature is `key`, the table of
/// signatures built from them gives the address of entry `j` for `key`.
pub proof fn law_rsdt_last_entry_wins(sigs: Seq<[u8; 4]>, addrs: Seq<u64>, n: nat, key: [u8; 4], j: int)
    requires
        n <= sigs.len(),
        0 <= j < n,
        sigs[j]@ == key@,
        forall|k: int| j < k < n ==> sigs[k]@ != key@,
    ensures
        entries_map(sigs, addrs, n).contains_key(signature_key(key)),
        entries_map(sigs, addrs, n)[signature_key(key)] == addrs[j],
    decreases n,
{
    assert(signature_key(sigs[j]) == signature_key(key)) by {
        assert(sigs[j]@[0] == key@[0] && sigs[j]@[1] == key@[1] && sigs[j]@[2] == key@[2] && sigs[j]@[3] == key@[3]);
    }
    if j < n - 1 {
        law_rsdt_last_entry_wins(sigs, addrs, (n - 1) as nat, key, j);
        if signature_key(sigs[n - 1]) == signature_key(key) {
            lemma_signature_key_injective(sigs[n - 1], key);
        }
    }
}

/// A signature that no entry carries is not in the table of signatures.
pub proof fn law_rsdt_absent(sigs: Seq<[u8; 4]>, addrs: Seq<u64>, n: nat, key: [u8; 4])
    requires
        n <= sigs.len(),
        forall|k: int| 0 <= k < n ==> sigs[k]@ != key@,
    ensures
        !entries_map(sigs, addrs, n).contains_key(signature_key(key)),
    decreases n,
{
    if n > 0 {
        law_rsdt_absent(sigs, addrs, (n - 1) as nat, key);
        if signature_key(sigs[n - 1]) == signature_key(key) {
            lemma_signature_key_injective(sigs[n - 1], key);
        }
    }
}

/// An error is reported to its reader once: where the manager answers a
/// client's request with an error, the client's next read returns that
/// error, and the read after it starts a new request, which sleeps on its
/// fresh event and queues the client for the manager again.
pub proof fn law_attachment_error_reported_once(
    a0: Attachment,
    a1: Attachment,
    a2: Attachment,
    a3: Attachment,
    k: KeyView,
    resp: Response,
    consumed: usize,
    buf0: Seq<u8>,
    buf1: Seq<u8>,
    buf2: Seq<u8>,
    buf3: Seq<u8>,
    fresh1: ExplicitEventId,
    fresh2: ExplicitEventId,
    r0: IoResult<usize>,
    r1: IoResult<usize>,
    r2: IoResult<usize>,
)
    requires
        response_key(resp) == k,
        resp.operation is Error,
        manager_write_done(a0, a1, resp, consumed, r0),
        client_read_done(a1, a2, k, buf0, buf1, fresh1, r1),
        client_read_done(a2, a3, k, buf2, buf3, fresh2, r2),
    ensures
        r1.inner == IoResultPure::<usize>::Error(resp.operation->Error_0),
        buf1 == buf0,
        r2.inner == IoResultPure::<usize>::RepeatAfter(WaitFor::Event(fresh2)),
        a3.spec_queue() == a2.spec_queue().push(k),
        a3.spec_clients()[k] == ClientStateView::ReadPending(fresh2, buf2.len() as usize),
{
    assert(a1.spec_clients()[k] == ClientStateView::Error(resp.operation->Error_0));
    assert(a2.spec_clients()[k] == ClientStateView::Ready);
}

/// Each loadable segment of a parsed ELF image is a LOAD entry of its
/// program header table, and each of its fields is the little-endian value
/// stored at that field's ELF64 offset in the entry: type at 0, flags at 4,
/// file offset at 8, virtual address at 16, physical address at 24, size in
/// the file at 32, size in memory at 40, alignment at 48.
pub proof fn law_elf_segment_fields(s: Seq<u8>, n: nat, j: int)
    requires
        0 <= j < loadable_headers(s, spec_header(s), n).len(),
    ensures
        exists|i: int|
            #![trigger ph_offset(spec_header(s), i)]
            0 <= i < n && {
                let off = ph_offset(spec_header(s), i);
                let ph = loadable_headers(s, spec_header(s), n)[j];
                &&& le_u32(s, off) == 1
                &&& ph.header_type == 1
                &&& ph.flags.bits == le_u32(s, off + 4) as u32
                &&& ph.offset == le_u64(s, off + 8) as u64
                &&& ph.virtual_address == le_u64(s, off + 16) as u64
                &&& ph.undef == le_u64(s, off + 24) as u64
                &&& ph.size_in_file == le_u64(s, off + 32) as u64
                &&& ph.size_in_memory == le_u64(s, off + 40) as u64
                &&& ph.alignment == le_u64(s, off + 48) as u64
            },
    decreases n,
{
    let h = spec_header(s);
    let prev = loadable_headers(s, h, (n - 1) as nat);
    let off = ph_offset(h, n - 1);
    if j < prev.len() {
        law_elf_segment_fields(s, (n - 1) as nat, j);
        let i = choose|i: int|
            #![trigger ph_offset(spec_header(s), i)]
            0 <= i < n - 1 && {
                let off = ph_offset(spec_header(s), i);
                let ph = loadable_headers(s, spec_header(s), (n - 1) as nat)[j];
                &&& le_u32(s, off) == 1
                &&& ph.header_type == 1
                &&& ph.flags.bits == le_u32(s, off + 4) as u32
                &&& ph.offset == le_u64(s, off + 8) as u64
                &&& ph.virtual_address == le_u64(s, off + 16) as u64
                &&& ph.undef == le_u64(s, off + 24) as u64
                &&& ph.size_in_file == le_u64(s, off + 32) as u64
                &&& ph.size_in_memory == le_u64(s, off + 40) as u64
                &&& ph.alignment == le_u64(s, off + 48) as u64
            };
        assert(loadable_headers(s, h, n)[j] == prev[j]);
        assert(0 <= i < n);
    } else {
        assert(loadable_headers(s, h, n)[j] == loadable_headers(s, h, n).last());
        assert(0 <= n - 1 < n);
        assert(ph_offset(spec_header(s), n - 1) == off);
    }
}

/// Each interrupt source override that the MADT's entries list from `off`
/// to `end` is the body of an override entry (type 2) among them, decoded
/// at its ACPI offsets: bus at body byte 0, source IRQ at byte 1, global
/// system interrupt at bytes 2-5 and flags at bytes 6-7, little-endian.
pub proof fn law_madt_override_fields(s: Seq<u8>, off: int, end: int, j: int)
    requires
        entries_ok(s, off, end),
        0 <= j < madt_overrides(s, off, end).len(),
    ensures
        exists|p: int|
            #![trigger entry_ok(s, p)]
            off <= p < end && entry_ok(s, p) && s[p] == 2 && {
                let o = madt_overrides(s, off, end)[j];
                &&& o.bus_source == s[p + 2]
                &&& o.irq_source == s[p + 3]
                &&& o.gsi == le_u32(s, p + 4) as u32
                &&& o.flags == le_u16(s, p + 8) as u16
            },
    decreases end - off,
{
    let next = off + s[off + 1];
    let own = if s[off] == 2 { 1int } else { 0int };
    if j < own {
        assert(madt_overrides(s, off, end)[j] == madt_overrides(s, off, end)[0]);
        assert(entry_ok(s, off));
    } else {
        assert(next < end);
        assert(madt_overrides(s, off, end)[j] == madt_overrides(s, next, end)[j - own]);
        law_madt_override_fields(s, next, end, j - own);
        let p = choose|p: int|
            #![trigger entry_ok(s, p)]
            next <= p < end && entry_ok(s, p) && s[p] == 2 && {
                let o = madt_overrides(s, next, end)[j - own];
                &&& o.bus_source == s[p + 2]
                &&& o.irq_source == s[p + 3]
                &&& o.gsi == le_u32(s, p + 4) as u32
                &&& o.flags == le_u16(s, p + 8) as u16
            };
        assert(entry_ok(s, p));
    }
}

/// A legacy IRQ with an override on bus 0 is sent to the override's
/// interrupt: where override `j` is the last of bus 0 for IRQ `src`, the
/// IRQ's entry has vector 0x30 plus that override's global system
/// interrupt, and its polarity is low exactly when the override's flags
/// have bit 1 set.
pub proof fn law_ioapic_override_routes(ovs: Seq<InterruptSourceOverride>, src: u8, cpu: u8, j: int)
    requires
        overrides_fit(ovs),
        src < LEGACY_IRQ_COUNT,
        0 <= j < ovs.len(),
        ovs[j].bus_source == 0,
        ovs[j].irq_source == src,
        forall|k: int| j < k < ovs.len() ==> !(ovs[k].bus_source == 0 && ovs[k].irq_source == src),
    ensures
        legacy_entry(ovs, src, cpu).vector == IRQ_VECTOR_BASE + ovs[j].gsi % 256,
        legacy_entry(ovs, src, cpu).flags.0 == (if ovs[j].flags & 2 != 0 { 64u8 } else { 0u8 }),
        legacy_entry(ovs, src, cpu).destination == cpu,
        !legacy_entry(ovs, src, cpu).masked,
{
    lemma_route_last_override(ovs, src, j, ovs.len());
}

/// A legacy IRQ without an override on bus 0 keeps its own number: its
/// entry has vector 0x30 plus the IRQ, high polarity.
pub proof fn law_ioapic_no_override(ovs: Seq<InterruptSourceOverride>, src: u8, cpu: u8)
    requires
        src < LEGACY_IRQ_COUNT,
        forall|k: int| 0 <= k < ovs.len() ==> !(ovs[k].bus_source == 0 && ovs[k].irq_source == src),
    ensures
        legacy_entry(ovs, src, cpu).vector == IRQ_VECTOR_BASE + src,
        legacy_entry(ovs, src, cpu).flags.0 == 0,
        legacy_entry(ovs, src, cpu).destination == cpu,
{
    lemma_route_no_override(ovs, src, ovs.len());
}

proof fn lemma_route_last_override(ovs: Seq<InterruptSourceOverride>, src: u8, j: int, n: nat)
    requires
        0 <= j < n <= ovs.len(),
        ovs[j].bus_source == 0,
        ovs[j].irq_source == src,
        forall|k: int| j < k < n ==> !(ovs[k].bus_source == 0 && ovs[k].irq_source == src),
    ensures
        irq_route(ovs, src, n) == ((ovs[j].gsi % 256) as u8, ovs[j].flags & 2 != 0, ovs[j].flags & 8 != 0),
    decreases n,
{
    if n - 1 > j {
        lemma_route_last_override(ovs, src, j, (n - 1) as nat);
    }
}

proof fn lemma_route_no_override(ovs: Seq<InterruptSourceOverride>, src: u8, n: nat)
    requires
        n <= ovs.len(),
        forall|k: int| 0 <= k < n ==> !(ovs[k].bus_source == 0 && ovs[k].irq_source == src),
    ensures
        irq_route(ovs, src, n) == (src, false, false),
    decreases n,
{
    if n > 0 {
        lemma_route_no_override(ovs, src, (n - 1) as nat);
    }
}

/// The next packet starts right after the current one: past the packet's
/// `length` bytes and its four header bytes, rounded up to a multiple of
/// four, taken round the ring; where that does not reach the ring's end,
/// it lies strictly after the current packet's last byte and less than
/// four bytes beyond it.
pub proof fn law_rx_offset_follows_packet(off: int, length: int)
    requires
        0 <= off < RX_BUFFER_SIZE,
        0 <= length < 0x600,
    ensures
        next_rx_offset(off, length) == ((off + length + 4 + 3) / 4 * 4) % (RX_BUFFER_SIZE as int),
        off + length + 4 <= RX_BUFFER_SIZE - 4 ==> {
            &&& off + length + 4 <= next_rx_offset(off, length) < off + length + 8
            &&& next_rx_offset(off, length) > off
        },
{
    let x = (off + length + 4 + 3) as u16;
    assert(x as int == off + length + 7);
    let y = x & !3u16;
    assert(y == x - x % 4) by (bit_vector)
        requires
            y == x & !3u16,
    ;
    assert(x - x % 4 == (off + length + 7) / 4 * 4);
}

} // verus!
