//! Network cards as the kernel sees them: received packets and the
//! operations a card driver offers.

use vstd::prelude::*;
use vstd::string::*;
use crate::filesystem::event_queue::{woken, EventQueue};
use crate::filesystem::types::ExplicitEventId;

verus! {

/// A received network packet.
#[derive(Debug, Clone)]
pub struct Packet(pub Vec<u8>);

/// The lower-case hexadecimal digit of `n`.
pub open spec fn hex_char(n: u8) -> char {
    if n < 10 {
        (('0' as u8) + n) as char
    } else {
        (('a' as u8) + n - 10) as char
    }
}

/// A MAC address as six two-digit lower-case hexadecimal bytes separated
/// by colons.
pub open spec fn mac_text(mac: Seq<u8>) -> Seq<char> {
    Seq::new(17, |i: int| if i % 3 == 2 {
        ':'
    } else if i % 3 == 0 {
        hex_char(mac[i / 3] / 16)
    } else {
        hex_char(mac[i / 3] % 16)
    })
}

/// The digit of `n` as a string.
fn hex_digit(n: u8) -> (r: &'static str)
    requires
        n < 16,
    ensures
        r@ == seq![hex_char(n)],
{
    proof {
        reveal_strlit("0");
        reveal_strlit("1");
        reveal_strlit("2");
        reveal_strlit("3");
        reveal_strlit("4");
        reveal_strlit("5");
        reveal_strlit("6");
        reveal_strlit("7");
        reveal_strlit("8");
        reveal_strlit("9");
        reveal_strlit("a");
        reveal_strlit("b");
        reveal_strlit("c");
        reveal_strlit("d");
        reveal_strlit("e");
        reveal_strlit("f");
    }
    match n {
        0 => "0",
        1 => "1",
        2 => "2",
        3 => "3",
        4 => "4",
        5 => "5",
        6 => "6",
        7 => "7",
        8 => "8",
        9 => "9",
        10 => "a",
        11 => "b",
        12 => "c",
        13 => "d",
        14 => "e",
        15 => "f",
        _ => "f",
    }
}

/// The usual text of a MAC address, such as `52:54:00:12:34:56`.
pub fn mac_addr_string(mac: [u8; 6]) -> (r: String)
    ensures
        r@ == mac_text(mac@),
{
    let mut result = String::new();
    let mut i: usize = 0;
    while i < 6
        invariant
            i <= 6,
            i < 6 ==> result@.len() == 3 * i,
            i == 6 ==> result@.len() == 17,
            forall|j: int| 0 <= j < result@.len() ==> result@[j] == mac_text(mac@)[j],
        decreases 6 - i,
    {
        let ghost before = result@;
        result.append(hex_digit(mac[i] / 16));
        result.append(hex_digit(mac[i] % 16));
        if i != 5 {
            proof {
                reveal_strlit(":");
            }
            result.append(":");
        }
        proof {
            assert forall|j: int| 0 <= j < result@.len() implies result@[j] == mac_text(mac@)[j] by {
                if j >= before.len() {
                    assert(j / 3 == i as int);
                }
            }
        }
        i = i + 1;
    }
    proof {
        assert(result@ =~= mac_text(mac@));
    }
    result
}

/// A network card driver.
pub trait NIC {
    /// Returns success status
    fn init(&mut self) -> bool;

    fn send(&mut self, packet: &[u8]);

    /// Notification about IRQ
    fn notify_irq(&mut self) -> Vec<Packet> {
        Vec::new()
    }

    /// The card's MAC address. Each driver defines it.
    closed spec fn spec_mac_addr(&self) -> [u8; 6] {
        arbitrary()
    }

    fn mac_addr(&self) -> (r: [u8; 6])
        ensures
            r == self.spec_mac_addr(),
    ;

    /// The usual text of the card's MAC address.
    fn mac_addr_string(&self) -> (r: String)
        default_ensures
            r@ == mac_text(self.spec_mac_addr()@),
    {
        mac_addr_string(self.mac_addr())
    }
}

/// A packet with the time it was received.
pub struct ReceivedPacket {
    pub packet: Vec<u8>,
    pub timestamp: u64,
}

/// The bytes and time of each received packet.
pub open spec fn received_view(s: Seq<ReceivedPacket>) -> Seq<(Seq<u8>, u64)> {
    s.map_values(|p: ReceivedPacket| (p.packet@, p.timestamp))
}

/// The packets `s`, each with the time `t`.
pub open spec fn arrived_at(s: Seq<Packet>, t: u64) -> Seq<(Seq<u8>, u64)> {
    s.map_values(|p: Packet| (p.0@, t))
}

/// The queue `q1` is `q0` with `packets` queued in order, received at
/// `timestamp`, and `woke` the events of the readers that woke: the one
/// that slept on the queue, where any packet came.
pub open spec fn irq_received(
    q0: EventQueue<ReceivedPacket>,
    q1: EventQueue<ReceivedPacket>,
    packets: Seq<Packet>,
    timestamp: u64,
    woke: Seq<ExplicitEventId>,
) -> bool {
    &&& received_view(q1.items()) == received_view(q0.items()) + arrived_at(packets, timestamp)
    &&& packets.len() == 0 ==> woke.len() == 0 && q1.waiting() == q0.waiting()
    &&& packets.len() > 0 ==> woke == woken(q0.waiting()) && q1.waiting() is None
}

/// The network card in use, if any, and the packets received from it.
pub struct NetworkController<N: NIC> {
    /// The actual device driver
    pub driver: Option<N>,
    /// Received network packets
    pub received_queue: EventQueue<ReceivedPacket>,
}

impl<N: NIC> NetworkController<N> {
    pub fn new() -> (r: Self)
        ensures
            r.driver is None,
            r.received_queue.items().len() == 0,
            r.received_queue.waiting() is None,
    {
        NetworkController { driver: None, received_queue: EventQueue::new() }
    }

    /// Installs the card driver that was found, if any, and initializes
    /// it: false where its initialization failed, which stops the kernel.
    pub fn init(&mut self, found: Option<N>) -> (ok: bool)
        ensures
            final(self).driver is Some == found is Some,
            found is None ==> ok,
            final(self).received_queue == old(self).received_queue,
    {
        self.driver = found;
        match &mut self.driver {
            Some(driver) => driver.init(),
            None => true,
        }
    }

    /// Queues a received packet: the event of a reader it wakes.
    fn on_receive_packet(&mut self, packet: ReceivedPacket) -> (r: Option<ExplicitEventId>)
        ensures
            final(self).received_queue.items() == old(self).received_queue.items().push(packet),
            final(self).received_queue.waiting() is None,
            r == old(self).received_queue.waiting(),
            final(self).driver == old(self).driver,
    {
        self.received_queue.push(packet)
    }

    /// Queues `packets`, received at `timestamp`, in their order: the
    /// events of the readers they wake.
    pub fn receive_packets(&mut self, packets: Vec<Packet>, timestamp: u64) -> (r: Vec<ExplicitEventId>)
        ensures
            received_view(final(self).received_queue.items()) == received_view(old(self).received_queue.items())
                + arrived_at(packets@, timestamp),
            packets@.len() == 0 ==> r@.len() == 0 && final(self).received_queue.waiting()
                == old(self).received_queue.waiting(),
            packets@.len() > 0 ==> r@ == woken(old(self).received_queue.waiting())
                && final(self).received_queue.waiting() is None,
            final(self).driver == old(self).driver,
    {
        let mut packets = packets;
        let ghost all = packets@;
        let _len = packets.len();
        let mut woke: Vec<ExplicitEventId> = Vec::new();
        let mut i: usize = 0;
        while packets.len() > 0
            invariant
                i + packets@.len() == all.len(),
                all.len() <= usize::MAX,
                packets@ == all.skip(i as int),
                received_view(self.received_queue.items()) == received_view(old(self).received_queue.items())
                    + arrived_at(all.take(i as int), timestamp),
                i == 0 ==> woke@.len() == 0 && self.received_queue.waiting() == old(self).received_queue.waiting(),
                i > 0 ==> woke@ == woken(old(self).received_queue.waiting()) && self.received_queue.waiting() is None,
                self.driver == old(self).driver,
            decreases packets@.len(),
        {
            let ghost before = self.received_queue.items();
            let p = packets.remove(0);
            let woken_now = self.on_receive_packet(ReceivedPacket { packet: p.0, timestamp });
            match woken_now {
                Some(e) => woke.push(e),
                None => {},
            }
            proof {
                assert(all.take(i + 1) =~= all.take(i as int).push(all[i as int]));
                assert(received_view(before.push(ReceivedPacket { packet: all[i as int].0, timestamp }))
                    =~= received_view(before).push((all[i as int].0@, timestamp)));
                assert(arrived_at(all.take(i + 1), timestamp) =~= arrived_at(all.take(i as int), timestamp).push(
                    (all[i as int].0@, timestamp),
                ));
                assert(packets@ =~= all.skip(i + 1));
            }
            i = i + 1;
        }
        proof {
            assert(all.take(i as int) =~= all);
        }
        woke
    }

    /// A driver can make the interrupt handler to call this function: the
    /// packets the card hands over are queued, received at `timestamp`.
    pub fn notify_irq(&mut self, timestamp: u64) -> (r: Vec<ExplicitEventId>)
        ensures
            final(self).driver is Some == old(self).driver is Some,
            old(self).driver is None ==> r@.len() == 0 && final(self).received_queue == old(self).received_queue,
            old(self).driver is Some ==> exists|packets: Seq<Packet>| irq_received(
                old(self).received_queue,
                final(self).received_queue,
                packets,
                timestamp,
                r@,
            ),
    {
        let packets = match &mut self.driver {
            Some(driver) => driver.notify_irq(),
            None => return Vec::new(),
        };
        let ghost handed = packets@;
        let ghost q0 = self.received_queue;
        let r = self.receive_packets(packets, timestamp);
        proof {
            assert(irq_received(q0, self.received_queue, handed, timestamp, r@));
        }
        r
    }
}

} // verus!
