//! The port dispatch table: a fixed set of port-bound queues, the
//! receive-path delivery that routes parsed UDP frames into them, and the
//! process-facing bind and receive logic.
//!
//! Blocking belongs to the host kernel's lock-and-sleep primitive and so
//! stays outside the library: `sys_recv_impl` reports `WouldBlock` when
//! the queue is empty, and the caller sleeps on the port's wait channel
//! and retries after `ip_receive` reports that a packet was queued for
//! that port. The decision logic on both sides is verified here, so a
//! frame queued between the emptiness check and the retry is never
//! missed: once `ip_receive` returns `Queued`, the next `sys_recv_impl`
//! on that port returns the packet.

use vstd::prelude::*;

use crate::packet::{
    be16,
    be32,
    frame_parseable,
    ETH_HLEN,
    HDRS_LEN,
    IP_HLEN,
    PacketView,
    UDP_HLEN,
};
use crate::page::{HostOwned, KernelBuffer};
use crate::ring::{PushError, RingBuffer};

verus! {

/// Number of packets each port queue can hold.
pub const SOCK_QUEUE_SIZE: usize = 16;

/// Number of slots in the port dispatch table.
pub const NUM_QUEUES: usize = 10;

/// Why an inbound frame was refused by the receive path.
pub enum IpRecieveError {
    InvalidPacket,
}

/// An inbound datagram queued for a port.
pub struct Packet {
    /// Source UDP port, host order.
    pub source_port: u16,
    /// The host-owned buffer holding the full frame.
    pub buffer: KernelBuffer<HostOwned>,
}

/// Validity of a queued packet: a sound buffer holding a parseable frame
/// whose UDP source port is the one recorded.
pub open spec fn packet_wf(p: Packet) -> bool {
    &&& p.buffer.wf()
    &&& frame_parseable(p.buffer@)
    &&& p.source_port == be16(p.buffer@, ETH_HLEN + IP_HLEN)
}

/// One dispatch slot: a bound port, an in-use flag, and the FIFO ring of
/// packets delivered to the port.
pub struct Queue {
    /// The packets waiting to be received.
    pub ring: RingBuffer<Packet>,
    /// The port this slot is bound to; meaningful once `used`.
    pub port: u16,
    /// Whether the slot has been handed out by a bind.
    pub used: bool,
}

impl Queue {
    /// The port this slot is bound to; meaningful once `used`.
    pub open spec fn spec_port(self) -> u16 {
        self.port
    }

    /// Whether the slot has been handed out by a bind.
    pub open spec fn spec_used(self) -> bool {
        self.used
    }

    /// Validity: the ring is sound, sized at the fixed per-port depth,
    /// and holds only valid packets.
    pub open spec fn wf(self) -> bool {
        &&& self.ring.wf()
        &&& self.ring.spec_capacity() == SOCK_QUEUE_SIZE
        &&& forall|k: int| 0 <= k < self.ring@.len() ==> packet_wf(#[trigger] self.ring@[k])
    }

    /// Make an unbound, empty slot.
    pub fn new() -> (r: Self)
        ensures
            r.wf(),
            !r.spec_used(),
            r.spec_port() == 0,
            r.ring@ == Seq::<Packet>::empty(),
            r.ring.spec_dropped() == 0,
    {
        proof {
            assert(16usize != 0 && 16usize & 15usize == 0) by (bit_vector);
        }
        Queue { port: 0, ring: RingBuffer::new(SOCK_QUEUE_SIZE), used: false }
    }
}

/// The first slot at or after `i` that is in use and bound to `port`.
/// A slot that no bind has handed out is never a match, whatever its
/// port field holds.
pub open spec fn find_port_from(qs: Seq<Queue>, port: u16, i: int) -> Option<int>
    decreases qs.len() - i,
{
    if 0 <= i < qs.len() {
        if qs[i].spec_used() && qs[i].spec_port() == port {
            Some(i)
        } else {
            find_port_from(qs, port, i + 1)
        }
    } else {
        None
    }
}

/// The first slot at or after `i` not yet in use.
pub open spec fn find_unused_from(qs: Seq<Queue>, i: int) -> Option<int>
    decreases qs.len() - i,
{
    if 0 <= i < qs.len() {
        if !qs[i].spec_used() {
            Some(i)
        } else {
            find_unused_from(qs, i + 1)
        }
    } else {
        None
    }
}

/// The process-wide table of port-bound queues.
pub struct PortTable {
    queues: Vec<Queue>,
}

impl PortTable {
    /// The slots.
    pub closed spec fn spec_queues(self) -> Seq<Queue> {
        self.queues@
    }

    /// The slot bound to `port`, by a scan comparing bound ports.
    pub open spec fn spec_find(self, port: u16) -> Option<int> {
        find_port_from(self.spec_queues(), port, 0)
    }

    /// Validity: exactly the fixed number of slots, each valid.
    pub open spec fn wf(self) -> bool {
        &&& self.spec_queues().len() == NUM_QUEUES
        &&& forall|i: int| 0 <= i < NUM_QUEUES ==> (#[trigger] self.spec_queues()[i]).wf()
    }

    /// Make the table: the fixed number of unbound, empty slots.
    pub fn new() -> (r: Self)
        ensures
            r.wf(),
            forall|i: int|
                0 <= i < NUM_QUEUES ==> {
                    &&& !(#[trigger] r.spec_queues()[i]).spec_used()
                    &&& r.spec_queues()[i].spec_port() == 0
                    &&& r.spec_queues()[i].ring@ == Seq::<Packet>::empty()
                    &&& r.spec_queues()[i].ring.spec_dropped() == 0
                },
    {
        let mut queues: Vec<Queue> = Vec::new();
        let mut i: usize = 0;
        while i < NUM_QUEUES
            invariant
                i <= NUM_QUEUES,
                queues@.len() == i,
                forall|j: int|
                    0 <= j < i ==> {
                        &&& (#[trigger] queues@[j]).wf()
                        &&& !queues@[j].spec_used()
                        &&& queues@[j].spec_port() == 0
                        &&& queues@[j].ring@ == Seq::<Packet>::empty()
                        &&& queues@[j].ring.spec_dropped() == 0
                    },
            decreases NUM_QUEUES - i,
        {
            queues.push(Queue::new());
            i = i + 1;
        }
        PortTable { queues }
    }
}

impl PortTable {
    /// How many packets wait on slot `i`.
    pub fn queue_len(&self, i: usize) -> (r: usize)
        requires
            self.wf(),
            0 <= i < NUM_QUEUES,
        ensures
            r == self.spec_queues()[i as int].ring@.len(),
    {
        self.queues[i].ring.len()
    }

    /// How many deliveries slot `i` has dropped because its queue was full.
    pub fn queue_dropped(&self, i: usize) -> (r: usize)
        requires
            self.wf(),
            0 <= i < NUM_QUEUES,
        ensures
            r == self.spec_queues()[i as int].ring.spec_dropped(),
    {
        self.queues[i].ring.dropped_count()
    }
}

/// Find the slot bound to `dest_port`: a linear scan comparing each
/// in-use slot's bound port, acceptable at the small fixed table size.
pub fn find_queue(table: &PortTable, dest_port: u16) -> (r: Option<usize>)
    requires
        table.wf(),
    ensures
        r is Some <==> table.spec_find(dest_port) is Some,
        r is Some ==> {
            &&& 0 <= r->0 < NUM_QUEUES
            &&& table.spec_find(dest_port) == Some(r->0 as int)
            &&& table.spec_queues()[r->0 as int].spec_used()
            &&& table.spec_queues()[r->0 as int].spec_port() == dest_port
        },
        r is None ==> forall|i: int|
            0 <= i < NUM_QUEUES ==> !((#[trigger] table.spec_queues()[i]).spec_used()
                && table.spec_queues()[i].spec_port() == dest_port),
{
    let ghost qs = table.spec_queues();
    let mut i: usize = 0;
    while i < NUM_QUEUES
        invariant
            table.wf(),
            qs == table.spec_queues(),
            i <= NUM_QUEUES,
            find_port_from(qs, dest_port, 0) == find_port_from(qs, dest_port, i as int),
            forall|j: int|
                0 <= j < i ==> !((#[trigger] qs[j]).spec_used() && qs[j].spec_port() == dest_port),
        decreases NUM_QUEUES - i,
    {
        if table.queues[i].used && table.queues[i].port == dest_port {
            return Some(i);
        }
        i = i + 1;
    }
    None
}

/// Bind `dest_port` to the first unused slot. A fully used table is a
/// resource-exhaustion condition: it is reported as `None` with the
/// table left unchanged, so a caller may treat it as fatal, as a kernel
/// would, or recover.
pub fn alloc_queue(table: &mut PortTable, dest_port: u16) -> (r: Option<usize>)
    requires
        old(table).wf(),
    ensures
        final(table).wf(),
        r is Some <==> find_unused_from(old(table).spec_queues(), 0) is Some,
        r is None ==> *final(table) == *old(table),
        r is Some ==> ({
            let i = r->0 as int;
            &&& find_unused_from(old(table).spec_queues(), 0) == Some(i)
            &&& 0 <= i < NUM_QUEUES
            &&& !old(table).spec_queues()[i].spec_used()
            &&& final(table).spec_queues()[i].spec_used()
            &&& final(table).spec_queues()[i].spec_port() == dest_port
            &&& final(table).spec_queues()[i].ring == old(table).spec_queues()[i].ring
            &&& forall|j: int|
                0 <= j < NUM_QUEUES && j != i ==> final(table).spec_queues()[j] == old(
                    table,
                ).spec_queues()[j]
        }),
{
    let ghost qs = old(table).spec_queues();
    let mut i: usize = 0;
    while i < NUM_QUEUES
        invariant
            table.wf(),
            *table == *old(table),
            qs == table.spec_queues(),
            i <= NUM_QUEUES,
            find_unused_from(qs, 0) == find_unused_from(qs, i as int),
            forall|j: int| 0 <= j < i ==> (#[trigger] qs[j]).spec_used(),
        decreases NUM_QUEUES - i,
    {
        if !table.queues[i].used {
            table.queues[i].port = dest_port;
            table.queues[i].used = true;
            return Some(i);
        }
        i = i + 1;
    }
    None
}

/// How `post` relates to `pre` when one parseable frame `buffer` was
/// delivered with outcome `d`: an unbound destination changes nothing; a
/// full queue only gains a dropped count; otherwise the queue bound to
/// the frame's destination port gains one packet carrying the frame and
/// its source port, and every other slot is untouched.
pub open spec fn delivered(
    pre: PortTable,
    post: PortTable,
    buffer: KernelBuffer<HostOwned>,
    d: Delivery,
) -> bool {
    let dport = be16(buffer@, ETH_HLEN + IP_HLEN + 2);
    let sport = be16(buffer@, ETH_HLEN + IP_HLEN);
    match pre.spec_find(dport as u16) {
        Option::None => {
            &&& d == (Delivery::Unbound { buffer })
            &&& post == pre
        },
        Option::Some(i) => {
            let q = pre.spec_queues()[i];
            if q.ring@.len() == SOCK_QUEUE_SIZE {
                &&& d == (Delivery::QueueFull { buffer })
                &&& post.spec_queues()[i].ring@ == q.ring@
                &&& post.spec_queues()[i].ring.spec_dropped() == (if q.ring.spec_dropped()
                    < usize::MAX {
                    q.ring.spec_dropped() + 1
                } else {
                    q.ring.spec_dropped()
                })
                &&& post.spec_queues()[i].port == q.port
                &&& post.spec_queues()[i].used == q.used
                &&& forall|j: int|
                    0 <= j < NUM_QUEUES && j != i ==> post.spec_queues()[j] == pre.spec_queues()[j]
            } else {
                &&& d == Delivery::Queued { dest_port: dport as u16 }
                &&& post.spec_queues()[i].ring@ == q.ring@.push(
                    Packet { source_port: sport as u16, buffer },
                )
                &&& post.spec_queues()[i].ring.spec_dropped() == q.ring.spec_dropped()
                &&& post.spec_queues()[i].port == q.port
                &&& post.spec_queues()[i].used == q.used
                &&& forall|j: int|
                    0 <= j < NUM_QUEUES && j != i ==> post.spec_queues()[j] == pre.spec_queues()[j]
            }
        },
    }
}

/// What became of one delivered frame.
#[derive(Debug)]
pub enum Delivery {
    /// The packet was queued on the port's ring; any consumer sleeping on
    /// that port's wait channel must now be woken.
    Queued {
        /// The destination port whose sleepers to wake.
        dest_port: u16,
    },
    /// The port's queue was full: the delivery was refused and the
    /// refusal counted on that queue; no one is notified, and the frame's
    /// buffer comes back for the caller to free.
    QueueFull {
        /// The refused frame, handed back for freeing.
        buffer: KernelBuffer<HostOwned>,
    },
    /// No slot is bound to the destination port: unbound traffic is
    /// expected and discarded without a trace, its buffer handed back
    /// for the caller to free.
    Unbound {
        /// The discarded frame, handed back for freeing.
        buffer: KernelBuffer<HostOwned>,
    },
}

/// Deliver one parseable inbound frame: parse its UDP header, find the
/// queue bound to the destination port, and append a packet carrying the
/// source port and the frame. An unbound destination discards the frame
/// and changes nothing; a full queue discards it and only bumps that
/// queue's dropped count. The error result is never produced: a frame
/// admitted by the precondition cannot be refused, as the contract
/// states.
pub fn ip_receive(table: &mut PortTable, buffer: KernelBuffer<HostOwned>) -> (r: Result<
    Delivery,
    IpRecieveError,
>)
    requires
        old(table).wf(),
        buffer.wf(),
        frame_parseable(buffer@),
    ensures
        final(table).wf(),
        r is Ok,
        delivered(*old(table), *final(table), buffer, r->Ok_0),
{
    let (sport, dport) = ({
        let pv = PacketView::from_kernel_buffer(&buffer);
        let u = pv.udp();
        (u.sport, u.dport)
    });

    let found = find_queue(table, dport);
    match found {
        None => Ok(Delivery::Unbound { buffer }),
        Some(i) => {
            if table.queues[i].ring.is_full() {
                table.queues[i].ring.count_dropped();
                return Ok(Delivery::QueueFull { buffer });
            }
            let packet = Packet { source_port: sport, buffer };
            match table.queues[i].ring.push(packet) {
                Err(PushError::RingIsFull) => {
                    proof {
                        assert(false);
                    }
                    Ok(Delivery::QueueFull {
                        buffer: KernelBuffer::new(crate::page::Page::new(0), Vec::new()),
                    })
                },
                Ok(()) => Ok(Delivery::Queued { dest_port: dport }),
            }
        },
    }
}

/// The receive-path entry for one harvested frame: the step between the
/// driver and the port table. A frame too short for its headers, or
/// shorter than its UDP length field declares, is refused up front and
/// handed back untouched, so a caller may treat it as fatal or recover;
/// a parseable frame is delivered as `ip_receive` does.
pub fn net_rx(table: &mut PortTable, buffer: KernelBuffer<HostOwned>) -> (r: Result<
    Delivery,
    KernelBuffer<HostOwned>,
>)
    requires
        old(table).wf(),
        buffer.wf(),
    ensures
        final(table).wf(),
        r is Err <==> !frame_parseable(buffer@),
        r is Err ==> r->Err_0 == buffer && *final(table) == *old(table),
        r is Ok ==> delivered(*old(table), *final(table), buffer, r->Ok_0),
{
    let ok = ({
        let pv = PacketView::from_kernel_buffer(&buffer);
        pv.frame_ok()
    });
    if !ok {
        return Err(buffer);
    }
    match ip_receive(table, buffer) {
        Ok(d) => Ok(d),
        Err(_) => {
            proof {
                assert(false);
            }
            Err(KernelBuffer::new(crate::page::Page::new(0), Vec::new()))
        },
    }
}

/// Why a receive attempt returned no data.
#[derive(Debug, PartialEq, Eq)]
pub enum RecvError {
    /// No slot is bound to the port: a caller-input fault; a caller may
    /// treat it as fatal, as a kernel would, or recover.
    NotBound,
    /// The port's queue is empty. The caller must sleep on the port's
    /// wait channel, atomically with releasing the queue, and retry after
    /// a wakeup; the sleep itself belongs to the host kernel.
    WouldBlock,
}

/// What one successful receive hands to the caller, for the external
/// user-memory copy routine to write out.
#[derive(Debug)]
pub struct RecvData {
    /// Source IP address of the packet, host order.
    pub source_addr: u32,
    /// Source UDP port of the packet, host order.
    pub source_port: u16,
    /// The payload bytes, clamped to the caller's limit; their count is
    /// the bytes-copied result of the receive call.
    pub payload: Vec<u8>,
    /// The spent frame's buffer, handed back for the caller to free once
    /// the copy-out is done.
    pub buffer: KernelBuffer<HostOwned>,
}

/// One attempt of the blocking receive: take the oldest packet queued for
/// `dport` and hand back its source address, source port and payload
/// clamped to `maxlen` bytes. An unbound port is refused; an empty queue
/// asks the caller to block and retry, leaving the table untouched, so a
/// packet queued meanwhile is found by the retry.
pub fn sys_recv_impl(table: &mut PortTable, dport: u16, maxlen: u32) -> (r: Result<
    RecvData,
    RecvError,
>)
    requires
        old(table).wf(),
    ensures
        final(table).wf(),
        r == Err::<RecvData, RecvError>(RecvError::NotBound) <==> old(table).spec_find(
            dport,
        ) is None,
        r == Err::<RecvData, RecvError>(RecvError::WouldBlock) <==> (old(table).spec_find(
            dport,
        ) is Some && old(table).spec_queues()[old(table).spec_find(dport)->0].ring@.len() == 0),
        r is Err ==> *final(table) == *old(table),
        r is Ok ==> ({
            let i = old(table).spec_find(dport)->0;
            let q = old(table).spec_queues()[i];
            let p = q.ring@[0];
            let plen = be16(p.buffer@, ETH_HLEN + IP_HLEN + 4) - UDP_HLEN;
            let m = if maxlen <= plen { maxlen as int } else { plen };
            &&& old(table).spec_find(dport) is Some
            &&& q.ring@.len() > 0
            &&& r->Ok_0.source_port == p.source_port
            &&& r->Ok_0.source_addr == be32(p.buffer@, ETH_HLEN + 12)
            &&& r->Ok_0.payload@ == p.buffer@.subrange(HDRS_LEN as int, HDRS_LEN + m)
            &&& r->Ok_0.buffer == p.buffer
            &&& final(table).spec_queues()[i].ring@ == q.ring@.subrange(1, q.ring@.len() as int)
            &&& final(table).spec_queues()[i].ring.spec_dropped() == q.ring.spec_dropped()
            &&& final(table).spec_queues()[i].port == q.port
            &&& final(table).spec_queues()[i].used == q.used
            &&& forall|j: int|
                0 <= j < NUM_QUEUES && j != i ==> final(table).spec_queues()[j] == old(
                    table,
                ).spec_queues()[j]
        }),
{
    let found = find_queue(table, dport);
    let i = match found {
        None => {
            return Err(RecvError::NotBound);
        },
        Some(i) => i,
    };

    if table.queues[i].ring.is_empty() {
        // A blocking caller sleeps here on the port's wait channel,
        // atomically releasing the queue, and retries on wakeup; that
        // loop runs around this call.
        return Err(RecvError::WouldBlock);
    }

    let popped = table.queues[i].ring.pop();
    let packet = popped.unwrap();

    let pv = PacketView::from_kernel_buffer(&packet.buffer);
    let ipsrc = pv.ip().ip_src;
    let plen_i32 = pv.udp_len();
    let plen = plen_i32 as u32;
    let m = if maxlen <= plen {
        maxlen as usize
    } else {
        plen as usize
    };

    let ps = pv.payload();
    let mut payload: Vec<u8> = Vec::new();
    let mut k: usize = 0;
    while k < m
        invariant
            k <= m,
            m <= ps@.len(),
            payload@.len() == k,
            forall|j: int| 0 <= j < k ==> payload@[j] == ps@[j],
        decreases m - k,
    {
        payload.push(ps[k]);
        k = k + 1;
    }
    proof {
        assert(payload@ =~= packet.buffer@.subrange(
            HDRS_LEN as int,
            HDRS_LEN + (if maxlen <= (be16(packet.buffer@, ETH_HLEN + IP_HLEN + 4) - UDP_HLEN) {
                maxlen as int
            } else {
                be16(packet.buffer@, ETH_HLEN + IP_HLEN + 4) - UDP_HLEN
            }),
        ));
    }

    Ok(RecvData {
        source_addr: ipsrc,
        source_port: packet.source_port,
        payload,
        buffer: packet.buffer,
    })
}

/// Two tables whose slots agree on the in-use flags and bound ports are
/// found by the same scan: `find_port_from` reads nothing else.
proof fn lemma_find_stable(qs1: Seq<Queue>, qs2: Seq<Queue>, port: u16, i: int)
    requires
        qs1.len() == qs2.len(),
        forall|j: int|
            0 <= j < qs1.len() ==> (#[trigger] qs1[j]).spec_port() == qs2[j].spec_port()
                && qs1[j].spec_used() == qs2[j].spec_used(),
    ensures
        find_port_from(qs1, port, i) == find_port_from(qs2, port, i),
    decreases qs1.len() - i,
{
    if 0 <= i < qs1.len() {
        lemma_find_stable(qs1, qs2, port, i + 1);
    }
}

/// Law: an inbound frame addressed to an unbound port causes no state
/// change anywhere: the table after the delivery is the table before it.
pub proof fn lemma_unbound_no_change(
    pre: PortTable,
    post: PortTable,
    buffer: KernelBuffer<HostOwned>,
    d: Delivery,
)
    requires
        delivered(pre, post, buffer, d),
        pre.spec_find((be16(buffer@, ETH_HLEN + IP_HLEN + 2)) as u16) is None,
    ensures
        d == (Delivery::Unbound { buffer }),
        post == pre,
{
}

/// Law: no delivery is lost between an emptiness check and its retry.
/// When a receive on `dport` would block (the port is bound, its queue
/// empty) and one frame for `dport` is then delivered and queued, the
/// next receive attempt finds exactly that frame at the front of the
/// queue: one delivery suffices to unblock the waiter.
pub proof fn lemma_delivery_wakes_waiter(
    pre: PortTable,
    post: PortTable,
    buffer: KernelBuffer<HostOwned>,
    d: Delivery,
    dport: u16,
)
    requires
        pre.wf(),
        post.wf(),
        delivered(pre, post, buffer, d),
        be16(buffer@, ETH_HLEN + IP_HLEN + 2) == dport,
        pre.spec_find(dport) is Some,
        pre.spec_queues()[pre.spec_find(dport)->0].ring@.len() == 0,
    ensures
        d == (Delivery::Queued { dest_port: dport }),
        post.spec_find(dport) == pre.spec_find(dport),
        post.spec_queues()[post.spec_find(dport)->0].ring@.len() == 1,
        post.spec_queues()[post.spec_find(dport)->0].ring@[0] == (Packet {
            source_port: (be16(buffer@, ETH_HLEN + IP_HLEN)) as u16,
            buffer,
        }),
{
    let i = pre.spec_find(dport)->0;
    lemma_find_range(pre.spec_queues(), dport, 0);
    assert forall|j: int|
        0 <= j < pre.spec_queues().len() implies (#[trigger] pre.spec_queues()[j]).spec_port()
        == post.spec_queues()[j].spec_port() && pre.spec_queues()[j].spec_used()
        == post.spec_queues()[j].spec_used() by {
        if j != i {
            assert(post.spec_queues()[j] == pre.spec_queues()[j]);
        }
    }
    lemma_find_stable(pre.spec_queues(), post.spec_queues(), dport, 0);
}

/// A found index lies in the scanned range.
proof fn lemma_find_range(qs: Seq<Queue>, port: u16, i: int)
    requires
        find_port_from(qs, port, i) is Some,
    ensures
        i <= find_port_from(qs, port, i)->0 < qs.len(),
    decreases qs.len() - i,
{
    if 0 <= i < qs.len() {
        if !(qs[i].spec_used() && qs[i].spec_port() == port) {
            lemma_find_range(qs, port, i + 1);
        }
    }
}

} // verus!
