//! The NIC descriptor-ring driver: transmit and receive rings, the tail
//! registers, and the buffer-ownership handoff with the device.
//!
//! Each ring is a power-of-two array of descriptors shared with the
//! hardware, plus the buffer handles currently parked in its slots. A slot
//! belongs to the device from the tail-register write that publishes it
//! until the device sets the descriptor's done bit; the driver only
//! touches slots it owns. The device's half of the protocol is modeled by
//! the `hw_tx_complete` and `hw_rx_deliver` transitions, so the driver is
//! verified against every order in which hardware can complete or deliver.

use vstd::arithmetic::div_mod::lemma_mod_multiples_vanish;
use vstd::arithmetic::div_mod::lemma_small_mod;
use vstd::prelude::*;

use crate::page::{DeviceOwned, HostOwned, KernelBuffer};

verus! {

/// Descriptor-done: the device has finished with the slot.
pub const E1000_TXD_STAT_DD: u8 = 0x01;

/// Command bit asking the device to report status when done.
pub const E1000_TXD_CMD_RS: u8 = 0x08;

/// Command bit marking the descriptor as the end of a packet.
pub const E1000_TXD_CMD_EOP: u8 = 0x01;

/// Receive-descriptor-done: the slot holds a delivered frame.
pub const E1000_RXD_STAT_DD: u8 = 0x01;

/// The delivered frame ends in this slot.
pub const E1000_RXD_STAT_EOP: u8 = 0x02;

/// The largest ring size the driver accepts; keeps every index well below
/// the 32-bit register range.
pub const MAX_RING_SIZE: usize = 0x4000_0000;

/// A transmit descriptor: one slot of the transmit ring as the hardware
/// sees it.
#[allow(non_camel_case_types)]
#[derive(Clone, Copy, Debug)]
pub struct tx_desc {
    /// DMA address of the buffer to send; zero when the slot never held one.
    pub addr: u64,
    /// Bytes to send from the buffer.
    pub length: u16,
    /// Command bits for the device.
    pub cmd: u8,
    /// Status bits written back by the device.
    pub status: u8,
}

impl tx_desc {
    /// Whether the device has set the done bit.
    pub open spec fn spec_done(self) -> bool {
        self.status & E1000_TXD_STAT_DD == E1000_TXD_STAT_DD
    }

    /// Read the done bit.
    pub fn is_done(&self) -> (r: bool)
        ensures
            r == self.spec_done(),
    {
        self.status & E1000_TXD_STAT_DD == E1000_TXD_STAT_DD
    }
}

/// A receive descriptor: one slot of the receive ring as the hardware
/// sees it.
#[allow(non_camel_case_types)]
#[derive(Clone, Copy, Debug)]
pub struct rx_desc {
    /// DMA address of the buffer the device writes into.
    pub addr: u64,
    /// Bytes of the delivered frame, written by the device.
    pub length: u16,
    /// Status bits written by the device.
    pub status: u8,
}

impl rx_desc {
    /// Whether the device has set the done bit.
    pub open spec fn spec_done(self) -> bool {
        self.status & E1000_RXD_STAT_DD == E1000_RXD_STAT_DD
    }

    /// Whether the frame ends in this slot.
    pub open spec fn spec_eop(self) -> bool {
        self.status & E1000_RXD_STAT_EOP == E1000_RXD_STAT_EOP
    }

    /// Read the done bit.
    pub fn is_done(&self) -> (r: bool)
        ensures
            r == self.spec_done(),
    {
        self.status & E1000_RXD_STAT_DD == E1000_RXD_STAT_DD
    }
}

/// The software-written NIC registers, by name.
#[derive(Clone, Copy, Debug)]
pub enum Registers {
    /// Transmit tail: the next transmit slot software will fill.
    TDT,
    /// Receive tail: the last receive slot software handed to the device.
    RDT,
}

/// The NIC register file. The head registers belong to the device: it
/// advances them as it consumes transmit slots and fills receive slots.
#[derive(Clone, Copy, Debug)]
pub struct RegisterFile {
    /// Transmit tail, written by software.
    pub tdt: u32,
    /// Receive tail, written by software.
    pub rdt: u32,
    /// Transmit head, advanced by the device.
    pub tdh: u32,
    /// Receive head, advanced by the device.
    pub rdh: u32,
}

impl RegisterFile {
    /// Read a software-visible tail register.
    pub fn get_register(&self, r: Registers) -> (v: u32)
        ensures
            v == match r {
                Registers::TDT => self.tdt,
                Registers::RDT => self.rdt,
            },
    {
        match r {
            Registers::TDT => self.tdt,
            Registers::RDT => self.rdt,
        }
    }

    /// Write a tail register. This is the doorbell: the single point at
    /// which the slots up to the new tail pass to the device.
    pub fn set_register(&mut self, r: Registers, v: u32)
        ensures
            final(self).tdt == if r is TDT { v } else { old(self).tdt },
            final(self).rdt == if r is RDT { v } else { old(self).rdt },
            final(self).tdh == old(self).tdh,
            final(self).rdh == old(self).rdh,
    {
        match r {
            Registers::TDT => self.tdt = v,
            Registers::RDT => self.rdt = v,
        }
    }
}

/// Wrap of a near index into a ring of `n` slots: the value of `i % n`
/// when `i` is below `2 * n`.
pub open spec fn wrap_idx(n: int, i: int) -> int {
    if i < n {
        i
    } else {
        i - n
    }
}

/// For an index below twice the ring size, reduction modulo the size is
/// one conditional subtraction.
pub proof fn lemma_wrap_mod(n: int, i: int)
    requires
        n > 0,
        0 <= i < 2 * n,
    ensures
        i % n == wrap_idx(n, i),
{
    if i < n {
        lemma_small_mod(i as nat, n as nat);
    } else {
        lemma_mod_multiples_vanish(1, i - n, n);
        lemma_small_mod((i - n) as nat, n as nat);
    }
}

/// The transmit ring: the descriptor array shared with the device, and the
/// device-owned buffer handles parked in its slots. A parked buffer stays
/// in its slot until `transmit` recycles the slot and hands the buffer
/// back for freeing.
pub struct TxRing {
    descs: Vec<tx_desc>,
    bufs: Vec<Option<KernelBuffer<DeviceOwned>>>,
}

impl TxRing {
    /// The descriptor array.
    pub closed spec fn spec_descs(self) -> Seq<tx_desc> {
        self.descs@
    }

    /// The parked buffer handles, slot by slot.
    pub closed spec fn spec_bufs(self) -> Seq<Option<KernelBuffer<DeviceOwned>>> {
        self.bufs@
    }

    /// Number of slots.
    pub open spec fn spec_size(self) -> int {
        self.spec_descs().len() as int
    }

    /// Structural validity: a power-of-two slot count, one parked-buffer
    /// slot per descriptor, and descriptor fields that match the parked
    /// buffer: a slot holds a buffer exactly when its address is non-null.
    pub closed spec fn wf(self) -> bool {
        &&& crate::ring::is_pow2(self.descs.len())
        &&& self.descs.len() <= MAX_RING_SIZE
        &&& self.bufs@.len() == self.descs@.len()
        &&& forall|i: int|
            0 <= i < self.descs@.len() ==> {
                &&& (#[trigger] self.bufs@[i]) is Some <==> self.descs@[i].addr != 0
                &&& self.bufs@[i] is Some ==> {
                    &&& self.bufs@[i]->0.wf()
                    &&& self.bufs@[i]->0.spec_addr() == self.descs@[i].addr
                    &&& self.bufs@[i]->0.spec_addr() != 0
                    &&& self.bufs@[i]->0@.len() == self.descs@[i].length
                }
            }
    }

    /// Make a transmit ring of `size` empty slots, each marked done so the
    /// first pass of transmissions finds them free.
    pub fn new(size: usize) -> (r: Self)
        requires
            crate::ring::is_pow2(size),
            size <= MAX_RING_SIZE,
        ensures
            r.wf(),
            r.spec_size() == size,
            forall|i: int|
                0 <= i < size ==> (#[trigger] r.spec_descs()[i]) == (tx_desc {
                    addr: 0,
                    length: 0,
                    cmd: 0,
                    status: E1000_TXD_STAT_DD,
                }),
            forall|i: int| 0 <= i < size ==> (#[trigger] r.spec_bufs()[i]) is None,
    {
        let mut descs: Vec<tx_desc> = Vec::new();
        let mut bufs: Vec<Option<KernelBuffer<DeviceOwned>>> = Vec::new();
        let mut i: usize = 0;
        while i < size
            invariant
                i <= size,
                descs@.len() == i,
                bufs@.len() == i,
                forall|j: int|
                    0 <= j < i ==> (#[trigger] descs@[j]) == (tx_desc {
                        addr: 0,
                        length: 0,
                        cmd: 0,
                        status: E1000_TXD_STAT_DD,
                    }),
                forall|j: int| 0 <= j < i ==> (#[trigger] bufs@[j]) is None,
            decreases size - i,
        {
            descs.push(tx_desc { addr: 0, length: 0, cmd: 0, status: E1000_TXD_STAT_DD });
            bufs.push(None);
            i = i + 1;
        }
        proof {
            assert(E1000_TXD_STAT_DD & E1000_TXD_STAT_DD == E1000_TXD_STAT_DD) by (bit_vector);
        }
        TxRing { descs, bufs }
    }
}

impl TxRing {
    /// Read one descriptor as the hardware currently sees it.
    pub fn desc(&self, i: usize) -> (r: tx_desc)
        requires
            0 <= i < self.spec_size(),
        ensures
            r == self.spec_descs()[i as int],
    {
        self.descs[i]
    }
}

/// The receive ring: the descriptor array shared with the device, and the
/// device-owned buffer the device fills for each slot. Every slot always
/// holds a buffer; harvesting a frame swaps a fresh buffer in.
pub struct RxRing {
    descs: Vec<rx_desc>,
    bufs: Vec<Option<KernelBuffer<DeviceOwned>>>,
}

impl RxRing {
    /// The descriptor array.
    pub closed spec fn spec_descs(self) -> Seq<rx_desc> {
        self.descs@
    }

    /// The parked buffer handles, slot by slot.
    pub closed spec fn spec_bufs(self) -> Seq<Option<KernelBuffer<DeviceOwned>>> {
        self.bufs@
    }

    /// Number of slots.
    pub open spec fn spec_size(self) -> int {
        self.spec_descs().len() as int
    }

    /// Structural validity: a power-of-two slot count, every slot backed by
    /// a buffer whose address the descriptor carries, and, for a slot whose
    /// done bit is set, a frame that ends in the slot (chained frames are
    /// out of scope) whose bytes are exactly the buffer's contents.
    pub closed spec fn wf(self) -> bool {
        &&& crate::ring::is_pow2(self.descs.len())
        &&& self.descs.len() <= MAX_RING_SIZE
        &&& self.bufs@.len() == self.descs@.len()
        &&& forall|i: int|
            0 <= i < self.descs@.len() ==> {
                &&& (#[trigger] self.bufs@[i]) is Some
                &&& self.bufs@[i]->0.wf()
                &&& self.bufs@[i]->0.spec_addr() == self.descs@[i].addr
                &&& self.bufs@[i]->0.spec_addr() != 0
                &&& self.descs@[i].spec_done() ==> {
                    &&& self.descs@[i].spec_eop()
                    &&& self.bufs@[i]->0@.len() == self.descs@[i].length
                }
            }
    }

    /// Make a receive ring with one freshly allocated device-owned buffer
    /// per slot, all slots owned by the device and not yet filled.
    pub fn new(bufs: Vec<KernelBuffer<DeviceOwned>>) -> (r: Self)
        requires
            crate::ring::is_pow2(bufs@.len() as usize),
            bufs@.len() <= MAX_RING_SIZE,
            forall|i: int|
                0 <= i < bufs@.len() ==> (#[trigger] bufs@[i]).wf() && bufs@[i].spec_addr() != 0,
        ensures
            r.wf(),
            r.spec_size() == bufs@.len(),
            forall|i: int|
                0 <= i < bufs@.len() ==> {
                    &&& (#[trigger] r.spec_descs()[i]).status == 0
                    &&& r.spec_descs()[i].addr == bufs@[i].spec_addr()
                    &&& r.spec_bufs()[i] == Some(bufs@[i])
                },
    {
        let ghost orig = bufs@;
        let mut bufs = bufs;
        let mut descs: Vec<rx_desc> = Vec::new();
        let mut slots: Vec<Option<KernelBuffer<DeviceOwned>>> = Vec::new();
        let size = bufs.len();
        let mut i: usize = 0;
        while i < size
            invariant
                i <= size,
                size == orig.len(),
                bufs@ == orig.skip(i as int),
                descs@.len() == i,
                slots@.len() == i,
                forall|j: int|
                    0 <= j < orig.len() ==> (#[trigger] orig[j]).wf() && orig[j].spec_addr() != 0,
                forall|j: int|
                    0 <= j < i ==> {
                        &&& (#[trigger] descs@[j]).status == 0
                        &&& descs@[j].addr == orig[j].spec_addr()
                        &&& descs@[j].length == 0
                        &&& slots@[j] == Some(orig[j])
                    },
            decreases size - i,
        {
            let buf = bufs.remove(0);
            let addr = buf.dma_address();
            descs.push(rx_desc { addr, length: 0, status: 0 });
            slots.push(Some(buf));
            proof {
                assert(bufs@ =~= orig.skip(i + 1));
                assert(0u8 & E1000_RXD_STAT_DD != E1000_RXD_STAT_DD) by (bit_vector);
            }
            i = i + 1;
        }
        proof {
            assert(0u8 & E1000_RXD_STAT_DD != E1000_RXD_STAT_DD) by (bit_vector);
            let r = RxRing { descs, bufs: slots };
            assert forall|j: int| 0 <= j < r.descs@.len() implies {
                &&& (#[trigger] r.bufs@[j]) is Some
                &&& r.bufs@[j]->0.wf()
                &&& r.bufs@[j]->0.spec_addr() == r.descs@[j].addr
                &&& r.bufs@[j]->0.spec_addr() != 0
                &&& !r.descs@[j].spec_done()
            } by {
                assert(descs@[j].status == 0);
                assert(slots@[j] == Some(orig[j]));
            }
        }
        RxRing { descs, bufs: slots }
    }
}

impl RxRing {
    /// Read one descriptor as the hardware currently sees it.
    pub fn desc(&self, i: usize) -> (r: rx_desc)
        requires
            0 <= i < self.spec_size(),
        ensures
            r == self.spec_descs()[i as int],
    {
        self.descs[i]
    }
}

/// The NIC: its register file and its two descriptor rings.
pub struct Nic {
    /// The register file shared with the device.
    pub regs: RegisterFile,
    /// The transmit ring.
    pub tx: TxRing,
    /// The receive ring.
    pub rx: RxRing,
}

impl Nic {
    /// Structural validity: both rings are valid and every register indexes
    /// its ring.
    pub open spec fn wf(self) -> bool {
        &&& self.tx.wf()
        &&& self.rx.wf()
        &&& self.regs.tdt < self.tx.spec_size()
        &&& self.regs.tdh < self.tx.spec_size()
        &&& self.regs.rdt < self.rx.spec_size()
        &&& self.regs.rdh < self.rx.spec_size()
    }

    /// Assemble a NIC at reset: both tails at their hardware reset points,
    /// the receive tail one behind the device's head so the whole ring is
    /// available to the device.
    pub fn new(tx: TxRing, rx: RxRing) -> (r: Self)
        requires
            tx.wf(),
            rx.wf(),
        ensures
            r.wf(),
            r.tx == tx,
            r.rx == rx,
            r.regs.tdt == 0,
            r.regs.tdh == 0,
            r.regs.rdh == 0,
            r.regs.rdt as int == rx.spec_size() - 1,
    {
        let rdt = (rx.descs.len() - 1) as u32;
        Nic { regs: RegisterFile { tdt: 0, rdt, tdh: 0, rdh: 0 }, tx, rx }
    }
}

/// The slot `k` steps beyond the receive tail `rdt` in a ring of `n`
/// slots, for `rdt < n` and `k <= n`.
pub open spec fn rx_slot(n: int, rdt: int, k: int) -> int {
    wrap_idx(n, rdt + k)
}

/// Forward distance around a ring of `n` slots from slot `start` to
/// slot `j`.
pub open spec fn rx_dist(n: int, start: int, j: int) -> int {
    if j >= start {
        j - start
    } else {
        j + n - start
    }
}

/// Harvest every finished frame from the receive ring, oldest first.
///
/// Starting one past the receive tail, each slot whose done bit is set is
/// emptied: its filled buffer leaves the ring as a host-owned frame for
/// the caller to deliver, a fresh device-owned buffer from the back of
/// `pool` takes its place, and the tail advance returns the slot to the
/// device. Scanning stops at the first slot the device has not finished,
/// or after one full turn of the ring. `pool` must hold enough fresh
/// buffers for a full turn. A done slot always carries the end-of-packet
/// bit in this model, so multi-descriptor (chained) frames, which are a
/// non-goal, cannot arise.
pub fn receive(nic: &mut Nic, pool: &mut Vec<KernelBuffer<DeviceOwned>>) -> (frames: Vec<
    KernelBuffer<HostOwned>,
>)
    requires
        old(nic).wf(),
        old(pool)@.len() >= old(nic).rx.spec_size(),
        forall|i: int|
            0 <= i < old(pool)@.len() ==> (#[trigger] old(pool)@[i]).wf() && old(
                pool,
            )@[i].spec_addr() != 0,
    ensures
        final(nic).wf(),
        final(nic).rx.spec_size() == old(nic).rx.spec_size(),
        final(nic).tx == old(nic).tx,
        final(nic).regs.tdt == old(nic).regs.tdt,
        final(nic).regs.tdh == old(nic).regs.tdh,
        final(nic).regs.rdh == old(nic).regs.rdh,
        frames@.len() <= old(nic).rx.spec_size(),
        ({
            let n = old(nic).rx.spec_size();
            let rdt0 = old(nic).regs.rdt as int;
            let m = frames@.len() as int;
            &&& forall|k: int|
                0 <= k < m ==> (#[trigger] old(nic).rx.spec_descs()[rx_slot(
                    n,
                    rdt0,
                    1 + k,
                )]).spec_done()
            &&& m < n ==> !old(nic).rx.spec_descs()[rx_slot(n, rdt0, 1 + m)].spec_done()
            &&& forall|k: int|
                #![trigger rx_slot(n, rdt0, 1 + k)]
                0 <= k < m ==> {
                    let i = rx_slot(n, rdt0, 1 + k);
                    &&& frames@[k].wf()
                    &&& frames@[k]@ == old(nic).rx.spec_bufs()[i]->0@
                    &&& frames@[k].spec_addr() == old(nic).rx.spec_bufs()[i]->0.spec_addr()
                }
            &&& final(nic).regs.rdt as int == wrap_idx(n, rdt0 + m)
            &&& final(pool)@ == old(pool)@.take(old(pool)@.len() - m)
            &&& forall|k: int|
                #![trigger rx_slot(n, rdt0, 1 + k)]
                0 <= k < m ==> {
                    let i = rx_slot(n, rdt0, 1 + k);
                    &&& final(nic).rx.spec_descs()[i].status == 0
                    &&& final(nic).rx.spec_descs()[i].addr == old(pool)@[old(pool)@.len() - 1
                        - k].spec_addr()
                    &&& final(nic).rx.spec_bufs()[i] == Some(old(pool)@[old(pool)@.len() - 1 - k])
                }
            &&& forall|j: int|
                0 <= j < n && rx_dist(n, rx_slot(n, rdt0, 1), j) >= m ==> {
                    &&& (#[trigger] final(nic).rx.spec_descs()[j]) == old(nic).rx.spec_descs()[j]
                    &&& final(nic).rx.spec_bufs()[j] == old(nic).rx.spec_bufs()[j]
                }
        }),
{
    let ghost nic0 = *nic;
    let ghost pool0 = *pool;
    let ghost n = old(nic).rx.spec_size();
    let ghost rdt0 = old(nic).regs.rdt as int;
    let size = nic.rx.descs.len();
    let mut frames: Vec<KernelBuffer<HostOwned>> = Vec::new();
    let mut iter: usize = 0;

    while iter < size
        invariant
            nic.wf(),
            nic0.wf(),
            n == nic0.rx.spec_size(),
            rdt0 == nic0.regs.rdt as int,
            0 <= rdt0 < n,
            size == n,
            n == nic.rx.spec_size(),
            pool0@.len() >= n,
            iter <= size,
            frames@.len() == iter,
            nic.tx == nic0.tx,
            nic.regs.tdt == nic0.regs.tdt,
            nic.regs.tdh == nic0.regs.tdh,
            nic.regs.rdh == nic0.regs.rdh,
            nic.regs.rdt as int == wrap_idx(n, rdt0 + iter),
            pool@ == pool0@.take(pool0@.len() - iter as int),
            forall|i: int|
                0 <= i < pool0@.len() ==> (#[trigger] pool0@[i]).wf() && pool0@[i].spec_addr()
                    != 0,
            forall|k: int|
                0 <= k < iter ==> (#[trigger] nic0.rx.spec_descs()[rx_slot(
                    n,
                    rdt0,
                    1 + k,
                )]).spec_done(),
            forall|k: int|
                #![trigger rx_slot(n, rdt0, 1 + k)]
                0 <= k < iter ==> {
                    let i = rx_slot(n, rdt0, 1 + k);
                    &&& frames@[k].wf()
                    &&& frames@[k]@ == nic0.rx.spec_bufs()[i]->0@
                    &&& frames@[k].spec_addr() == nic0.rx.spec_bufs()[i]->0.spec_addr()
                },
            forall|k: int|
                #![trigger rx_slot(n, rdt0, 1 + k)]
                0 <= k < iter ==> {
                    let i = rx_slot(n, rdt0, 1 + k);
                    &&& nic.rx.spec_descs()[i].status == 0
                    &&& nic.rx.spec_descs()[i].addr == pool0@[pool0@.len() - 1 - k].spec_addr()
                    &&& nic.rx.spec_bufs()[i] == Some(pool0@[pool0@.len() - 1 - k])
                },
            forall|j: int|
                0 <= j < n && rx_dist(n, rx_slot(n, rdt0, 1), j) >= iter ==> (
                #[trigger] nic.rx.spec_descs()[j]) == nic0.rx.spec_descs()[j]
                    && nic.rx.spec_bufs()[j] == nic0.rx.spec_bufs()[j],
        ensures
            iter == frames@.len(),
            iter as int == n || !nic0.rx.spec_descs()[rx_slot(n, rdt0, 1 + iter)].spec_done(),
        decreases size - iter,
    {
        let idx = ((nic.regs.get_register(Registers::RDT) as usize) + 1) % size;
        proof {
            lemma_wrap_mod(n, nic.regs.rdt + 1);
            assert(idx as int == rx_slot(n, rdt0, 1 + iter));
            assert(rx_dist(n, rx_slot(n, rdt0, 1), idx as int) == iter);
        }
        let desc = nic.rx.descs[idx];

        if !desc.is_done() {
            break;
        }
        // Ring validity gives every done slot the end-of-packet bit, so a
        // chained frame, which would be fatal, cannot appear here.

        let mut slot: Option<KernelBuffer<DeviceOwned>> = None;
        core::mem::swap(&mut slot, &mut nic.rx.bufs[idx]);
        let full = slot.unwrap();
        let (pg, data) = full.into_parts();
        frames.push(KernelBuffer::new(pg, data));

        let fresh = pool.pop().unwrap();
        let faddr = fresh.dma_address();
        nic.rx.descs[idx] = rx_desc { addr: faddr, length: desc.length, status: 0 };
        nic.rx.bufs[idx] = Some(fresh);

        // On real hardware a full memory fence belongs here, so that the
        // descriptor writes above are globally visible before the tail
        // write below returns the slot to the device.
        nic.regs.set_register(Registers::RDT, idx as u32);

        proof {
            assert(0u8 & E1000_RXD_STAT_DD != E1000_RXD_STAT_DD) by (bit_vector);
            assert(pool@ =~= pool0@.take(pool0@.len() - (iter + 1)));
            assert forall|k: int| #![trigger rx_slot(n, rdt0, 1 + k)]
                0 <= k < iter + 1 implies rx_dist(n, rx_slot(n, rdt0, 1), rx_slot(n, rdt0, 1 + k))
                == k by {}
        }
        iter = iter + 1;
    }
    proof {
        if (iter as int) < n {
            assert(rx_dist(n, rx_slot(n, rdt0, 1), rx_slot(n, rdt0, 1 + iter as int))
                == iter as int);
        }
    }
    frames
}

/// Transmit a buffer: install it device-owned in the tail slot of the
/// transmit ring and ring the doorbell; the call returns without waiting
/// for the device to send.
///
/// When the tail slot's done bit is still clear a previous transmission
/// there is in flight: the call is refused with the buffer handed back and
/// nothing changed; the caller may retry later. When the slot is free, any
/// buffer parked there from an earlier transmission is handed back in
/// `Ok` so the caller can return its page to the allocator.
pub fn transmit(nic: &mut Nic, buffer: KernelBuffer<HostOwned>) -> (r: Result<
    Option<KernelBuffer<DeviceOwned>>,
    KernelBuffer<HostOwned>,
>)
    requires
        old(nic).wf(),
        buffer.wf(),
        buffer@.len() <= u16::MAX,
        buffer.spec_addr() != 0,
    ensures
        final(nic).wf(),
        final(nic).tx.spec_size() == old(nic).tx.spec_size(),
        final(nic).rx == old(nic).rx,
        final(nic).regs.tdh == old(nic).regs.tdh,
        final(nic).regs.rdt == old(nic).regs.rdt,
        final(nic).regs.rdh == old(nic).regs.rdh,
        r is Err <==> !old(nic).tx.spec_descs()[old(nic).regs.tdt as int].spec_done(),
        r is Err ==> r->Err_0 == buffer && *final(nic) == *old(nic),
        r is Ok ==> ({
            let i = old(nic).regs.tdt as int;
            let n = old(nic).tx.spec_size();
            &&& r->Ok_0 == old(nic).tx.spec_bufs()[i]
            &&& final(nic).regs.tdt as int == wrap_idx(n, i + 1)
            &&& final(nic).tx.spec_descs() == old(nic).tx.spec_descs().update(
                i,
                tx_desc {
                    addr: buffer.spec_addr(),
                    length: buffer@.len() as u16,
                    cmd: E1000_TXD_CMD_RS | E1000_TXD_CMD_EOP,
                    status: 0,
                },
            )
            &&& final(nic).tx.spec_bufs()[i] is Some
            &&& final(nic).tx.spec_bufs()[i]->0@ == buffer@
            &&& final(nic).tx.spec_bufs()[i]->0.spec_addr() == buffer.spec_addr()
            &&& forall|j: int|
                0 <= j < n && j != i ==> final(nic).tx.spec_bufs()[j] == old(nic).tx.spec_bufs()[j]
        }),
{
    let idx = nic.regs.get_register(Registers::TDT) as usize;
    let desc = nic.tx.descs[idx];

    if !desc.is_done() {
        return Err(buffer);
    }

    let dev = buffer.into_device();
    let addr = dev.dma_address();
    let blen = dev.len() as u16;

    let mut parked = Some(dev);
    core::mem::swap(&mut parked, &mut nic.tx.bufs[idx]);
    nic.tx.descs[idx] = tx_desc {
        addr,
        length: blen,
        cmd: E1000_TXD_CMD_RS | E1000_TXD_CMD_EOP,
        status: 0,
    };

    // On real hardware a full memory fence belongs here, so that the
    // descriptor write above is globally visible before the tail write
    // below hands the slot to the device.
    let size = nic.tx.descs.len() as u32;
    nic.regs.set_register(Registers::TDT, ((idx as u32) + 1) % size);

    proof {
        lemma_wrap_mod(size as int, idx + 1);
    }
    Ok(parked)
}

/// Device model: the device takes the oldest pending transmit slot,
/// transmits it, and writes the done bit back; pending slots are consumed
/// in the order software published them. Reports false, changing nothing,
/// when no slot is pending.
pub fn hw_tx_complete(nic: &mut Nic) -> (r: bool)
    requires
        old(nic).wf(),
    ensures
        final(nic).wf(),
        r <==> old(nic).regs.tdh != old(nic).regs.tdt,
        !r ==> *final(nic) == *old(nic),
        r ==> ({
            let h = old(nic).regs.tdh as int;
            let n = old(nic).tx.spec_size();
            &&& final(nic).tx.spec_descs()[h].addr == old(nic).tx.spec_descs()[h].addr
            &&& final(nic).tx.spec_descs()[h].length == old(nic).tx.spec_descs()[h].length
            &&& final(nic).tx.spec_descs()[h].cmd == old(nic).tx.spec_descs()[h].cmd
            &&& final(nic).tx.spec_descs()[h].spec_done()
            &&& forall|j: int|
                0 <= j < n && j != h ==> final(nic).tx.spec_descs()[j] == old(
                    nic,
                ).tx.spec_descs()[j]
            &&& final(nic).tx.spec_bufs() == old(nic).tx.spec_bufs()
            &&& final(nic).regs.tdh as int == wrap_idx(n, h + 1)
            &&& final(nic).regs.tdt == old(nic).regs.tdt
            &&& final(nic).regs.rdt == old(nic).regs.rdt
            &&& final(nic).regs.rdh == old(nic).regs.rdh
            &&& final(nic).rx == old(nic).rx
        }),
{
    if nic.regs.tdh == nic.regs.tdt {
        return false;
    }
    let h = nic.regs.tdh as usize;
    let d = nic.tx.descs[h];
    let done_status = d.status | E1000_TXD_STAT_DD;
    nic.tx.descs[h] = tx_desc { addr: d.addr, length: d.length, cmd: d.cmd, status: done_status };
    let size = nic.tx.descs.len() as u32;
    nic.regs.tdh = (nic.regs.tdh + 1) % size;
    proof {
        let s = d.status;
        assert((s | E1000_TXD_STAT_DD) & E1000_TXD_STAT_DD == E1000_TXD_STAT_DD) by (bit_vector);
        lemma_wrap_mod(size as int, h + 1);
    }
    true
}

/// Device model: the device writes `frame` into the buffer of its current
/// head slot, records the frame length, sets the done and end-of-packet
/// bits, and advances its head. Reports false, changing nothing, when the
/// device holds no free slot; the frame is then lost, as the hardware
/// drops frames when its ring is full.
pub fn hw_rx_deliver(nic: &mut Nic, frame: Vec<u8>) -> (r: bool)
    requires
        old(nic).wf(),
        frame@.len() <= u16::MAX,
    ensures
        final(nic).wf(),
        r <==> old(nic).regs.rdh != old(nic).regs.rdt,
        !r ==> *final(nic) == *old(nic),
        r ==> ({
            let h = old(nic).regs.rdh as int;
            let n = old(nic).rx.spec_size();
            &&& final(nic).rx.spec_descs()[h].addr == old(nic).rx.spec_descs()[h].addr
            &&& final(nic).rx.spec_descs()[h].length == frame@.len()
            &&& final(nic).rx.spec_descs()[h].spec_done()
            &&& final(nic).rx.spec_descs()[h].spec_eop()
            &&& final(nic).rx.spec_bufs()[h] is Some
            &&& final(nic).rx.spec_bufs()[h]->0@ == frame@
            &&& final(nic).rx.spec_bufs()[h]->0.spec_addr() == old(nic).rx.spec_bufs()[h]->0.spec_addr()
            &&& forall|j: int|
                0 <= j < n && j != h ==> final(nic).rx.spec_descs()[j] == old(
                    nic,
                ).rx.spec_descs()[j] && final(nic).rx.spec_bufs()[j] == old(nic).rx.spec_bufs()[j]
            &&& final(nic).regs.rdh as int == wrap_idx(n, h + 1)
            &&& final(nic).regs.tdt == old(nic).regs.tdt
            &&& final(nic).regs.tdh == old(nic).regs.tdh
            &&& final(nic).regs.rdt == old(nic).regs.rdt
            &&& final(nic).tx == old(nic).tx
        }),
{
    if nic.regs.rdh == nic.regs.rdt {
        return false;
    }
    let h = nic.regs.rdh as usize;
    let flen = frame.len() as u16;

    let mut slot: Option<KernelBuffer<DeviceOwned>> = None;
    core::mem::swap(&mut slot, &mut nic.rx.bufs[h]);
    let buf = slot.unwrap();
    let (pg, _spent) = buf.into_parts();
    let filled: KernelBuffer<DeviceOwned> = KernelBuffer::new(pg, frame);

    let d = nic.rx.descs[h];
    nic.rx.descs[h] = rx_desc {
        addr: d.addr,
        length: flen,
        status: E1000_RXD_STAT_DD | E1000_RXD_STAT_EOP,
    };
    nic.rx.bufs[h] = Some(filled);
    let size = nic.rx.descs.len() as u32;
    nic.regs.rdh = (nic.regs.rdh + 1) % size;
    proof {
        assert((E1000_RXD_STAT_DD | E1000_RXD_STAT_EOP) & E1000_RXD_STAT_DD == E1000_RXD_STAT_DD
            && (E1000_RXD_STAT_DD | E1000_RXD_STAT_EOP) & E1000_RXD_STAT_EOP
            == E1000_RXD_STAT_EOP) by (bit_vector);
        lemma_wrap_mod(size as int, h + 1);
    }
    true
}

} // verus!
