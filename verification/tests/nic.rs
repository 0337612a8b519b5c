//! Tests for the NIC descriptor-ring driver and its device model.

use netstack::{
    hw_rx_deliver, hw_tx_complete, receive, transmit, DeviceOwned, HostOwned, KernelBuffer, Nic,
    Page, Registers, RxRing, TxRing, E1000_TXD_STAT_DD,
};

fn host_buffer(addr: u64, data: Vec<u8>) -> KernelBuffer<HostOwned> {
    KernelBuffer::new(Page::new(addr), data)
}

fn device_buffer(addr: u64) -> KernelBuffer<DeviceOwned> {
    KernelBuffer::new(Page::new(addr), Vec::new())
}

fn fresh_nic(tx_size: usize, rx_addrs: &[u64]) -> Nic {
    let tx = TxRing::new(tx_size);
    let bufs = rx_addrs.iter().map(|&a| device_buffer(a)).collect();
    let rx = RxRing::new(bufs);
    Nic::new(tx, rx)
}

fn pool(n: usize) -> Vec<KernelBuffer<DeviceOwned>> {
    (0..n).map(|i| device_buffer(0x9000 + i as u64)).collect()
}

#[test]
fn tx_desc_done_bit() {
    let ring = TxRing::new(4);
    let d = ring.desc(0);
    assert_eq!(d.status, E1000_TXD_STAT_DD);
    assert!(d.is_done());
    assert_eq!(d.addr, 0);
}

#[test]
fn transmit_installs_buffer_and_advances_tail() {
    let mut nic = fresh_nic(4, &[0x2000, 0x2001]);
    let r = transmit(&mut nic, host_buffer(0x100, vec![1, 2, 3]));
    match r {
        Ok(recycled) => assert!(recycled.is_none()),
        Err(_) => panic!("first transmit must be accepted"),
    }
    assert_eq!(nic.regs.get_register(Registers::TDT), 1);
    let d = nic.tx.desc(0);
    assert_eq!(d.addr, 0x100);
    assert_eq!(d.length, 3);
    assert!(!d.is_done());
}

#[test]
fn transmit_busy_when_slot_in_flight() {
    // A one-slot ring: the second of two back-to-back transmits finds the
    // slot still in flight and is refused; the first installation stays.
    let mut nic = fresh_nic(1, &[0x2000, 0x2001]);
    assert!(transmit(&mut nic, host_buffer(0x100, vec![9, 9])).is_ok());
    let second = transmit(&mut nic, host_buffer(0x200, vec![7]));
    match second {
        Ok(_) => panic!("second transmit must be refused"),
        Err(rejected) => assert_eq!(rejected.as_slice(), &[7]),
    }
    let d = nic.tx.desc(0);
    assert_eq!(d.addr, 0x100);
    assert_eq!(d.length, 2);
}

#[test]
fn transmit_recycles_after_completion() {
    let mut nic = fresh_nic(4, &[0x2000]);
    assert!(transmit(&mut nic, host_buffer(0x100, vec![1])).is_ok());
    assert!(transmit(&mut nic, host_buffer(0x200, vec![2])).is_ok());
    assert!(transmit(&mut nic, host_buffer(0x300, vec![3])).is_ok());
    // The device finishes the oldest pending slot, in publication order.
    assert!(hw_tx_complete(&mut nic));
    // The fourth transmit takes the last fresh slot and wraps the tail.
    assert!(transmit(&mut nic, host_buffer(0x400, vec![4])).is_ok());
    // Slot 0 is done: reusing it hands the first buffer back for freeing.
    match transmit(&mut nic, host_buffer(0x500, vec![5])) {
        Ok(Some(recycled)) => assert_eq!(recycled.dma_address(), 0x100),
        _ => panic!("reusing a completed slot must hand the old buffer back"),
    }
    // Slot 1 is still in flight: the next transmit is refused.
    assert!(transmit(&mut nic, host_buffer(0x600, vec![6])).is_err());
}

#[test]
fn hw_tx_complete_without_pending_slots_reports_false() {
    let mut nic = fresh_nic(4, &[0x2000]);
    assert!(!hw_tx_complete(&mut nic));
}

#[test]
fn receive_harvests_done_slots_in_order() {
    let mut nic = fresh_nic(2, &[0x2000, 0x2001, 0x2002, 0x2003]);
    assert!(hw_rx_deliver(&mut nic, vec![1, 1, 1]));
    assert!(hw_rx_deliver(&mut nic, vec![2, 2]));
    let mut fresh = pool(4);
    let frames = receive(&mut nic, &mut fresh);
    assert_eq!(frames.len(), 2);
    assert_eq!(frames[0].as_slice(), &[1, 1, 1]);
    assert_eq!(frames[1].as_slice(), &[2, 2]);
    // The first two frames came out of the pages the ring started with.
    assert_eq!(fresh.len(), 2);
    assert_eq!(nic.regs.get_register(Registers::RDT), 1);
    // The harvested slots went back to the device with fresh buffers.
    let d0 = nic.rx.desc(0);
    assert_eq!(d0.status, 0);
    assert_eq!(d0.addr, 0x9003);
    let d1 = nic.rx.desc(1);
    assert_eq!(d1.status, 0);
    assert_eq!(d1.addr, 0x9002);
}

#[test]
fn receive_with_nothing_done_returns_no_frames() {
    let mut nic = fresh_nic(2, &[0x2000, 0x2001, 0x2002, 0x2003]);
    let mut fresh = pool(4);
    let frames = receive(&mut nic, &mut fresh);
    assert!(frames.is_empty());
    assert_eq!(fresh.len(), 4);
    assert_eq!(nic.regs.get_register(Registers::RDT), 3);
}

#[test]
fn receive_harvests_a_full_turn() {
    let mut nic = fresh_nic(2, &[0x2000, 0x2001, 0x2002, 0x2003]);
    // With four slots the device owns three at reset; fill them all.
    assert!(hw_rx_deliver(&mut nic, vec![1]));
    assert!(hw_rx_deliver(&mut nic, vec![2]));
    assert!(hw_rx_deliver(&mut nic, vec![3]));
    assert!(!hw_rx_deliver(&mut nic, vec![4]));
    let mut fresh = pool(4);
    let frames = receive(&mut nic, &mut fresh);
    assert_eq!(frames.len(), 3);
    assert_eq!(frames[0].as_slice(), &[1]);
    assert_eq!(frames[1].as_slice(), &[2]);
    assert_eq!(frames[2].as_slice(), &[3]);
    assert_eq!(fresh.len(), 1);
    assert_eq!(nic.regs.get_register(Registers::RDT), 2);
}

#[test]
fn hw_rx_deliver_drops_when_ring_full() {
    let mut nic = fresh_nic(2, &[0x2000, 0x2001]);
    // With two slots, the device owns one slot at reset (tail = size - 1).
    assert!(hw_rx_deliver(&mut nic, vec![1]));
    assert!(!hw_rx_deliver(&mut nic, vec![2]));
}
