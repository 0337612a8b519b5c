//! Tests for the port dispatch table and the receive path.

use netstack::{
    alloc_queue, find_queue, hw_rx_deliver, net_rx, receive, sys_recv_impl, Delivery, HostOwned,
    KernelBuffer, Nic, Page, PortTable, RecvError, RxRing, TxRing,
};

fn build_frame(src_ip: u32, sport: u16, dport: u16, payload: &[u8]) -> Vec<u8> {
    let mut b = vec![0u8; 42];
    b[12..14].copy_from_slice(&0x0800u16.to_be_bytes());
    b[14] = 0x45;
    b[22] = 64;
    b[23] = 17;
    b[26..30].copy_from_slice(&src_ip.to_be_bytes());
    b[34..36].copy_from_slice(&sport.to_be_bytes());
    b[36..38].copy_from_slice(&dport.to_be_bytes());
    let ulen = (8 + payload.len()) as u16;
    b[38..40].copy_from_slice(&ulen.to_be_bytes());
    b.extend_from_slice(payload);
    b
}

fn frame_buffer(src_ip: u32, sport: u16, dport: u16, payload: &[u8]) -> KernelBuffer<HostOwned> {
    KernelBuffer::new(Page::new(0x3000), build_frame(src_ip, sport, dport, payload))
}

#[test]
fn bind_uses_first_free_slot() {
    let mut table = PortTable::new();
    assert_eq!(alloc_queue(&mut table, 2000), Some(0));
    assert_eq!(alloc_queue(&mut table, 2001), Some(1));
    assert_eq!(find_queue(&table, 2000), Some(0));
    assert_eq!(find_queue(&table, 2001), Some(1));
}

#[test]
fn bind_exhaustion_after_all_slots() {
    let mut table = PortTable::new();
    for p in 0..10u16 {
        assert!(alloc_queue(&mut table, 3000 + p).is_some());
    }
    // The table has ten slots; an eleventh bind finds none free and
    // reports the exhaustion for the caller to treat as it must.
    assert_eq!(alloc_queue(&mut table, 4000), None);
    assert_eq!(find_queue(&table, 4000), None);
}

#[test]
fn deliver_then_recv_returns_payload_and_source() {
    let mut table = PortTable::new();
    assert_eq!(alloc_queue(&mut table, 2000), Some(0));
    let out = net_rx(&mut table, frame_buffer(0x0a00000b, 53, 2000, b"hi"));
    assert!(matches!(out, Ok(Delivery::Queued { dest_port: 2000 })));

    let got = sys_recv_impl(&mut table, 2000, 2048).expect("a packet is queued");
    assert_eq!(got.payload, b"hi");
    assert_eq!(got.source_port, 53);
    assert_eq!(got.source_addr, 0x0a00000b);
    // The spent frame's buffer comes back for freeing after the copy.
    assert_eq!(got.buffer.as_slice(), build_frame(0x0a00000b, 53, 2000, b"hi"));
    assert_eq!(table.queue_len(0), 0);
}

#[test]
fn recv_clamps_payload_to_maxlen() {
    let mut table = PortTable::new();
    assert_eq!(alloc_queue(&mut table, 2000), Some(0));
    assert!(net_rx(&mut table, frame_buffer(1, 53, 2000, b"hello")).is_ok());
    let got = sys_recv_impl(&mut table, 2000, 3).expect("a packet is queued");
    assert_eq!(got.payload, b"hel");
}

#[test]
fn unbound_frame_changes_nothing() {
    let mut table = PortTable::new();
    assert_eq!(alloc_queue(&mut table, 2000), Some(0));
    let out = net_rx(&mut table, frame_buffer(1, 53, 7777, b"hi"));
    match out {
        Ok(Delivery::Unbound { buffer }) => {
            // The untouched frame comes back for freeing.
            assert_eq!(buffer.as_slice(), build_frame(1, 53, 7777, b"hi"));
        }
        _ => panic!("an unbound destination must hand the frame back"),
    }
    for i in 0..10 {
        assert_eq!(table.queue_len(i), 0);
        assert_eq!(table.queue_dropped(i), 0);
    }
    assert_eq!(
        sys_recv_impl(&mut table, 2000, 64).unwrap_err(),
        RecvError::WouldBlock
    );
}

#[test]
fn full_queue_drops_and_counts() {
    let mut table = PortTable::new();
    assert_eq!(alloc_queue(&mut table, 2000), Some(0));
    for k in 0..16u16 {
        let out = net_rx(&mut table, frame_buffer(1, 100 + k, 2000, b"x"));
        assert!(matches!(out, Ok(Delivery::Queued { .. })));
    }
    let overflow = net_rx(&mut table, frame_buffer(1, 999, 2000, b"x"));
    match overflow {
        Ok(Delivery::QueueFull { buffer }) => {
            // The refused frame comes back for freeing.
            assert_eq!(buffer.as_slice(), build_frame(1, 999, 2000, b"x"));
        }
        _ => panic!("a full queue must refuse and hand the frame back"),
    }
    assert_eq!(table.queue_len(0), 16);
    assert_eq!(table.queue_dropped(0), 1);
    // The queued packets still come out in arrival order.
    let first = sys_recv_impl(&mut table, 2000, 64).unwrap();
    assert_eq!(first.source_port, 100);
}

#[test]
fn recv_blocks_until_a_frame_is_delivered() {
    let mut table = PortTable::new();
    assert_eq!(alloc_queue(&mut table, 2000), Some(0));
    // Nothing queued: the caller is told to sleep and retry.
    assert_eq!(
        sys_recv_impl(&mut table, 2000, 64).unwrap_err(),
        RecvError::WouldBlock
    );
    // One delivery wakes the waiter; the retry needs no second delivery.
    let out = net_rx(&mut table, frame_buffer(5, 53, 2000, b"wake"));
    assert!(matches!(out, Ok(Delivery::Queued { dest_port: 2000 })));
    let got = sys_recv_impl(&mut table, 2000, 64).expect("the delivered frame");
    assert_eq!(got.payload, b"wake");
}

#[test]
fn unused_slots_never_match_a_lookup() {
    // Fresh slots carry port zero in their port field, but a slot no
    // bind has handed out is not bound: a lookup for port zero finds
    // nothing until someone binds it.
    let mut table = PortTable::new();
    assert_eq!(find_queue(&table, 0), None);
    assert_eq!(find_queue(&table, 1), None);
    assert_eq!(alloc_queue(&mut table, 0), Some(0));
    assert_eq!(find_queue(&table, 0), Some(0));
}

#[test]
fn frame_for_port_zero_is_unbound_on_a_fresh_table() {
    // A stray frame addressed to UDP port zero must not land in an
    // unused slot: with nothing bound it is discarded with no state
    // change anywhere.
    let mut table = PortTable::new();
    let out = net_rx(&mut table, frame_buffer(1, 53, 0, b"stray"));
    assert!(matches!(out, Ok(Delivery::Unbound { .. })));
    for i in 0..10 {
        assert_eq!(table.queue_len(i), 0);
        assert_eq!(table.queue_dropped(i), 0);
    }
}

#[test]
fn recv_on_unbound_port_is_refused() {
    let mut table = PortTable::new();
    for p in 0..10u16 {
        assert!(alloc_queue(&mut table, 3000 + p).is_some());
    }
    assert_eq!(
        sys_recv_impl(&mut table, 99, 64).unwrap_err(),
        RecvError::NotBound
    );
}

#[test]
fn malformed_frame_is_refused_and_handed_back() {
    let mut table = PortTable::new();
    assert_eq!(alloc_queue(&mut table, 2000), Some(0));
    let short = KernelBuffer::new(Page::new(0x3000), vec![0u8; 10]);
    match net_rx(&mut table, short) {
        Err(rejected) => assert_eq!(rejected.as_slice().len(), 10),
        Ok(_) => panic!("a truncated frame must be refused"),
    }
    assert_eq!(table.queue_len(0), 0);
}

#[test]
fn frames_flow_from_ring_to_consumer() {
    let mut nic = Nic::new(
        TxRing::new(4),
        RxRing::new(
            (0..4u64)
                .map(|i| KernelBuffer::new(Page::new(0x2000 + i), Vec::new()))
                .collect(),
        ),
    );
    let mut table = PortTable::new();
    assert_eq!(alloc_queue(&mut table, 2000), Some(0));

    assert!(hw_rx_deliver(&mut nic, build_frame(9, 53, 2000, b"hi")));
    let mut fresh: Vec<_> = (0..4u64)
        .map(|i| KernelBuffer::new(Page::new(0x9000 + i), Vec::new()))
        .collect();
    let frames = receive(&mut nic, &mut fresh);
    assert_eq!(frames.len(), 1);
    for f in frames {
        assert!(net_rx(&mut table, f).is_ok());
    }
    let got = sys_recv_impl(&mut table, 2000, 64).expect("the frame was dispatched");
    assert_eq!(got.payload, b"hi");
    assert_eq!(got.source_port, 53);
}
