//! Tests for the zero-copy packet header view.

use netstack::{HostOwned, KernelBuffer, Page, PacketView};

fn build_frame(src_ip: u32, sport: u16, dport: u16, payload: &[u8]) -> Vec<u8> {
    let mut b = vec![0u8; 42];
    b[0..6].copy_from_slice(&[0x02, 0, 0, 0, 0, 1]);
    b[6..12].copy_from_slice(&[0x02, 0, 0, 0, 0, 2]);
    b[12..14].copy_from_slice(&0x0800u16.to_be_bytes());
    b[14] = 0x45;
    b[22] = 64;
    b[23] = 17;
    b[26..30].copy_from_slice(&src_ip.to_be_bytes());
    b[34..36].copy_from_slice(&sport.to_be_bytes());
    b[36..38].copy_from_slice(&dport.to_be_bytes());
    let ulen = (8 + payload.len()) as u16;
    b[38..40].copy_from_slice(&ulen.to_be_bytes());
    b.extend_from_slice(payload);
    b
}

fn host_buffer(data: Vec<u8>) -> KernelBuffer<HostOwned> {
    KernelBuffer::new(Page::new(0x1000), data)
}

#[test]
fn udp_header_fields_decode_big_endian() {
    let buf = host_buffer(build_frame(0x0a000001, 1234, 5678, b"abc"));
    let pv = PacketView::from_kernel_buffer(&buf);
    let u = pv.udp();
    assert_eq!(u.sport, 1234);
    assert_eq!(u.dport, 5678);
    assert_eq!(u.ulen, 11);
    assert_eq!(u.sum, 0);
}

#[test]
fn ip_header_fields_decode_big_endian() {
    let buf = host_buffer(build_frame(0xc0a80017, 9, 10, b""));
    let pv = PacketView::from_kernel_buffer(&buf);
    let h = pv.ip();
    assert_eq!(h.ip_vhl, 0x45);
    assert_eq!(h.ip_ttl, 64);
    assert_eq!(h.ip_p, 17);
    assert_eq!(h.ip_src, 0xc0a80017);
    assert_eq!(h.ip_dst, 0);
}

#[test]
fn eth_header_fields() {
    let buf = host_buffer(build_frame(1, 2, 3, b""));
    let pv = PacketView::from_kernel_buffer(&buf);
    let e = pv.eth();
    assert_eq!(e.dhost, [0x02, 0, 0, 0, 0, 1]);
    assert_eq!(e.shost, [0x02, 0, 0, 0, 0, 2]);
    assert_eq!(e.ethertype, 0x0800);
}

#[test]
fn udp_len_subtracts_header() {
    let buf = host_buffer(build_frame(1, 2, 3, b"hello"));
    let pv = PacketView::from_kernel_buffer(&buf);
    assert_eq!(pv.udp_len(), 5);

    let empty = host_buffer(build_frame(1, 2, 3, b""));
    let pv = PacketView::from_kernel_buffer(&empty);
    assert_eq!(pv.udp_len(), 0);
}

#[test]
fn udp_len_is_negative_for_undersized_length_field() {
    let mut raw = build_frame(1, 2, 3, b"");
    raw[38..40].copy_from_slice(&4u16.to_be_bytes());
    let buf = host_buffer(raw);
    let pv = PacketView::from_kernel_buffer(&buf);
    assert_eq!(pv.udp_len(), -4);
    assert!(!pv.frame_ok());
}

#[test]
fn payload_follows_headers() {
    let buf = host_buffer(build_frame(1, 2, 3, b"hi"));
    let pv = PacketView::from_kernel_buffer(&buf);
    assert_eq!(pv.payload(), b"hi");
}

#[test]
fn frame_ok_accepts_consistent_frames() {
    let buf = host_buffer(build_frame(1, 2, 3, b"payload"));
    let pv = PacketView::from_kernel_buffer(&buf);
    assert!(pv.frame_ok());
}

#[test]
fn frame_ok_refuses_truncated_frames() {
    let short = host_buffer(vec![0u8; 41]);
    let pv = PacketView::from_kernel_buffer(&short);
    assert!(!pv.frame_ok());

    // The UDP length field declares more payload than the frame holds.
    let mut raw = build_frame(1, 2, 3, b"ab");
    raw[38..40].copy_from_slice(&100u16.to_be_bytes());
    let lying = host_buffer(raw);
    let pv = PacketView::from_kernel_buffer(&lying);
    assert!(!pv.frame_ok());
}
