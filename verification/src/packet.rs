//! A zero-copy view of a received frame as Ethernet, IP and UDP headers
//! followed by a payload.
//!
//! Every multi-byte field on the wire is big-endian; accessors hand the
//! fields back converted to host order. Each accessor demands that the
//! frame is long enough for the header it reads, so parsing itself can
//! never fail; `frame_ok` is the runtime check a caller runs first to
//! keep frames too short for their headers out.

use vstd::prelude::*;

use crate::page::{HostOwned, KernelBuffer};

verus! {

/// Bytes in an Ethernet header.
pub const ETH_HLEN: usize = 14;

/// Bytes in an IP header without options.
pub const IP_HLEN: usize = 20;

/// Bytes in a UDP header.
pub const UDP_HLEN: usize = 8;

/// Bytes before the UDP payload of a frame.
pub const HDRS_LEN: usize = 14 + 20 + 8;

/// The big-endian 16-bit value at offset `off` of `b`.
pub open spec fn be16(b: Seq<u8>, off: int) -> int {
    b[off] * 256 + b[off + 1]
}

/// The big-endian 32-bit value at offset `off` of `b`.
pub open spec fn be32(b: Seq<u8>, off: int) -> int {
    ((b[off] * 256 + b[off + 1]) * 256 + b[off + 2]) * 256 + b[off + 3]
}

/// Whether a frame is long enough for its headers and for the payload its
/// UDP length field declares.
pub open spec fn frame_parseable(b: Seq<u8>) -> bool {
    &&& b.len() >= HDRS_LEN
    &&& be16(b, ETH_HLEN + IP_HLEN + 4) >= UDP_HLEN
    &&& HDRS_LEN + (be16(b, ETH_HLEN + IP_HLEN + 4) - UDP_HLEN) <= b.len()
}

/// An Ethernet header, fields in host order.
#[allow(non_camel_case_types)]
pub struct eth {
    pub dhost: [u8; 6],
    pub shost: [u8; 6],
    pub ethertype: u16,
}

/// An IP header, fields in host order.
#[allow(non_camel_case_types)]
pub struct ip {
    pub ip_vhl: u8,
    pub ip_tos: u8,
    pub ip_len: u16,
    pub ip_id: u16,
    pub ip_off: u16,
    pub ip_ttl: u8,
    pub ip_p: u8,
    pub ip_sum: u16,
    pub ip_src: u32,
    pub ip_dst: u32,
}

/// A UDP header, fields in host order.
#[allow(non_camel_case_types)]
pub struct udp {
    pub sport: u16,
    pub dport: u16,
    pub ulen: u16,
    pub sum: u16,
}

/// Read the big-endian 16-bit value at `off`.
fn read_be16(b: &[u8], off: usize) -> (r: u16)
    requires
        off + 2 <= b@.len(),
    ensures
        r == be16(b@, off as int),
{
    (b[off] as u16) * 256 + (b[off + 1] as u16)
}

/// Read the big-endian 32-bit value at `off`.
fn read_be32(b: &[u8], off: usize) -> (r: u32)
    requires
        off + 4 <= b@.len(),
    ensures
        r == be32(b@, off as int),
{
    (((b[off] as u32) * 256 + (b[off + 1] as u32)) * 256 + (b[off + 2] as u32)) * 256 + (b[off
        + 3] as u32)
}

/// A borrowed frame interpreted as headers plus payload.
pub struct PacketView<'a> {
    inner: &'a [u8],
}

impl<'a> View for PacketView<'a> {
    type V = Seq<u8>;

    /// The raw frame bytes.
    closed spec fn view(&self) -> Seq<u8> {
        self.inner@
    }
}

impl<'a> PacketView<'a> {
    /// View the payload bytes of a host-owned buffer as a frame.
    pub fn from_kernel_buffer(buf: &'a KernelBuffer<HostOwned>) -> (r: Self)
        ensures
            r@ == buf@,
    {
        Self { inner: buf.as_slice() }
    }

    /// Check that the frame is long enough for its headers and for the
    /// payload its UDP length field declares.
    pub fn frame_ok(&self) -> (r: bool)
        ensures
            r == frame_parseable(self@),
    {
        if self.inner.len() < HDRS_LEN {
            return false;
        }
        let ulen = read_be16(self.inner, ETH_HLEN + IP_HLEN + 4);
        if ulen < 8 {
            return false;
        }
        let payload_len = (ulen - 8) as usize;
        payload_len <= self.inner.len() - HDRS_LEN
    }

    /// The Ethernet header.
    pub fn eth(&self) -> (r: eth)
        requires
            self@.len() >= ETH_HLEN,
        ensures
            r.dhost@ == self@.subrange(0, 6),
            r.shost@ == self@.subrange(6, 12),
            r.ethertype == be16(self@, 12),
    {
        let b = self.inner;
        let dhost: [u8; 6] = [b[0], b[1], b[2], b[3], b[4], b[5]];
        let shost: [u8; 6] = [b[6], b[7], b[8], b[9], b[10], b[11]];
        let ethertype = read_be16(b, 12);
        proof {
            assert(dhost@ =~= self@.subrange(0, 6));
            assert(shost@ =~= self@.subrange(6, 12));
        }
        eth { dhost, shost, ethertype }
    }

    /// The IP header, which follows the Ethernet header.
    pub fn ip(&self) -> (r: ip)
        requires
            self@.len() >= ETH_HLEN + IP_HLEN,
        ensures
            r.ip_vhl == self@[14],
            r.ip_tos == self@[15],
            r.ip_len == be16(self@, 16),
            r.ip_id == be16(self@, 18),
            r.ip_off == be16(self@, 20),
            r.ip_ttl == self@[22],
            r.ip_p == self@[23],
            r.ip_sum == be16(self@, 24),
            r.ip_src == be32(self@, 26),
            r.ip_dst == be32(self@, 30),
    {
        let b = self.inner;
        ip {
            ip_vhl: b[14],
            ip_tos: b[15],
            ip_len: read_be16(b, 16),
            ip_id: read_be16(b, 18),
            ip_off: read_be16(b, 20),
            ip_ttl: b[22],
            ip_p: b[23],
            ip_sum: read_be16(b, 24),
            ip_src: read_be32(b, 26),
            ip_dst: read_be32(b, 30),
        }
    }

    /// The UDP header, which follows the IP header.
    pub fn udp(&self) -> (r: udp)
        requires
            self@.len() >= HDRS_LEN,
        ensures
            r.sport == be16(self@, 34),
            r.dport == be16(self@, 36),
            r.ulen == be16(self@, 38),
            r.sum == be16(self@, 40),
    {
        let b = self.inner;
        udp {
            sport: read_be16(b, 34),
            dport: read_be16(b, 36),
            ulen: read_be16(b, 38),
            sum: read_be16(b, 40),
        }
    }

    /// The payload length the UDP header declares: its length field minus
    /// the UDP header size. Negative when the length field is shorter than
    /// a UDP header.
    pub fn udp_len(&self) -> (r: i32)
        requires
            self@.len() >= HDRS_LEN,
        ensures
            r == be16(self@, 38) - UDP_HLEN,
    {
        let ulen = read_be16(self.inner, 38);
        ulen as i32 - UDP_HLEN as i32
    }

    /// The bytes following the headers.
    pub fn payload(&self) -> (r: &'a [u8])
        requires
            self@.len() >= HDRS_LEN,
        ensures
            r@ == self@.subrange(HDRS_LEN as int, self@.len() as int),
    {
        &self.inner[HDRS_LEN..self.inner.len()]
    }
}

} // verus!
