//! A verified model of the packet path of a minimal network stack: a
//! fixed-capacity FIFO ring container, an ownership-tagged buffer handle,
//! a NIC descriptor-ring driver for transmit and receive, a zero-copy
//! packet header view, and a port dispatch table that queues inbound UDP
//! datagrams for consumers.
//!
//! External collaborators of the stack (the physical-page allocator, the
//! scheduler's lock and sleep primitives, the user-memory copy routine and
//! the hardware itself) are kept outside the library: every entry point
//! takes what they produce and returns what they must consume as plain
//! values, so the logic here is verified for every behaviour of theirs.

mod dispatch;
mod nic;
mod packet;
mod page;
mod ring;

pub use page::{BufState, DeviceOwned, HostOwned, KernelBuffer, Page};
pub use ring::{PushError, RingBuffer};
pub use ring::is_pow2;
pub use packet::{PacketView, eth, ip, udp, be16, be32, frame_parseable, ETH_HLEN, IP_HLEN, UDP_HLEN, HDRS_LEN};
pub use nic::{tx_desc, rx_desc, Registers, RegisterFile, TxRing, RxRing, Nic, transmit, receive, hw_tx_complete, hw_rx_deliver, rx_slot, rx_dist};
pub use nic::{E1000_TXD_STAT_DD, E1000_TXD_CMD_RS, E1000_TXD_CMD_EOP, E1000_RXD_STAT_DD, E1000_RXD_STAT_EOP, MAX_RING_SIZE, wrap_idx, lemma_wrap_mod};
pub use dispatch::{IpRecieveError, Packet, Queue, PortTable, packet_wf, find_port_from, find_unused_from, find_queue, alloc_queue, SOCK_QUEUE_SIZE, NUM_QUEUES};
pub use dispatch::{Delivery, delivered, ip_receive, net_rx, RecvData, RecvError, sys_recv_impl, lemma_unbound_no_change, lemma_delivery_wakes_waiter};
