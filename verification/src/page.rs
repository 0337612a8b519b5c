//! Ownership-tagged buffer handles over physical memory pages.
//!
//! A page itself is owned by the external allocator; the library only
//! carries its opaque address. A `KernelBuffer` ties one page to the bytes
//! it holds and to an ownership tag that records which side, host software
//! or the device, is responsible for eventually returning the page to the
//! allocator. Conversions consume the handle, so at any program point
//! exactly one holder is responsible for the page.

use vstd::prelude::*;

verus! {

/// One physical memory page, held as the opaque address the external
/// allocator handed out. The library never frees a page itself: a handle
/// that is done with its page hands it back to the caller, who returns it
/// to the allocator.
#[derive(Debug)]
pub struct Page(pub u64);

impl Page {
    /// Wrap an allocator-provided page address.
    pub fn new(addr: u64) -> (r: Self)
        ensures
            r.0 == addr,
    {
        Page(addr)
    }
}

/// Marker for the ownership state of a buffer.
pub trait BufState {}

/// The buffer is owned by host software: whoever holds the handle must
/// return the page to the allocator when discarding it.
#[derive(Debug)]
pub struct HostOwned;

impl BufState for HostOwned {}

/// The buffer is owned by a device: discarding the handle does not return
/// the page, and the ring driver frees the page explicitly when it recycles
/// the descriptor slot that holds it.
#[derive(Debug)]
pub struct DeviceOwned;

impl BufState for DeviceOwned {}

/// A buffer backed by one page: the page, the bytes it holds, and their
/// count. The tag `S` records who must eventually free the page.
#[derive(Debug)]
pub struct KernelBuffer<S: BufState> {
    page: Page,
    data: Vec<u8>,
    length: usize,
    state: core::marker::PhantomData<S>,
}

impl<S: BufState> View for KernelBuffer<S> {
    type V = Seq<u8>;

    /// The payload bytes.
    closed spec fn view(&self) -> Seq<u8> {
        self.data@
    }
}

impl<S: BufState> KernelBuffer<S> {
    /// The address of the backing page.
    pub closed spec fn spec_addr(self) -> u64 {
        self.page.0
    }

    /// The declared length matches the bytes actually held.
    pub closed spec fn wf(self) -> bool {
        self.length == self.data@.len()
    }

    /// Take ownership of `page` and the bytes it holds.
    pub fn new(page: Page, data: Vec<u8>) -> (r: Self)
        ensures
            r.wf(),
            r@ == data@,
            r.spec_addr() == page.0,
    {
        let length = data.len();
        KernelBuffer { page, data, length, state: core::marker::PhantomData }
    }

    /// Number of payload bytes held.
    pub fn len(&self) -> (r: usize)
        requires
            self.wf(),
        ensures
            r == self@.len(),
    {
        self.length
    }

    /// Read the payload bytes.
    pub fn as_slice(&self) -> (r: &[u8])
        ensures
            r@ == self@,
    {
        self.data.as_slice()
    }

    /// Give up the handle, handing its page and bytes back to the caller;
    /// responsibility for the page moves with the returned `Page`.
    pub fn into_parts(self) -> (r: (Page, Vec<u8>))
        ensures
            r.0.0 == self.spec_addr(),
            r.1@ == self@,
    {
        let KernelBuffer { page, data, length: _, state: _ } = self;
        (page, data)
    }
}

impl KernelBuffer<HostOwned> {
    /// Move the buffer to device ownership: same page, same bytes, no copy;
    /// only the duty to free the page changes hands.
    pub fn into_device(self) -> (r: KernelBuffer<DeviceOwned>)
        ensures
            r.wf() == self.wf(),
            r@ == self@,
            r.spec_addr() == self.spec_addr(),
    {
        let KernelBuffer { page, data, length, state: _ } = self;
        KernelBuffer { page, data, length, state: core::marker::PhantomData }
    }
}

impl KernelBuffer<DeviceOwned> {
    /// The raw address to install into a DMA descriptor.
    pub fn dma_address(&self) -> (r: u64)
        ensures
            r == self.spec_addr(),
    {
        self.page.0
    }
}

} // verus!
