//! Cluster lifetime: the device handle that the allocator and the DMA
//! staging ring are tied to.
//!
//! On the target the handle pins an SDK device structure whose address is
//! captured by every DMA request; opening and closing that device is
//! unverifiable foreign code and lives outside this crate.  Here the handle
//! is the owner that the rest of the engine borrows, which keeps the
//! call-ordering discipline of the original interface.

use vstd::prelude::*;

verus! {

/// A pinned device handle; the cluster owns it for its whole lifetime.
pub struct Device {}

/// An open compute cluster.
pub struct Cluster {
    /// The device handle held for allocator and DMA use.
    pub device: Device,
}

impl Cluster {
    /// Opens the cluster.  Opening cannot fail in this model, so the result
    /// is always `Ok`; the `Result` shape is the interface the host sees.
    pub fn new() -> (r: Result<Cluster, ()>)
        ensures
            r is Ok,
    {
        Ok(Cluster { device: Device {  } })
    }

    /// Borrows the pinned device handle.
    pub fn device_mut(&mut self) -> (d: &mut Device)
        ensures
            *d == old(self).device,
            *final(self) == (Cluster { device: *final(d) }),
    {
        &mut self.device
    }
}

} // verus!
