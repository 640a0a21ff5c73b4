//! Driver support: the interfaces a board's device drivers and their manager implement.
use vstd::prelude::*;

verus! {

/// Device Driver functions. Drivers are shared by every core, so they are `Sync`.
pub trait DeviceDriver: Sync {
    /// Return a compatibility string for identifying the driver.
    fn compatible(&self) -> &'static str;

    /// Called by the kernel to bring up the device. During init, drivers might do stuff with
    /// system-wide impact. A driver that does not say otherwise has nothing to bring up and
    /// succeeds.
    fn init(&self) -> (r: Result<(), &'static str>)
        default_ensures
            r == Ok::<(), &'static str>(()),
    {
        Ok(())
    }
}

/// Device driver management functions. The board is supposed to supply one global instance.
pub trait DriverManager {
    /// Return a slice of references to all board-instantiated drivers. The order of devices is
    /// the order in which `DeviceDriver::init()` is called.
    fn all_device_drivers(&self) -> &[&'static dyn DeviceDriver];

    /// Initialization code that runs after driver init. For example, device driver code that
    /// depends on other drivers already being online.
    fn post_device_driver_init(&self);
}

} // verus!
