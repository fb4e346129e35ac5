//! Per-PCI-class driver interfaces and the boxed driver a plugin hands back.
use vstd::prelude::*;

verus! {

/// Block-device interface for mass-storage controllers.
pub trait StorageDriver: Send {
    /// Initialise the device after PCI enumeration.
    fn init(&mut self) -> Result<(), &'static str>;

    /// Read `count` blocks starting at `lba` into `buf`.
    fn read_blocks(&self, lba: u64, count: usize, buf: &mut [u8]) -> (r: Result<(), &'static str>)
        ensures
            final(buf)@.len() == old(buf)@.len(),
    ;

    /// Write `count` blocks starting at `lba` from `buf`.
    fn write_blocks(&self, lba: u64, count: usize, buf: &[u8]) -> Result<(), &'static str>;

    /// Logical block size in bytes; a block holds at least one byte.
    fn block_size(&self) -> (r: u32)
        ensures
            r > 0,
    ;

    /// Total number of addressable blocks.
    fn total_blocks(&self) -> u64;
}

/// Network interface controller.
pub trait NetworkDriver: Send {
    fn init(&mut self) -> Result<(), &'static str>;

    fn send(&self, buf: &[u8]) -> Result<(), &'static str>;

    fn receive(&self, buf: &mut [u8]) -> (r: Result<usize, &'static str>)
        ensures
            final(buf)@.len() == old(buf)@.len(),
    ;

    fn mac_address(&self) -> [u8; 6];
}

/// Display or GPU controller.
pub trait DisplayDriver: Send {
    fn init(&mut self) -> Result<(), &'static str>;

    fn framebuffer(&self) -> &[u8];

    fn resolution(&self) -> (usize, usize);

    fn stride(&self) -> usize;

    fn flush(&self);
}

/// Audio controller.
pub trait AudioDriver: Send {
    fn init(&mut self) -> Result<(), &'static str>;

    fn play(&self, buf: &[u8]) -> Result<(), &'static str>;
}

/// USB host controller.
pub trait UsbHostDriver: Send {
    fn init(&mut self) -> Result<(), &'static str>;

    fn poll(&self);
}

/// The driver a plugin returns for a device, by interface.
pub enum DriverBox {
    Storage(Box<dyn StorageDriver>),
    Network(Box<dyn NetworkDriver>),
    Display(Box<dyn DisplayDriver>),
    Audio(Box<dyn AudioDriver>),
    UsbHost(Box<dyn UsbHostDriver>),
    /// The plugin did not handle this device.
    Unhandled,
}

} // verus!
