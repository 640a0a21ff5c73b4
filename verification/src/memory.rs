//! The board's memory: the heap region and memory-mapped I/O addresses.
use vstd::prelude::*;

verus! {

/// Where the peripherals of the Raspberry Pi 3 start.
pub const MMIO_START: usize = 0x3F000000;

/// The address of the device register `offset` bytes into the peripheral region.
pub fn mmio_address(offset: usize) -> (a: usize)
    requires
        MMIO_START + offset <= usize::MAX,
    ensures
        a == MMIO_START + offset,
{
    MMIO_START + offset
}

/// The size of the heap that runs from `heap_start` up to, not including, `heap_end`.
pub fn heap_size(heap_start: usize, heap_end: usize) -> (size: usize)
    requires
        heap_start <= heap_end,
    ensures
        size == heap_end - heap_start,
{
    heap_end - heap_start
}

/// Offset of the GPIO registers in the peripheral region.
pub const GPIO_OFFSET: usize = 0x0020_0000;
/// Offset of the PL011 UART registers in the peripheral region.
pub const UART_OFFSET: usize = 0x0020_1000;
/// Offset of the VideoCore mailbox in the peripheral region.
pub const VIDEOCORE_MBOX_OFFSET: usize = 0x0000B880;

/// The physical addresses of a board's devices.
#[derive(Debug, Clone, Copy, PartialEq, Eq)]
pub struct MmioMap {
    pub start: usize,
    pub end_inclusive: usize,
    pub gpio_start: usize,
    pub pl011_uart_start: usize,
    pub videocore_mbox: usize,
    pub mbox_read: usize,
    pub mbox_poll: usize,
    pub mbox_sender: usize,
    pub mbox_status: usize,
    pub mbox_config: usize,
    pub mbox_write: usize,
}

/// The device map of the Raspberry Pi 4 when `rpi4` is set, of the Raspberry Pi 3 otherwise:
/// every device at its offset from the start of the peripheral region.
pub fn mmio_map(rpi4: bool) -> (m: MmioMap)
    ensures
        m.start == (if rpi4 { 0xFE00_0000usize } else { 0x3F00_0000usize }),
        m.end_inclusive == (if rpi4 { 0xFF84_FFFFusize } else { 0x4000_FFFFusize }),
        m.gpio_start == m.start + GPIO_OFFSET,
        m.pl011_uart_start == m.start + UART_OFFSET,
        m.videocore_mbox == m.start + VIDEOCORE_MBOX_OFFSET,
        m.mbox_read == m.videocore_mbox,
        m.mbox_poll == m.videocore_mbox + 0x10,
        m.mbox_sender == m.videocore_mbox + 0x14,
        m.mbox_status == m.videocore_mbox + 0x18,
        m.mbox_config == m.videocore_mbox + 0x1C,
        m.mbox_write == m.videocore_mbox + 0x20,
{
    let (start, end_inclusive): (usize, usize) = if rpi4 {
        (0xFE00_0000, 0xFF84_FFFF)
    } else {
        (0x3F00_0000, 0x4000_FFFF)
    };
    let videocore_mbox = start + VIDEOCORE_MBOX_OFFSET;
    MmioMap {
        start,
        end_inclusive,
        gpio_start: start + GPIO_OFFSET,
        pl011_uart_start: start + UART_OFFSET,
        videocore_mbox,
        mbox_read: videocore_mbox,
        mbox_poll: videocore_mbox + 0x10,
        mbox_sender: videocore_mbox + 0x14,
        mbox_status: videocore_mbox + 0x18,
        mbox_config: videocore_mbox + 0x1C,
        mbox_write: videocore_mbox + 0x20,
    }
}

} // verus!
