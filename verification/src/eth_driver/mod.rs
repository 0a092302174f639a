//! The Ethernet driver: which PCI device is the card, and the RTL8139's state.
pub mod base;
pub mod rtl8139_drivers;

use vstd::prelude::*;
use crate::pci::PciList;
use crate::eth_driver::rtl8139_drivers::RTL8139EthDriver;

verus! {

/// The card's PCI vendor id (Realtek).
pub const RTL_VENDOR_ID: u16 = 0x10EC;

/// The card's PCI device id (RTL8139).
pub const RTL_DEVICE_ID: u16 = 0x8139;

/// Where the network card is: the fourth entry of the PCI device list.
pub fn detect_network_device() -> (r: (bool, usize))
    ensures
        r == (true, 3usize),
{
    (true, 3)
}

/// Takes the PCI device at `eth_index` as the card if it is an RTL8139: the driver
/// then records its index and the physical address of its receive buffer (the low
/// 32 bits of `rx_buffer_phys`).  Another device is refused and nothing changes.
pub fn load_network_device(
    eth_dev: &mut RTL8139EthDriver,
    pci_list: &PciList,
    eth_index: usize,
    rx_buffer_phys: u64,
) -> (r: bool)
    requires
        eth_index < 32,
    ensures
        r == (pci_list.list@[eth_index as int].vendor_id == RTL_VENDOR_ID
            && pci_list.list@[eth_index as int].device_id == RTL_DEVICE_ID),
        *final(eth_dev) == if r {
            RTL8139EthDriver {
                pci_dev_no: eth_index,
                rb_start: rx_buffer_phys as u32,
                ..*old(eth_dev)
            }
        } else {
            *old(eth_dev)
        },
{
    let eth_pci = pci_list.list[eth_index];
    if eth_pci.get_vendor_id() == RTL_VENDOR_ID && eth_pci.get_device_id() == RTL_DEVICE_ID {
        eth_dev.pci_dev_no = eth_index;
        eth_dev.rb_start = rx_buffer_phys as u32;
        true
    } else {
        false
    }
}

} // verus!
