//! The card as a PCI device.
use vstd::prelude::*;
use crate::pci::PciList;
use crate::pci::pci_device::PciDevice;

verus! {

/// The card: the fourth entry of the PCI device list.
pub fn detect_network_device(pci_list: &PciList) -> (r: PciDevice)
    ensures
        r == pci_list.list@[3],
{
    pci_list.list[3]
}

/// The card's I/O base from its first base address register: 0 unless the
/// register maps I/O space (bit 0), else the register without its two low bits.
pub fn get_base_address(bar0: u32) -> (r: u32)
    ensures
        r == if bar0 & 1 == 0 {
            0
        } else {
            bar0 & 0xFFFFFFFCu32
        },
{
    crate::eth_driver::rtl8139_drivers::RTL8139EthDriver::get_base_address(bar0)
}

/// Switching the card on from its PCI side: the device entry is left as it is.
pub fn turn_on_eth_dev(eth_dev: &mut PciDevice)
    ensures
        *final(eth_dev) == *old(eth_dev),
{
}

} // verus!
