//! PCI: configuration addresses, the devices on bus 0 and their description.
pub mod base;
pub mod pci_device;
pub mod _functions_list;
pub mod check_device;
pub mod check_bus;
pub mod check_pci_list;

use vstd::prelude::*;
use crate::pci::pci_device::PciDevice;
use crate::pci::check_pci_list::{check_pci_list, listed_from, report_of, PciReport};

verus! {

/// The devices found on bus 0, in the order of their slots; the unused entries are empty.
pub struct PciList {
    pub list: [PciDevice; 32],
}

impl PciList {
    /// Does nothing: the list is filled when it is made.
    pub fn load(&self) {
    }
}

/// Describes the devices of the list (see `check_pci_list`).
pub fn pci_init(list: &PciList) -> (r: Vec<PciReport>)
    ensures
        r@.len() == listed_from(list.list@, 0),
        forall|i: int| 0 <= i < r@.len() ==> #[trigger] r@[i] == report_of(list.list@[i]),
{
    list.load();
    check_pci_list(list)
}

} // verus!
