//! Whether a slot holds a device, and recording it.
use vstd::prelude::*;
use crate::pci::pci_device::PciDevice;
use crate::pci::_functions_list::{get_vendor_id, get_device_id, get_header_type};

verus! {

/// Whether the dword at offset 0 of a slot's function 0 shows a device: an empty
/// slot reads vendor id `0xFFFF`.
pub open spec fn present(id_reg: u32) -> bool {
    id_reg % 65536 != 0xFFFF
}

/// The device in `slot` on `bus`, from the dwords at offsets 0 and `0x0C` of its function 0.
pub open spec fn device_from(bus: u8, slot: u8, id_reg: u32, header_reg: u32) -> PciDevice {
    PciDevice {
        bus_no: bus,
        slot_no: slot,
        vendor_id: (id_reg % 65536) as u16,
        device_id: (id_reg / 65536) as u16,
        header_type: ((header_reg / 65536) % 256) as u8,
    }
}

/// Records in `pci_device` the device in `slot` on `bus`, if there is one there.
pub fn check_device_and_add(
    bus: u8,
    slot: u8,
    id_reg: u32,
    header_reg: u32,
    pci_device: &mut PciDevice,
) -> (r: bool)
    ensures
        r == present(id_reg),
        *final(pci_device) == if r {
            device_from(bus, slot, id_reg, header_reg)
        } else {
            *old(pci_device)
        },
{
    let vendor_id = get_vendor_id(id_reg);
    let device_id = get_device_id(id_reg);
    let header_type = get_header_type(header_reg);

    if vendor_id != 0xFFFF {
        pci_device.vendor_id = vendor_id;
        pci_device.device_id = device_id;
        pci_device.header_type = header_type;
        pci_device.bus_no = bus;
        pci_device.slot_no = slot;
    }
    vendor_id != 0xFFFF
}

/// Whether a slot holds a device, from the dword at offset 0 of its function 0.
pub fn check_device(id_reg: u32) -> (r: bool)
    ensures
        r == present(id_reg),
{
    let vendor_id = get_vendor_id(id_reg);
    vendor_id != 0xFFFF
}

} // verus!
