//! A PCI device found on a bus: where it sits and what it is.
use vstd::prelude::*;

verus! {

#[derive(Copy, Clone)]
pub struct PciDevice {
    pub bus_no: u8,
    pub slot_no: u8,
    pub vendor_id: u16,
    pub device_id: u16,
    pub header_type: u8,
}

/// Whether a header type names a CardBus bridge, which has no base address registers read here.
pub open spec fn is_cardbus(header_type: u8) -> bool {
    header_type & 0x7F == 0x02
}

impl PciDevice {
    /// The empty entry: every field all ones, as an absent device reads.
    pub fn new() -> (r: PciDevice)
        ensures
            r == (PciDevice {
                bus_no: 0xFF,
                slot_no: 0xFF,
                vendor_id: 0xFFFF,
                device_id: 0xFFFF,
                header_type: 0xFF,
            }),
    {
        PciDevice {
            bus_no: 0xFF,
            slot_no: 0xFF,
            vendor_id: 0xFFFF,
            device_id: 0xFFFF,
            header_type: 0xFF,
        }
    }

    pub fn get_vendor_id(&self) -> (r: u16)
        ensures
            r == self.vendor_id,
    {
        self.vendor_id
    }

    pub fn get_device_id(&self) -> (r: u16)
        ensures
            r == self.device_id,
    {
        self.device_id
    }

    pub fn get_header_type(&self) -> (r: u8)
        ensures
            r == self.header_type,
    {
        self.header_type
    }

    /// The status register, from the dword at offset 4.
    pub fn get_status_reg(reg: u32) -> (r: u16)
        ensures
            r == reg / 65536,
    {
        crate::pci::_functions_list::get_status_reg(reg)
    }

    /// The command register, from the dword at offset 4.
    pub fn get_command_reg(reg: u32) -> (r: u16)
        ensures
            r == reg % 65536,
    {
        crate::pci::_functions_list::get_command_reg(reg)
    }

    /// The dword at offset 4 with the capabilities-list bit set.
    pub fn enable_capabil_list(reg: u32) -> (r: u32)
        ensures
            r == reg | 0x100000u32,
    {
        crate::pci::_functions_list::enable_capabil_list(reg)
    }

    /// The capabilities pointer, from the dword at offset `0x34`.
    pub fn get_cap_ptr(reg: u32) -> (r: u8)
        ensures
            r == reg % 256,
    {
        crate::pci::_functions_list::get_cap_ptr(reg)
    }

    /// The dword at offset 4 with the bus-master bit set.
    pub fn enable_bus_master(reg: u32) -> (r: u32)
        ensures
            r == reg | 4u32,
    {
        crate::pci::_functions_list::enable_bus_master(reg)
    }

    /// Whether a base address register is read for this device: not for a CardBus bridge.
    pub fn reads_bars(&self) -> (r: bool)
        ensures
            r == !is_cardbus(self.header_type),
    {
        !(self.get_header_type() & 0x7Fu8 == 0x02u8)
    }

    /// The base address register's value: 0 for a CardBus bridge, else `bar_reg`,
    /// the dword read at the register's offset.
    pub fn get_bar_with_no(&self, bar_reg: u32) -> (r: u32)
        ensures
            r == if is_cardbus(self.header_type) {
                0
            } else {
                bar_reg
            },
    {
        let ret: u32;
        if self.get_header_type() & 0x7Fu8 == 0x02u8 {
            ret = 0x0;
        } else {
            ret = bar_reg;
        }
        ret
    }

    /// The interrupt pin and line, from the dword at offset `0x3C`.
    pub fn get_irq_pin_line(reg: u32) -> (r: u16)
        ensures
            r == reg % 65536,
    {
        crate::pci::_functions_list::get_irq_pin_line(reg)
    }
}

} // verus!
