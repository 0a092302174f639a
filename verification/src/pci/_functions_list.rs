//! The fields of the standard PCI configuration header, decoded from the dwords
//! that hold them.
use vstd::prelude::*;

verus! {

proof fn lemma_field_bits(reg: u32)
    ensures
        reg & 0xFFFFu32 == reg % 65536,
        (reg & 0xFFFF0000u32) >> 16u32 == reg / 65536,
        (reg & 0x00FF0000u32) >> 16u32 == (reg / 65536) % 256,
        reg & 0x00FFu32 == reg % 256,
{
    assert(reg & 0xFFFFu32 == reg % 65536) by (bit_vector);
    assert((reg & 0xFFFF0000u32) >> 16u32 == reg / 65536) by (bit_vector);
    assert((reg & 0x00FF0000u32) >> 16u32 == (reg / 65536) % 256) by (bit_vector);
    assert(reg & 0x00FFu32 == reg % 256) by (bit_vector);
}

/// The vendor id: the low half of the dword at offset 0.
pub fn get_vendor_id(reg: u32) -> (r: u16)
    ensures
        r == reg % 65536,
{
    proof {
        lemma_field_bits(reg);
    }
    (reg & 0xFFFFu32) as u16
}

/// The device id: the high half of the dword at offset 0.
pub fn get_device_id(reg: u32) -> (r: u16)
    ensures
        r == reg / 65536,
{
    proof {
        lemma_field_bits(reg);
    }
    ((reg & 0xFFFF0000u32) >> 16u32) as u16
}

/// The header type: byte 2 of the dword at offset `0x0C`.
pub fn get_header_type(reg: u32) -> (r: u8)
    ensures
        r == (reg / 65536) % 256,
{
    proof {
        lemma_field_bits(reg);
    }
    ((reg & 0x00FF0000u32) >> 16u32) as u8
}

/// The status register: the high half of the dword at offset 4.
pub fn get_status_reg(reg: u32) -> (r: u16)
    ensures
        r == reg / 65536,
{
    proof {
        lemma_field_bits(reg);
    }
    ((reg & 0xFFFF0000u32) >> 16u32) as u16
}

/// The command register: the low half of the dword at offset 4.
pub fn get_command_reg(reg: u32) -> (r: u16)
    ensures
        r == reg % 65536,
{
    proof {
        lemma_field_bits(reg);
    }
    (reg & 0xFFFFu32) as u16
}

/// The capabilities pointer: the low byte of the dword at offset `0x34`.
pub fn get_cap_ptr(reg: u32) -> (r: u8)
    ensures
        r == reg % 256,
{
    proof {
        lemma_field_bits(reg);
    }
    (reg & 0x00FFu32) as u8
}

/// The interrupt pin and line: the low half of the dword at offset `0x3C`.
pub fn get_irq_pin_line(reg: u32) -> (r: u16)
    ensures
        r == reg % 65536,
{
    proof {
        lemma_field_bits(reg);
    }
    (reg & 0xFFFFu32) as u16
}

/// The dword at offset 4 to write back so that the status register's
/// capabilities-list bit (bit 4 of the status, bit 20 of the dword) is set.
pub fn enable_capabil_list(reg: u32) -> (r: u32)
    ensures
        r == reg | 0x100000u32,
{
    let mut tmp = reg;
    tmp = tmp | (1u32 << 20u32);
    assert(1u32 << 20u32 == 0x100000u32) by (bit_vector);
    tmp
}

/// The dword at offset 4 to write back so that the command register's
/// bus-master bit (bit 2) is set.
pub fn enable_bus_master(reg: u32) -> (r: u32)
    ensures
        r == reg | 4u32,
{
    let mut tmp = reg;
    tmp = tmp | (1u32 << 2u32);
    assert(1u32 << 2u32 == 4u32) by (bit_vector);
    tmp
}

/// The offset of base address register `base_addr_no` in the configuration header.
pub fn bar_offset(base_addr_no: u8) -> (r: u8)
    requires
        base_addr_no <= 59,
    ensures
        r == 0x10 + 4 * base_addr_no,
{
    0x10u8 + 0x04u8 * base_addr_no
}

} // verus!
