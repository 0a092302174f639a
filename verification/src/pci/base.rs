//! The PCI configuration-space address (configuration mechanism #1).
use vstd::prelude::*;

verus! {

/// The value written to the configuration address port to reach the dword at
/// `offset` (rounded down to a multiple of 4) of function `func` of the device in
/// `slot` on `bus`, with the enable bit (bit 31) set.
pub open spec fn config_address_spec(bus: u8, slot: u8, func: u8, offset: u8) -> u32 {
    ((bus as u32) << 16u32) | ((slot as u32) << 11u32) | ((func as u32) << 8u32) | ((offset
        & 0xFCu8) as u32) | 0x80000000u32
}

/// Computes the configuration address (see `config_address_spec`).
pub fn config_address(bus: u8, slot: u8, func: u8, offset: u8) -> (r: u32)
    ensures
        r == config_address_spec(bus, slot, func, offset),
{
    let lbus = bus as u32;
    let lslot = slot as u32;
    let lfunc = func as u32;
    // floor the offset to a multiple of 4
    let floor_offset = offset & 0xFCu8;
    (lbus << 16u32) | (lslot << 11u32) | (lfunc << 8u32) | (floor_offset as u32) | 0x80000000u32
}

} // verus!
