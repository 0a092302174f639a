//! Scanning the 32 slots of a bus.
use vstd::prelude::*;
use crate::pci::pci_device::PciDevice;
use crate::pci::check_device::{check_device, check_device_and_add, device_from, present};

verus! {

/// How many of the first `n` slots hold a device, by the dwords at offset 0 of their function 0.
pub open spec fn count_present(id_regs: Seq<u32>, n: int) -> int
    decreases n,
{
    if n <= 0 {
        0
    } else {
        count_present(id_regs, n - 1) + if present(id_regs[n - 1]) {
            1int
        } else {
            0int
        }
    }
}

proof fn lemma_count_present_bounds(id_regs: Seq<u32>, n: int)
    requires
        0 <= n,
    ensures
        0 <= count_present(id_regs, n) <= n,
    decreases n,
{
    if n > 0 {
        lemma_count_present_bounds(id_regs, n - 1);
    }
}

proof fn lemma_count_present_mono(id_regs: Seq<u32>, i: int, n: int)
    requires
        0 <= i <= n,
    ensures
        count_present(id_regs, i) <= count_present(id_regs, n),
    decreases n - i,
{
    if i < n {
        lemma_count_present_mono(id_regs, i, n - 1);
    }
}

/// Records the devices on `bus` one after the other in `pci_list`, from entry
/// `init_count` on: slot by slot, the device found in a slot goes to the next
/// free entry.  `id_regs` and `header_regs` are the dwords at offsets 0 and
/// `0x0C` of function 0 of each slot.  Returns how many devices were found.
pub fn check_bus_and_get_list(
    bus: u8,
    id_regs: &[u32; 32],
    header_regs: &[u32; 32],
    pci_list: &mut [PciDevice; 32],
    init_count: u8,
) -> (r: u8)
    requires
        init_count + count_present(id_regs@, 31) < 32,
    ensures
        r == count_present(id_regs@, 32),
        forall|s: int|
            0 <= s < 32 && present(#[trigger] id_regs@[s]) ==> final(pci_list)@[init_count
                + count_present(id_regs@, s)] == device_from(bus, s as u8, id_regs@[s], header_regs@[s]),
        forall|j: int|
            0 <= j < 32 && !(init_count <= j < init_count + r) ==> #[trigger] final(pci_list)@[j]
                == old(pci_list)@[j],
{
    let mut count: usize = 0;
    let mut slot: usize = 0;
    while slot < 32
        invariant
            slot <= 32,
            count == count_present(id_regs@, slot as int),
            init_count + count_present(id_regs@, 31) < 32,
            pci_list@.len() == 32,
            forall|s: int|
                0 <= s < slot && present(#[trigger] id_regs@[s]) ==> pci_list@[init_count
                    + count_present(id_regs@, s)] == device_from(bus, s as u8, id_regs@[s], header_regs@[s]),
            forall|j: int|
                0 <= j < 32 && !(init_count <= j < init_count + count) ==> #[trigger] pci_list@[j]
                    == old(pci_list)@[j],
        decreases 32 - slot,
    {
        proof {
            lemma_count_present_mono(id_regs@, slot as int, 31);
            lemma_count_present_bounds(id_regs@, slot as int);
        }
        let idx = init_count as usize + count;
        let ghost prev = pci_list@;
        let mut entry = pci_list[idx];
        let found = check_device_and_add(bus, slot as u8, id_regs[slot], header_regs[slot], &mut entry);
        pci_list[idx] = entry;
        if found {
            count = count + 1;
        }
        proof {
            assert forall|s: int|
                0 <= s < slot + 1 && present(#[trigger] id_regs@[s]) implies pci_list@[init_count
                    + count_present(id_regs@, s)] == device_from(bus, s as u8, id_regs@[s], header_regs@[s]) by {
                assert(count_present(id_regs@, s + 1) == count_present(id_regs@, s) + 1);
                if s < slot {
                    lemma_count_present_mono(id_regs@, s + 1, slot as int);
                    lemma_count_present_bounds(id_regs@, s);
                    assert(pci_list@ == prev.update(idx as int, entry));
                }
            }
        }
        slot = slot + 1;
    }
    proof {
        lemma_count_present_bounds(id_regs@, 32);
    }
    count as u8
}

/// How many of the 32 slots of a bus hold a device, from the dwords at offset 0
/// of function 0 of each slot.
pub fn check_bus(id_regs: &[u32; 32]) -> (r: u8)
    ensures
        r == count_present(id_regs@, 32),
{
    let mut count: u8 = 0;
    let mut slot: usize = 0;
    while slot < 32
        invariant
            slot <= 32,
            count == count_present(id_regs@, slot as int),
        decreases 32 - slot,
    {
        proof {
            lemma_count_present_bounds(id_regs@, slot as int);
        }
        if check_device(id_regs[slot]) {
            count = count + 1;
        }
        slot = slot + 1;
    }
    count
}

} // verus!
