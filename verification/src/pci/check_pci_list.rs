//! Describing the devices found.
use vstd::prelude::*;
use crate::pci::pci_device::PciDevice;
use crate::pci::PciList;

verus! {

/// The layout a header type announces.
#[derive(Copy, Clone, Debug, PartialEq, Eq, Structural)]
pub enum DeviceKind {
    /// Header type 0.
    Standard,
    /// Header type 1.
    PciToPciBridge,
    /// Header type 2.
    CardBusBridge,
    /// Any other header type.
    Other,
}

/// The kind of device a header type announces (its low seven bits).
pub open spec fn device_kind(header_type: u8) -> DeviceKind {
    if header_type & 0x7F == 0 {
        DeviceKind::Standard
    } else if header_type & 0x7F == 1 {
        DeviceKind::PciToPciBridge
    } else if header_type & 0x7F == 2 {
        DeviceKind::CardBusBridge
    } else {
        DeviceKind::Other
    }
}

/// One line of the device listing.
#[derive(Copy, Clone)]
pub struct PciReport {
    pub device: PciDevice,
    /// Whether `header_type & 0x80` equals 1 (it never does: the masked value is 0 or 0x80).
    pub multi_function: bool,
    pub kind: DeviceKind,
}

/// The number of entries listed: those before the first entry with vendor id
/// `0xFFFF` (an empty entry), looking from `i` on.
pub open spec fn listed_from(list: Seq<PciDevice>, i: int) -> int
    decreases 32 - i,
{
    if i >= 32 || i < 0 {
        32
    } else if list[i].vendor_id == 0xFFFF {
        i
    } else {
        listed_from(list, i + 1)
    }
}

/// The line describing a device.
pub open spec fn report_of(d: PciDevice) -> PciReport {
    PciReport { device: d, multi_function: (d.header_type & 0x80) == 1, kind: device_kind(d.header_type) }
}

/// The multi-function test never holds: `header_type & 0x80` is 0 or 0x80, never 1.
pub proof fn lemma_multi_function_never(header_type: u8)
    ensures
        (header_type & 0x80) != 1,
{
    assert((header_type & 0x80u8) != 1u8) by (bit_vector);
}

/// How a device is described: the line names the device itself; its kind is
/// fixed by the low seven bits of its header type (bit 7 only marks a
/// multi-function device): 0 a standard device, 1 a PCI-to-PCI bridge, 2 a
/// CardBus bridge, anything above 2 another kind; and it is never reported as
/// multi-function.
pub proof fn lemma_report_kind(d: PciDevice)
    ensures
        report_of(d).device == d,
        (d.header_type % 128 == 0) == (report_of(d).kind == DeviceKind::Standard),
        (d.header_type % 128 == 1) == (report_of(d).kind == DeviceKind::PciToPciBridge),
        (d.header_type % 128 == 2) == (report_of(d).kind == DeviceKind::CardBusBridge),
        (d.header_type % 128 > 2) == (report_of(d).kind == DeviceKind::Other),
        report_of(d).kind == device_kind((d.header_type + 128) as u8),
        !report_of(d).multi_function,
{
    let h = d.header_type;
    assert(h & 0x7F == h % 128) by (bit_vector);
    assert(((h + 128) as u8) & 0x7F == h & 0x7F) by (bit_vector);
    lemma_multi_function_never(h);
}

/// Describes the devices of `list` in order, up to the first empty entry.
pub fn check_pci_list(list: &PciList) -> (r: Vec<PciReport>)
    ensures
        r@.len() == listed_from(list.list@, 0),
        forall|i: int| 0 <= i < r@.len() ==> #[trigger] r@[i] == report_of(list.list@[i]),
{
    let mut out: Vec<PciReport> = Vec::new();
    let mut i: usize = 0;
    while i < 32
        invariant_except_break
            i <= 32,
            list.list@.len() == 32,
            out@.len() == i,
            listed_from(list.list@, 0) == listed_from(list.list@, i as int),
            forall|k: int| 0 <= k < i ==> #[trigger] out@[k] == report_of(list.list@[k]),
        ensures
            out@.len() == listed_from(list.list@, 0),
            forall|k: int| 0 <= k < out@.len() ==> #[trigger] out@[k] == report_of(list.list@[k]),
        decreases 32 - i,
    {
        let pci_dev = list.list[i];
        if pci_dev.vendor_id == 0xFFFF {
            break;
        }
        let ht = pci_dev.header_type;
        let kind = if ht & 0x7Fu8 == 0x00 {
            DeviceKind::Standard
        } else if ht & 0x7Fu8 == 0x01 {
            DeviceKind::PciToPciBridge
        } else if ht & 0x7Fu8 == 0x02 {
            DeviceKind::CardBusBridge
        } else {
            DeviceKind::Other
        };
        out.push(PciReport { device: pci_dev, multi_function: (ht & 0x80u8) == 1, kind: kind });
        i = i + 1;
    }
    out
}

} // verus!
