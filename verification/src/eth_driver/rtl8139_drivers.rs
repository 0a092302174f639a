//! The RTL8139 network card: its state and the register values it is driven with.
use vstd::prelude::*;
use crate::net::RX_RING_SIZE;

verus! {

/// The receive buffer: the 8 KiB ring, 16 bytes of slack, and room for a whole
/// packet past the ring's end.
pub const RX_BUFF_SIZE: usize = 9708;

/// The CAPR register (current address of packet read).
pub const CAPR: u16 = 0x0038;

/// The CBR register (current buffer address).
pub const CBR: u16 = 0x003A;

/// The offset of transmit status register `d` (`TSD0`..`TSD3`).
pub open spec fn tsd_spec(d: int) -> int {
    0x10 + 4 * d
}

/// The offset of transmit start address register `d` (`TSAD0`..`TSAD3`).
pub open spec fn tsad_spec(d: int) -> int {
    0x20 + 4 * d
}

/// The offset of transmit status register `d`.
pub fn tsd(d: usize) -> (r: u16)
    requires
        d < 4,
    ensures
        r == tsd_spec(d as int),
{
    if d == 0 {
        0x10
    } else if d == 1 {
        0x14
    } else if d == 2 {
        0x18
    } else {
        0x1C
    }
}

/// The offset of transmit start address register `d`.
pub fn tsad(d: usize) -> (r: u16)
    requires
        d < 4,
    ensures
        r == tsad_spec(d as int),
{
    if d == 0 {
        0x20
    } else if d == 1 {
        0x24
    } else if d == 2 {
        0x28
    } else {
        0x2C
    }
}

/// The driver's state for one card.
pub struct RTL8139EthDriver {
    /// The card's index in the PCI device list.
    pub pci_dev_no: usize,
    /// The card's I/O port base.
    pub base_addr: u16,
    /// The transmit descriptor (0 to 3) to use next.
    pub current_desc: usize,
    /// The physical address of the receive buffer, as given to the card.
    pub rb_start: u32,
    /// Where the next received packet starts in the receive ring.
    pub my_rx_ptr_offset: u16,
    pub rx_buffer: [u8; RX_BUFF_SIZE],
}

/// What to write to the card to send a packet: its physical address to the start
/// address register, then its size to the status register.
pub struct TxCommand {
    /// The port of the start address register of the descriptor used.
    pub tsad_port: u16,
    /// The port of the status register of the descriptor used.
    pub tsd_port: u16,
    /// The packet's physical address.
    pub address: u32,
    /// The status value: the size, with the OWN bit (bit 13) cleared.
    pub tsd_value: u32,
}

/// What the transmit status register says.
pub struct TxStatus {
    /// Transmit underrun (bit 14).
    pub underrun: bool,
    /// Transmit OK (bit 15): the card is done with the descriptor.
    pub ok: bool,
}

impl RTL8139EthDriver {
    /// The driver's invariant: the descriptor index is one of the four, and the read
    /// offset is inside the receive ring.
    pub open spec fn wf(&self) -> bool {
        &&& self.current_desc < 4
        &&& self.my_rx_ptr_offset <= RX_RING_SIZE
    }

    /// The received bytes from the read offset to the end of the buffer: what the
    /// next read sees.
    pub open spec fn rx_rest(&self) -> Seq<u8> {
        self.rx_buffer@.subrange(self.my_rx_ptr_offset as int, RX_BUFF_SIZE as int)
    }

    /// The same driver with its read offset moved to `offset`.
    pub open spec fn with_offset(&self, offset: int) -> RTL8139EthDriver {
        RTL8139EthDriver { my_rx_ptr_offset: offset as u16, ..*self }
    }

    /// A driver for the card at PCI list entry `index`, before it is loaded.
    pub fn new(index: usize) -> (r: RTL8139EthDriver)
        ensures
            r.wf(),
            r.pci_dev_no == index,
            r.base_addr == 0,
            r.current_desc == 0,
            r.rb_start == 0,
            r.my_rx_ptr_offset == 0,
            forall|i: int| 0 <= i < RX_BUFF_SIZE ==> r.rx_buffer@[i] == 0,
    {
        RTL8139EthDriver {
            pci_dev_no: index,
            base_addr: 0x0,
            current_desc: 0x0,
            rb_start: 0,
            my_rx_ptr_offset: 0,
            rx_buffer: [0u8; RX_BUFF_SIZE],
        }
    }

    /// Takes the next transmit descriptor for a packet of `packet_size` bytes at
    /// physical address `packet_addr`, and moves on to the descriptor after it.
    pub fn transmit_packet(&mut self, packet_addr: u32, packet_size: usize) -> (r: TxCommand)
        requires
            old(self).wf(),
            old(self).base_addr + tsad_spec(old(self).current_desc as int) <= u16::MAX,
        ensures
            final(self).wf(),
            r.tsad_port == old(self).base_addr + tsad_spec(old(self).current_desc as int),
            r.tsd_port == old(self).base_addr + tsd_spec(old(self).current_desc as int),
            r.address == packet_addr,
            r.tsd_value == (packet_size as u32) & !0x2000u32,
            *final(self) == (RTL8139EthDriver {
                current_desc: ((old(self).current_desc + 1) % 4) as usize,
                ..*old(self)
            }),
    {
        let d = self.current_desc;
        let tsad_port = self.base_addr + tsad(d);
        let tsd_port = self.base_addr + tsd(d);
        let temp_tsd: u32 = (packet_size as u32) & !(1u32 << 13u32);
        assert(1u32 << 13u32 == 0x2000u32) by (bit_vector);
        self.current_desc = (self.current_desc + 1) % 4;
        TxCommand { tsad_port, tsd_port, address: packet_addr, tsd_value: temp_tsd }
    }

    /// Reads a transmit status value.
    pub fn tx_status(tsd_value: u32) -> (r: TxStatus)
        ensures
            r.underrun == (tsd_value & 0x4000u32 != 0),
            r.ok == (tsd_value & 0x8000u32 != 0),
    {
        assert(1u32 << 14u32 == 0x4000u32 && 1u32 << 15u32 == 0x8000u32) by (bit_vector);
        TxStatus {
            underrun: tsd_value & (1u32 << 14u32) != 0,
            ok: tsd_value & (1u32 << 15u32) != 0,
        }
    }

    /// The card's I/O base from its first base address register: 0 unless the
    /// register maps I/O space (bit 0), else the register without its two low bits.
    pub fn get_base_address(bar0: u32) -> (r: u32)
        ensures
            r == if bar0 & 1 == 0 {
                0
            } else {
                bar0 & 0xFFFFFFFCu32
            },
    {
        let mut bar0 = bar0;
        if bar0 & 0x1u32 == 0 {
            bar0 = 0x0;
        }
        assert(0u32 & 0xFFFFFFFCu32 == 0u32) by (bit_vector);
        bar0 & 0xFFFFFFFCu32
    }

    /// The hardware address as the driver reads it from the card's ID registers: the
    /// two low bytes of the register at offset 4 (high byte first), then the four
    /// bytes of the register at offset 0 (high byte first).
    pub fn get_mac_addr(mac_reg_0: u32, mac_reg_4: u32) -> (r: [u8; 6])
        ensures
            r@ == seq![
                ((mac_reg_4 / 256) % 256) as u8,
                (mac_reg_4 % 256) as u8,
                (mac_reg_0 / 16777216) as u8,
                ((mac_reg_0 / 65536) % 256) as u8,
                ((mac_reg_0 / 256) % 256) as u8,
                (mac_reg_0 % 256) as u8,
            ],
    {
        proof {
            crate::bytes::lemma_split32(mac_reg_0);
            crate::bytes::lemma_split32(mac_reg_4);
        }
        let ret: [u8; 6] = [
            (mac_reg_4 >> 8u32) as u8,
            (mac_reg_4 >> 0u32) as u8,
            (mac_reg_0 >> 24u32) as u8,
            (mac_reg_0 >> 16u32) as u8,
            (mac_reg_0 >> 8u32) as u8,
            (mac_reg_0 >> 0u32) as u8,
        ];
        assert(ret@ =~= seq![
            ((mac_reg_4 / 256) % 256) as u8,
            (mac_reg_4 % 256) as u8,
            (mac_reg_0 / 16777216) as u8,
            ((mac_reg_0 / 65536) % 256) as u8,
            ((mac_reg_0 / 256) % 256) as u8,
            (mac_reg_0 % 256) as u8,
        ]);
        ret
    }
}

} // verus!
