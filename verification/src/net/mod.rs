//! The network stack: headers, checksums, and what each received packet asks the
//! station to do.
pub mod head_struct;
pub mod checksum;
pub mod ip;
pub mod tcp;
pub mod udp;
pub mod arp;
pub mod dhcp;

use vstd::prelude::*;
use crate::net::ip::NetConfig;
use crate::bytes::{be16, lemma_join16, u16_bytes};
use crate::net::head_struct::{EthernetHeader, ARPHeader, IPHeader, TCPHeader, field16};
use crate::net::arp::{arp_deal, arp_reply};
use crate::eth_driver::rtl8139_drivers::RTL8139EthDriver;
use crate::net::tcp::{
    tcp_dispatch, tcp_dispatch_action, tcp_dispatch_consumed, tcp_dispatch_defined,
    tcp_dispatch_is_defined, halts,
};

verus! {

/// What handling a received packet asks of the station.
pub enum Action {
    /// Nothing to send.
    Nothing,
    /// Send this frame.
    Send(Vec<u8>),
    /// Send this frame, then halt.
    SendAndHalt(Vec<u8>),
    /// Halt.
    Halt,
    /// Take this configuration (a DHCP acknowledgement).
    Configure(NetConfig),
}

/// The mathematical content of an `Action`.
pub ghost enum ActionView {
    Nothing,
    Send(Seq<u8>),
    SendAndHalt(Seq<u8>),
    Halt,
    Configure(NetConfig),
}

impl View for Action {
    type V = ActionView;

    open spec fn view(&self) -> ActionView {
        match self {
            Action::Nothing => ActionView::Nothing,
            Action::Send(f) => ActionView::Send(f@),
            Action::SendAndHalt(f) => ActionView::SendAndHalt(f@),
            Action::Halt => ActionView::Halt,
            Action::Configure(c) => ActionView::Configure(*c),
        }
    }
}


/// The size of the receive ring: past this the read offset wraps to the start.
pub const RX_RING_SIZE: u16 = 8192;

/// How far past a packet's start the handling of a packet reads: the 4-byte
/// receive status and length, the Ethernet header, and at most an IP header, a
/// TCP header and an 800-byte payload window.
pub const PACKET_READ_SPAN: usize = 858;

/// The length the card wrote, in little-endian order, before the packet at `offset`.
pub open spec fn packet_length(rx: Seq<u8>, offset: int) -> int {
    be16(rx[offset + 3], rx[offset + 2])
}

/// `x` rounded up to a multiple of 4.
pub open spec fn align4(x: int) -> int {
    if x % 4 == 0 {
        x
    } else {
        x - x % 4 + 4
    }
}

/// The end of the packet at `offset`: past its status, length and `packet_length` bytes.
pub open spec fn packet_end(rx: Seq<u8>, offset: int) -> int {
    offset + 4 + packet_length(rx, offset)
}

/// The read offset after a packet that ends at `end`: the end rounded up to a
/// multiple of 4, or 0 when that passes the ring's end.
pub open spec fn next_rx_offset(end: int) -> int {
    if align4(end) > RX_RING_SIZE {
        0
    } else {
        align4(end)
    }
}

/// The value written to the card's CAPR register after a packet that ends at
/// `end`: the new offset less 16, or `0xFFF0` when the ring wraps.
pub open spec fn next_capr(end: int) -> int {
    if align4(end) > RX_RING_SIZE {
        0xFFF0
    } else {
        align4(end) - 16
    }
}

/// Whether moving past a packet that ends at `end` stays within 16 bits.
pub open spec fn rx_update_defined(end: int) -> bool {
    &&& end <= u16::MAX
    &&& align4(end) <= u16::MAX
    &&& align4(end) <= RX_RING_SIZE ==> align4(end) >= 16
}

/// The Ethernet header of the packet at `offset`.
pub open spec fn eth_at(rx: Seq<u8>, offset: int) -> EthernetHeader {
    EthernetHeader::parse(rx.subrange(offset + 4, offset + 18))
}

/// The IP header of the packet at `offset`.
pub open spec fn ip_at(rx: Seq<u8>, offset: int) -> IPHeader {
    IPHeader::parse(rx.subrange(offset + 18, offset + 38))
}

/// The TCP header of the packet at `offset`.
pub open spec fn tcp_at(rx: Seq<u8>, offset: int) -> TCPHeader {
    TCPHeader::parse(rx.subrange(offset + 38, offset + 58))
}

/// What the packet at `offset` in the receive buffer asks for: an ARP request
/// (type `0x806`) is answered; a TCP segment in an IP packet (type `0x800`) is
/// handed on by its flags, a segment without SYN being handled whatever its ACK;
/// anything else is left alone.
pub open spec fn deal_packet_action(rx: Seq<u8>, offset: int, my_mac: [u8; 6], accept_port: u16) -> ActionView {
    let eth = eth_at(rx, offset);
    if field16(eth.eth_type) == 0x806 {
        let arp = ARPHeader::parse(rx.subrange(offset + 18, offset + 46));
        let (e, a) = arp_reply(arp, eth, my_mac);
        ActionView::Send(e.bytes() + a.bytes())
    } else if field16(eth.eth_type) == 0x800 {
        let ip = ip_at(rx, offset);
        if ip.protocol == 6 {
            tcp_dispatch_action(
                eth,
                ip,
                tcp_at(rx, offset),
                rx.subrange(offset + 58, rx.len() as int),
                accept_port,
                false,
            )
        } else {
            ActionView::Nothing
        }
    } else {
        ActionView::Nothing
    }
}

/// Whether handling the packet at `offset` runs to its end: the reads stay inside
/// the buffer, the TCP handling runs to its end, and, unless the station halts,
/// moving the read offset past the packet stays within 16 bits.
pub open spec fn deal_packet_defined(rx: Seq<u8>, offset: int, my_mac: [u8; 6], accept_port: u16) -> bool {
    &&& 0 <= offset
    &&& offset + PACKET_READ_SPAN <= rx.len()
    &&& (field16(eth_at(rx, offset).eth_type) == 0x800 && ip_at(rx, offset).protocol == 6)
        ==> tcp_dispatch_defined(
        ip_at(rx, offset),
        tcp_at(rx, offset),
        rx.subrange(offset + 58, rx.len() as int),
        accept_port,
        false,
        offset + 58,
    )
    &&& !halts(deal_packet_action(rx, offset, my_mac, accept_port)) ==> rx_update_defined(
        packet_end(rx, offset),
    )
}

/// What receiving one packet does besides moving the read offset: what the
/// packet asks for, and the values for the card's registers.  When the action
/// halts the station, the register values are not used.
pub struct PacketOutcome {
    pub action: Action,
    /// The value to write to the card's CAPR register.
    pub capr: u16,
    /// Whether the ring wrapped, so the card's CBR register is to be cleared too.
    pub cbr_reset: bool,
}

proof fn lemma_align4_bits(x: u16)
    ensures
        (x & 3u16 != 0) == (x % 4 != 0),
        x & !3u16 == x - x % 4,
{
    assert((x & 3u16 != 0) == (x % 4 != 0)) by (bit_vector);
    assert(x & !3u16 == x - x % 4) by (bit_vector);
}

/// Handles the packet at the card's read offset, for the station with hardware
/// address `my_mac` serving TCP on `accept_port`.  Unless the station halts, the
/// read offset then moves past the packet; when it halts, the read offset is left
/// where the reading stopped: past the packet's status and length, its headers,
/// and what the TCP handling read (see `tcp_dispatch_consumed`).
pub fn deal_packet(eth_dev: &mut RTL8139EthDriver, my_mac: [u8; 6], accept_port: u16) -> (r: PacketOutcome)
    requires
        old(eth_dev).wf(),
        deal_packet_defined(old(eth_dev).rx_buffer@, old(eth_dev).my_rx_ptr_offset as int, my_mac, accept_port),
    ensures
        r.action@ == deal_packet_action(
            old(eth_dev).rx_buffer@,
            old(eth_dev).my_rx_ptr_offset as int,
            my_mac,
            accept_port,
        ),
        halts(r.action@) ==> *final(eth_dev) == old(eth_dev).with_offset(
            old(eth_dev).my_rx_ptr_offset + 58 + tcp_dispatch_consumed(
                ip_at(old(eth_dev).rx_buffer@, old(eth_dev).my_rx_ptr_offset as int),
                tcp_at(old(eth_dev).rx_buffer@, old(eth_dev).my_rx_ptr_offset as int),
                accept_port,
                false,
            ),
        ),
        !halts(r.action@) ==> {
            let end = packet_end(old(eth_dev).rx_buffer@, old(eth_dev).my_rx_ptr_offset as int);
            &&& final(eth_dev).wf()
            &&& *final(eth_dev) == old(eth_dev).with_offset(next_rx_offset(end))
            &&& r.capr == next_capr(end)
            &&& r.cbr_reset == (align4(end) > RX_RING_SIZE)
        },
{
    let offset = eth_dev.my_rx_ptr_offset;
    let rx: &[u8] = eth_dev.rx_buffer.as_slice();
    let start = offset as usize;
    // receive status, then the length in little-endian order
    let len_lo = rx[start + 2];
    let len_hi = rx[start + 3];
    proof {
        lemma_join16(len_hi, len_lo);
    }
    let packet_length = ((len_hi as u16) << 8u16) | (len_lo as u16);
    let at = start + 4;

    let eth_header = EthernetHeader::from_bytes(rx, at);
    let action = if eth_header.get_type() == 0x806 {
        let arp_req_header = ARPHeader::from_bytes(rx, at + 14);
        let (e, a) = arp_deal(&arp_req_header, &eth_header, my_mac);
        let mut frame: Vec<u8> = Vec::new();
        e.to_bytes(&mut frame);
        a.to_bytes(&mut frame);
        Action::Send(frame)
    } else if eth_header.get_type() == 0x800 {
        let ip_header = IPHeader::from_bytes(rx, at + 14);
        if ip_header.is_tcp() {
            let tcp_header = TCPHeader::from_bytes(rx, at + 34);
            // past the status, the length and the three headers
            eth_dev.my_rx_ptr_offset = offset + 58;
            assert(eth_dev.rx_rest() =~= old(eth_dev).rx_buffer@.subrange(
                offset + 58,
                old(eth_dev).rx_buffer@.len() as int,
            ));
            tcp_dispatch(&eth_header, &ip_header, &tcp_header, eth_dev, accept_port, false)
        } else {
            Action::Nothing
        }
    } else {
        Action::Nothing
    };
    if let Action::Halt = action {
        return PacketOutcome { action, capr: 0, cbr_reset: false };
    }
    if let Action::SendAndHalt(_) = action {
        return PacketOutcome { action, capr: 0, cbr_reset: false };
    }

    let mut length_with_ind: u16 = offset + 4 + packet_length;
    proof {
        lemma_align4_bits(length_with_ind);
    }
    if length_with_ind & 3u16 != 0 {
        length_with_ind = length_with_ind & !3u16;
        length_with_ind = length_with_ind + 4;
    }
    if length_with_ind > RX_RING_SIZE {
        eth_dev.my_rx_ptr_offset = 0;
        PacketOutcome { action, capr: 0xFFF0, cbr_reset: true }
    } else {
        eth_dev.my_rx_ptr_offset = length_with_ind;
        PacketOutcome { action, capr: eth_dev.my_rx_ptr_offset - 16, cbr_reset: false }
    }
}

/// Tells whether `deal_packet` runs to its end on the packet at the card's read
/// offset (see `deal_packet_defined`); a caller that gets `false` is looking at a
/// packet on which the handling cannot go on.
pub fn deal_packet_is_defined(eth_dev: &RTL8139EthDriver, my_mac: [u8; 6], accept_port: u16) -> (r: bool)
    ensures
        r == deal_packet_defined(eth_dev.rx_buffer@, eth_dev.my_rx_ptr_offset as int, my_mac, accept_port),
{
    let rx: &[u8] = eth_dev.rx_buffer.as_slice();
    let offset = eth_dev.my_rx_ptr_offset;
    let n = rx.len();
    let start = offset as usize;
    if start > n || n - start < PACKET_READ_SPAN {
        return false;
    }
    let at = start + 4;
    let eth_header = EthernetHeader::from_bytes(rx, at);
    let mut halting = false;
    if eth_header.get_type() == 0x800 {
        let ip_header = IPHeader::from_bytes(rx, at + 14);
        if ip_header.is_tcp() {
            let tcp_header = TCPHeader::from_bytes(rx, at + 34);
            let rest = &rx[at + 54..n];
            let (defined, h) = tcp_dispatch_is_defined(
                &ip_header,
                &tcp_header,
                rest,
                offset + 58,
                accept_port,
                false,
            );
            if !defined {
                return false;
            }
            halting = h;
            assert(halting == halts(deal_packet_action(rx@, offset as int, my_mac, accept_port)));
        }
    }
    if halting {
        return true;
    }
    let len_lo = rx[start + 2];
    let len_hi = rx[start + 3];
    proof {
        lemma_join16(len_hi, len_lo);
    }
    let packet_length = ((len_hi as u16) << 8u16) | (len_lo as u16);
    if offset as u32 + 4 + packet_length as u32 > 0xFFFF {
        return false;
    }
    let end: u16 = offset + 4 + packet_length;
    proof {
        lemma_align4_bits(end);
    }
    if end & 3u16 != 0 {
        let base = end & !3u16;
        if base > u16::MAX - 4 {
            return false;
        }
        let aligned = base + 4;
        aligned > RX_RING_SIZE || aligned >= 16
    } else {
        end > RX_RING_SIZE || end >= 16
    }
}


/// The next read offset is inside the ring and a multiple of 4, so the reads of
/// the next packet start where the card writes them.
pub proof fn lemma_next_rx_offset_in_ring(end: int)
    requires
        0 <= end,
    ensures
        0 <= next_rx_offset(end) <= RX_RING_SIZE,
        next_rx_offset(end) % 4 == 0,
{
}

/// The card writes a packet's length after its two status bytes, low byte first,
/// and the packet ends past those four bytes and that many more.
pub proof fn lemma_packet_end(rx: Seq<u8>, offset: int)
    ensures
        packet_length(rx, offset) == rx[offset + 2] + 256 * rx[offset + 3],
        packet_end(rx, offset) == offset + 4 + rx[offset + 2] + 256 * rx[offset + 3],
{
}

/// Where the read offset goes after a packet that ends at `end`: within the ring,
/// to the least multiple of 4 not below `end` (so a packet that ends on a 4-byte
/// boundary is followed at once), with CAPR 16 below it and no wrap; past the ring,
/// back to 0, with CAPR `0xFFF0` and a wrap.
pub proof fn lemma_rx_offset_after_packet(end: int)
    requires
        0 <= end,
    ensures
        end <= RX_RING_SIZE ==> {
            &&& next_rx_offset(end) % 4 == 0
            &&& end <= next_rx_offset(end) < end + 4
            &&& next_capr(end) == next_rx_offset(end) - 16
            &&& !(align4(end) > RX_RING_SIZE)
        },
        end % 4 == 0 && end <= RX_RING_SIZE ==> next_rx_offset(end) == end,
        end > RX_RING_SIZE ==> {
            &&& next_rx_offset(end) == 0
            &&& next_capr(end) == 0xFFF0
            &&& align4(end) > RX_RING_SIZE
        },
{
}

/// What the card's interrupt status register says, and what to write back to
/// acknowledge it.
pub struct IsrEvent {
    /// 1: transmit OK; 2: receive OK; -2: receive error; -3: another interrupt; 0: none.
    pub code: i8,
    /// The value to write back to the status register, if any.
    pub ack: Option<u16>,
    /// Whether the receive buffer overflowed (reported with another interrupt).
    pub rx_overflow: bool,
}

/// Reads the interrupt status `isr`: transmit OK (bit 2) first, then a receive
/// error (bit 0 with bit 4 or 6), then receive OK (bit 0), then anything else,
/// each acknowledged by writing back its bits.
pub open spec fn isr_event(isr: u16) -> (i8, Option<u16>, bool) {
    if isr & 0b100 != 0 {
        (1i8, Some(0b100u16), false)
    } else if isr & 1 != 0 && isr & 0b1010000 != 0 {
        (-2i8, Some(0b1010001u16), false)
    } else if isr & 1 != 0 {
        (2, Some(1u16), false)
    } else if isr != 0 {
        (-3i8, Some(isr), isr & 0b10000 != 0)
    } else {
        (0, None, false)
    }
}

/// How the interrupt status is read, bit by bit: transmit OK (bit 2) wins and is
/// acknowledged alone; otherwise receive OK (bit 0) together with a receive
/// buffer overflow (bit 4) or a FIFO overflow (bit 6) is a receive error,
/// acknowledged with all three bits; receive OK alone is a received packet,
/// acknowledged alone; any other set bit is another interrupt, acknowledged with
/// the whole status, reporting an overflow when bit 4 is set; a clear status
/// reports nothing.
pub proof fn lemma_isr_decoding(isr: u16)
    ensures
        isr & 4 != 0 ==> isr_event(isr) == (1i8, Some(0b100u16), false),
        isr & 4 == 0 && isr & 1 != 0 && (isr & 0x10 != 0 || isr & 0x40 != 0) ==> isr_event(isr) == (
        -2i8, Some(0b1010001u16), false),
        isr & 4 == 0 && isr & 1 != 0 && isr & 0x10 == 0 && isr & 0x40 == 0 ==> isr_event(isr) == (
        2i8, Some(1u16), false),
        isr & 4 == 0 && isr & 1 == 0 && isr != 0 ==> isr_event(isr) == (-3i8, Some(isr), isr & 0x10
            != 0),
        isr == 0 ==> isr_event(isr) == (0i8, None::<u16>, false),
{
    assert((isr & 0b1010000u16 != 0) == (isr & 0x10u16 != 0 || isr & 0x40u16 != 0)) by (bit_vector);
    assert(isr == 0 ==> isr & 4 == 0 && isr & 1 == 0) by (bit_vector);
}

/// Decides what the interrupt status `isr` of the card reports (see `isr_event`).
pub fn interrupt_asker(isr: u16) -> (r: IsrEvent)
    ensures
        (r.code, r.ack, r.rx_overflow) == isr_event(isr),
{
    if isr & 0b0100u16 != 0 {
        IsrEvent { code: 1, ack: Some(0b100u16), rx_overflow: false }
    } else if (isr & 1u16 != 0) && (isr & 0b1010000u16 != 0) {
        IsrEvent { code: -2, ack: Some(0b1010001u16), rx_overflow: false }
    } else if isr & 0b1u16 != 0 {
        IsrEvent { code: 2, ack: Some(0b1u16), rx_overflow: false }
    } else if isr != 0 {
        IsrEvent { code: -3, ack: Some(isr), rx_overflow: isr & 0b10000u16 != 0 }
    } else {
        IsrEvent { code: 0, ack: None, rx_overflow: false }
    }
}

/// The test frame: a bare Ethernet header of type `0x0800` from `src_mac` to the
/// broadcast address.
pub fn test_transmit(src_mac: [u8; 6]) -> (r: EthernetHeader)
    ensures
        r == (EthernetHeader {
            dest: [0xFFu8, 0xFF, 0xFF, 0xFF, 0xFF, 0xFF],
            src: src_mac,
            eth_type: u16_bytes(0x0800),
        }),
{
    let r = EthernetHeader::new(src_mac, [0xFFu8; 6], 0x0800u16);
    assert(r.dest =~= [0xFFu8, 0xFF, 0xFF, 0xFF, 0xFF, 0xFF]);
    r
}

} // verus!
