//! The wire headers of Ethernet, ARP, IPv4, TCP, UDP and DHCP.
//!
//! Every multi-byte field is kept as it stands on the wire, in network order;
//! the accessors convert to and from integers.  A header's `bytes` is its wire
//! image: the fields one after the other, with no padding.
use vstd::prelude::*;
use crate::bytes::{read_array, push_array, be16, be32, u16_bytes, u32_bytes, lemma_join16, lemma_join32, lemma_split16, lemma_split32};

verus! {

pub const ETHERNET_HEADER_SIZE: u16 = 14;
pub const ARP_HEADER_SIZE: u16 = 28;
pub const IP_HEADER_SIZE: u16 = 20;
pub const TCP_HEADER_SIZE: u16 = 20;
pub const UDP_HEADER_SIZE: u16 = 8;
pub const DHCP_HEADER_SIZE: u16 = 240;

pub const TCP_FIN: u8 = 1;
pub const TCP_SYN: u8 = 2;
pub const TCP_RST: u8 = 4;
pub const TCP_PSH: u8 = 8;
pub const TCP_ACK: u8 = 16;

/// Whether the bit `mask` is set in `flags`.
pub open spec fn flag_set(flags: u8, mask: u8) -> bool {
    flags & mask != 0
}

/// `flags` with the bit `mask` switched on or off.
pub open spec fn with_flag(flags: u8, mask: u8, on: bool) -> u8 {
    if on {
        flags | mask
    } else {
        flags & !mask
    }
}

/// Switching one flag bit on or off leaves it as asked and every other bit as it was.
pub proof fn lemma_with_flag(flags: u8, mask: u8, other: u8, on: bool)
    requires
        mask == TCP_FIN || mask == TCP_SYN || mask == TCP_RST || mask == TCP_PSH || mask == TCP_ACK,
        other == TCP_FIN || other == TCP_SYN || other == TCP_RST || other == TCP_PSH || other == TCP_ACK,
        mask != other,
    ensures
        flag_set(with_flag(flags, mask, on), mask) == on,
        flag_set(with_flag(flags, mask, on), other) == flag_set(flags, other),
{
    assert(((flags | mask) & mask != 0) && ((flags & !mask) & mask == 0) && (((flags | mask)
        & other != 0) == (flags & other != 0)) && (((flags & !mask) & other != 0) == (flags
        & other != 0))) by (bit_vector)
        requires
            mask == 1 || mask == 2 || mask == 4 || mask == 8 || mask == 16,
            other == 1 || other == 2 || other == 4 || other == 8 || other == 16,
            mask != other,
    ;
}

/// A 16-bit value written into a two-byte field reads back as itself.
pub proof fn lemma_field16_roundtrip(x: u16)
    ensures
        field16(u16_bytes(x)) == x,
{
    lemma_split16(x);
}

/// A 32-bit value written into a four-byte field reads back as itself.
pub proof fn lemma_field32_roundtrip(x: u32)
    ensures
        field32(u32_bytes(x)) == x,
{
    lemma_split32(x);
}

fn set_flag(flags: u8, mask: u8, on: bool) -> (r: u8)
    ensures
        r == with_flag(flags, mask, on),
{
    if on {
        flags | mask
    } else {
        flags & !mask
    }
}

/// The value of a two-byte network-order field.
pub open spec fn field16(f: [u8; 2]) -> int {
    be16(f[0], f[1])
}

/// The value of a four-byte network-order field.
pub open spec fn field32(f: [u8; 4]) -> int {
    be32(f[0], f[1], f[2], f[3])
}

#[derive(Copy, Clone)]
pub struct TCPHeader {
    pub src_port: [u8; 2],
    pub dest_port: [u8; 2],
    pub seq_no: [u8; 4],
    pub ack_no: [u8; 4],
    pub data_offset: u8,
    pub flags: u8,
    pub win_size: [u8; 2],
    pub checksum: [u8; 2],
    pub urg_ptr: [u8; 2],
}

#[derive(Copy, Clone)]
pub struct IPHeader {
    pub ver_ihl: u8,
    pub tos: u8,
    pub total_len: [u8; 2],
    pub id: [u8; 2],
    pub flags_frag: [u8; 2],
    pub ttl: u8,
    pub protocol: u8,
    pub checksum: [u8; 2],
    pub src: [u8; 4],
    pub dest: [u8; 4],
}

#[derive(Copy, Clone)]
pub struct ARPHeader {
    pub htype: [u8; 2],
    pub ptype: [u8; 2],
    pub hw_len: u8,
    pub p_len: u8,
    pub oper: [u8; 2],
    pub sender_hw_addr: [u8; 6],
    pub sender_p_addr: [u8; 4],
    pub receiver_hw_addr: [u8; 6],
    pub receiver_p_addr: [u8; 4],
}

#[derive(Copy, Clone)]
pub struct EthernetHeader {
    pub dest: [u8; 6],
    pub src: [u8; 6],
    pub eth_type: [u8; 2],
}

#[derive(Copy, Clone)]
pub struct UDPHeader {
    pub src_port: [u8; 2],
    pub dest_port: [u8; 2],
    pub len: [u8; 2],
    pub checksum: [u8; 2],
}

#[derive(Copy, Clone)]
pub struct DHCPHeader {
    pub op: u8,
    pub htype: u8,
    pub hlen: u8,
    pub hops: u8,
    pub xid: [u8; 4],
    pub secs: [u8; 2],
    pub flags: [u8; 2],
    pub ciaddr: [u8; 4],
    pub yiaddr: [u8; 4],
    pub siaddr: [u8; 4],
    pub giaddr: [u8; 4],
    pub chaddr: [u8; 16],
    pub legacy: [u8; 192],
    pub cookie: [u8; 4],
}

impl TCPHeader {
    /// The wire image of the header.
    pub open spec fn bytes(self) -> Seq<u8> {
        self.src_port@ + self.dest_port@ + self.seq_no@ + self.ack_no@ + seq![
            self.data_offset,
            self.flags,
        ] + self.win_size@ + self.checksum@ + self.urg_ptr@
    }

    pub fn size_of() -> (r: u16)
        ensures
            r == TCP_HEADER_SIZE,
    {
        TCP_HEADER_SIZE
    }

    pub fn get_seq_no(&self) -> (r: u32)
        ensures
            r == field32(self.seq_no),
    {
        proof {
            lemma_join32(self.seq_no[0], self.seq_no[1], self.seq_no[2], self.seq_no[3]);
        }
        ((self.seq_no[0] as u32) << 24u32) | ((self.seq_no[1] as u32) << 16u32) | ((
        self.seq_no[2] as u32) << 8u32) | (self.seq_no[3] as u32)
    }

    pub fn get_ack_no(&self) -> (r: u32)
        ensures
            r == field32(self.ack_no),
    {
        proof {
            lemma_join32(self.ack_no[0], self.ack_no[1], self.ack_no[2], self.ack_no[3]);
        }
        ((self.ack_no[0] as u32) << 24u32) | ((self.ack_no[1] as u32) << 16u32) | ((
        self.ack_no[2] as u32) << 8u32) | (self.ack_no[3] as u32)
    }

    /// The data offset: the header length in 32-bit words, the high nibble of its byte.
    pub fn get_data_off(&self) -> (r: u8)
        ensures
            r == self.data_offset / 16,
    {
        let d = self.data_offset;
        assert(d >> 4u8 == d / 16) by (bit_vector);
        d >> 4u8
    }

    pub fn set_seq_no(&mut self, seq: u32)
        ensures
            *final(self) == (TCPHeader { seq_no: u32_bytes(seq), ..*old(self) }),
    {
        proof {
            lemma_split32(seq);
        }
        self.seq_no[0] = (seq >> 24u32) as u8;
        self.seq_no[1] = (seq >> 16u32) as u8;
        self.seq_no[2] = (seq >> 8u32) as u8;
        self.seq_no[3] = (seq >> 0u32) as u8;
        assert(self.seq_no =~= u32_bytes(seq));
    }

    pub fn set_ack_no(&mut self, ack: u32)
        ensures
            *final(self) == (TCPHeader { ack_no: u32_bytes(ack), ..*old(self) }),
    {
        proof {
            lemma_split32(ack);
        }
        self.ack_no[0] = (ack >> 24u32) as u8;
        self.ack_no[1] = (ack >> 16u32) as u8;
        self.ack_no[2] = (ack >> 8u32) as u8;
        self.ack_no[3] = (ack >> 0u32) as u8;
        assert(self.ack_no =~= u32_bytes(ack));
    }

    pub fn set_win_size(&mut self, win: u16)
        ensures
            *final(self) == (TCPHeader { win_size: u16_bytes(win), ..*old(self) }),
    {
        proof {
            lemma_split16(win);
        }
        self.win_size[0] = ((win >> 8u16) & 0xFFu16) as u8;
        self.win_size[1] = (win & 0xFFu16) as u8;
        assert(self.win_size =~= u16_bytes(win));
    }

    pub fn set_checksum(&mut self, chec: u16)
        ensures
            *final(self) == (TCPHeader { checksum: u16_bytes(chec), ..*old(self) }),
    {
        proof {
            lemma_split16(chec);
        }
        self.checksum[0] = ((chec >> 8u16) & 0xFFu16) as u8;
        self.checksum[1] = (chec & 0xFFu16) as u8;
        assert(self.checksum =~= u16_bytes(chec));
    }

    pub fn is_fin(&self) -> (r: bool)
        ensures
            r == flag_set(self.flags, TCP_FIN),
    {
        self.flags & TCP_FIN != 0
    }

    pub fn is_syn(&self) -> (r: bool)
        ensures
            r == flag_set(self.flags, TCP_SYN),
    {
        self.flags & TCP_SYN != 0
    }

    pub fn is_reset(&self) -> (r: bool)
        ensures
            r == flag_set(self.flags, TCP_RST),
    {
        self.flags & TCP_RST != 0
    }

    pub fn is_push(&self) -> (r: bool)
        ensures
            r == flag_set(self.flags, TCP_PSH),
    {
        self.flags & TCP_PSH != 0
    }

    pub fn is_ack(&self) -> (r: bool)
        ensures
            r == flag_set(self.flags, TCP_ACK),
    {
        self.flags & TCP_ACK != 0
    }

    pub fn set_fin(&mut self, flag: bool)
        ensures
            *final(self) == (TCPHeader { flags: with_flag(old(self).flags, TCP_FIN, flag), ..*old(self) }),
    {
        self.flags = set_flag(self.flags, TCP_FIN, flag);
    }

    pub fn set_syn(&mut self, flag: bool)
        ensures
            *final(self) == (TCPHeader { flags: with_flag(old(self).flags, TCP_SYN, flag), ..*old(self) }),
    {
        self.flags = set_flag(self.flags, TCP_SYN, flag);
    }

    pub fn set_reset(&mut self, flag: bool)
        ensures
            *final(self) == (TCPHeader { flags: with_flag(old(self).flags, TCP_RST, flag), ..*old(self) }),
    {
        self.flags = set_flag(self.flags, TCP_RST, flag);
    }

    pub fn set_push(&mut self, flag: bool)
        ensures
            *final(self) == (TCPHeader { flags: with_flag(old(self).flags, TCP_PSH, flag), ..*old(self) }),
    {
        self.flags = set_flag(self.flags, TCP_PSH, flag);
    }

    pub fn set_ack(&mut self, flag: bool)
        ensures
            *final(self) == (TCPHeader { flags: with_flag(old(self).flags, TCP_ACK, flag), ..*old(self) }),
    {
        self.flags = set_flag(self.flags, TCP_ACK, flag);
    }
}

impl IPHeader {
    /// The wire image of the header.
    pub open spec fn bytes(self) -> Seq<u8> {
        seq![self.ver_ihl, self.tos] + self.total_len@ + self.id@ + self.flags_frag@ + seq![
            self.ttl,
            self.protocol,
        ] + self.checksum@ + self.src@ + self.dest@
    }

    /// Prints nothing: the header has no printed form.
    pub fn pretty_print(&self) {
    }

    pub fn size_of() -> (r: u16)
        ensures
            r == IP_HEADER_SIZE,
    {
        IP_HEADER_SIZE
    }

    pub fn set_len(&mut self, length: u16)
        ensures
            *final(self) == (IPHeader { total_len: u16_bytes(length), ..*old(self) }),
    {
        proof {
            lemma_split16(length);
        }
        self.total_len[0] = ((length >> 8u16) & 0xFFu16) as u8;
        self.total_len[1] = (length & 0xFFu16) as u8;
        assert(self.total_len =~= u16_bytes(length));
    }

    pub fn set_checksum(&mut self, chec: u16)
        ensures
            *final(self) == (IPHeader { checksum: u16_bytes(chec), ..*old(self) }),
    {
        proof {
            lemma_split16(chec);
        }
        self.checksum[0] = ((chec >> 8u16) & 0xFFu16) as u8;
        self.checksum[1] = (chec & 0xFFu16) as u8;
        assert(self.checksum =~= u16_bytes(chec));
    }

    pub fn is_tcp(&self) -> (r: bool)
        ensures
            r == (self.protocol == 6),
    {
        self.protocol == 0x06
    }

    pub fn is_udp(&self) -> (r: bool)
        ensures
            r == (self.protocol == 17),
    {
        self.protocol == 0x11
    }

    pub fn get_len(&self) -> (r: u16)
        ensures
            r == field16(self.total_len),
    {
        proof {
            lemma_join16(self.total_len[0], self.total_len[1]);
        }
        ((self.total_len[0] as u16) << 8u16) | (self.total_len[1] as u16)
    }
}

impl ARPHeader {
    /// The wire image of the header.
    pub open spec fn bytes(self) -> Seq<u8> {
        self.htype@ + self.ptype@ + seq![self.hw_len, self.p_len] + self.oper@
            + self.sender_hw_addr@ + self.sender_p_addr@ + self.receiver_hw_addr@
            + self.receiver_p_addr@
    }

    pub fn size_of() -> (r: u16)
        ensures
            r == ARP_HEADER_SIZE,
    {
        ARP_HEADER_SIZE
    }

    pub fn set_oper(&mut self, op: u16)
        ensures
            *final(self) == (ARPHeader { oper: u16_bytes(op), ..*old(self) }),
    {
        proof {
            lemma_split16(op);
        }
        self.oper[0] = ((op >> 8u16) & 0xFFu16) as u8;
        self.oper[1] = (op & 0xFFu16) as u8;
        assert(self.oper =~= u16_bytes(op));
    }
}

impl EthernetHeader {
    /// The wire image of the header.
    pub open spec fn bytes(self) -> Seq<u8> {
        self.dest@ + self.src@ + self.eth_type@
    }

    pub fn new(src: [u8; 6], dest: [u8; 6], eth_type: u16) -> (r: EthernetHeader)
        ensures
            r == (EthernetHeader { dest: dest, src: src, eth_type: u16_bytes(eth_type) }),
    {
        proof {
            lemma_split16(eth_type);
        }
        let t = [((eth_type >> 8u16) & 0xFFu16) as u8, (eth_type & 0xFFu16) as u8];
        assert(t =~= u16_bytes(eth_type));
        EthernetHeader { dest: dest, src: src, eth_type: t }
    }

    /// Prints nothing: the header has no printed form.
    pub fn pretty_print(&self) {
    }

    pub fn size_of() -> (r: u16)
        ensures
            r == ETHERNET_HEADER_SIZE,
    {
        ETHERNET_HEADER_SIZE
    }

    pub fn get_type(&self) -> (r: u16)
        ensures
            r == field16(self.eth_type),
    {
        proof {
            lemma_join16(self.eth_type[0], self.eth_type[1]);
        }
        ((self.eth_type[0] as u16) << 8u16) | (self.eth_type[1] as u16)
    }
}

impl UDPHeader {
    /// The wire image of the header.
    pub open spec fn bytes(self) -> Seq<u8> {
        self.src_port@ + self.dest_port@ + self.len@ + self.checksum@
    }

    pub fn size_of() -> (r: u16)
        ensures
            r == UDP_HEADER_SIZE,
    {
        UDP_HEADER_SIZE
    }

    pub fn set_len(&mut self, length: u16)
        ensures
            *final(self) == (UDPHeader { len: u16_bytes(length), ..*old(self) }),
    {
        proof {
            lemma_split16(length);
        }
        self.len[0] = ((length >> 8u16) & 0xFFu16) as u8;
        self.len[1] = (length & 0xFFu16) as u8;
        assert(self.len =~= u16_bytes(length));
    }

    pub fn set_checksum(&mut self, chec: u16)
        ensures
            *final(self) == (UDPHeader { checksum: u16_bytes(chec), ..*old(self) }),
    {
        proof {
            lemma_split16(chec);
        }
        self.checksum[0] = ((chec >> 8u16) & 0xFFu16) as u8;
        self.checksum[1] = (chec & 0xFFu16) as u8;
        assert(self.checksum =~= u16_bytes(chec));
    }
}

impl DHCPHeader {
    /// The wire image of the header.
    pub open spec fn bytes(self) -> Seq<u8> {
        seq![self.op, self.htype, self.hlen, self.hops] + self.xid@ + self.secs@ + self.flags@
            + self.ciaddr@ + self.yiaddr@ + self.siaddr@ + self.giaddr@ + self.chaddr@
            + self.legacy@ + self.cookie@
    }

    pub fn size_of() -> (r: u16)
        ensures
            r == DHCP_HEADER_SIZE,
    {
        DHCP_HEADER_SIZE
    }
}

} // verus!

verus! {
impl TCPHeader {
    /// The wire image is exactly `TCP_HEADER_SIZE` bytes long.
    pub proof fn lemma_bytes_len(self)
        ensures
            self.bytes().len() == TCP_HEADER_SIZE,
    {
    }

    /// Appends the wire image of the header to `out`.
    pub fn to_bytes(&self, out: &mut Vec<u8>)
        ensures
            final(out)@ == old(out)@ + self.bytes(),
    {
        let ghost start = out@;
        push_array(out, &self.src_port);
        push_array(out, &self.dest_port);
        push_array(out, &self.seq_no);
        push_array(out, &self.ack_no);
        out.push(self.data_offset);
        out.push(self.flags);
        push_array(out, &self.win_size);
        push_array(out, &self.checksum);
        push_array(out, &self.urg_ptr);
        assert(out@ =~= start + self.bytes());
    }

    /// The header whose wire image is `s` (when `s` is one).
    pub open spec fn parse(s: Seq<u8>) -> Self {
        choose|h: Self| h.bytes() == s
    }

    /// Reads the header from its wire image at `at` in `buf`.
    pub fn from_bytes(buf: &[u8], at: usize) -> (r: Self)
        requires
            at + TCP_HEADER_SIZE <= buf@.len(),
        ensures
            r.bytes() == buf@.subrange(at as int, at + TCP_HEADER_SIZE),
            r == Self::parse(buf@.subrange(at as int, at + TCP_HEADER_SIZE)),
    {
        assert(at + TCP_HEADER_SIZE <= buf.len());
        let src_port: [u8; 2] = read_array(buf, at + 0);
        let dest_port: [u8; 2] = read_array(buf, at + 2);
        let seq_no: [u8; 4] = read_array(buf, at + 4);
        let ack_no: [u8; 4] = read_array(buf, at + 8);
        let data_offset = buf[at + 12];
        let flags = buf[at + 13];
        let win_size: [u8; 2] = read_array(buf, at + 14);
        let checksum: [u8; 2] = read_array(buf, at + 16);
        let urg_ptr: [u8; 2] = read_array(buf, at + 18);
        let r = TCPHeader { src_port, dest_port, seq_no, ack_no, data_offset, flags, win_size, checksum, urg_ptr };
        assert(r.bytes() =~= buf@.subrange(at as int, at + TCP_HEADER_SIZE));
        proof {
            let s = buf@.subrange(at as int, at + TCP_HEADER_SIZE);
            Self::lemma_bytes_injective(r, Self::parse(s));
        }
        r
    }

    /// Reading a header back from its wire image gives the header that was written.
    pub proof fn lemma_parse_bytes(h: Self)
        ensures
            Self::parse(h.bytes()) == h,
    {
        Self::lemma_bytes_injective(h, Self::parse(h.bytes()));
    }

    /// Two headers with the same wire image are the same header.
    pub proof fn lemma_bytes_injective(a: Self, b: Self)
        requires
            a.bytes() == b.bytes(),
        ensures
            a == b,
    {
        assert(a.bytes().subrange(0, 2) =~= a.src_port@);
        assert(b.bytes().subrange(0, 2) =~= b.src_port@);
        assert(a.src_port =~= b.src_port);
        assert(a.bytes().subrange(2, 4) =~= a.dest_port@);
        assert(b.bytes().subrange(2, 4) =~= b.dest_port@);
        assert(a.dest_port =~= b.dest_port);
        assert(a.bytes().subrange(4, 8) =~= a.seq_no@);
        assert(b.bytes().subrange(4, 8) =~= b.seq_no@);
        assert(a.seq_no =~= b.seq_no);
        assert(a.bytes().subrange(8, 12) =~= a.ack_no@);
        assert(b.bytes().subrange(8, 12) =~= b.ack_no@);
        assert(a.ack_no =~= b.ack_no);
        assert(a.bytes()[12] == a.data_offset && b.bytes()[12] == b.data_offset);
        assert(a.bytes()[13] == a.flags && b.bytes()[13] == b.flags);
        assert(a.bytes().subrange(14, 16) =~= a.win_size@);
        assert(b.bytes().subrange(14, 16) =~= b.win_size@);
        assert(a.win_size =~= b.win_size);
        assert(a.bytes().subrange(16, 18) =~= a.checksum@);
        assert(b.bytes().subrange(16, 18) =~= b.checksum@);
        assert(a.checksum =~= b.checksum);
        assert(a.bytes().subrange(18, 20) =~= a.urg_ptr@);
        assert(b.bytes().subrange(18, 20) =~= b.urg_ptr@);
        assert(a.urg_ptr =~= b.urg_ptr);
    }
}

impl IPHeader {
    /// The wire image is exactly `IP_HEADER_SIZE` bytes long.
    pub proof fn lemma_bytes_len(self)
        ensures
            self.bytes().len() == IP_HEADER_SIZE,
    {
    }

    /// Appends the wire image of the header to `out`.
    pub fn to_bytes(&self, out: &mut Vec<u8>)
        ensures
            final(out)@ == old(out)@ + self.bytes(),
    {
        let ghost start = out@;
        out.push(self.ver_ihl);
        out.push(self.tos);
        push_array(out, &self.total_len);
        push_array(out, &self.id);
        push_array(out, &self.flags_frag);
        out.push(self.ttl);
        out.push(self.protocol);
        push_array(out, &self.checksum);
        push_array(out, &self.src);
        push_array(out, &self.dest);
        assert(out@ =~= start + self.bytes());
    }

    /// The header whose wire image is `s` (when `s` is one).
    pub open spec fn parse(s: Seq<u8>) -> Self {
        choose|h: Self| h.bytes() == s
    }

    /// Reads the header from its wire image at `at` in `buf`.
    pub fn from_bytes(buf: &[u8], at: usize) -> (r: Self)
        requires
            at + IP_HEADER_SIZE <= buf@.len(),
        ensures
            r.bytes() == buf@.subrange(at as int, at + IP_HEADER_SIZE),
            r == Self::parse(buf@.subrange(at as int, at + IP_HEADER_SIZE)),
    {
        assert(at + IP_HEADER_SIZE <= buf.len());
        let ver_ihl = buf[at + 0];
        let tos = buf[at + 1];
        let total_len: [u8; 2] = read_array(buf, at + 2);
        let id: [u8; 2] = read_array(buf, at + 4);
        let flags_frag: [u8; 2] = read_array(buf, at + 6);
        let ttl = buf[at + 8];
        let protocol = buf[at + 9];
        let checksum: [u8; 2] = read_array(buf, at + 10);
        let src: [u8; 4] = read_array(buf, at + 12);
        let dest: [u8; 4] = read_array(buf, at + 16);
        let r = IPHeader { ver_ihl, tos, total_len, id, flags_frag, ttl, protocol, checksum, src, dest };
        assert(r.bytes() =~= buf@.subrange(at as int, at + IP_HEADER_SIZE));
        proof {
            let s = buf@.subrange(at as int, at + IP_HEADER_SIZE);
            Self::lemma_bytes_injective(r, Self::parse(s));
        }
        r
    }

    /// Reading a header back from its wire image gives the header that was written.
    pub proof fn lemma_parse_bytes(h: Self)
        ensures
            Self::parse(h.bytes()) == h,
    {
        Self::lemma_bytes_injective(h, Self::parse(h.bytes()));
    }

    /// Two headers with the same wire image are the same header.
    pub proof fn lemma_bytes_injective(a: Self, b: Self)
        requires
            a.bytes() == b.bytes(),
        ensures
            a == b,
    {
        assert(a.bytes()[0] == a.ver_ihl && b.bytes()[0] == b.ver_ihl);
        assert(a.bytes()[1] == a.tos && b.bytes()[1] == b.tos);
        assert(a.bytes().subrange(2, 4) =~= a.total_len@);
        assert(b.bytes().subrange(2, 4) =~= b.total_len@);
        assert(a.total_len =~= b.total_len);
        assert(a.bytes().subrange(4, 6) =~= a.id@);
        assert(b.bytes().subrange(4, 6) =~= b.id@);
        assert(a.id =~= b.id);
        assert(a.bytes().subrange(6, 8) =~= a.flags_frag@);
        assert(b.bytes().subrange(6, 8) =~= b.flags_frag@);
        assert(a.flags_frag =~= b.flags_frag);
        assert(a.bytes()[8] == a.ttl && b.bytes()[8] == b.ttl);
        assert(a.bytes()[9] == a.protocol && b.bytes()[9] == b.protocol);
        assert(a.bytes().subrange(10, 12) =~= a.checksum@);
        assert(b.bytes().subrange(10, 12) =~= b.checksum@);
        assert(a.checksum =~= b.checksum);
        assert(a.bytes().subrange(12, 16) =~= a.src@);
        assert(b.bytes().subrange(12, 16) =~= b.src@);
        assert(a.src =~= b.src);
        assert(a.bytes().subrange(16, 20) =~= a.dest@);
        assert(b.bytes().subrange(16, 20) =~= b.dest@);
        assert(a.dest =~= b.dest);
    }
}

impl ARPHeader {
    /// The wire image is exactly `ARP_HEADER_SIZE` bytes long.
    pub proof fn lemma_bytes_len(self)
        ensures
            self.bytes().len() == ARP_HEADER_SIZE,
    {
    }

    /// Appends the wire image of the header to `out`.
    pub fn to_bytes(&self, out: &mut Vec<u8>)
        ensures
            final(out)@ == old(out)@ + self.bytes(),
    {
        let ghost start = out@;
        push_array(out, &self.htype);
        push_array(out, &self.ptype);
        out.push(self.hw_len);
        out.push(self.p_len);
        push_array(out, &self.oper);
        push_array(out, &self.sender_hw_addr);
        push_array(out, &self.sender_p_addr);
        push_array(out, &self.receiver_hw_addr);
        push_array(out, &self.receiver_p_addr);
        assert(out@ =~= start + self.bytes());
    }

    /// The header whose wire image is `s` (when `s` is one).
    pub open spec fn parse(s: Seq<u8>) -> Self {
        choose|h: Self| h.bytes() == s
    }

    /// Reads the header from its wire image at `at` in `buf`.
    pub fn from_bytes(buf: &[u8], at: usize) -> (r: Self)
        requires
            at + ARP_HEADER_SIZE <= buf@.len(),
        ensures
            r.bytes() == buf@.subrange(at as int, at + ARP_HEADER_SIZE),
            r == Self::parse(buf@.subrange(at as int, at + ARP_HEADER_SIZE)),
    {
        assert(at + ARP_HEADER_SIZE <= buf.len());
        let htype: [u8; 2] = read_array(buf, at + 0);
        let ptype: [u8; 2] = read_array(buf, at + 2);
        let hw_len = buf[at + 4];
        let p_len = buf[at + 5];
        let oper: [u8; 2] = read_array(buf, at + 6);
        let sender_hw_addr: [u8; 6] = read_array(buf, at + 8);
        let sender_p_addr: [u8; 4] = read_array(buf, at + 14);
        let receiver_hw_addr: [u8; 6] = read_array(buf, at + 18);
        let receiver_p_addr: [u8; 4] = read_array(buf, at + 24);
        let r = ARPHeader { htype, ptype, hw_len, p_len, oper, sender_hw_addr, sender_p_addr, receiver_hw_addr, receiver_p_addr };
        assert(r.bytes() =~= buf@.subrange(at as int, at + ARP_HEADER_SIZE));
        proof {
            let s = buf@.subrange(at as int, at + ARP_HEADER_SIZE);
            Self::lemma_bytes_injective(r, Self::parse(s));
        }
        r
    }

    /// Reading a header back from its wire image gives the header that was written.
    pub proof fn lemma_parse_bytes(h: Self)
        ensures
            Self::parse(h.bytes()) == h,
    {
        Self::lemma_bytes_injective(h, Self::parse(h.bytes()));
    }

    /// Two headers with the same wire image are the same header.
    pub proof fn lemma_bytes_injective(a: Self, b: Self)
        requires
            a.bytes() == b.bytes(),
        ensures
            a == b,
    {
        assert(a.bytes().subrange(0, 2) =~= a.htype@);
        assert(b.bytes().subrange(0, 2) =~= b.htype@);
        assert(a.htype =~= b.htype);
        assert(a.bytes().subrange(2, 4) =~= a.ptype@);
        assert(b.bytes().subrange(2, 4) =~= b.ptype@);
        assert(a.ptype =~= b.ptype);
        assert(a.bytes()[4] == a.hw_len && b.bytes()[4] == b.hw_len);
        assert(a.bytes()[5] == a.p_len && b.bytes()[5] == b.p_len);
        assert(a.bytes().subrange(6, 8) =~= a.oper@);
        assert(b.bytes().subrange(6, 8) =~= b.oper@);
        assert(a.oper =~= b.oper);
        assert(a.bytes().subrange(8, 14) =~= a.sender_hw_addr@);
        assert(b.bytes().subrange(8, 14) =~= b.sender_hw_addr@);
        assert(a.sender_hw_addr =~= b.sender_hw_addr);
        assert(a.bytes().subrange(14, 18) =~= a.sender_p_addr@);
        assert(b.bytes().subrange(14, 18) =~= b.sender_p_addr@);
        assert(a.sender_p_addr =~= b.sender_p_addr);
        assert(a.bytes().subrange(18, 24) =~= a.receiver_hw_addr@);
        assert(b.bytes().subrange(18, 24) =~= b.receiver_hw_addr@);
        assert(a.receiver_hw_addr =~= b.receiver_hw_addr);
        assert(a.bytes().subrange(24, 28) =~= a.receiver_p_addr@);
        assert(b.bytes().subrange(24, 28) =~= b.receiver_p_addr@);
        assert(a.receiver_p_addr =~= b.receiver_p_addr);
    }
}

impl EthernetHeader {
    /// The wire image is exactly `ETHERNET_HEADER_SIZE` bytes long.
    pub proof fn lemma_bytes_len(self)
        ensures
            self.bytes().len() == ETHERNET_HEADER_SIZE,
    {
    }

    /// Appends the wire image of the header to `out`.
    pub fn to_bytes(&self, out: &mut Vec<u8>)
        ensures
            final(out)@ == old(out)@ + self.bytes(),
    {
        let ghost start = out@;
        push_array(out, &self.dest);
        push_array(out, &self.src);
        push_array(out, &self.eth_type);
        assert(out@ =~= start + self.bytes());
    }

    /// The header whose wire image is `s` (when `s` is one).
    pub open spec fn parse(s: Seq<u8>) -> Self {
        choose|h: Self| h.bytes() == s
    }

    /// Reads the header from its wire image at `at` in `buf`.
    pub fn from_bytes(buf: &[u8], at: usize) -> (r: Self)
        requires
            at + ETHERNET_HEADER_SIZE <= buf@.len(),
        ensures
            r.bytes() == buf@.subrange(at as int, at + ETHERNET_HEADER_SIZE),
            r == Self::parse(buf@.subrange(at as int, at + ETHERNET_HEADER_SIZE)),
    {
        assert(at + ETHERNET_HEADER_SIZE <= buf.len());
        let dest: [u8; 6] = read_array(buf, at + 0);
        let src: [u8; 6] = read_array(buf, at + 6);
        let eth_type: [u8; 2] = read_array(buf, at + 12);
        let r = EthernetHeader { dest, src, eth_type };
        assert(r.bytes() =~= buf@.subrange(at as int, at + ETHERNET_HEADER_SIZE));
        proof {
            let s = buf@.subrange(at as int, at + ETHERNET_HEADER_SIZE);
            Self::lemma_bytes_injective(r, Self::parse(s));
        }
        r
    }

    /// Reading a header back from its wire image gives the header that was written.
    pub proof fn lemma_parse_bytes(h: Self)
        ensures
            Self::parse(h.bytes()) == h,
    {
        Self::lemma_bytes_injective(h, Self::parse(h.bytes()));
    }

    /// Two headers with the same wire image are the same header.
    pub proof fn lemma_bytes_injective(a: Self, b: Self)
        requires
            a.bytes() == b.bytes(),
        ensures
            a == b,
    {
        assert(a.bytes().subrange(0, 6) =~= a.dest@);
        assert(b.bytes().subrange(0, 6) =~= b.dest@);
        assert(a.dest =~= b.dest);
        assert(a.bytes().subrange(6, 12) =~= a.src@);
        assert(b.bytes().subrange(6, 12) =~= b.src@);
        assert(a.src =~= b.src);
        assert(a.bytes().subrange(12, 14) =~= a.eth_type@);
        assert(b.bytes().subrange(12, 14) =~= b.eth_type@);
        assert(a.eth_type =~= b.eth_type);
    }
}

impl UDPHeader {
    /// The wire image is exactly `UDP_HEADER_SIZE` bytes long.
    pub proof fn lemma_bytes_len(self)
        ensures
            self.bytes().len() == UDP_HEADER_SIZE,
    {
    }

    /// Appends the wire image of the header to `out`.
    pub fn to_bytes(&self, out: &mut Vec<u8>)
        ensures
            final(out)@ == old(out)@ + self.bytes(),
    {
        let ghost start = out@;
        push_array(out, &self.src_port);
        push_array(out, &self.dest_port);
        push_array(out, &self.len);
        push_array(out, &self.checksum);
        assert(out@ =~= start + self.bytes());
    }

    /// The header whose wire image is `s` (when `s` is one).
    pub open spec fn parse(s: Seq<u8>) -> Self {
        choose|h: Self| h.bytes() == s
    }

    /// Reads the header from its wire image at `at` in `buf`.
    pub fn from_bytes(buf: &[u8], at: usize) -> (r: Self)
        requires
            at + UDP_HEADER_SIZE <= buf@.len(),
        ensures
            r.bytes() == buf@.subrange(at as int, at + UDP_HEADER_SIZE),
            r == Self::parse(buf@.subrange(at as int, at + UDP_HEADER_SIZE)),
    {
        assert(at + UDP_HEADER_SIZE <= buf.len());
        let src_port: [u8; 2] = read_array(buf, at + 0);
        let dest_port: [u8; 2] = read_array(buf, at + 2);
        let len: [u8; 2] = read_array(buf, at + 4);
        let checksum: [u8; 2] = read_array(buf, at + 6);
        let r = UDPHeader { src_port, dest_port, len, checksum };
        assert(r.bytes() =~= buf@.subrange(at as int, at + UDP_HEADER_SIZE));
        proof {
            let s = buf@.subrange(at as int, at + UDP_HEADER_SIZE);
            Self::lemma_bytes_injective(r, Self::parse(s));
        }
        r
    }

    /// Reading a header back from its wire image gives the header that was written.
    pub proof fn lemma_parse_bytes(h: Self)
        ensures
            Self::parse(h.bytes()) == h,
    {
        Self::lemma_bytes_injective(h, Self::parse(h.bytes()));
    }

    /// Two headers with the same wire image are the same header.
    pub proof fn lemma_bytes_injective(a: Self, b: Self)
        requires
            a.bytes() == b.bytes(),
        ensures
            a == b,
    {
        assert(a.bytes().subrange(0, 2) =~= a.src_port@);
        assert(b.bytes().subrange(0, 2) =~= b.src_port@);
        assert(a.src_port =~= b.src_port);
        assert(a.bytes().subrange(2, 4) =~= a.dest_port@);
        assert(b.bytes().subrange(2, 4) =~= b.dest_port@);
        assert(a.dest_port =~= b.dest_port);
        assert(a.bytes().subrange(4, 6) =~= a.len@);
        assert(b.bytes().subrange(4, 6) =~= b.len@);
        assert(a.len =~= b.len);
        assert(a.bytes().subrange(6, 8) =~= a.checksum@);
        assert(b.bytes().subrange(6, 8) =~= b.checksum@);
        assert(a.checksum =~= b.checksum);
    }
}

impl DHCPHeader {
    /// The wire image is exactly `DHCP_HEADER_SIZE` bytes long.
    pub proof fn lemma_bytes_len(self)
        ensures
            self.bytes().len() == DHCP_HEADER_SIZE,
    {
    }

    /// Appends the wire image of the header to `out`.
    pub fn to_bytes(&self, out: &mut Vec<u8>)
        ensures
            final(out)@ == old(out)@ + self.bytes(),
    {
        let ghost start = out@;
        out.push(self.op);
        out.push(self.htype);
        out.push(self.hlen);
        out.push(self.hops);
        push_array(out, &self.xid);
        push_array(out, &self.secs);
        push_array(out, &self.flags);
        push_array(out, &self.ciaddr);
        push_array(out, &self.yiaddr);
        push_array(out, &self.siaddr);
        push_array(out, &self.giaddr);
        push_array(out, &self.chaddr);
        push_array(out, &self.legacy);
        push_array(out, &self.cookie);
        assert(out@ =~= start + self.bytes());
    }

    /// The header whose wire image is `s` (when `s` is one).
    pub open spec fn parse(s: Seq<u8>) -> Self {
        choose|h: Self| h.bytes() == s
    }

    /// Reads the header from its wire image at `at` in `buf`.
    pub fn from_bytes(buf: &[u8], at: usize) -> (r: Self)
        requires
            at + DHCP_HEADER_SIZE <= buf@.len(),
        ensures
            r.bytes() == buf@.subrange(at as int, at + DHCP_HEADER_SIZE),
            r == Self::parse(buf@.subrange(at as int, at + DHCP_HEADER_SIZE)),
    {
        assert(at + DHCP_HEADER_SIZE <= buf.len());
        let op = buf[at + 0];
        let htype = buf[at + 1];
        let hlen = buf[at + 2];
        let hops = buf[at + 3];
        let xid: [u8; 4] = read_array(buf, at + 4);
        let secs: [u8; 2] = read_array(buf, at + 8);
        let flags: [u8; 2] = read_array(buf, at + 10);
        let ciaddr: [u8; 4] = read_array(buf, at + 12);
        let yiaddr: [u8; 4] = read_array(buf, at + 16);
        let siaddr: [u8; 4] = read_array(buf, at + 20);
        let giaddr: [u8; 4] = read_array(buf, at + 24);
        let chaddr: [u8; 16] = read_array(buf, at + 28);
        let legacy: [u8; 192] = read_array(buf, at + 44);
        let cookie: [u8; 4] = read_array(buf, at + 236);
        let r = DHCPHeader { op, htype, hlen, hops, xid, secs, flags, ciaddr, yiaddr, siaddr, giaddr, chaddr, legacy, cookie };
        assert(r.bytes() =~= buf@.subrange(at as int, at + DHCP_HEADER_SIZE));
        proof {
            let s = buf@.subrange(at as int, at + DHCP_HEADER_SIZE);
            Self::lemma_bytes_injective(r, Self::parse(s));
        }
        r
    }

    /// Reading a header back from its wire image gives the header that was written.
    pub proof fn lemma_parse_bytes(h: Self)
        ensures
            Self::parse(h.bytes()) == h,
    {
        Self::lemma_bytes_injective(h, Self::parse(h.bytes()));
    }

    /// Two headers with the same wire image are the same header.
    pub proof fn lemma_bytes_injective(a: Self, b: Self)
        requires
            a.bytes() == b.bytes(),
        ensures
            a == b,
    {
        assert(a.bytes()[0] == a.op && b.bytes()[0] == b.op);
        assert(a.bytes()[1] == a.htype && b.bytes()[1] == b.htype);
        assert(a.bytes()[2] == a.hlen && b.bytes()[2] == b.hlen);
        assert(a.bytes()[3] == a.hops && b.bytes()[3] == b.hops);
        assert(a.bytes().subrange(4, 8) =~= a.xid@);
        assert(b.bytes().subrange(4, 8) =~= b.xid@);
        assert(a.xid =~= b.xid);
        assert(a.bytes().subrange(8, 10) =~= a.secs@);
        assert(b.bytes().subrange(8, 10) =~= b.secs@);
        assert(a.secs =~= b.secs);
        assert(a.bytes().subrange(10, 12) =~= a.flags@);
        assert(b.bytes().subrange(10, 12) =~= b.flags@);
        assert(a.flags =~= b.flags);
        assert(a.bytes().subrange(12, 16) =~= a.ciaddr@);
        assert(b.bytes().subrange(12, 16) =~= b.ciaddr@);
        assert(a.ciaddr =~= b.ciaddr);
        assert(a.bytes().subrange(16, 20) =~= a.yiaddr@);
        assert(b.bytes().subrange(16, 20) =~= b.yiaddr@);
        assert(a.yiaddr =~= b.yiaddr);
        assert(a.bytes().subrange(20, 24) =~= a.siaddr@);
        assert(b.bytes().subrange(20, 24) =~= b.siaddr@);
        assert(a.siaddr =~= b.siaddr);
        assert(a.bytes().subrange(24, 28) =~= a.giaddr@);
        assert(b.bytes().subrange(24, 28) =~= b.giaddr@);
        assert(a.giaddr =~= b.giaddr);
        assert(a.bytes().subrange(28, 44) =~= a.chaddr@);
        assert(b.bytes().subrange(28, 44) =~= b.chaddr@);
        assert(a.chaddr =~= b.chaddr);
        assert(a.bytes().subrange(44, 236) =~= a.legacy@);
        assert(b.bytes().subrange(44, 236) =~= b.legacy@);
        assert(a.legacy =~= b.legacy);
        assert(a.bytes().subrange(236, 240) =~= a.cookie@);
        assert(b.bytes().subrange(236, 240) =~= b.cookie@);
        assert(a.cookie =~= b.cookie);
    }
}

} // verus!
