//! DHCP: the discover message, the request that answers an offer, and reading the
//! configuration out of an acknowledgement.
use vstd::prelude::*;
use crate::bytes::{read_array, u16_bytes, lemma_split16};
use crate::eth_driver::rtl8139_drivers::{RTL8139EthDriver, RX_BUFF_SIZE};
use crate::net::checksum::{checksum_from_sum, lemma_pair_sum_bounds};
use crate::net::ip::lemma_ip_checksum_verifies;
use crate::net::udp::lemma_udp_checksum_verifies;
use crate::net::head_struct::{
    DHCPHeader, EthernetHeader, IPHeader, UDPHeader, field16, DHCP_HEADER_SIZE, IP_HEADER_SIZE,
    UDP_HEADER_SIZE,
};
use crate::net::ip::NetConfig;
use crate::net::{Action, ActionView};

verus! {

/// The options of the request: message type 3 (request), the requested address
/// (option 50) and the server (option 54), then the end mark.
pub open spec fn request_options(dhcp: DHCPHeader) -> Seq<u8> {
    seq![
        53u8, 1, 3,
        50, 4, dhcp.yiaddr[0], dhcp.yiaddr[1], dhcp.yiaddr[2], dhcp.yiaddr[3],
        54, 4, dhcp.siaddr[0], dhcp.siaddr[1], dhcp.siaddr[2], dhcp.siaddr[3],
        0xFF,
    ]
}

/// The headers of the request that answers the offer `eth`/`ip`/`udp`/`dhcp`:
/// broadcast from address 0, IP length 284 with its checksum, the UDP ports
/// swapped, UDP length 264 with its checksum over the DHCP message and options;
/// the DHCP message becomes a request (op 1) for the offered address, which it
/// names as the client address, with the "your address" field cleared.
pub open spec fn request_parts(
    eth: EthernetHeader,
    ip: IPHeader,
    udp: UDPHeader,
    dhcp: DHCPHeader,
) -> (EthernetHeader, IPHeader, UDPHeader, DHCPHeader) {
    let e = EthernetHeader {
        src: eth.dest,
        dest: [0xFFu8, 0xFF, 0xFF, 0xFF, 0xFF, 0xFF],
        ..eth
    };
    let i0 = IPHeader {
        src: [0u8, 0, 0, 0],
        dest: [0xFFu8, 0xFF, 0xFF, 0xFF],
        total_len: u16_bytes(284),
        ..ip
    };
    let i1 = IPHeader { checksum: u16_bytes(checksum_from_sum(i0.word_sum(false)) as u16), ..i0 };
    let d = DHCPHeader { op: 1, ciaddr: dhcp.yiaddr, yiaddr: [0u8, 0, 0, 0], ..dhcp };
    let u0 = UDPHeader {
        src_port: udp.dest_port,
        dest_port: udp.src_port,
        len: u16_bytes(264),
        ..udp
    };
    let u1 = UDPHeader {
        checksum: u16_bytes(
            checksum_from_sum(u0.word_sum(false, i1, d.bytes() + request_options(dhcp))) as u16,
        ),
        ..u0
    };
    (e, i1, u1, d)
}

/// The request passes a receiver's checks: the IP header checksum and the UDP
/// checksum over the DHCP message and options, each summed with its field, give zero.
pub proof fn lemma_request_checksums_verify(
    eth: EthernetHeader,
    ip: IPHeader,
    udp: UDPHeader,
    dhcp: DHCPHeader,
)
    ensures
        ({
            let (e, i, u, d) = request_parts(eth, ip, udp, dhcp);
            &&& checksum_from_sum(i.word_sum(true)) == 0
            &&& checksum_from_sum(u.word_sum(true, i, d.bytes() + request_options(dhcp))) == 0
        }),
{
    let (e, i, u, d) = request_parts(eth, ip, udp, dhcp);
    let i0 = IPHeader {
        src: [0u8, 0, 0, 0],
        dest: [0xFFu8, 0xFF, 0xFF, 0xFF],
        total_len: u16_bytes(284),
        ..ip
    };
    lemma_ip_checksum_verifies(i0);
    let u0 = UDPHeader { checksum: udp.checksum, ..u };
    let payload = d.bytes() + request_options(dhcp);
    d.lemma_bytes_len();
    u0.lemma_words();
    lemma_pair_sum_bounds(payload, payload.len() / 2);
    lemma_udp_checksum_verifies(u0, i, payload);
    assert(UDPHeader { checksum: u.checksum, ..u0 } == u);
}

/// An offer is answered with a request for the offered address: broadcast from
/// address 0, the UDP ports swapped, IP length 284 and UDP length 264 with both
/// checksums verifying; the DHCP message is the offer's with only the operation
/// (1, a request), the client address (the offered one) and the offered address
/// (cleared) changed, so the transaction id, hardware address and cookie are the
/// offer's; the options ask for the offered address from the offering server.
pub proof fn lemma_offer_answered_by_request(
    eth: EthernetHeader,
    ip: IPHeader,
    udp: UDPHeader,
    dhcp: DHCPHeader,
    other_opts: Seq<u8>,
    config: NetConfig,
)
    ensures
        ({
            let y = dhcp.yiaddr;
            let sv = dhcp.siaddr;
            &&& dhcp_deal_action(eth, ip, udp, dhcp, seq![53u8, 1, 2], other_opts, config) matches ActionView::Send(f)
            &&& f.len() == 298
            &&& EthernetHeader::parse(f.subrange(0, 14)).src == eth.dest
            &&& EthernetHeader::parse(f.subrange(0, 14)).dest == [0xFFu8, 0xFF, 0xFF, 0xFF, 0xFF, 0xFF]
            &&& EthernetHeader::parse(f.subrange(0, 14)).eth_type == eth.eth_type
            &&& IPHeader::parse(f.subrange(14, 34)).src == [0u8, 0, 0, 0]
            &&& IPHeader::parse(f.subrange(14, 34)).dest == [0xFFu8, 0xFF, 0xFF, 0xFF]
            &&& field16(IPHeader::parse(f.subrange(14, 34)).total_len) == 284
            &&& checksum_from_sum(IPHeader::parse(f.subrange(14, 34)).word_sum(true)) == 0
            &&& UDPHeader::parse(f.subrange(34, 42)).src_port == udp.dest_port
            &&& UDPHeader::parse(f.subrange(34, 42)).dest_port == udp.src_port
            &&& field16(UDPHeader::parse(f.subrange(34, 42)).len) == 264
            &&& checksum_from_sum(
                UDPHeader::parse(f.subrange(34, 42)).word_sum(
                    true,
                    IPHeader::parse(f.subrange(14, 34)),
                    f.subrange(42, 298),
                ),
            ) == 0
            &&& DHCPHeader::parse(f.subrange(42, 282)).op == 1
            &&& DHCPHeader::parse(f.subrange(42, 282)).ciaddr == y
            &&& DHCPHeader::parse(f.subrange(42, 282)).yiaddr == [0u8, 0, 0, 0]
            &&& DHCPHeader::parse(f.subrange(42, 282)).htype == dhcp.htype
            &&& DHCPHeader::parse(f.subrange(42, 282)).hlen == dhcp.hlen
            &&& DHCPHeader::parse(f.subrange(42, 282)).hops == dhcp.hops
            &&& DHCPHeader::parse(f.subrange(42, 282)).xid == dhcp.xid
            &&& DHCPHeader::parse(f.subrange(42, 282)).secs == dhcp.secs
            &&& DHCPHeader::parse(f.subrange(42, 282)).flags == dhcp.flags
            &&& DHCPHeader::parse(f.subrange(42, 282)).siaddr == dhcp.siaddr
            &&& DHCPHeader::parse(f.subrange(42, 282)).giaddr == dhcp.giaddr
            &&& DHCPHeader::parse(f.subrange(42, 282)).chaddr == dhcp.chaddr
            &&& DHCPHeader::parse(f.subrange(42, 282)).legacy == dhcp.legacy
            &&& DHCPHeader::parse(f.subrange(42, 282)).cookie == dhcp.cookie
            &&& f.subrange(282, 298) == seq![
                53u8, 1, 3,
                50, 4, y[0], y[1], y[2], y[3],
                54, 4, sv[0], sv[1], sv[2], sv[3],
                0xFF,
            ]
        }),
{
    let (e, i, u, d) = request_parts(eth, ip, udp, dhcp);
    let f = request_frame(eth, ip, udp, dhcp);
    e.lemma_bytes_len();
    i.lemma_bytes_len();
    u.lemma_bytes_len();
    d.lemma_bytes_len();
    assert(f.subrange(0, 14) =~= e.bytes());
    assert(f.subrange(14, 34) =~= i.bytes());
    assert(f.subrange(34, 42) =~= u.bytes());
    assert(f.subrange(42, 282) =~= d.bytes());
    assert(f.subrange(42, 298) =~= d.bytes() + request_options(dhcp));
    assert(f.subrange(282, 298) =~= request_options(dhcp));
    EthernetHeader::lemma_parse_bytes(e);
    IPHeader::lemma_parse_bytes(i);
    UDPHeader::lemma_parse_bytes(u);
    DHCPHeader::lemma_parse_bytes(d);
    crate::net::head_struct::lemma_field16_roundtrip(284);
    crate::net::head_struct::lemma_field16_roundtrip(264);
    lemma_request_checksums_verify(eth, ip, udp, dhcp);
}

/// The frame of the request.
pub open spec fn request_frame(
    eth: EthernetHeader,
    ip: IPHeader,
    udp: UDPHeader,
    dhcp: DHCPHeader,
) -> Seq<u8> {
    let (e, i, u, d) = request_parts(eth, ip, udp, dhcp);
    e.bytes() + i.bytes() + u.bytes() + d.bytes() + request_options(dhcp)
}

/// Whether reading the options of an acknowledgement from `ind` on stays inside
/// the 50 bytes: each option is a code, a length and that many bytes, and the
/// list ends at code `0xFF`.
pub open spec fn options_length_defined(opts: Seq<u8>, ind: int) -> bool
    decreases 50 - ind,
{
    if 0 <= ind < 50 {
        if opts[ind] == 0xFF {
            true
        } else {
            ind + 1 < 50 && ind + opts[ind + 1] + 2 < 50 && options_length_defined(
                opts,
                ind + opts[ind + 1] + 2,
            )
        }
    } else {
        false
    }
}

/// Where the options of an acknowledgement end, read from `ind` on: stepping from
/// option to option by their length bytes, just past the end mark `0xFF`.
pub open spec fn options_length(opts: Seq<u8>, ind: int) -> int
    decreases 50 - ind,
{
    if !(0 <= ind < 50) {
        ind
    } else if opts[ind] == 0xFF {
        ind + 1
    } else if ind + 1 < 50 && ind + opts[ind + 1] + 2 < 50 {
        options_length(opts, ind + opts[ind + 1] + 2)
    } else {
        50
    }
}

/// Walking the options from `ind` ends just past an end mark `0xFF`, after `ind`
/// and within the 50 bytes.
pub proof fn lemma_options_length_ends_at_mark(opts: Seq<u8>, ind: int)
    requires
        opts.len() == 50,
        0 <= ind < 50,
        options_length_defined(opts, ind),
    ensures
        ind < options_length(opts, ind) <= 50,
        opts[options_length(opts, ind) - 1] == 0xFF,
    decreases 50 - ind,
{
    if opts[ind] != 0xFF {
        lemma_options_length_ends_at_mark(opts, ind + opts[ind + 1] + 2);
    }
}

/// Whether reading the configuration out of the options from `ind` on stays
/// inside the 50 bytes: options 1, 3, 51 and 54 are read as four bytes after
/// their length byte; other options are skipped by their length byte.
pub open spec fn options_defined(opts: Seq<u8>, ind: int) -> bool
    decreases 50 - ind,
{
    if 0 <= ind < 50 {
        let code = opts[ind];
        if code == 1 || code == 3 || code == 51 || code == 54 {
            ind + 6 < 50 && options_defined(opts, ind + 6)
        } else if code == 0xFF {
            true
        } else {
            ind + 1 < 50 && ind + opts[ind + 1] + 2 < 50 && options_defined(
                opts,
                ind + opts[ind + 1] + 2,
            )
        }
    } else {
        false
    }
}

/// The four bytes after the code and length of the option at `ind`.
pub open spec fn option_value(opts: Seq<u8>, ind: int) -> [u8; 4] {
    [opts[ind + 2], opts[ind + 3], opts[ind + 4], opts[ind + 5]]
}

/// `cfg` updated by the options from `ind` on: option 1 is the subnet mask, 3
/// the router, 51 the lease time and 54 the DHCP server.
pub open spec fn apply_options(opts: Seq<u8>, ind: int, cfg: NetConfig) -> NetConfig
    decreases 50 - ind,
{
    if 0 <= ind < 50 {
        let code = opts[ind];
        let next = if code == 1 || code == 3 || code == 51 || code == 54 {
            ind + 6
        } else if ind + 1 < 50 {
            ind + opts[ind + 1] + 2
        } else {
            50
        };
        let cfg2 = if code == 1 {
            NetConfig { subnet_mask: option_value(opts, ind), ..cfg }
        } else if code == 3 {
            NetConfig { router_ip: option_value(opts, ind), ..cfg }
        } else if code == 51 {
            NetConfig { lease_time: option_value(opts, ind), ..cfg }
        } else if code == 54 {
            NetConfig { dhcp_server: option_value(opts, ind), ..cfg }
        } else {
            cfg
        };
        if code == 0xFF || next >= 50 {
            cfg2
        } else {
            apply_options(opts, next, cfg2)
        }
    } else {
        cfg
    }
}

/// The message type option that opens a DHCP message's options.
pub open spec fn message_type(options_starting: Seq<u8>, t: u8) -> bool {
    options_starting[0] == 53 && options_starting[1] == 1 && options_starting[2] == t
}

/// Whether `dhcp_deal` runs to its end: an acknowledgement's options must be readable.
pub open spec fn dhcp_deal_defined(options_starting: Seq<u8>, other_opts: Seq<u8>) -> bool {
    (!message_type(options_starting, 2) && message_type(options_starting, 5)) ==> (
    options_length_defined(other_opts, 0) && options_defined(other_opts, 0))
}

/// How far `dhcp_deal` moves the read offset: past the message type option, and
/// for an acknowledgement past the rest of its options as well, end mark included.
pub open spec fn dhcp_consumed(options_starting: Seq<u8>, other_opts: Seq<u8>) -> int {
    if !message_type(options_starting, 2) && message_type(options_starting, 5) {
        3 + options_length(other_opts, 0)
    } else {
        3
    }
}

/// `dhcp_deal` always steps over the three bytes of the message type option; on
/// an acknowledgement it steps over the rest of the options too, stopping just
/// past their end mark.
pub proof fn lemma_dhcp_consumed(options_starting: Seq<u8>, other_opts: Seq<u8>)
    requires
        options_starting.len() == 3,
        other_opts.len() == 50,
        options_starting == seq![53u8, 1, 5] ==> options_length_defined(other_opts, 0),
    ensures
        options_starting != seq![53u8, 1, 5] ==> dhcp_consumed(options_starting, other_opts) == 3,
        options_starting == seq![53u8, 1, 5] ==> {
            let n = dhcp_consumed(options_starting, other_opts);
            &&& 4 <= n <= 53
            &&& other_opts[n - 4] == 0xFF
        },
{
    if options_starting == seq![53u8, 1, 5] {
        lemma_options_length_ends_at_mark(other_opts, 0);
    } else if message_type(options_starting, 5) {
        assert(options_starting =~= seq![53u8, 1, 5]);
    }
}

/// What a DHCP message from the server asks for: an offer (type 2) is answered
/// with a request; an acknowledgement (type 5) sets the configuration from its
/// options and takes the offered address as the station's own; a refusal (type 6)
/// halts the station; anything else is left alone.
pub open spec fn dhcp_deal_action(
    eth: EthernetHeader,
    ip: IPHeader,
    udp: UDPHeader,
    dhcp: DHCPHeader,
    options_starting: Seq<u8>,
    other_opts: Seq<u8>,
    config: NetConfig,
) -> ActionView {
    if message_type(options_starting, 2) {
        ActionView::Send(request_frame(eth, ip, udp, dhcp))
    } else if message_type(options_starting, 5) {
        ActionView::Configure(
            NetConfig { my_ip: dhcp.yiaddr, ..apply_options(other_opts, 0, config) },
        )
    } else if message_type(options_starting, 6) {
        ActionView::Halt
    } else {
        ActionView::Nothing
    }
}

/// Reading the options never touches the station's own address: only the subnet
/// mask, router, lease time and server come from options.
pub proof fn lemma_options_keep_address(opts: Seq<u8>, ind: int, cfg: NetConfig)
    ensures
        apply_options(opts, ind, cfg).my_ip == cfg.my_ip,
    decreases 50 - ind,
{
    if 0 <= ind < 50 {
        let code = opts[ind];
        let next = if code == 1 || code == 3 || code == 51 || code == 54 {
            ind + 6
        } else if ind + 1 < 50 {
            ind + opts[ind + 1] + 2
        } else {
            50
        };
        if !(code == 0xFF || next >= 50) {
            let cfg2 = if code == 1 {
                NetConfig { subnet_mask: option_value(opts, ind), ..cfg }
            } else if code == 3 {
                NetConfig { router_ip: option_value(opts, ind), ..cfg }
            } else if code == 51 {
                NetConfig { lease_time: option_value(opts, ind), ..cfg }
            } else if code == 54 {
                NetConfig { dhcp_server: option_value(opts, ind), ..cfg }
            } else {
                cfg
            };
            lemma_options_keep_address(opts, next, cfg2);
        }
    }
}

/// An acknowledgement sets the station's address to the address it confirms, and
/// takes the subnet mask, router, lease time and server from the options that
/// carry them (codes 1, 3, 51, 54), whatever their values.
pub proof fn lemma_ack_configuration(
    eth: EthernetHeader,
    ip: IPHeader,
    udp: UDPHeader,
    dhcp: DHCPHeader,
    other_opts: Seq<u8>,
    config: NetConfig,
)
    requires
        other_opts.len() == 50,
        other_opts.subrange(0, 2) == seq![1u8, 4],
        other_opts.subrange(6, 8) == seq![3u8, 4],
        other_opts.subrange(12, 14) == seq![51u8, 4],
        other_opts.subrange(18, 20) == seq![54u8, 4],
        other_opts[24] == 0xFF,
    ensures
        dhcp_deal_action(eth, ip, udp, dhcp, seq![53u8, 1, 5], other_opts, config) == ActionView::Configure(
            NetConfig {
                my_ip: dhcp.yiaddr,
                subnet_mask: [other_opts[2], other_opts[3], other_opts[4], other_opts[5]],
                router_ip: [other_opts[8], other_opts[9], other_opts[10], other_opts[11]],
                lease_time: [other_opts[14], other_opts[15], other_opts[16], other_opts[17]],
                dhcp_server: [other_opts[20], other_opts[21], other_opts[22], other_opts[23]],
            },
        ),
{
    assert(other_opts[0] == other_opts.subrange(0, 2)[0]);
    assert(other_opts[6] == other_opts.subrange(6, 8)[0]);
    assert(other_opts[12] == other_opts.subrange(12, 14)[0]);
    assert(other_opts[18] == other_opts.subrange(18, 20)[0]);
    reveal_with_fuel(apply_options, 6);
}

fn build_request(
    eth_header: &EthernetHeader,
    ip_header: &IPHeader,
    udp_header: &UDPHeader,
    dhcp_header: &DHCPHeader,
) -> (r: Vec<u8>)
    ensures
        r@ == request_frame(*eth_header, *ip_header, *udp_header, *dhcp_header),
{
    let ghost parts = request_parts(*eth_header, *ip_header, *udp_header, *dhcp_header);
    let mut e = *eth_header;
    e.src = eth_header.dest;
    e.dest = [0xFFu8; 6];

    let mut i = *ip_header;
    i.src = [0u8; 4];
    i.dest = [0xFFu8; 4];
    i.set_len(IPHeader::size_of() + UDPHeader::size_of() + DHCPHeader::size_of() + 16);
    let ic = i.calc_checksum(false);
    i.set_checksum(ic);

    let mut d = *dhcp_header;
    d.op = 1;
    d.ciaddr = dhcp_header.yiaddr;
    d.yiaddr = [0u8; 4];

    let mut opts = [0u8; 16];
    opts[0] = 53;
    opts[1] = 1;
    opts[2] = 3;
    opts[3] = 50;
    opts[4] = 4;
    opts[5] = dhcp_header.yiaddr[0];
    opts[6] = dhcp_header.yiaddr[1];
    opts[7] = dhcp_header.yiaddr[2];
    opts[8] = dhcp_header.yiaddr[3];
    opts[9] = 54;
    opts[10] = 4;
    opts[11] = dhcp_header.siaddr[0];
    opts[12] = dhcp_header.siaddr[1];
    opts[13] = dhcp_header.siaddr[2];
    opts[14] = dhcp_header.siaddr[3];
    opts[15] = 0xFF;
    assert(opts@ =~= request_options(*dhcp_header));

    let mut u = *udp_header;
    u.src_port = udp_header.dest_port;
    u.dest_port = udp_header.src_port;
    u.set_len(UDPHeader::size_of() + DHCPHeader::size_of() + 16);

    let mut payload: Vec<u8> = Vec::new();
    d.to_bytes(&mut payload);
    crate::bytes::push_array(&mut payload, &opts);
    proof {
        d.lemma_bytes_len();
        u.lemma_words();
        lemma_pair_sum_bounds(payload@, payload@.len() / 2);
    }
    let uc = u.calc_checksum(false, &i, payload.as_slice());
    u.set_checksum(uc);
    assert(e.dest =~= [0xFFu8, 0xFF, 0xFF, 0xFF, 0xFF, 0xFF]);
    assert(i.src =~= [0u8, 0, 0, 0]);
    assert(i.dest =~= [0xFFu8, 0xFF, 0xFF, 0xFF]);
    assert(d.yiaddr =~= [0u8, 0, 0, 0]);
    assert(e == parts.0);
    assert(i == parts.1);
    assert(d == parts.3);
    assert(u == parts.2);

    let mut out: Vec<u8> = Vec::new();
    e.to_bytes(&mut out);
    i.to_bytes(&mut out);
    u.to_bytes(&mut out);
    d.to_bytes(&mut out);
    crate::bytes::push_array(&mut out, &opts);
    out
}

fn option_value_at(opts: &[u8; 50], ind: usize) -> (r: [u8; 4])
    requires
        ind + 5 < 50,
    ensures
        r == option_value(opts@, ind as int),
{
    let r = [opts[ind + 2], opts[ind + 3], opts[ind + 4], opts[ind + 5]];
    assert(r =~= option_value(opts@, ind as int));
    r
}

/// Reads the configuration out of the options of an acknowledgement, and how
/// long the options are.
fn read_ack_options(other_opts: &[u8; 50], config: &NetConfig) -> (r: (NetConfig, usize))
    requires
        options_length_defined(other_opts@, 0),
        options_defined(other_opts@, 0),
    ensures
        r.0 == apply_options(other_opts@, 0, *config),
        r.1 == options_length(other_opts@, 0),
        r.1 <= 50,
{
    // the length of the options, to step over them
    let mut size: usize = 0;
    loop
        invariant_except_break
            size < 50,
            options_length_defined(other_opts@, size as int),
            options_length(other_opts@, size as int) == options_length(other_opts@, 0),
        ensures
            size <= 50,
            size == options_length(other_opts@, 0),
        decreases 50 - size,
    {
        if other_opts[size] == 0xFF {
            size = size + 1;
            break;
        }
        size = size + other_opts[size + 1] as usize + 2;
    }

    let mut cfg = *config;
    let mut ind: usize = 0;
    loop
        invariant
            ind < 50,
            options_defined(other_opts@, ind as int),
            apply_options(other_opts@, ind as int, cfg) == apply_options(other_opts@, 0, *config),
        ensures
            cfg == apply_options(other_opts@, 0, *config),
        decreases 50 - ind,
    {
        let code = other_opts[ind];
        if code == 1 {
            cfg.subnet_mask = option_value_at(other_opts, ind);
            ind = ind + 6;
        } else if code == 3 {
            cfg.router_ip = option_value_at(other_opts, ind);
            ind = ind + 6;
        } else if code == 51 {
            cfg.lease_time = option_value_at(other_opts, ind);
            ind = ind + 6;
        } else if code == 54 {
            cfg.dhcp_server = option_value_at(other_opts, ind);
            ind = ind + 6;
        } else if code == 0xFF {
            break;
        } else {
            ind = ind + other_opts[ind + 1] as usize + 2;
        }
    }
    (cfg, size)
}

/// Handles a DHCP message from the server, whose options start at the card's read
/// offset (see `dhcp_deal_action`), and moves the read offset past the options it
/// reads (see `dhcp_consumed`).
pub fn dhcp_deal(
    eth_header: &EthernetHeader,
    ip_header: &IPHeader,
    udp_header: &UDPHeader,
    dhcp_header: &DHCPHeader,
    eth_dev: &mut RTL8139EthDriver,
    config: &NetConfig,
) -> (r: Action)
    requires
        old(eth_dev).my_rx_ptr_offset + 53 <= RX_BUFF_SIZE,
        dhcp_deal_defined(old(eth_dev).rx_rest().subrange(0, 3), old(eth_dev).rx_rest().subrange(3, 53)),
    ensures
        r@ == dhcp_deal_action(
            *eth_header,
            *ip_header,
            *udp_header,
            *dhcp_header,
            old(eth_dev).rx_rest().subrange(0, 3),
            old(eth_dev).rx_rest().subrange(3, 53),
            *config,
        ),
        *final(eth_dev) == old(eth_dev).with_offset(
            old(eth_dev).my_rx_ptr_offset + dhcp_consumed(
                old(eth_dev).rx_rest().subrange(0, 3),
                old(eth_dev).rx_rest().subrange(3, 53),
            ),
        ),
{
    let at = eth_dev.my_rx_ptr_offset as usize;
    let options_starting: [u8; 3] = read_array(eth_dev.rx_buffer.as_slice(), at);
    assert(options_starting@ =~= old(eth_dev).rx_rest().subrange(0, 3));
    eth_dev.my_rx_ptr_offset = eth_dev.my_rx_ptr_offset + 3;
    if options_starting[0] == 53 && options_starting[1] == 1 && options_starting[2] == 2 {
        Action::Send(build_request(eth_header, ip_header, udp_header, dhcp_header))
    } else if options_starting[0] == 53 && options_starting[1] == 1 && options_starting[2] == 5 {
        let other_opts: [u8; 50] = read_array(eth_dev.rx_buffer.as_slice(), at + 3);
        assert(other_opts@ =~= old(eth_dev).rx_rest().subrange(3, 53));
        let (mut cfg, size) = read_ack_options(&other_opts, config);
        eth_dev.my_rx_ptr_offset = eth_dev.my_rx_ptr_offset + size as u16;
        cfg.my_ip = dhcp_header.yiaddr;
        Action::Configure(cfg)
    } else if options_starting[0] == 53 && options_starting[1] == 1 && options_starting[2] == 6 {
        Action::Halt
    } else {
        Action::Nothing
    }
}


/// The options of the discover message: message type 1 (discover), then a request
/// (option 55) for the subnet mask, router, domain name and name server, then the end mark.
pub open spec fn discover_options() -> Seq<u8> {
    seq![53u8, 1, 1, 55, 4, 1, 3, 15, 6, 0xFF]
}

/// The headers of the discover message of the station with hardware address
/// `my_mac`: broadcast from address 0 to port 67 from port 68, IP length 278 with
/// its checksum, UDP length 258 with its checksum; a boot request (op 1) over
/// Ethernet with transaction id `10 29 38 47`, the station's hardware address, and
/// the DHCP magic cookie.
pub open spec fn discover_parts(my_mac: [u8; 6]) -> (EthernetHeader, IPHeader, UDPHeader, DHCPHeader) {
    let e = EthernetHeader {
        dest: [0xFFu8, 0xFF, 0xFF, 0xFF, 0xFF, 0xFF],
        src: my_mac,
        eth_type: [0x8u8, 0x0],
    };
    let i0 = IPHeader {
        ver_ihl: 0x45,
        tos: 0x10,
        total_len: u16_bytes(278),
        id: [0u8, 0],
        flags_frag: [0u8, 0],
        ttl: 64,
        protocol: 0x11,
        checksum: [0u8, 0],
        src: [0u8, 0, 0, 0],
        dest: [0xFFu8, 0xFF, 0xFF, 0xFF],
    };
    let i1 = IPHeader { checksum: u16_bytes(checksum_from_sum(i0.word_sum(false)) as u16), ..i0 };
    let d = DHCPHeader {
        op: 1,
        htype: 1,
        hlen: 6,
        hops: 0,
        xid: [0x10u8, 0x29, 0x38, 0x47],
        secs: [0u8, 0],
        flags: [0u8, 0],
        ciaddr: [0u8, 0, 0, 0],
        yiaddr: [0u8, 0, 0, 0],
        siaddr: [0u8, 0, 0, 0],
        giaddr: [0u8, 0, 0, 0],
        chaddr: [
            my_mac[0], my_mac[1], my_mac[2], my_mac[3], my_mac[4], my_mac[5],
            0u8, 0, 0, 0, 0, 0, 0, 0, 0, 0,
        ],
        legacy: vstd::array::spec_array_fill_for_copy_type::<u8, 192>(0u8),
        cookie: [0x63u8, 0x82, 0x53, 0x63],
    };
    let u0 = UDPHeader {
        src_port: [0u8, 0x44],
        dest_port: [0u8, 0x43],
        len: u16_bytes(258),
        checksum: [0u8, 0],
    };
    let u1 = UDPHeader {
        checksum: u16_bytes(
            checksum_from_sum(u0.word_sum(false, i1, d.bytes() + discover_options())) as u16,
        ),
        ..u0
    };
    (e, i1, u1, d)
}

/// The discover message passes a receiver's checks: the IP header checksum and
/// the UDP checksum, each summed with its field, give zero.
pub proof fn lemma_discover_checksums_verify(my_mac: [u8; 6])
    ensures
        ({
            let (e, i, u, d) = discover_parts(my_mac);
            &&& checksum_from_sum(i.word_sum(true)) == 0
            &&& checksum_from_sum(u.word_sum(true, i, d.bytes() + discover_options())) == 0
        }),
{
    let (e, i, u, d) = discover_parts(my_mac);
    let i0 = IPHeader { checksum: [0u8, 0], ..i };
    lemma_ip_checksum_verifies(i0);
    assert(IPHeader { checksum: i.checksum, ..i0 } == i);
    let u0 = UDPHeader { checksum: [0u8, 0], ..u };
    let payload = d.bytes() + discover_options();
    d.lemma_bytes_len();
    u0.lemma_words();
    lemma_pair_sum_bounds(payload, payload.len() / 2);
    lemma_udp_checksum_verifies(u0, i, payload);
    assert(UDPHeader { checksum: u.checksum, ..u0 } == u);
}

/// The frame of the discover message.
pub open spec fn discover_frame(my_mac: [u8; 6]) -> Seq<u8> {
    let (e, i, u, d) = discover_parts(my_mac);
    e.bytes() + i.bytes() + u.bytes() + d.bytes() + discover_options()
}

/// Builds the DHCP discover message of the station with hardware address `my_mac`.
pub fn dhcp_discover(my_mac: [u8; 6]) -> (r: Vec<u8>)
    ensures
        r@ == discover_frame(my_mac),
{
    let ghost parts = discover_parts(my_mac);
    let e = EthernetHeader { dest: [0xFFu8; 6], src: my_mac, eth_type: [0x8u8, 0x0] };
    let mut i = IPHeader {
        ver_ihl: (4u8 << 4u8) | 5u8,
        tos: 0x10,
        total_len: [0u8, 0],
        id: [0u8, 0],
        flags_frag: [0u8, 0],
        ttl: 64,
        protocol: 0x11,
        checksum: [0u8, 0],
        src: [0u8; 4],
        dest: [0xFFu8; 4],
    };
    let mut u = UDPHeader {
        src_port: [0u8, 0x44],
        dest_port: [0u8, 0x43],
        len: [0u8, 0],
        checksum: [0u8, 0],
    };
    let mut chaddr = [0u8; 16];
    let mut k: usize = 0;
    while k < 6
        invariant
            k <= 6,
            chaddr@.len() == 16,
            forall|j: int| 0 <= j < k ==> chaddr@[j] == my_mac@[j],
            forall|j: int| k <= j < 16 ==> chaddr@[j] == 0,
        decreases 6 - k,
    {
        chaddr[k] = my_mac[k];
        k = k + 1;
    }

    let d = DHCPHeader {
        op: 1,
        htype: 1,
        hlen: 0x6,
        hops: 0,
        xid: [0x10u8, 0x29, 0x38, 0x47],
        secs: [0u8; 2],
        flags: [0u8; 2],
        ciaddr: [0u8; 4],
        yiaddr: [0u8; 4],
        siaddr: [0u8; 4],
        giaddr: [0u8; 4],
        chaddr: chaddr,
        legacy: [0u8; 192],
        cookie: [0x63u8, 0x82, 0x53, 0x63],
    };
    assert((4u8 << 4u8) | 5u8 == 0x45u8) by (bit_vector);

    i.set_len(IPHeader::size_of() + UDPHeader::size_of() + DHCPHeader::size_of() + 10);
    let ic = i.calc_checksum(false);
    i.set_checksum(ic);

    let opts: [u8; 10] = [53u8, 1, 1, 55, 4, 1, 3, 15, 6, 0xFF];
    assert(opts@ =~= discover_options());

    u.set_len(UDPHeader::size_of() + DHCPHeader::size_of() + 10);
    let mut payload: Vec<u8> = Vec::new();
    d.to_bytes(&mut payload);
    crate::bytes::push_array(&mut payload, &opts);
    proof {
        d.lemma_bytes_len();
        u.lemma_words();
        lemma_pair_sum_bounds(payload@, payload@.len() / 2);
    }
    let uc = u.calc_checksum(false, &i, payload.as_slice());
    u.set_checksum(uc);

    proof {
        broadcast use vstd::array::group_array_axioms;
        assert(d.legacy =~= parts.3.legacy);
        assert(d.secs =~= parts.3.secs);
        assert(d.flags =~= parts.3.flags);
        assert(d.ciaddr =~= parts.3.ciaddr);
        assert(d.yiaddr =~= parts.3.yiaddr);
        assert(d.siaddr =~= parts.3.siaddr);
        assert(d.giaddr =~= parts.3.giaddr);
    }
    assert(e.dest =~= parts.0.dest);
    assert(i.src =~= parts.1.src);
    assert(i.dest =~= parts.1.dest);
    assert(d.chaddr =~= parts.3.chaddr);
    assert(e == parts.0);
    assert(i == parts.1);
    assert(d == parts.3);
    assert(u == parts.2);

    let mut out: Vec<u8> = Vec::new();
    e.to_bytes(&mut out);
    i.to_bytes(&mut out);
    u.to_bytes(&mut out);
    d.to_bytes(&mut out);
    crate::bytes::push_array(&mut out, &opts);
    out
}

} // verus!
