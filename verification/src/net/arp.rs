//! ARP: the reply to a request.
use vstd::prelude::*;
use crate::bytes::u16_bytes;
use crate::net::head_struct::{ARPHeader, EthernetHeader};

verus! {

/// The reply to the ARP request `arp_req` that came in the frame `eth_header`,
/// sent from the station whose hardware address is `my_mac`: the frame goes back
/// to where the request came from; the operation becomes 2 (reply); the replier
/// names itself by `my_mac` and the address that was asked for, and names the
/// requester by its hardware and protocol addresses.
pub open spec fn arp_reply(arp_req: ARPHeader, eth_header: EthernetHeader, my_mac: [u8; 6]) -> (
    EthernetHeader,
    ARPHeader,
) {
    let eth = EthernetHeader { src: my_mac, dest: eth_header.src, ..eth_header };
    let arp = ARPHeader {
        oper: u16_bytes(2),
        sender_hw_addr: my_mac,
        sender_p_addr: arp_req.receiver_p_addr,
        receiver_hw_addr: eth_header.src,
        receiver_p_addr: arp_req.sender_p_addr,
        ..arp_req
    };
    (eth, arp)
}

/// Builds the reply to an ARP request; the frame to send is the Ethernet header
/// followed by the ARP header.
pub fn arp_deal(arp_req: &ARPHeader, eth_header: &EthernetHeader, my_mac: [u8; 6]) -> (r: (
    EthernetHeader,
    ARPHeader,
))
    ensures
        r == arp_reply(*arp_req, *eth_header, my_mac),
{
    let mut final_packet = (*eth_header, *arp_req);
    final_packet.0.src = my_mac;
    final_packet.0.dest = eth_header.src;

    final_packet.1.set_oper(2u16);
    final_packet.1.sender_hw_addr = final_packet.0.src;
    final_packet.1.sender_p_addr = arp_req.receiver_p_addr;
    final_packet.1.receiver_hw_addr = final_packet.0.dest;
    final_packet.1.receiver_p_addr = arp_req.sender_p_addr;
    final_packet
}

/// Answering a request swaps the roles: the reply is addressed to whoever asked,
/// at the hardware and protocol addresses it gave, and it answers for the protocol
/// address that was asked about.
pub proof fn lemma_arp_reply_answers_request(arp_req: ARPHeader, eth_header: EthernetHeader, my_mac: [u8; 6])
    ensures
        ({
            let (eth, arp) = arp_reply(arp_req, eth_header, my_mac);
            &&& eth.dest == eth_header.src
            &&& eth.src == my_mac
            &&& arp.receiver_hw_addr == eth_header.src
            &&& arp.receiver_p_addr == arp_req.sender_p_addr
            &&& arp.sender_p_addr == arp_req.receiver_p_addr
            &&& arp.sender_hw_addr == my_mac
            &&& arp.oper == u16_bytes(2)
        }),
{
}

} // verus!
