//! A unikernel's network stack and drivers: Ethernet, ARP, IPv4, TCP, UDP and
//! DHCP packets, the RTL8139 card's receive ring and transmit descriptors, and
//! the PCI bus scan.
pub mod bytes;
pub mod net;
pub mod pci;
pub mod eth_driver;
pub mod rtl8139_eth_driver;
mod utf8_check;
