//! The first RTL8139 driver: the card as a PCI device.
pub mod base;
