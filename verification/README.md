# csnel

The network stack and device logic of a small x86-64 HTTP unikernel, as a
verified library, with the kernel around it in `app/`.

- `src/net`: the wire headers (Ethernet, ARP, IPv4, TCP, UDP, DHCP) and their
  wire images; the Internet checksum; what each received packet asks the
  station to do (ARP replies, SYN-ACKs, the HTTP response, the DHCP exchange);
  the receive ring's read offset; the card's interrupt status.
- `src/pci`: configuration-space addresses and fields, the bus scan and the
  device listing.
- `src/eth_driver`, `src/rtl8139_eth_driver`: the RTL8139's state, its transmit
  descriptors and registers, and finding the card among the PCI devices.
- `app/`: port I/O, interrupt and descriptor tables, paging, the device globals
  and the polling loop; it hands the library the values it reads and carries out
  what the library returns.
