use csnel::eth_driver::rtl8139_drivers::{RTL8139EthDriver, RX_BUFF_SIZE};
use csnel::eth_driver::{detect_network_device, load_network_device};
use csnel::pci::_functions_list::{
    bar_offset, enable_bus_master, enable_capabil_list, get_command_reg, get_device_id,
    get_header_type, get_status_reg,
};
use csnel::pci::base::config_address;
use csnel::pci::check_bus::{check_bus, check_bus_and_get_list};
use csnel::pci::check_device::{check_device, check_device_and_add};
use csnel::pci::check_pci_list::{check_pci_list, DeviceKind};
use csnel::pci::pci_device::PciDevice;
use csnel::pci::{pci_init, PciList};

#[test]
fn config_address_layout() {
    assert_eq!(config_address(0, 3, 0, 0x10), 0x8000_1810);
    assert_eq!(config_address(1, 2, 3, 0x3F), 0x8001_133C);
}

#[test]
fn config_fields() {
    let id = 0x8139_10EC;
    assert_eq!(csnel::pci::_functions_list::get_vendor_id(id), 0x10EC);
    assert_eq!(get_device_id(id), 0x8139);
    assert_eq!(get_header_type(0x0080_0000), 0x80);
    assert_eq!(get_status_reg(0x0290_0007), 0x0290);
    assert_eq!(get_command_reg(0x0290_0007), 0x0007);
    assert_eq!(enable_bus_master(0x0290_0003), 0x0290_0007);
    assert_eq!(enable_capabil_list(0x0000_0003), 0x0010_0003);
    assert_eq!(bar_offset(0), 0x10);
    assert_eq!(bar_offset(5), 0x24);
    assert_eq!(PciDevice::get_cap_ptr(0x1234_5678), 0x78);
    assert_eq!(PciDevice::get_irq_pin_line(0x0000_010B), 0x010B);
}

#[test]
fn device_entry_and_bars() {
    let d = PciDevice::new();
    assert_eq!(d.get_vendor_id(), 0xFFFF);
    assert_eq!(d.get_device_id(), 0xFFFF);
    assert_eq!(d.get_header_type(), 0xFF);
    let mut d = d;
    assert!(check_device_and_add(0, 3, 0x8139_10EC, 0x0000_0000, &mut d));
    assert_eq!((d.bus_no, d.slot_no, d.vendor_id, d.device_id, d.header_type), (0, 3, 0x10EC, 0x8139, 0));
    assert_eq!(d.get_bar_with_no(0xC001), 0xC001);
    assert!(d.reads_bars());
    let mut bridge = d;
    bridge.header_type = 0x82;
    assert_eq!(bridge.get_bar_with_no(0xC001), 0);
    let before = PciDevice::new();
    let mut e = before;
    assert!(!check_device_and_add(0, 9, 0xFFFF_FFFF, 0, &mut e));
    assert_eq!(e.vendor_id, 0xFFFF);
    assert!(check_device(0x1237_8086));
    assert!(!check_device(0x0000_FFFF));
}

fn bus_regs() -> ([u32; 32], [u32; 32]) {
    let mut ids = [0xFFFF_FFFFu32; 32];
    let mut hdrs = [0u32; 32];
    ids[0] = 0x1237_8086;
    ids[1] = 0x7000_8086;
    hdrs[1] = 0x0080_0000;
    ids[2] = 0x1111_1234;
    ids[3] = 0x8139_10EC;
    (ids, hdrs)
}

#[test]
fn bus_scan_fills_the_list_in_slot_order() {
    let (ids, hdrs) = bus_regs();
    assert_eq!(check_bus(&ids), 4);
    let mut list = [PciDevice::new(); 32];
    let n = check_bus_and_get_list(0, &ids, &hdrs, &mut list, 0);
    assert_eq!(n, 4);
    assert_eq!(list[3].vendor_id, 0x10EC);
    assert_eq!(list[3].slot_no, 3);
    assert_eq!(list[1].header_type, 0x80);
    assert_eq!(list[4].vendor_id, 0xFFFF);

    let pci = PciList { list };
    pci.load();
    let report = check_pci_list(&pci);
    assert_eq!(report.len(), 4);
    assert_eq!(report[0].kind, DeviceKind::Standard);
    assert_eq!(report[1].kind, DeviceKind::Standard);
    assert!(!report[1].multi_function);
    assert_eq!(report[3].device.device_id, 0x8139);
    assert_eq!(pci_init(&pci).len(), 4);
}

#[test]
fn bus_scan_from_later_entry() {
    let mut ids = [0xFFFF_FFFFu32; 32];
    ids[5] = 0x0001_0002;
    let hdrs = [0x0002_0000u32; 32];
    let mut list = [PciDevice::new(); 32];
    assert_eq!(check_bus_and_get_list(1, &ids, &hdrs, &mut list, 7), 1);
    assert_eq!((list[7].bus_no, list[7].slot_no, list[7].vendor_id), (1, 5, 2));
    let report = check_pci_list(&PciList { list });
    assert_eq!(report.len(), 0);
    let mut only = [PciDevice::new(); 32];
    only[0] = list[7];
    let report = check_pci_list(&PciList { list: only });
    assert_eq!(report[0].kind, DeviceKind::CardBusBridge);
}

#[test]
fn driver_new_transmit_cycle() {
    let mut dev = RTL8139EthDriver::new(3);
    assert_eq!(dev.rx_buffer.len(), RX_BUFF_SIZE);
    assert_eq!(dev.current_desc, 0);
    dev.base_addr = 0xC000;
    let c = dev.transmit_packet(0x0012_3000, 60);
    assert_eq!((c.tsad_port, c.tsd_port, c.address, c.tsd_value), (0xC020, 0xC010, 0x0012_3000, 60));
    let c = dev.transmit_packet(0x0012_3000, 0x2000 | 60);
    assert_eq!((c.tsad_port, c.tsd_port, c.tsd_value), (0xC024, 0xC014, 60));
    dev.transmit_packet(0, 1);
    dev.transmit_packet(0, 1);
    assert_eq!(dev.current_desc, 0);
    let s = RTL8139EthDriver::tx_status(0x8000);
    assert!(s.ok && !s.underrun);
    let s = RTL8139EthDriver::tx_status(0x4000);
    assert!(!s.ok && s.underrun);
}

#[test]
fn driver_registers() {
    assert_eq!(RTL8139EthDriver::get_base_address(0xC001), 0xC000);
    assert_eq!(RTL8139EthDriver::get_base_address(0xFEBF_1000), 0);
    assert_eq!(csnel::rtl8139_eth_driver::base::get_base_address(0xC0A1), 0xC0A0);
    assert_eq!(
        RTL8139EthDriver::get_mac_addr(0x1234_5652, 0x0000_0054),
        [0x00, 0x54, 0x12, 0x34, 0x56, 0x52]
    );
}

#[test]
fn loading_the_card() {
    let (ids, hdrs) = bus_regs();
    let mut list = [PciDevice::new(); 32];
    check_bus_and_get_list(0, &ids, &hdrs, &mut list, 0);
    let pci = PciList { list };
    let (valid, index) = detect_network_device();
    assert!(valid);
    assert_eq!(index, 3);
    assert_eq!(csnel::rtl8139_eth_driver::base::detect_network_device(&pci).device_id, 0x8139);
    let mut dev = RTL8139EthDriver::new(0xFF);
    assert!(load_network_device(&mut dev, &pci, index, 0x1_0012_3000));
    assert_eq!(dev.pci_dev_no, 3);
    assert_eq!(dev.rb_start, 0x0012_3000);
    let mut other = RTL8139EthDriver::new(0xFF);
    assert!(!load_network_device(&mut other, &pci, 0, 0x5000));
    assert_eq!(other.pci_dev_no, 0xFF);
    assert_eq!(other.rb_start, 0);
    csnel::eth_driver::base::detect_network_device();
    let mut d = pci.list[3];
    csnel::rtl8139_eth_driver::base::turn_on_eth_dev(&mut d);
    assert_eq!(d.vendor_id, 0x10EC);
}
