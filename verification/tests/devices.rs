use crafty_os::image_build::{build_step, BuildOutcome, CargoReport};
use crafty_os::disk::ata::{
    identify_next, IdentifyNext, IdentifyStage, identify_bytes, model, serial, status_busy, status_error, write_words, ATADiskIdentify, AtaCommand, ATA,
};
use crafty_os::disk::{read, read_screen, write_screen, DiskRead, PRIMARY_PORT_BASE, SECONDARY_PORT_BASE};
use crafty_os::interrupts::{HardwareInterruptOffset, PIC1_OFFSET, PIC2_OFFSET};
use crafty_os::pci::{
    bar_offset, decode_bar, device_absent, get_base_address_register, get_device_descriptor,
    get_device_functions, get_driver, make_id, max_bars, num_functions, port_base_from_bar,
    register_value, BaseAddressRegister, BaseAddressRegisterType, PciProbe, PciScan,
};
use crafty_os::qemu::{QemuExitCode, EXIT_PORT};
use crafty_os::vga_buffer::colour::ColourCode;
use crafty_os::vga_buffer::writer::{Buffer, ScreenChar, Writer, MAPPED_CELLS};

fn blank_writer() -> Writer {
    Writer::new(Buffer {
        chars: vec![ScreenChar { ascii_character: 0, colour_code: ColourCode(0) }; MAPPED_CELLS],
    })
}

fn status(w: &Writer) -> String {
    (0..80).map(|x| w.buffer.chars[x].ascii_character as char).collect::<String>().trim_end().to_string()
}

#[test]
fn ata_ports_and_select_bytes() {
    let m = ATA::new(PRIMARY_PORT_BASE, true);
    let s = ATA::new(SECONDARY_PORT_BASE, false);
    assert_eq!(m.bytes_per_sector, 512);
    assert_eq!(m.data_port(), 0x1F0);
    assert_eq!(m.register_port(7), 0x1F7);
    assert_eq!(s.control_port(), 0x376);
    assert_eq!(m.select_byte(), 0xA0);
    assert_eq!(s.select_byte(), 0xB0);
    assert_eq!(m.device_byte(0x0A00_0000), 0xEA);
    assert_eq!(s.device_byte(0x0300_1234), 0xF3);
    assert_eq!(m.flush(), (0xE0, 0xE7));
    assert_eq!(s.flush(), (0xF0, 0xE7));
}

#[test]
fn ata_read_command_registers() {
    let m = ATA::new(PRIMARY_PORT_BASE, true);
    let c = m.read_28(0x0012_3456, 256).unwrap();
    assert_eq!(
        c,
        AtaCommand {
            device: 0xE0,
            sector_count: 1,
            lba_low: 0x56,
            lba_mid: 0x34,
            lba_hi: 0x12,
            command: 0x20,
            data_words: 128,
            padding_words: 128,
        }
    );
    assert_eq!(m.read_28(1, 513), None);
    let w = ATA::new(PRIMARY_PORT_BASE, false).write_28(8, 3).unwrap();
    assert_eq!((w.command, w.device, w.data_words, w.padding_words), (0x30, 0xF0, 2, 254));
}

#[test]
fn ata_status_bits() {
    assert!(status_busy(0x80));
    assert!(!status_busy(0x81));
    assert!(!status_busy(0x40));
    assert!(status_error(0x51));
    assert!(!status_error(0x50));
}

#[test]
fn ata_write_words_pack_little_endian_and_pad() {
    let w = write_words(&[0x01, 0x02, 0x03], 3);
    assert_eq!(w.len(), 256);
    assert_eq!(w[0], 0x0201);
    assert_eq!(w[1], 0x0003);
    assert!(w[2..].iter().all(|&x| x == 0));
}

#[test]
fn ata_identify_bytes_and_strings() {
    let mut words = vec![0u16; 256];
    words[0] = 0x0040;
    words[10] = u16::from_be_bytes(*b"AB");
    words[27] = u16::from_be_bytes(*b"QE");
    let bytes = identify_bytes(&words);
    assert_eq!(bytes.len(), 512);
    assert_eq!(&bytes[0..2], &[0x00, 0x40]);
    assert_eq!(&bytes[20..22], b"AB");
    assert_eq!(serial(&bytes).len(), 20);
    assert_eq!(&serial(&bytes)[0..2], b"AB");
    assert_eq!(model(&bytes).len(), 40);
    assert_eq!(&model(&bytes)[0..2], b"QE");
    let info = ATADiskIdentify::from_bytes(&bytes);
    assert_eq!(info.config, 0x4000);
    assert_eq!(&info.serial[0..2], b"AB");
    assert_eq!(&info.model[0..2], b"QE");
}

#[test]
fn disk_read_valid_and_invalid_drive() {
    let mut w = blank_writer();
    assert_eq!(read(2, 10, 256, &mut w), Some(DiskRead { drive: 2, sector: 10, count: 256 }));
    assert_eq!(status(&w), "");
    assert_eq!(read(4, 10, 256, &mut w), None);
    assert_eq!(status(&w), "Invalid drive number :(");
    assert_eq!(w.buffer.chars[1].colour_code.0, 12);
}

#[test]
fn disk_read_screen_plans_section_sectors() {
    let mut w = blank_writer();
    let reads = read_screen(1, 2, &mut w);
    assert_eq!(reads.len(), 8);
    assert_eq!(reads[0], DiskRead { drive: 1, sector: 16, count: 256 });
    assert_eq!(reads[6], DiskRead { drive: 1, sector: 22, count: 256 });
    assert_eq!(reads[7], DiskRead { drive: 1, sector: 23, count: 128 });
    assert!(read_screen(9, 2, &mut w).is_empty());
    assert_eq!(status(&w), "Invalid drive number :(");
}

#[test]
fn disk_write_and_write_screen() {
    let mut w = blank_writer();
    let one = crafty_os::disk::write(0, 5, b"abc", &mut w).unwrap();
    assert_eq!((one.drive, one.sector, one.data.clone()), (0, 5, b"abc".to_vec()));
    assert!(crafty_os::disk::write(7, 5, b"abc", &mut w).is_none());
    assert_eq!(status(&w), "Invalid drive number :(");
    let data: Vec<u8> = (0..1920).map(|i| (i % 251) as u8).collect();
    let writes = write_screen(3, 1, data.clone(), &mut w);
    assert_eq!(writes.len(), 8);
    assert_eq!(writes[0].sector, 8);
    assert_eq!(writes[0].data, data[0..256].to_vec());
    assert_eq!(writes[6].sector, 14);
    assert_eq!(writes[7].sector, 15);
    assert_eq!(writes[7].data, data[1792..].to_vec());
}

#[test]
fn pci_config_address() {
    assert_eq!(make_id(0, 0, 0, 0), 0x8000_0000);
    assert_eq!(make_id(1, 2, 3, 0x0E), 0x8001_130C);
    assert_eq!(make_id(0, 31, 7, 0x3C), 0x8000_FF3C);
    assert_eq!(register_value(0xAABB_CCDD, 0x0E), 0xAABB);
    assert_eq!(register_value(0xAABB_CCDD, 0x0B), 0xAA);
    assert_eq!(register_value(0xAABB_CCDD, 0x00), 0xAABB_CCDD);
}

#[test]
fn pci_header_and_functions() {
    assert!(get_device_functions(0x80));
    assert!(!get_device_functions(0x7F));
    assert_eq!(num_functions(true), 8);
    assert_eq!(num_functions(false), 1);
    assert_eq!(max_bars(0x00), 6);
    assert_eq!(max_bars(0x81), 2);
    assert_eq!(bar_offset(0), 0x10);
    assert_eq!(bar_offset(5), 0x24);
}

#[test]
fn pci_descriptor_and_absent_vendor() {
    let d = get_device_descriptor(0, 3, 0, 0x8086_1237, 0x1237, 0x06, 0x00, 0x00, 0x02, 0x0B);
    assert_eq!(d.vendor_id, 0x1237);
    assert_eq!(d.device_id, 0x1237);
    assert_eq!(d.class_id, 0x06);
    assert_eq!(d.revision, 0x02);
    assert_eq!(d.interrupt, 0x0B);
    assert_eq!(d.port_base, 0);
    assert!(!device_absent(&d));
    let none = get_device_descriptor(0, 4, 0, 0xFFFF, 0xFFFF, 0, 0, 0, 0, 0);
    assert!(device_absent(&none));
}

#[test]
fn pci_bars_decode() {
    let io = decode_bar(0xC001);
    assert_eq!(io.register_type, BaseAddressRegisterType::InputOutput);
    assert_eq!(io.address, 0x00);
    assert_eq!(decode_bar(0xC0E1).address, 0xE0);
    let mem = decode_bar(0xFEB0_0008);
    assert_eq!(
        mem,
        BaseAddressRegister { prefetchable: true, address: 0, size: 0, register_type: BaseAddressRegisterType::MemoryMapping }
    );
    assert_eq!(get_base_address_register(0x01, 2, 0xC0E1), None);
    assert_eq!(get_base_address_register(0x00, 5, 0xC0E1).unwrap().address, 0xE0);
}

#[test]
fn pci_driver_names_and_port_base() {
    let mut d = get_device_descriptor(0, 3, 0, 0x1022, 0x2000, 0x02, 0x00, 0, 0, 0);
    let (code, vendor, class) = get_driver(&d);
    assert_eq!(code, 0);
    assert_eq!(vendor, "Device: AM79C973");
    assert!(!class.is_empty());
    d.vendor_id = 0x8086;
    assert_eq!(get_driver(&d).1, "Device: Other Intel");
    d.vendor_id = 0x1234;
    assert_eq!(get_driver(&d).1, "Device: Unknown");
    let vga = get_device_descriptor(0, 2, 0, 0x1234, 0x1111, 0x03, 0x00, 0, 0, 0);
    assert_eq!(get_driver(&vga).2, "Device: VGA");
    let bar = decode_bar(0xC0E1);
    assert_eq!(port_base_from_bar(&vga, &bar), 0xE0);
    let mem = decode_bar(0x8);
    assert_eq!(port_base_from_bar(&vga, &mem), 0);
}

/// A configuration space with a VGA card (bus 0, device 2, one function,
/// one I/O base address register) and a two-function AMD device (bus 1,
/// device 3); nothing else answers.
fn config_register(bus: u16, device: u16, function: u16, offset: u32) -> u32 {
    match (bus, device, function, offset) {
        (0, 2, 0, 0x00) => 0x1234,
        (0, 2, 0, 0x02) => 0x1111,
        (0, 2, 0, 0x0B) => 0x03,
        (0, 2, 0, 0x0A) => 0x00,
        (0, 2, 0, 0x0E) => 0x00,
        (0, 2, 0, 0x10) => 0xC0E1,
        (1, 3, 0, 0x0E) => 0x80,
        (1, 3, 0 | 1, 0x0E) => 0x80,
        (1, 3, 0 | 1, 0x00) => 0x1022,
        (1, 3, 0 | 1, 0x02) => 0x2000,
        (_, _, _, 0x00) | (_, _, _, 0x02) => 0xFFFF,
        _ => 0,
    }
}

#[test]
fn pci_scan_walks_every_device_and_yields_after_each() {
    let mut scan = PciScan::new();
    let mut value = 0;
    let mut yields = 0;
    let mut reads = 0;
    let mut found = Vec::new();
    let mut lines = Vec::new();
    loop {
        match scan.scan_step(value) {
            PciProbe::Read { bus, device, function, offset } => {
                assert!(bus < 8 && device < 32 && function < 8);
                reads += 1;
                value = config_register(bus, device, function, offset);
            }
            PciProbe::Lines { vendor, class } => lines.push((vendor, class)),
            PciProbe::Found { dev } => found.push(dev),
            PciProbe::Yield => yields += 1,
            PciProbe::Fault => panic!("unexpected header type"),
            PciProbe::Done => break,
        }
    }
    assert_eq!(yields, 8 * 32);
    assert_eq!(found.len(), 3);
    assert_eq!((found[0].bus, found[0].device, found[0].function), (0, 2, 0));
    assert_eq!(found[0].vendor_id, 0x1234);
    assert_eq!(found[0].class_id, 0x03);
    assert_eq!(found[0].port_base, 0xE0);
    assert_eq!((found[1].bus, found[1].device, found[1].function), (1, 3, 0));
    assert_eq!((found[2].bus, found[2].device, found[2].function), (1, 3, 1));
    assert_eq!(found[2].device_id, 0x2000);
    // six base address registers per general device function
    assert_eq!(lines.len(), 18);
    assert_eq!(lines[0], ("Device: Unknown", "Device: VGA"));
    assert_eq!(lines[6], ("Device: AM79C973", "Device: Unknown"));
    // per device: the header register and 7 descriptor registers of each
    // function looked at; per present function, 6 header reads and 6 bar reads
    assert_eq!(reads, 256 + 7 * (255 + 8) + 3 * 12);
    assert_eq!(scan.scan_step(0), PciProbe::Done);
}

#[test]
fn pci_scan_stops_on_unknown_header_type() {
    let mut scan = PciScan::new();
    assert_eq!(scan.scan_step(0), PciProbe::Read { bus: 0, device: 0, function: 0, offset: 0x0E });
    assert_eq!(scan.scan_step(0), PciProbe::Read { bus: 0, device: 0, function: 0, offset: 0x00 });
    for (v, off) in [(0x8086, 0x02), (0x1, 0x0B), (0x2, 0x0A), (0x3, 0x09), (0x4, 0x08), (0x5, 0x3C)] {
        assert_eq!(scan.scan_step(v), PciProbe::Read { bus: 0, device: 0, function: 0, offset: off });
    }
    assert_eq!(scan.scan_step(11), PciProbe::Read { bus: 0, device: 0, function: 0, offset: 0x0E });
    assert_eq!(scan.scan_step(0x02), PciProbe::Fault);
    assert_eq!(scan.scan_step(0), PciProbe::Done);
}

#[test]
fn pci_bridge_has_two_base_address_registers() {
    let mut scan = PciScan::new();
    scan.scan_step(0);
    scan.scan_step(0);
    for v in [0x8086, 0, 0, 0, 0, 0, 0] {
        scan.scan_step(v);
    }
    // bar 0 of a bridge is read, bar 2 is not
    assert_eq!(scan.scan_step(0x01), PciProbe::Read { bus: 0, device: 0, function: 0, offset: 0x10 });
    assert_eq!(
        scan.scan_step(0x1),
        PciProbe::Lines { vendor: "Device: Other Intel", class: "Device: Unknown" }
    );
    assert_eq!(scan.scan_step(0), PciProbe::Read { bus: 0, device: 0, function: 0, offset: 0x0E });
    assert_eq!(scan.scan_step(0x01), PciProbe::Read { bus: 0, device: 0, function: 0, offset: 0x14 });
    scan.scan_step(0);
    assert_eq!(scan.scan_step(0), PciProbe::Read { bus: 0, device: 0, function: 0, offset: 0x0E });
    assert_eq!(scan.scan_step(0x01), PciProbe::Read { bus: 0, device: 0, function: 0, offset: 0x0E });
}

#[test]
fn ata_identify_status_decisions() {
    assert_eq!(identify_next(IdentifyStage::Presence, 0xFF), IdentifyNext::NoDevice);
    assert_eq!(identify_next(IdentifyStage::Presence, 0x50), IdentifyNext::SendCommand);
    assert_eq!(identify_next(IdentifyStage::Command, 0x00), IdentifyNext::NoDevice);
    assert_eq!(identify_next(IdentifyStage::Polling, 0x00), IdentifyNext::ReadData);
    assert_eq!(identify_next(IdentifyStage::Command, 0x80), IdentifyNext::ReadStatus);
    assert_eq!(identify_next(IdentifyStage::Polling, 0x81), IdentifyNext::Failed);
    assert_eq!(identify_next(IdentifyStage::Polling, 0x01), IdentifyNext::Failed);
    assert_eq!(identify_next(IdentifyStage::Polling, 0x58), IdentifyNext::ReadData);
}

#[test]
fn cargo_messages_pick_the_package_executable() {
    let name = b"kernel";
    assert_eq!(build_step(name, &CargoReport::Diagnostic), BuildOutcome::Show);
    assert_eq!(
        build_step(name, &CargoReport::Artifact { target: b"bootloader".to_vec(), executable: true }),
        BuildOutcome::Next
    );
    assert_eq!(
        build_step(name, &CargoReport::Artifact { target: b"kernel".to_vec(), executable: true }),
        BuildOutcome::Executable
    );
    assert_eq!(
        build_step(name, &CargoReport::Artifact { target: b"kernel".to_vec(), executable: false }),
        BuildOutcome::NoExecutable
    );
    assert_eq!(
        build_step(name, &CargoReport::Artifact { target: b"kerne".to_vec(), executable: true }),
        BuildOutcome::Next
    );
    assert_eq!(build_step(name, &CargoReport::Finished { success: true }), BuildOutcome::Next);
    assert_eq!(build_step(name, &CargoReport::Finished { success: false }), BuildOutcome::Failed);
    assert_eq!(build_step(name, &CargoReport::Other), BuildOutcome::Next);
}

#[test]
fn interrupt_numbers() {
    assert_eq!(PIC1_OFFSET, 32);
    assert_eq!(PIC2_OFFSET, 40);
    assert_eq!(HardwareInterruptOffset::Timer.as_u8(), 32);
    assert_eq!(HardwareInterruptOffset::Keyboard.as_u8(), 33);
    assert_eq!(HardwareInterruptOffset::LPT1.as_usize(), 39);
    assert_eq!(HardwareInterruptOffset::Mouse.as_u8(), 44);
    assert_eq!(HardwareInterruptOffset::ATAMaster0.as_u8(), 45);
    assert_eq!(HardwareInterruptOffset::ATASlave0.as_usize(), 46);
}

#[test]
fn qemu_exit_codes() {
    assert_eq!(QemuExitCode::Success.code(), 0x10);
    assert_eq!(QemuExitCode::Failed.code(), 0x11);
    assert_eq!(EXIT_PORT, 0xf4);
}
