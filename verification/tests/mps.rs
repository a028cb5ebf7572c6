use kernel_core::error::Error;
use kernel_core::interrupt::mps::{
    find_fp, probe_ioapic, read_fp, FloatingPointer, IoApicEntry, FALLBACK_IOAPIC_BASE,
};
use kernel_core::serial::{SerialPort, COM1};

fn config_table(entries: &[&[u8]], entry_count: u16) -> Vec<u8> {
    let mut table = vec![0u8; 44];
    table[..4].copy_from_slice(b"PCMP");
    table[34..36].copy_from_slice(&entry_count.to_le_bytes());
    for entry in entries {
        table.extend_from_slice(entry);
    }
    table
}

fn pointer() -> FloatingPointer {
    FloatingPointer { signature: *b"_MP_", phys_addr: 0x9_fc00 }
}

#[test]
fn find_fp_looks_at_every_sixteenth_byte() {
    let mut memory = vec![0u8; 128];
    assert_eq!(find_fp(&memory), None);
    memory[50..54].copy_from_slice(b"_MP_");
    assert_eq!(find_fp(&memory), None);
    memory[64..68].copy_from_slice(b"_MP_");
    memory[96..100].copy_from_slice(b"_MP_");
    assert_eq!(find_fp(&memory), Some(64));
    memory[0..4].copy_from_slice(b"_MP_");
    assert_eq!(find_fp(&memory), Some(0));
}

#[test]
fn find_fp_skips_the_last_sixteen_bytes() {
    let mut memory = vec![0u8; 64];
    memory[48..52].copy_from_slice(b"_MP_");
    assert_eq!(find_fp(&memory), None);
    memory[32..36].copy_from_slice(b"_MP_");
    assert_eq!(find_fp(&memory), Some(32));
    assert_eq!(find_fp(&[0u8; 16]), None);
}

#[test]
fn read_fp_reads_signature_and_address() {
    let mut memory = vec![0u8; 32];
    memory[16..20].copy_from_slice(b"_MP_");
    memory[20..24].copy_from_slice(&0x000f_1234u32.to_le_bytes());
    assert_eq!(
        read_fp(&memory, 16),
        Some(FloatingPointer { signature: *b"_MP_", phys_addr: 0x000f_1234 })
    );
    assert_eq!(read_fp(&memory, 25), None);
    assert!(read_fp(&memory, 24).is_some());
    assert_eq!(read_fp(&[], 0), None);
}

#[test]
fn config_table_needs_its_signature() {
    let table = config_table(&[], 0);
    let parsed = pointer().get_config_table(&table).unwrap();
    assert_eq!(parsed.entry_count, 0);
    assert_eq!(parsed.bytes, table);
    let mut wrong = table.clone();
    wrong[3] = b'Q';
    assert_eq!(pointer().get_config_table(&wrong), None);
    assert_eq!(pointer().get_config_table(&table[..43]), None);
}

#[test]
fn ioapic_entry_is_found_behind_other_entries() {
    let processor = [0u8; 20];
    let bus = [1u8, 0, b'I', b'S', b'A', 0, 0, 0];
    let ioapic = [2u8, 7, 0x11, 1, 0x00, 0x00, 0xc0, 0xfe];
    let later = [2u8, 8, 0x11, 1, 0x00, 0x10, 0xc0, 0xfe];
    let table = config_table(&[&processor, &processor, &bus, &ioapic, &later], 0x0105);
    let parsed = pointer().get_config_table(&table).unwrap();
    assert_eq!(parsed.entry_count, 0x0105);
    assert_eq!(
        parsed.get_ioapic_entry(),
        Ok(Some(IoApicEntry { entry_type: 2, id: 7, version: 0x11, flags: 1, base: 0xfec0_0000 }))
    );
}

#[test]
fn ioapic_entry_may_be_missing() {
    let processor = [0u8; 20];
    let interrupt = [3u8, 0, 0, 0, 0, 0, 0, 0];
    let table = config_table(&[&processor, &interrupt], 2);
    let parsed = pointer().get_config_table(&table).unwrap();
    assert_eq!(parsed.get_ioapic_entry(), Ok(None));
    // the walk stops after the counted entries
    let ioapic = [2u8, 7, 0x11, 1, 0, 0, 0xc0, 0xfe];
    let table = config_table(&[&processor, &ioapic], 1);
    let parsed = pointer().get_config_table(&table).unwrap();
    assert_eq!(parsed.get_ioapic_entry(), Ok(None));
}

#[test]
fn invalid_entries_are_errors() {
    let unknown = [5u8, 0, 0, 0, 0, 0, 0, 0];
    let table = config_table(&[&unknown], 1);
    let parsed = pointer().get_config_table(&table).unwrap();
    assert_eq!(parsed.get_ioapic_entry(), Err(Error::Other("Invalid MPS entry type")));
    let table = config_table(&[], 1);
    let parsed = pointer().get_config_table(&table).unwrap();
    assert_eq!(parsed.get_ioapic_entry(), Err(Error::Other("MPS entry outside the table")));
    let short = [0u8; 19];
    let table = config_table(&[&short], 1);
    let parsed = pointer().get_config_table(&table).unwrap();
    assert_eq!(parsed.get_ioapic_entry(), Err(Error::Other("MPS entry outside the table")));
}

#[test]
fn ioapic_base_falls_back() {
    assert_eq!(probe_ioapic(), 0xfec0_0000);
    assert_eq!(FALLBACK_IOAPIC_BASE, 0xfec0_0000);
}

#[test]
fn serial_port_needs_room_for_its_registers() {
    assert!(SerialPort::new(COM1).is_some());
    assert!(SerialPort::new(0xfffa).is_some());
    assert!(SerialPort::new(0xfffb).is_none());
}

#[test]
fn serial_port_set_up_writes() {
    let port = SerialPort::new(COM1).unwrap();
    assert_eq!(
        port.init(),
        [
            (0x3f9, 0x00),
            (0x3fb, 0x80),
            (0x3f8, 0x03),
            (0x3f9, 0x00),
            (0x3fb, 0x03),
            (0x3fa, 0xc7),
            (0x3fc, 0x0b),
        ]
    );
    assert_eq!(port.status_port(), 0x3fd);
}

#[test]
fn serial_port_waits_for_the_transmit_buffer() {
    let port = SerialPort::new(COM1).unwrap();
    assert_eq!(port.write_byte(0x00, b'a'), None);
    assert_eq!(port.write_byte(0xdf, b'a'), None);
    assert_eq!(port.write_byte(0x20, b'a'), Some((0x3f8, b'a')));
    assert_eq!(port.write_byte(0x60, b'z'), Some((0x3f8, b'z')));
}

#[test]
fn serial_port_sends_a_string_byte_by_byte() {
    let port = SerialPort::new(0x2f8).unwrap();
    assert_eq!(port.write_str("ok\n"), vec![(0x2f8, b'o'), (0x2f8, b'k'), (0x2f8, b'\n')]);
    assert_eq!(port.write_str(""), vec![]);
    assert_eq!(port.write_str("é").len(), 2);
}
