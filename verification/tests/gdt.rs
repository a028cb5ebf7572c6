use kernel_core::cpu::Ring;
use kernel_core::error::Error;
use kernel_core::gdt::task::{empty_tss, init_tss};
use kernel_core::gdt::types::{AccessByte, SystemAccessByte, SystemDescriptorType};
use kernel_core::gdt::{init_cpu, BigGdtEntry, GdtEntry, GlobalDescriptorTable};

#[test]
fn access_byte_new_is_present_code_or_data() {
    assert_eq!(AccessByte::new().0, 0x90);
    assert_eq!(AccessByte::not_present().0, 0);
    assert!(AccessByte::new().present());
    assert!(AccessByte::new().code_data());
    assert!(!AccessByte::not_present().present());
}

#[test]
fn access_byte_flags_sit_at_their_bits() {
    let mut access = AccessByte(0);
    access.set_accessed(true);
    assert_eq!(access.0, 0x01);
    access.set_read_write(true);
    assert_eq!(access.0, 0x03);
    access.set_direction(true);
    assert_eq!(access.0, 0x07);
    access.set_executable(true);
    assert_eq!(access.0, 0x0f);
    access.set_code_data(true);
    assert_eq!(access.0, 0x1f);
    access.set_present(true);
    assert_eq!(access.0, 0x9f);
    assert!(access.accessed() && access.read_write() && access.direction());
    assert!(access.executable() && access.code_data() && access.present());
    access.set_executable(false);
    assert_eq!(access.0, 0x97);
    assert!(!access.executable());
    access.set_present(false);
    assert_eq!(access.0, 0x17);
    access.set_accessed(false);
    access.set_read_write(false);
    access.set_direction(false);
    access.set_code_data(false);
    assert_eq!(access.0, 0);
}

#[test]
fn access_byte_privilege_takes_two_bits() {
    let mut access = AccessByte(0xff);
    assert_eq!(access.privilege(), 3);
    access.set_privilege(0);
    assert_eq!(access.0, 0x9f);
    assert_eq!(access.privilege(), 0);
    access.set_privilege(2);
    assert_eq!(access.0, 0xdf);
    assert_eq!(access.privilege(), 2);
    // only the two low bits of the value are taken
    access.set_privilege(0xfd);
    assert_eq!(access.0, 0xbf);
    assert_eq!(AccessByte(0x60).privilege(), 3);
}

#[test]
fn system_access_byte_holds_the_descriptor_type() {
    assert_eq!(SystemAccessByte::new(SystemDescriptorType::AvailableTss).0, 0x89);
    assert_eq!(SystemAccessByte::new(SystemDescriptorType::BusyTss).0, 0x8b);
    assert_eq!(SystemAccessByte::not_present().0, 0);
    let mut access = SystemAccessByte(0xf0);
    access.set_descriptor_type(SystemDescriptorType::BusyTss);
    assert_eq!(access.0, 0xfb);
    assert_eq!(access.real_descriptor_type(), 0x0b);
    access.set_real_descriptor_type(0xf4);
    assert_eq!(access.0, 0xf4);
    access.set_privilege(1);
    assert_eq!(access.0, 0xb4);
    assert_eq!(access.privilege(), 1);
    assert!(access.present());
    assert!(access.code_data());
    access.set_code_data(false);
    access.set_present(false);
    assert_eq!(access.0, 0x24);
}

#[test]
fn descriptor_type_numbers() {
    assert_eq!(u8::from(SystemDescriptorType::AvailableTss), 0b1001);
    assert_eq!(u8::from(SystemDescriptorType::BusyTss), 0b1011);
    assert_eq!(SystemDescriptorType::try_from(0b1001), Ok(SystemDescriptorType::AvailableTss));
    assert_eq!(SystemDescriptorType::try_from(0b1011), Ok(SystemDescriptorType::BusyTss));
    assert_eq!(SystemDescriptorType::try_from(5), Err(Error::InvalidDescriptorType(5)));
    assert_eq!(SystemDescriptorType::from_u8(0), Err(Error::InvalidDescriptorType(0)));
    assert_eq!(SystemDescriptorType::BusyTss.into_u8(), 11);
}

#[test]
fn gdt_entry_packs_offset_limit_and_flags() {
    let entry = GdtEntry::new(0x1234_5678, 0x000a_bcde, AccessByte(0x9a), 0xc7);
    assert_eq!(entry.limitl, 0xbcde);
    assert_eq!(entry.offsetl, 0x5678);
    assert_eq!(entry.offsetm, 0x34);
    assert_eq!(entry.offseth, 0x12);
    assert_eq!(entry.access, 0x9a);
    assert_eq!(entry.flags_limith, 0xca);
    assert_eq!(entry.access_bytes(), 0xc09a);
    // bits of the limit above the twentieth are dropped
    let wide = GdtEntry::new(0, 0xfff1_2345, AccessByte(0), 0);
    assert_eq!(wide.limitl, 0x2345);
    assert_eq!(wide.flags_limith, 0x01);
}

#[test]
fn gdt_entry_empty_is_zero() {
    let entry = GdtEntry::empty();
    assert_eq!(
        (entry.limitl, entry.offsetl, entry.offsetm, entry.access, entry.flags_limith, entry.offseth),
        (0, 0, 0, 0, 0, 0)
    );
    assert_eq!(entry.access_bytes(), 0);
}

#[test]
fn big_gdt_entry_packs_a_64_bit_offset() {
    let entry = BigGdtEntry::new(0x1122_3344_5566_7788, 0x0003_0068, SystemAccessByte(0xe9), 0x25);
    assert_eq!(entry.limitl, 0x0068);
    assert_eq!(entry.offsetl, 0x7788);
    assert_eq!(entry.offsetm, 0x66);
    assert_eq!(entry.offseth, 0x55);
    assert_eq!(entry.offsetx, 0x1122_3344);
    assert_eq!(entry.access_type, 0xe9);
    assert_eq!(entry.flags_limith, 0x23);
    assert_eq!(entry.reserved, 0);
    assert_eq!(entry.access_bytes(), 0x20e9);
    let empty = BigGdtEntry::empty();
    assert_eq!((empty.limitl, empty.offsetx, empty.access_type, empty.flags_limith), (0, 0, 0, 0));
}

#[test]
fn init_cpu_fills_the_table() {
    let mut gdt = GlobalDescriptorTable::empty();
    assert_eq!(gdt.kernel_code.access, 0);
    assert_eq!(gdt.tss.access_type, 0);
    init_cpu(&mut gdt, 0xffff_8000_0012_3000, 0x68);
    assert_eq!(gdt.null.access, 0);
    assert_eq!(gdt.null.flags_limith, 0);
    assert_eq!(gdt.kernel_data.access, 0x92);
    assert_eq!(gdt.kernel_code.access, 0x9a);
    assert_eq!(gdt.user_data.access, 0xf2);
    assert_eq!(gdt.user_code.access, 0xfa);
    for entry in [gdt.kernel_data, gdt.kernel_code, gdt.user_data, gdt.user_code] {
        assert_eq!(entry.flags_limith, 0x20);
        assert_eq!((entry.limitl, entry.offsetl, entry.offsetm, entry.offseth), (0, 0, 0, 0));
    }
    assert_eq!(gdt.tss.access_type, 0xe9);
    assert_eq!(gdt.tss.limitl, 0x68);
    assert_eq!(gdt.tss.flags_limith, 0);
    assert_eq!(gdt.tss.offsetl, 0x3000);
    assert_eq!(gdt.tss.offsetm, 0x12);
    assert_eq!(gdt.tss.offseth, 0x00);
    assert_eq!(gdt.tss.offsetx, 0xffff_8000);
}

#[test]
fn init_tss_points_at_the_stacks() {
    let mut tss = empty_tss();
    let ist = tss.ist;
    let rsp = tss.rsp;
    assert_eq!(ist, [0; 7]);
    assert_eq!(rsp, [0; 3]);
    let stacks = [0x1000, 0x2000, 0x3000, 0x4000, 0x5000, 0x6000, 0x7000];
    init_tss(&mut tss, &stacks);
    let ist = tss.ist;
    let rsp = tss.rsp;
    assert_eq!(ist, stacks);
    assert_eq!(rsp, [0x1000, 0, 0]);
}

#[test]
fn ring_numbers() {
    assert_eq!(Ring::Ring0.into_u8(), 0);
    assert_eq!(Ring::Ring1.into_u8(), 1);
    assert_eq!(Ring::Ring2.into_u8(), 2);
    assert_eq!(Ring::Ring3.into_u8(), 3);
}
