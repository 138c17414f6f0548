use trangorge::cpu::acpi::{checksum, check_rsdp, find_madt, find_rsdp, parse_madt, parse_rsdp, root_entries, Rsdp, LOW_MEMORY_SPAN, MADT_SIGNATURE};
use trangorge::cpu::lapic::{self, LapicInit, LapicState, RegAccess, RegWrite};
use trangorge::cpu::riscv;

fn put_u32(v: &mut Vec<u8>, at: usize, x: u32) {
    v[at..at + 4].copy_from_slice(&x.to_le_bytes());
}

fn put_u64(v: &mut Vec<u8>, at: usize, x: u64) {
    v[at..at + 8].copy_from_slice(&x.to_le_bytes());
}

fn rsdp_bytes(revision: u8, rsdt: u32, xsdt: u64) -> Vec<u8> {
    let mut v = vec![0u8; 36];
    v[..8].copy_from_slice(b"RSD PTR ");
    v[15] = revision;
    put_u32(&mut v, 16, rsdt);
    put_u64(&mut v, 24, xsdt);
    let sum: u8 = v[..20].iter().fold(0u8, |a, &b| a.wrapping_add(b));
    v[8] = 0u8.wrapping_sub(sum);
    v
}

#[test]
fn checksum_accepts_bytes_summing_to_zero() {
    assert!(checksum(&[]));
    assert!(checksum(&[0x10, 0xF0]));
    assert!(!checksum(&[1, 2, 3]));
}

#[test]
fn rsdp_is_found_in_the_bios_area_and_parsed() {
    let mut mem = vec![0u8; LOW_MEMORY_SPAN];
    let r = rsdp_bytes(2, 0x1234_5678, 0xABCD_0000_1000);
    mem[0xE0040..0xE0040 + 36].copy_from_slice(&r);
    assert!(check_rsdp(&mem, 0xE0040));
    assert!(!check_rsdp(&mem, 0xE0050));
    assert_eq!(find_rsdp(&mem), Some(0xE0040));
    let p = parse_rsdp(&mem[0xE0040..0xE0040 + 36]);
    assert_eq!(p, Rsdp { revision: 2, rsdt_addr: 0x1234_5678, xsdt_addr: 0xABCD_0000_1000 });
    let old = parse_rsdp(&rsdp_bytes(0, 7, 99)[..20]);
    assert_eq!(old.xsdt_addr, 0);
}

#[test]
fn rsdp_in_the_ebda_is_preferred() {
    let mut mem = vec![0u8; LOW_MEMORY_SPAN];
    mem[0x40E] = 0x00;
    mem[0x40F] = 0x90;
    let r = rsdp_bytes(0, 1, 0);
    mem[0x90010..0x90010 + 36].copy_from_slice(&r);
    mem[0xE0000..0xE0000 + 36].copy_from_slice(&r);
    assert_eq!(find_rsdp(&mem), Some(0x90010));
    let empty = vec![0u8; LOW_MEMORY_SPAN];
    assert_eq!(find_rsdp(&empty), None);
}

#[test]
fn madt_is_found_through_the_root_table() {
    let mut xsdt = vec![0u8; 36 + 3 * 8];
    put_u32(&mut xsdt, 4, 36 + 3 * 8);
    put_u64(&mut xsdt, 36, 0x1000);
    put_u64(&mut xsdt, 44, 0);
    put_u64(&mut xsdt, 52, 0x3000);
    let rsdp = Rsdp { revision: 2, rsdt_addr: 0, xsdt_addr: 0x500 };
    let sigs = [0x5043_4146u32, MADT_SIGNATURE, MADT_SIGNATURE];
    assert_eq!(find_madt(&rsdp, &xsdt, &sigs), Some(0x3000));
    assert_eq!(find_madt(&rsdp, &xsdt, &[0, 0, 0]), None);
    let none = Rsdp { revision: 0, rsdt_addr: 0, xsdt_addr: 0 };
    assert_eq!(find_madt(&none, &[], &[]), None);
    let mut rsdt = vec![0u8; 36 + 4];
    put_u32(&mut rsdt, 4, 40);
    put_u32(&mut rsdt, 36, 0x2222);
    let old = Rsdp { revision: 0, rsdt_addr: 0x600, xsdt_addr: 0 };
    assert_eq!(find_madt(&old, &rsdt, &[MADT_SIGNATURE]), Some(0x2222));
}

#[test]
fn madt_entries_are_decoded() {
    let mut m = vec![0u8; 44];
    put_u32(&mut m, 36, 0xFEE0_0000);
    m.extend_from_slice(&[0, 8, 0, 3, 1, 0, 0, 0]);
    m.extend_from_slice(&[0, 8, 0, 4, 0, 0, 0, 0]);
    let mut io = vec![1u8, 12, 7, 0];
    io.extend_from_slice(&0xFEC0_0000u32.to_le_bytes());
    io.extend_from_slice(&24u32.to_le_bytes());
    m.extend_from_slice(&io);
    let mut x2 = vec![9u8, 16, 0, 0];
    x2.extend_from_slice(&300u32.to_le_bytes());
    x2.extend_from_slice(&1u32.to_le_bytes());
    x2.extend_from_slice(&0u32.to_le_bytes());
    m.extend_from_slice(&x2);
    let mut ov = vec![5u8, 12, 0, 0];
    ov.extend_from_slice(&0x1_FEE0_0000u64.to_le_bytes());
    m.extend_from_slice(&ov);
    let len = m.len() as u32;
    put_u32(&mut m, 4, len);
    let info = parse_madt(&m);
    assert_eq!(info.cpus.len(), 3);
    assert_eq!((info.cpus[0].apic_id, info.cpus[0].enabled), (3, true));
    assert_eq!((info.cpus[1].apic_id, info.cpus[1].enabled), (4, false));
    assert_eq!((info.cpus[2].apic_id, info.cpus[2].enabled), (300, true));
    assert_eq!(info.io_apics.len(), 1);
    assert_eq!((info.io_apics[0].id, info.io_apics[0].address, info.io_apics[0].gsi_base), (7, 0xFEC0_0000, 24));
    assert_eq!(info.lapic_base, 0x1_FEE0_0000);
}

#[test]
fn madt_without_override_keeps_the_header_address_and_stops_at_a_short_entry() {
    let mut m = vec![0u8; 44];
    put_u32(&mut m, 36, 0xFEE0_0000);
    m.extend_from_slice(&[0, 1, 0, 3, 1, 0, 0, 0]);
    let len = m.len() as u32;
    put_u32(&mut m, 4, len);
    let info = parse_madt(&m);
    assert_eq!(info.lapic_base, 0xFEE0_0000);
    assert!(info.cpus.is_empty());
}

#[test]
fn lapic_register_protocol() {
    assert_eq!(lapic::x2apic_msr(0x300), 0x830);
    assert_eq!(lapic::init(1 << 10, 0), LapicInit::X2apic);
    assert_eq!(lapic::init(0, 0xFEE0_0000), LapicInit::NeedsMapping(0xFEE0_0000));
    assert_eq!(lapic::init(0, 0xFFFF_8000_FEE0_0000), LapicInit::Mapped(0xFFFF_8000_FEE0_0000));
    let x = LapicState { base: 0, x2apic: true };
    let m = LapicState { base: 0xFEE0_0000, x2apic: false };
    assert_eq!(lapic::version(&x), RegAccess::Msr(0x803));
    assert_eq!(lapic::eoi(&m), RegWrite { access: RegAccess::Mmio(0x0B0), value: 0 });
    assert_eq!(lapic::enable(&m)[0].value, 0x1FF);
    assert_eq!(m.id(0x0500_0000), 5);
    assert_eq!(x.id(0x0500_0000), 0x0500_0000);
    let w = lapic::send_ipi(&x, 0x4601, 3);
    assert_eq!(w, vec![RegWrite { access: RegAccess::Msr(0x830), value: (3u64 << 32) | 0x4601 }]);
    let w = lapic::send_startup_ipi(&m, 2, 8);
    assert_eq!(
        w,
        vec![
            RegWrite { access: RegAccess::Mmio(0x310), value: 2 << 24 },
            RegWrite { access: RegAccess::Mmio(0x300), value: 0x608 },
        ]
    );
    let w = lapic::send_init_ipi(&m);
    assert_eq!(w.len(), 4);
    assert_eq!(w[1].value, 0xCC500);
    assert_eq!(w[3].value, 0xC0500);
}

#[test]
fn riscv_reset_calls() {
    riscv::init();
    riscv::init_riscv();
    assert_eq!(riscv::current_hart(), 0);
    assert_eq!(riscv::total_cpus(), 1);
    let off = riscv::poweroff_call();
    assert_eq!((off.a0, off.a6, off.a7), (0, 0, 0x5352_5354));
    assert_eq!(riscv::reboot_call().a0, 1);
}

#[test]
fn root_table_entries_are_decoded_by_width() {
    let mut xsdt = vec![0u8; 36 + 2 * 8];
    put_u32(&mut xsdt, 4, 36 + 2 * 8);
    put_u64(&mut xsdt, 36, 0x1_0000_1000);
    put_u64(&mut xsdt, 44, 0x3000);
    assert_eq!(root_entries(&xsdt, true), vec![0x1_0000_1000, 0x3000]);
    let mut rsdt = vec![0u8; 36 + 3 * 4];
    put_u32(&mut rsdt, 4, 36 + 3 * 4 + 2);
    put_u32(&mut rsdt, 36, 0x2222);
    put_u32(&mut rsdt, 44, 0x4444);
    assert_eq!(root_entries(&rsdt, false), vec![0x2222, 0, 0x4444]);
}
