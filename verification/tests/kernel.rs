use fullerene::acpi::{
    checksum, ebda_base, find_rsdp, find_rsdp_at, find_rsdp_from_addr, find_rsdp_in_range, find_table,
    get_table_bytes, sdt_entries, sdt_entry_count, set_phys_to_virt_offset, AcpiContext, Rsdp, SdtHeader,
};
use fullerene::bytes::{read_le16, read_le32, read_le64};
use fullerene::dmar::{dmar_scopes_in_bounds, parse_dmar};
use fullerene::paging::{map_page_flags, page_table_flags, phys_to_virt, MemError};
use fullerene::pci::{
    PciConfigSpace, PciDevice, PrivatePciDevice, PciScanner, CapabilityWalk, ScanRequest, WalkRequest,
};
use fullerene::vdso::{build, fits, slot_vaddr, VdsoEntry, VDSO_BUFFER_SIZE, VDSO_META_SIZE, VDSO_USER_BASE};
use fullerene::vtd::{
    cap_mgaw, cap_nd, cap_num_domains, cap_psi, cap_sagaw, ecap_di, ecap_ir, ecap_qi, VtdRegisters,
    WaitStep, GCMD_WBF, GSTS_RTPS, GSTS_TES, GSTS_WBFS, WAIT_TIMEOUT,
};

const NX: u64 = 1 << 63;

#[test]
fn paging_flags() {
    assert_eq!(page_table_flags(true, true, false, true), 1 | 2 | NX);
    assert_eq!(page_table_flags(false, false, true, false), 4);
    assert_eq!(map_page_flags(true, false), 1 | 2 | NX);
    assert_eq!(map_page_flags(false, true), 1);
    assert_eq!(phys_to_virt(0x1000, 0xFFFF_8000_0000_0000), 0xFFFF_8000_0000_1000);
    assert_ne!(MemError::OutOfMemory, MemError::MmioMappingFailed);
}

#[test]
fn little_endian_reads() {
    let b = [0x11u8, 0x22, 0x33, 0x44, 0x55, 0x66, 0x77, 0x88, 0x99];
    assert_eq!(read_le16(&b, 1), 0x3322);
    assert_eq!(read_le32(&b, 0), 0x4433_2211);
    assert_eq!(read_le64(&b, 1), 0x9988_7766_5544_3322);
}

fn header(vendor: u16, device: u16, class: u8, subclass: u8, header_type: u8) -> [u32; 4] {
    [
        vendor as u32 | ((device as u32) << 16),
        0x0010_0007,
        0x01 | ((subclass as u32) << 16) | ((class as u32) << 24),
        0x08 | ((header_type as u32) << 16),
    ]
}

fn config(bus: u8, dev: u8, func: u8) -> Option<[u32; 4]> {
    match (bus, dev, func) {
        (0, 0, 0) => Some(header(0x8086, 0x1237, 0x06, 0x00, 0x00)),
        (0, 1, 0) => Some(header(0x8086, 0x244e, 0x06, 0x04, 0x81)),
        (0, 1, 1) => Some(header(0x8086, 0x1111, 0x01, 0x06, 0x80)),
        (2, 0, 0) => Some(header(0x10ec, 0x0001, 0x02, 0x00, 0x00)),
        (2, 3, 0) => Some(header(0x10ec, 0x8168, 0x02, 0x00, 0x00)),
        _ => None,
    }
}

#[test]
fn config_space_decoding() {
    assert_eq!(PciConfigSpace::build_config_address(1, 2, 3, 0x13), 0x8001_1310);
    assert_eq!(PciConfigSpace::read_config_byte(0x4433_2211, 0x0E), 0x33);
    assert_eq!(PciConfigSpace::read_config_word(0x4433_2211, 0x2), 0x4433);
    assert!(PciConfigSpace::device_exists(0x1234_8086));
    assert!(!PciConfigSpace::device_exists(0xFFFF_FFFF));
    let h = header(0x8086, 0x244e, 0x06, 0x04, 0x81);
    let mut c = PciConfigSpace::read_from_device(h).unwrap();
    assert_eq!((c.vendor_id, c.device_id, c.class_code, c.subclass, c.header_type), (0x8086, 0x244e, 6, 4, 0x81));
    assert_eq!((c.command, c.status, c.revision_id, c.cache_line_size), (7, 0x10, 1, 8));
    assert!(PciConfigSpace::read_from_device([0xFFFF_FFFF; 4]).is_none());
    c.command = 0x0400;
    assert_eq!(c.enable_memory_access(), 0x0406);
    assert_eq!(c.command, 0x0406);
    let mut c2 = PciConfigSpace::new();
    c2.read_config_space(h);
    assert_eq!(c2.device_id, 0x244e);
}

#[test]
fn cached_dword_write() {
    let mut c = PciConfigSpace::new();
    assert_eq!(c.write_config_dword(5, 0x0010_0406), 4);
    assert_eq!((c.command, c.status), (0x0406, 0x0010));
    assert_eq!(c.write_config_dword(8, 0x0C03_3001), 8);
    assert_eq!((c.revision_id, c.prog_if, c.subclass, c.class_code), (0x01, 0x30, 0x03, 0x0C));
    assert_eq!(c.write_config_dword(0x10, 0xFEB0_0000), 0x10);
    assert_eq!(c.vendor_id, 0);
    // Byte, word and dword reads agree.
    let d = 0x1234_5678u32;
    for off in 0u8..4 {
        let word = PciConfigSpace::read_config_word(d, off & !1);
        let byte = PciConfigSpace::read_config_byte(d, off);
        assert_eq!(byte, (word >> ((off & 1) * 8)) as u8);
        assert_eq!(byte, (d >> ((off & 3) * 8)) as u8);
    }
}

#[test]
fn word_write_reads_back() {
    let (at, dw) = PciConfigSpace::write_config_word_raw(0xAAAA_BBBB, 6, 0x1234);
    assert_eq!((at, dw), (4, 0x1234_BBBB));
    assert_eq!(PciConfigSpace::read_config_word(dw, 6), 0x1234);
    assert_eq!(PciConfigSpace::read_config_word(dw, 4), 0xBBBB);
    let (at, dw) = PciConfigSpace::write_config_word_raw(0xAAAA_BBBB, 0x11, 0x5678);
    assert_eq!((at, dw), (0x10, 0xAAAA_5678));
}

#[test]
fn devices_and_bars() {
    let d = PciDevice::new(0, 1, 0, header(0x8086, 0x244e, 0x06, 0x04, 0x81)).unwrap();
    assert_eq!((d.bus, d.device, d.function, d.handle, d.vendor_id), (0, 1, 0, 0x100, 0x8086));
    assert!(PciDevice::new(0, 9, 0, [0xFFFF_FFFF; 4]).is_none());
    let p = PrivatePciDevice::new(3, 4, 5, header(1, 2, 3, 4, 0)).unwrap();
    assert_eq!(p.read_bar(2, 0xF000_0000, 0), Some(0xF000_0000));
    assert_eq!(p.to_public().handle, 0x03_04_05);
    assert_eq!(PrivatePciDevice::build_handle(1, 2, 3), 0x01_02_03);
    assert_eq!(d.enable_memory_access(0x0100), 0x0106);
    assert_eq!(PciDevice::bar_offset(2), 0x18);
    assert!(PciDevice::bar_needs_high_dword(0, 0xFEB0_000C));
    assert!(!PciDevice::bar_needs_high_dword(5, 0xFEB0_000C));
    assert_eq!(d.read_bar(header(0x8086, 0x244e, 0x06, 0x04, 0x81), 0, 0xFEB0_000C, 0x1), Some(0x1_FEB0_0000));
    assert_eq!(d.read_bar(header(0x8086, 0x244e, 0x06, 0x04, 0x81), 5, 0xFEB0_000C, 0x1), None);
    assert_eq!(d.read_bar(header(0x8086, 0x244e, 0x06, 0x04, 0x81), 1, 0xE001, 0), None);
    assert_eq!(d.read_bar(header(0x8086, 0x244e, 0x06, 0x04, 0x81), 1, 0, 0), None);
    assert_eq!(d.read_bar(header(0x8086, 0x244e, 0x06, 0x04, 0x81), 6, 0x1000, 0), None);
    // A function that stopped answering has no BAR.
    assert_eq!(d.read_bar([0xFFFF_FFFF; 4], 0, 0xFEB0_000C, 0x1), None);
    assert_eq!(PciDevice::bar_probe_command(0x0107), 0x0104);
    assert_eq!(d.detect_bar_size(0xFFF0_0000), 0x10_0000);
    assert_eq!(d.detect_bar_size(0xFFFF_FFE1), 0x20);
    assert_eq!(d.detect_bar_size(0), 0);
    let bar = d.get_bar_info(0, 0xFEB0_000C, 0x1, 0x4000).unwrap();
    assert_eq!((bar.address, bar.size, bar.is_io, bar.is_64bit, bar.is_prefetchable), (0x1_FEB0_0000, 0x4000, false, true, true));
    let bar = d.get_bar_info(4, 0xE001, 0x9, 0x20).unwrap();
    assert_eq!((bar.address, bar.is_io, bar.is_64bit), (0xE000, true, false));
    assert!(d.get_bar_info(0, 0xFEB0_0000, 0, 0).is_none());
}

fn walk(mut w: CapabilityWalk, space: &[u8; 256]) -> WalkRequest {
    loop {
        match w.request() {
            WalkRequest::ReadByte(off) => w.feed(space[off as usize]),
            other => return other,
        }
    }
}

#[test]
fn capability_walks() {
    let mut space = [0u8; 256];
    // 0x40: MSI (0x05) -> 0x50: PCIe (0x10) -> 0x60: PM (0x01) -> end.
    space[0x40] = 0x05;
    space[0x41] = 0x50;
    space[0x50] = 0x10;
    space[0x51] = 0x60;
    space[0x60] = 0x01;
    space[0x61] = 0x00;
    let d = PciDevice::new(0, 1, 0, header(1, 2, 3, 4, 0)).unwrap();
    assert_eq!(walk(d.ensure_d0(0x40), &space), WalkRequest::Found(0x60));
    assert_eq!(walk(d.disable_pcie_aspm(0x40), &space), WalkRequest::Found(0x50));
    assert_eq!(walk(d.ensure_d0(0), &space), WalkRequest::Stopped);
    assert_eq!(walk(d.ensure_d0(0x20), &space), WalkRequest::Stopped);
    // A loop 0x40 -> 0x50 -> 0x40 without the capability ends the walk.
    space[0x51] = 0x40;
    assert_eq!(walk(d.ensure_d0(0x40), &space), WalkRequest::Stopped);
    assert_eq!(PciDevice::pm_control_offset(0x60), 0x64);
    assert_eq!(PciDevice::d0_request(0x0003), Some(0));
    assert_eq!(PciDevice::d0_request(0x0100), None);
    assert_eq!(PciDevice::d0_write(Some(0x60), 0x0103), Some((0x64, 0x0100)));
    assert_eq!(PciDevice::d0_write(Some(0x60), 0x0100), None);
    assert_eq!(PciDevice::d0_write(None, 0x0103), None);
    assert_eq!(PciDevice::aspm_write(Some(0x50), 0x0043), Some((0x60, 0x0040)));
    assert_eq!(PciDevice::aspm_write(Some(0x50), 0x0040), None);
    assert_eq!(PciDevice::aspm_write(None, 0x0043), None);
    assert_eq!(PciDevice::d0_poll(0, 5), WaitStep::Done);
    assert_eq!(PciDevice::d0_poll(1, 5), WaitStep::Continue);
    assert_eq!(PciDevice::d0_poll(1, 9999), WaitStep::TimedOut);
    assert_eq!(PciDevice::link_control_offset(0x50), 0x60);
    assert_eq!(PciDevice::aspm_disable_value(0x0043), Some(0x0040));
    assert_eq!(PciDevice::aspm_disable_value(0x0040), None);
}

#[test]
fn bus_scan_follows_bridges() {
    let mut s = PciScanner::new();
    assert!(s.scan_all_buses().is_ok());
    let mut reads = 0;
    loop {
        reads += 1;
        assert!(reads < 100_000);
        match s.request() {
            ScanRequest::ReadVendor { bus, device, function } => {
                let v = config(bus, device, function).map(|h| (h[0] & 0xFFFF) as u16).unwrap_or(0xFFFF);
                s.feed_vendor(v);
            }
            ScanRequest::ReadHeaderType { bus, device } => {
                let h = config(bus, device, 0).unwrap();
                s.feed_header_type((h[3] >> 16) as u8);
            }
            ScanRequest::ReadHeader { bus, device, function } => {
                s.feed_header(config(bus, device, function).unwrap_or([0xFFFF_FFFF; 4]));
            }
            ScanRequest::ReadSecondaryBus { .. } => s.feed_secondary_bus(2),
            ScanRequest::Done => break,
        }
    }
    let found: Vec<(u8, u8, u8, u16)> =
        s.get_devices().iter().map(|d| (d.bus, d.device, d.function, d.device_id)).collect();
    assert_eq!(found, vec![(0, 0, 0, 0x1237), (0, 1, 0, 0x244e), (0, 1, 1, 0x1111), (2, 0, 0, 0x0001), (2, 3, 0, 0x8168)]);
}

#[test]
fn vtd_fields_and_commands() {
    assert_eq!(cap_nd(0x1_02), 2);
    assert_eq!(cap_num_domains(0x2), 8);
    assert_eq!(cap_mgaw(0b1010u64 << 30), 10);
    assert_eq!(cap_sagaw(0x4u64 << 34), 4);
    assert!(cap_psi(1 << 60));
    assert!(!cap_psi(1 << 59));
    assert!(ecap_qi(0x2) && ecap_di(0x80) && ecap_ir(0x8));
    assert!(!ecap_qi(0x1) && !ecap_di(0x40) && !ecap_ir(0x4));
    let r = VtdRegisters::new(0xFED9_0000);
    assert_eq!(r.register_address(0x1C), 0xFED9_001C);
    assert_eq!(VtdRegisters::rtaddr_value(0x1000), 0x1001);
    assert_eq!(r.wait_for_root_table_ptr(GSTS_RTPS, 0), WaitStep::Done);
    assert_eq!(r.wait_for_root_table_ptr(0, 5), WaitStep::Continue);
    assert_eq!(r.wait_for_root_table_ptr(0, WAIT_TIMEOUT - 1), WaitStep::TimedOut);
    assert_eq!(r.wait_for_translation_enable(GSTS_TES, 0), WaitStep::Done);
    assert_eq!(r.wait_for_translation_disable(GSTS_TES, 0), WaitStep::Continue);
    assert_eq!(r.wait_for_translation_disable(0, 0), WaitStep::Done);
    assert_eq!(r.write_buffer_flush(0x8000_0000), 0x8000_0000 | GCMD_WBF);
    assert_eq!(r.write_buffer_flush_wait(GSTS_WBFS, 3), WaitStep::Done);
    assert_eq!(r.iotlb_global_invalidate(), 1);
    assert_eq!(r.iotlb_domain_invalidate(5), (2u64 << 32) | (5 << 16) | 1);
    assert_eq!(r.iotlb_invalidate_wait(1, 0), WaitStep::Continue);
    assert_eq!(r.context_cache_invalidate_all(), 0x8000_0000_0000_0001);
    assert_eq!(r.context_cache_invalidate_domain(5), (1u64 << 63) | (1 << 61) | (5 << 32) | 1);
    assert_eq!(r.context_cache_invalidate_device(0x10, 5), (1u64 << 63) | (2 << 61) | (0x10 << 32) | (5 << 16) | 1);
    assert_eq!(r.context_cache_invalidate_wait(1 << 63, 0), WaitStep::Continue);
    assert_eq!(r.context_cache_invalidate_wait(1, 0), WaitStep::Done);
}

fn rsdp_v0(rsdt: u32) -> Vec<u8> {
    let mut b = vec![0u8; 36];
    b[..8].copy_from_slice(b"RSD PTR ");
    b[9..15].copy_from_slice(b"FULLER");
    b[15] = 0;
    b[16..20].copy_from_slice(&rsdt.to_le_bytes());
    let sum: u8 = b[..20].iter().fold(0u8, |a, x| a.wrapping_add(*x));
    b[8] = 0u8.wrapping_sub(sum);
    b
}

#[test]
fn rsdp_search() {
    let r = rsdp_v0(0x7FE_0000);
    assert!(checksum(&r[..20]));
    assert!(find_rsdp_at(&r));
    let mut ctx = AcpiContext::new();
    set_phys_to_virt_offset(&mut ctx, 0);
    assert!(find_rsdp_from_addr(&ctx, 0xE_0000, &r));
    // Physical address 0 translates to the null pointer under a zero offset.
    assert!(!find_rsdp_from_addr(&ctx, 0, &r));
    assert_eq!(ctx.phys_to_virt(0), None);
    set_phys_to_virt_offset(&mut ctx, u64::MAX);
    assert!(!find_rsdp_from_addr(&ctx, 1, &r));
    let mut bad = r.clone();
    bad[8] ^= 1;
    assert!(!find_rsdp_at(&bad));
    let mut region = vec![0u8; 128];
    region[32..68].copy_from_slice(&r);
    assert_eq!(find_rsdp_in_range(&region, 0x1000, 64), Some(0x1020));
    assert_eq!(find_rsdp_in_range(&region, 0x1000, 32), None);
    assert_eq!(ebda_base(0x9FC0), 0x9_FC00);
    let mut bios = vec![0u8; 64];
    bios[16..52].copy_from_slice(&r);
    assert_eq!(find_rsdp(0x9FC0, &[0u8; 64], &bios), Some(0xE_0010));
    assert_eq!(find_rsdp(0x9FC0, &region, &bios), Some(0x9_FC20));
    assert_eq!(find_rsdp(0, &region, &[0u8; 16]), None);
    let p = Rsdp::parse(&r);
    assert_eq!((p.revision, p.rsdt_address), (0, 0x7FE_0000));
    assert_eq!(p.root_table(), Some((0x7FE_0000, 4)));
    let mut v2 = r.clone();
    v2[15] = 2;
    v2[24..32].copy_from_slice(&0x1234_5678_9000u64.to_le_bytes());
    assert_eq!(Rsdp::parse(&v2).root_table(), Some((0x1234_5678_9000, 8)));
    let mut ctx = AcpiContext::new();
    set_phys_to_virt_offset(&mut ctx, 0xFFFF_8000_0000_0000);
    assert_eq!(ctx.phys_to_virt(0x1000), Some(0xFFFF_8000_0000_1000));
    assert_eq!(ctx.phys_to_virt(0x8000_0000_0000_0000), None);
}

#[test]
fn root_table_entries_and_lookup() {
    let mut t = vec![0u8; 36 + 12];
    t[..4].copy_from_slice(b"RSDT");
    t[4..8].copy_from_slice(&48u32.to_le_bytes());
    t[8] = 1;
    t[36..40].copy_from_slice(&0x1000u32.to_le_bytes());
    t[40..44].copy_from_slice(&0u32.to_le_bytes());
    t[44..48].copy_from_slice(&0x3000u32.to_le_bytes());
    let h = SdtHeader::parse(&t);
    assert_eq!((&h.signature, h.length, h.revision), (b"RSDT", 48, 1));
    let n = sdt_entry_count(h.length, 4).unwrap();
    assert_eq!(n, 3);
    assert_eq!(sdt_entry_count(39, 4), None);
    assert_eq!(sdt_entry_count(200_000, 8), None);
    let e = sdt_entries(&t, 4, n);
    assert_eq!(e, vec![0x1000, 0, 0x3000]);
    let sigs = [*b"APIC", *b"DMAR", *b"DMAR"];
    assert_eq!(find_table(&e, &sigs, b"DMAR"), Some(0x3000));
    assert_eq!(find_table(&e, &sigs, b"APIC"), Some(0x1000));
    assert_eq!(find_table(&e, &sigs, b"HPET"), None);
    assert_eq!(get_table_bytes(35), None);
    assert_eq!(get_table_bytes(0x100), Some(0x100));
    assert_eq!(get_table_bytes(128 * 1024 + 1), None);
}

fn dmar_table() -> Vec<u8> {
    let mut t = vec![0u8; 48];
    t[..4].copy_from_slice(b"DMAR");
    t[36] = 38;
    // DRHD: type 0, length 24, flags 1, segment 0, base, one device scope.
    let mut drhd = vec![0u8; 24];
    drhd[0..2].copy_from_slice(&0u16.to_le_bytes());
    drhd[2..4].copy_from_slice(&24u16.to_le_bytes());
    drhd[4] = 1;
    drhd[8..16].copy_from_slice(&0xFED9_0000u64.to_le_bytes());
    drhd[16] = 1;
    drhd[17] = 8;
    drhd[21] = 0;
    drhd[22] = 2;
    drhd[23] = 0;
    t.extend_from_slice(&drhd);
    // RMRR (type 1, length 8): skipped.
    t.extend_from_slice(&[1, 0, 8, 0, 0, 0, 0, 0]);
    let len = t.len() as u32;
    t[4..8].copy_from_slice(&len.to_le_bytes());
    t
}

#[test]
fn dmar_units() {
    let t = dmar_table();
    assert!(dmar_scopes_in_bounds(&t));
    let info = parse_dmar(&t).unwrap();
    assert_eq!(info.host_address_width, 38);
    assert_eq!(info.drhd_units.len(), 1);
    let u = &info.drhd_units[0];
    assert_eq!((u.flags, u.segment, u.phys_base, u.dev_scope_bus), (1, 0, 0xFED9_0000, 0));
    assert_eq!(u.dev_scope_path, vec![(2, 0)]);
    let mut bad = t.clone();
    bad[48 + 2] = 2;
    assert!(parse_dmar(&bad).is_none());
    let mut long_scope = t.clone();
    long_scope[48 + 17] = 200;
    assert!(!dmar_scopes_in_bounds(&long_scope));
}

#[test]
fn vdso_writes_nothing_past_its_length() {
    let mut buf = [0xAAu8; VDSO_BUFFER_SIZE];
    let len = build(&mut buf, &[]);
    // Header, the metadata program header, the null symbol, two section headers.
    assert_eq!(len, 64 + 56 + 24 + 128);
    assert!(buf[len..].iter().all(|&b| b == 0xAA));
    assert_eq!(&buf[0..4], b"\x7fELF");
    assert_eq!(u64::from_le_bytes(buf[40..48].try_into().unwrap()), 144);
}

#[test]
fn vdso_image_parses_back() {
    let entries = [
        VdsoEntry { name: "vdso_read", virt_addr: 0xFFFF_8000_0010_0000, phys_addr: 0x20_0000 },
        VdsoEntry { name: "vdso_write", virt_addr: 0xFFFF_8000_0010_1000, phys_addr: 0x20_1000 },
    ];
    assert!(fits(&entries));
    let mut buf = [0u8; VDSO_BUFFER_SIZE];
    let len = build(&mut buf, &entries);
    assert!(len < VDSO_BUFFER_SIZE);
    let elf = goblin::elf::Elf::parse(&buf).expect("VDSO image parses");
    assert_eq!(elf.header.e_type, goblin::elf::header::ET_DYN);
    assert_eq!(elf.program_headers.len(), 3);
    let loads: Vec<(u64, u64, u32)> = elf
        .program_headers
        .iter()
        .filter(|p| p.p_type == goblin::elf::program_header::PT_LOAD)
        .map(|p| (p.p_vaddr, p.p_paddr, p.p_flags))
        .collect();
    assert_eq!(
        loads,
        vec![(VDSO_USER_BASE, 0, 6), (slot_vaddr(0), 0x20_0000, 5), (slot_vaddr(1), 0x20_1000, 5)]
    );
    let names: Vec<(&str, u64)> = elf
        .syms
        .iter()
        .skip(1)
        .map(|sym| (elf.strtab.get_at(sym.st_name).unwrap_or(""), sym.st_value))
        .collect();
    assert_eq!(names, vec![("vdso_read", slot_vaddr(0)), ("vdso_write", slot_vaddr(1))]);
    assert_eq!(len, 64 + 3 * 56 + 3 * 24 + "vdso_read".len() + 1 + "vdso_write".len() + 1 + 128);
    assert!(buf[len..].iter().all(|&b| b == 0));
    assert_eq!(slot_vaddr(0), VDSO_USER_BASE + VDSO_META_SIZE as u64);
    assert_eq!(slot_vaddr(1), slot_vaddr(0) + 4096);
    let many: Vec<VdsoEntry> = (0..1000).map(|_| entries[0]).collect();
    assert!(!fits(&many));
}
