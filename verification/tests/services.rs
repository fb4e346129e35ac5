use std::sync::{Arc, Mutex};

use fullerene::devfs::{
    block_buffer, copy_read, driver_exists, key_order, list_devices, register_driver, stable_ino, transfer_plan,
    unregister_driver, DevFs, DeviceRegistry, KeyOrder,
};
use fullerene::dma_abi::{
    dma_map_result, dma_map_source, dma_unmap_plan, BufferSource, DmaDirection as CDirection,
    DmaMapRequest as CRequest, DmaMapping as CMapping,
};
use fullerene::driver_api::{DriverBox, NetworkDriver, StorageDriver};
use fullerene::driver_context::{
    dma_map_complete, dma_pages, dma_source, frames_to_release, unmap_plan, DmaDirection, DmaMapRequest,
    DmaSource, DriverContext, DriverContextError, PageFlags,
};
use fullerene::plugin::PluginRegistry;
use fullerene::sched::{lapic_virt_for, next_tick, now_us, request_shell_launch, ShellLauncher};
use fullerene::storage::{
    get_framebuffer, init_storage_devices, is_available, probe_and_mount, sector_size, total_sectors,
    SdDrives, SdMount, SdMountStep, SdProbeGuard,
};

#[test]
fn device_registry() {
    let mut reg = DeviceRegistry::new();
    register_driver(&mut reg, "nvme0", DriverBox::Unhandled);
    register_driver(&mut reg, "eth0", DriverBox::Unhandled);
    register_driver(&mut reg, "hda0", DriverBox::Unhandled);
    register_driver(&mut reg, "eth0", DriverBox::Unhandled);
    assert_eq!(list_devices(&reg), vec!["eth0".to_string(), "hda0".to_string(), "nvme0".to_string()]);
    assert!(driver_exists(&reg, "hda0"));
    assert!(!driver_exists(&reg, "hda"));
    unregister_driver(&mut reg, "hda0");
    unregister_driver(&mut reg, "missing");
    assert!(!driver_exists(&reg, "hda0"));
    assert!(driver_exists(&reg, "eth0") && driver_exists(&reg, "nvme0"));
    assert_eq!(list_devices(&reg), vec!["eth0".to_string(), "nvme0".to_string()]);
    assert_eq!(key_order(b"ab", b"abc"), KeyOrder::Less);
    assert_eq!(key_order(b"b", b"abc"), KeyOrder::Greater);
    assert_eq!(key_order(b"abc", b"abc"), KeyOrder::Equal);
}

#[test]
fn dev_files() {
    let mut reg = DeviceRegistry::new();
    reg.register("nvme0", DriverBox::Unhandled);
    let mut fs = DevFs::new();
    let fd = fs.open(&reg, "//nvme0", 0).unwrap();
    assert_eq!((fd.fd, fd.offset, fd.flags), (100, 0, 0));
    assert_eq!(fd.ino, stable_ino(b"nvme0"));
    assert_eq!(fs.open(&reg, "/nvme0", 0).unwrap().fd, 101);
    assert!(fs.open(&reg, "/", 0).is_none());
    assert!(fs.open(&reg, "/eth0", 0).is_none());
    let mut h: u64 = 0;
    for b in b"nvme0" {
        h = h.wrapping_mul(31).wrapping_add(*b as u64);
    }
    assert_eq!(stable_ino(b"nvme0"), h | 0x1000_0000_0000_0000);
    let mut buf = [0u8; 4];
    assert_eq!(fs.read(&reg, fd.fd, &mut buf), Err("no device"));
    assert_eq!(fs.write(&reg, fd.fd, &buf), Err("no device"));
    assert_eq!(fs.seek(fd.fd, 0), Ok(()));
    assert_eq!(fs.read(&reg, 7, &mut buf), Err("bad fd"));
    assert_eq!(fs.write(&reg, 7, &buf), Err("bad fd"));
    assert_eq!(fs.seek(7, 0), Err("bad fd"));
    assert_eq!(fs.close(fd.fd), Ok(()));
    assert_eq!(fs.seek(fd.fd, 0), Err("bad fd"));
    assert_eq!(fs.files.len(), 1);
    assert_eq!(fs.create("/x"), None);
    assert_eq!(fs.mkdir("/x"), Err("read-only filesystem"));
    assert_eq!(fs.unlink("/x"), Err("read-only filesystem"));
    let listing = fs.readdir(&reg, "/").unwrap();
    assert_eq!(listing.len(), 1);
    assert_eq!((listing[0].name.as_str(), listing[0].size, listing[0].is_dir), ("nvme0", 0, false));
    assert!(fs.readdir(&reg, "/nvme0").is_err());
    assert!(fs.path_exists(&reg, "/"));
    assert!(fs.path_exists(&reg, "nvme0"));
    assert!(!fs.path_exists(&reg, "/eth0"));
}

struct FakeDisk {
    block: u32,
    calls: Arc<Mutex<Vec<(char, u64, usize, Vec<u8>)>>>,
    fail: bool,
}

impl StorageDriver for FakeDisk {
    fn init(&mut self) -> Result<(), &'static str> {
        Ok(())
    }
    fn read_blocks(&self, lba: u64, count: usize, buf: &mut [u8]) -> Result<(), &'static str> {
        if self.fail {
            return Err("media error");
        }
        for (i, b) in buf.iter_mut().enumerate() {
            *b = (lba as usize * self.block as usize + i) as u8;
        }
        self.calls.lock().unwrap().push(('r', lba, count, buf.to_vec()));
        Ok(())
    }
    fn write_blocks(&self, lba: u64, count: usize, buf: &[u8]) -> Result<(), &'static str> {
        self.calls.lock().unwrap().push(('w', lba, count, buf.to_vec()));
        Ok(())
    }
    fn block_size(&self) -> u32 {
        self.block
    }
    fn total_blocks(&self) -> u64 {
        1024
    }
}

struct FakeNic {
    sent: Arc<Mutex<Vec<Vec<u8>>>>,
}

impl NetworkDriver for FakeNic {
    fn init(&mut self) -> Result<(), &'static str> {
        Ok(())
    }
    fn send(&self, buf: &[u8]) -> Result<(), &'static str> {
        self.sent.lock().unwrap().push(buf.to_vec());
        Ok(())
    }
    fn receive(&self, _buf: &mut [u8]) -> Result<usize, &'static str> {
        Err("nothing received")
    }
    fn mac_address(&self) -> [u8; 6] {
        [0; 6]
    }
}

#[test]
fn dev_files_route_to_storage() {
    let calls = Arc::new(Mutex::new(Vec::new()));
    let mut reg = DeviceRegistry::new();
    register_driver(
        &mut reg,
        "nvme0",
        DriverBox::Storage(Box::new(FakeDisk { block: 512, calls: calls.clone(), fail: false })),
    );
    let mut fs = DevFs::new();
    let desc = fs.open(&reg, "/nvme0", 0).unwrap();
    // One whole block from offset 0.
    let mut buf = vec![0u8; 512];
    assert_eq!(fs.read(&reg, desc.fd, &mut buf), Ok(512));
    {
        let log = calls.lock().unwrap();
        assert_eq!((log[0].1, log[0].2), (0, 1));
        assert_eq!(buf, log[0].3);
    }
    assert_eq!(fs.files[0].offset, 512);
    // 10 bytes from offset 512: block 1, one block, 10 bytes copied.
    let mut small = [0xEEu8; 10];
    assert_eq!(fs.read(&reg, desc.fd, &mut small), Ok(10));
    {
        let log = calls.lock().unwrap();
        assert_eq!((log[1].1, log[1].2), (1, 1));
    }
    assert_eq!(small[0], (512usize % 256) as u8);
    assert_eq!(fs.files[0].offset, 522);
    // A huge read is capped at 64 blocks.
    fs.seek(desc.fd, 0).unwrap();
    let mut big = vec![0u8; 100 * 512];
    assert_eq!(fs.read(&reg, desc.fd, &mut big), Ok(64 * 512));
    assert_eq!(calls.lock().unwrap()[2].2, 64);
    assert_eq!(big[64 * 512], 0);
    // An empty read still moves one block and copies nothing.
    let mut none: [u8; 0] = [];
    assert_eq!(fs.read(&reg, desc.fd, &mut none), Ok(0));
    assert_eq!(calls.lock().unwrap()[3].2, 1);
    // A write of 3 bytes at offset 1024: block 2, zero padded.
    fs.seek(desc.fd, 1024).unwrap();
    assert_eq!(fs.write(&reg, desc.fd, b"abc"), Ok(3));
    {
        let log = calls.lock().unwrap();
        let (kind, lba, count, data) = &log[4];
        assert_eq!((*kind, *lba, *count, data.len()), ('w', 2, 1, 512));
        assert_eq!(&data[..3], b"abc");
        assert!(data[3..].iter().all(|&b| b == 0));
    }
    assert_eq!(fs.files[0].offset, 1027);
    // Removed device, closed descriptor.
    unregister_driver(&mut reg, "nvme0");
    assert_eq!(fs.read(&reg, desc.fd, &mut buf), Err("device removed"));
    fs.close(desc.fd).unwrap();
    assert_eq!(fs.read(&reg, desc.fd, &mut buf), Err("bad fd"));
}

#[test]
fn block_transfer_plans() {
    assert_eq!(transfer_plan(1000, 1, 512), (1, 1, 512));
    assert_eq!(transfer_plan(0, 513, 512), (0, 2, 1024));
    assert_eq!(transfer_plan(4096, 0, 4096), (1, 1, 4096));
    assert_eq!(transfer_plan(0, 100_000, 512), (0, 64, 32768));
    assert_eq!(block_buffer(b"xy", 4), vec![b'x', b'y', 0, 0]);
    assert_eq!(block_buffer(b"xyz", 2), vec![b'x', b'y']);
    let mut buf = [9u8; 4];
    assert_eq!(copy_read(&mut buf, b"ab"), 2);
    assert_eq!(buf, [b'a', b'b', 9, 9]);
    assert_eq!(copy_read(&mut buf, b"wxyz!"), 4);
    assert_eq!(&buf, b"wxyz");
}

#[test]
fn dev_files_storage_error_and_network() {
    let calls = Arc::new(Mutex::new(Vec::new()));
    let sent = Arc::new(Mutex::new(Vec::new()));
    let mut reg = DeviceRegistry::new();
    register_driver(&mut reg, "sd0", DriverBox::Storage(Box::new(FakeDisk { block: 512, calls, fail: true })));
    register_driver(&mut reg, "eth0", DriverBox::Network(Box::new(FakeNic { sent: sent.clone() })));
    let mut fs = DevFs::new();
    let disk = fs.open(&reg, "sd0", 0).unwrap();
    let nic = fs.open(&reg, "eth0", 0).unwrap();
    let mut buf = [0u8; 16];
    assert_eq!(fs.read(&reg, disk.fd, &mut buf), Err("media error"));
    assert_eq!(fs.files[0].offset, 0);
    assert_eq!(fs.read(&reg, nic.fd, &mut buf), Ok(0));
    assert_eq!(fs.write(&reg, nic.fd, b"ping"), Ok(4));
    assert_eq!(sent.lock().unwrap()[0], b"ping".to_vec());
}

struct FakeContext {
    map_ok: bool,
    log: Mutex<Vec<String>>,
}

impl DriverContext for FakeContext {
    fn phys_to_virt(&self, phys: u64) -> usize {
        (phys + 0x1000_0000) as usize
    }
    fn allocate_frame(&self) -> Result<u64, DriverContextError> {
        Ok(0x5000)
    }
    fn allocate_contiguous_frames(&self, count: usize) -> Result<u64, DriverContextError> {
        self.log.lock().unwrap().push(format!("alloc {}", count));
        Ok(0x10_0000)
    }
    fn map_mmio_region(&self, _phys: usize, _virt: usize, _size: usize) -> Result<(), DriverContextError> {
        Ok(())
    }
    fn map_page(&self, _virt: usize, _phys: usize, _flags: PageFlags) -> Result<(), DriverContextError> {
        Ok(())
    }
    fn free_frame(&self, _phys: u64) {}
    fn free_contiguous_frames(&self, phys: u64, count: usize) {
        self.log.lock().unwrap().push(format!("free {:#x} {}", phys, count));
    }
    fn dma_map(&self, _device_id: u16, phys: u64, _size: usize) -> Result<u64, DriverContextError> {
        if self.map_ok { Ok(phys + 0x8000_0000) } else { Err(DriverContextError::MmioMappingFailed) }
    }
    fn dma_unmap(&self, iova: u64, size: usize) {
        self.log.lock().unwrap().push(format!("unmap {:#x} {}", iova, size));
    }
    fn zero_memory(&self, virt: usize, size: usize) {
        self.log.lock().unwrap().push(format!("zero {:#x} {}", virt, size));
    }
}

#[test]
fn dma_map_request_protocol() {
    let ctx = FakeContext { map_ok: true, log: Mutex::new(Vec::new()) };
    let req = DmaMapRequest::new(0x0108, 5000);
    assert_eq!(req.direction, DmaDirection::Bidirectional);
    let m = ctx.dma_map_request(&req).unwrap();
    assert_eq!((m.iova, m.phys, m.virt, m.size, m.pages, m.owns_frames), (0x8010_0000, 0x10_0000, 0x1010_0000, 5000, 2, true));
    ctx.dma_unmap_mapping(&m);
    assert_eq!(
        *ctx.log.lock().unwrap(),
        vec!["alloc 2", "zero 0x10100000 8192", "unmap 0x80100000 5000", "free 0x100000 2"]
    );
    let ctx = FakeContext { map_ok: true, log: Mutex::new(Vec::new()) };
    let req = DmaMapRequest::new(1, 4096).with_phys(0x30_0000).with_direction(DmaDirection::ToDevice);
    let m = ctx.dma_map_request(&req).unwrap();
    assert!(!m.owns_frames);
    ctx.dma_unmap_mapping(&m);
    assert_eq!(*ctx.log.lock().unwrap(), vec!["unmap 0x80300000 4096"]);
    let bad = DmaMapRequest::new(1, 4096).with_phys(0x30_0010);
    assert_eq!(ctx.dma_map_request(&bad).unwrap_err(), DriverContextError::InvalidArgument);
}

#[test]
fn dma_map_failure_frees_frames() {
    let ctx = FakeContext { map_ok: false, log: Mutex::new(Vec::new()) };
    let req = DmaMapRequest::new(1, 4097);
    assert_eq!(ctx.dma_map_request(&req).unwrap_err(), DriverContextError::MmioMappingFailed);
    assert_eq!(*ctx.log.lock().unwrap(), vec!["alloc 2", "zero 0x10100000 8192", "free 0x100000 2"]);
    assert_eq!(DriverContextError::OutOfMemory.message(), "out of memory");
    assert_eq!(DriverContextError::InvalidArgument.message(), "invalid argument");
    assert_eq!(DriverContextError::MmioMappingFailed.message(), "MMIO mapping failed");
}

#[test]
fn dma_request_pieces() {
    assert_eq!(dma_pages(0), 0);
    assert_eq!(dma_pages(1), 1);
    assert_eq!(dma_pages(8192), 2);
    let req = DmaMapRequest::new(1, 100);
    assert_eq!(dma_source(&req, 1), Ok(DmaSource::Allocate(1)));
    assert_eq!(dma_source(&req.with_phys(0x2000), 1), Ok(DmaSource::Existing(0x2000)));
    assert_eq!(frames_to_release(&req, 0x9000, 1), Some((0x9000, 1)));
    assert_eq!(frames_to_release(&req.with_phys(0x2000), 0x2000, 1), None);
    let m = dma_map_complete(&req, 0x9000, 0x19000, Ok(0x77)).unwrap();
    assert_eq!((m.iova, m.pages, m.owns_frames), (0x77, 1, true));
    assert_eq!(unmap_plan(&m), ((0x77, 100), Some((0x9000, 1))));
    assert_eq!(dma_map_complete(&req, 0, 0, Err(DriverContextError::OutOfMemory)).unwrap_err(), DriverContextError::OutOfMemory);
    assert_eq!(PageFlags::mmio(), PageFlags { writable: true, write_combining: false, executable: false });
    assert_eq!(PageFlags::framebuffer_wc(), PageFlags { writable: true, write_combining: true, executable: false });
}

#[test]
fn c_dma_interface() {
    assert_eq!(CDirection::from_code(1), Some(CDirection::FromDevice));
    assert_eq!(CDirection::from_code(3), None);
    assert_eq!(CDirection::Bidirectional.code(), 2);
    let req = CRequest { device_id: 8, size: 5000, existing_phys: 0, direction: CDirection::ToDevice };
    assert_eq!(dma_map_source(&req), BufferSource::Allocate(2));
    let (st, m, free) = dma_map_result(&req, 0x40_0000, Some(0x9000_0000));
    let m = m.unwrap();
    assert_eq!((st, free), (0, None));
    assert_eq!(m, CMapping { iova: 0x9000_0000, phys: 0x40_0000, size: 5000, pages: 2, owns_frames: 1 });
    assert_eq!(dma_unmap_plan(&m), ((0x9000_0000, 5000), Some((0x40_0000, 2))));
    assert_eq!(dma_map_result(&req, 0x40_0000, None), (-1, None, Some((0x40_0000, 2))));
    let own = CRequest { existing_phys: 0x50_0000, ..req };
    assert_eq!(dma_map_source(&own), BufferSource::Existing(0x50_0000));
    assert_eq!(dma_map_result(&own, 0x50_0000, None), (-1, None, None));
    let (_, m, _) = dma_map_result(&own, 0x50_0000, Some(1));
    assert_eq!(dma_unmap_plan(&m.unwrap()), ((1, 5000), None));
}

#[test]
fn plugin_registry() {
    let mut r = PluginRegistry::new();
    assert_eq!(r.count(), 0);
    r.register("nvme");
    r.register("e1000");
    assert_eq!(r.count(), 2);
    let names: Vec<&str> = r.iter().iter().map(|p| p.name).collect();
    assert_eq!(names, vec!["nvme", "e1000"]);
}

#[test]
fn sd_card_mount_sequence() {
    let mut guard = SdProbeGuard { probed: false };
    assert_eq!(probe_and_mount(&mut guard), None);
    assert_eq!(probe_and_mount(&mut guard), Some(true));
    guard.finish(false);
    assert!(!guard.probed);
    assert!(guard.claim());
    guard.finish(true);
    assert!(guard.probed);

    let mut drives = SdDrives::new();
    let mut m = SdMount::new();
    m.feed(&mut drives, true, None);
    m.feed(&mut drives, true, None);
    m.feed(&mut drives, true, Some((1 << 20, 512)));
    assert_eq!((total_sectors(&m), sector_size(&m)), (1 << 20, 512));
    m.feed(&mut drives, true, None);
    m.feed(&mut drives, true, None);
    assert_eq!(m.step, SdMountStep::Record);
    assert_eq!(drives.count, 0);
    m.feed(&mut drives, true, None);
    assert_eq!(m.step, SdMountStep::Done(true));
    assert_eq!(drives.count, 1);
    assert_eq!(drives.drives[0].name, "SD Card");
    assert_eq!(drives.drives[0].mount_point, "/mnt/sdcard-1");
    // A finished sequence records nothing more.
    m.feed(&mut drives, true, None);
    assert_eq!(drives.drives.len(), 1);
    let mut m = SdMount::new();
    m.feed(&mut drives, false, None);
    assert_eq!(m.step, SdMountStep::Done(false));
    let mut m = SdMount::new();
    m.feed(&mut drives, true, None);
    m.feed(&mut drives, true, None);
    m.feed(&mut drives, true, None);
    assert_eq!(m.step, SdMountStep::Done(false));
    assert_eq!(drives.count, 1);

    drives.record_mount();
    assert_eq!(drives.count, 2);
    init_storage_devices();
    assert!(!is_available());
    assert!(get_framebuffer().is_none());
}

#[test]
fn idle_loop_decisions() {
    let mut l = ShellLauncher::new();
    assert!(!l.take_launch_request());
    request_shell_launch(&mut l);
    assert!(l.take_launch_request());
    assert!(!l.take_launch_request());
    assert_eq!(now_us(3_000_000, 3_000_000, 7), 1000);
    assert_eq!(now_us(123, 0, 7), 7);
    assert_eq!(next_tick(u64::MAX), 0);
    assert_eq!(lapic_virt_for(None, 0xFFFF_8000_0000_0000), Some(0xFFFF_8000_FEE0_0000));
    assert_eq!(lapic_virt_for(Some(0xFEE0_0800), 0xFFFF_8000_0000_0000), None);
    assert_eq!(lapic_virt_for(Some(0xFEE0_0000), 0), None);
}
