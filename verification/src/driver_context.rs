//! The services a driver receives from the kernel: frame allocation, MMIO and
//! page mapping, physical-to-virtual translation and DMA mapping, with the
//! combined allocate-and-map protocol built on top of them.
use vstd::prelude::*;

verus! {

/// Error type for driver context operations.
#[derive(Debug, Clone, Copy, PartialEq, Eq, Structural)]
pub enum DriverContextError {
    /// The requested memory allocation could not be satisfied.
    OutOfMemory,
    /// The MMIO region could not be mapped.
    MmioMappingFailed,
    /// An invalid (null or misaligned) argument was supplied.
    InvalidArgument,
}

impl DriverContextError {
    /// The human-readable description of the error.
    pub fn message(&self) -> (r: &'static str)
        ensures
            *self == DriverContextError::OutOfMemory ==> r@ == "out of memory"@,
            *self == DriverContextError::MmioMappingFailed ==> r@ == "MMIO mapping failed"@,
            *self == DriverContextError::InvalidArgument ==> r@ == "invalid argument"@,
    {
        match self {
            DriverContextError::OutOfMemory => "out of memory",
            DriverContextError::MmioMappingFailed => "MMIO mapping failed",
            DriverContextError::InvalidArgument => "invalid argument",
        }
    }
}

/// Direction of a DMA transfer.
#[derive(Debug, Clone, Copy, PartialEq, Eq, Structural)]
pub enum DmaDirection {
    /// Device reads from memory.
    ToDevice,
    /// Device writes to memory.
    FromDevice,
    /// Both read and write.
    Bidirectional,
}

/// A DMA-map request that a driver submits to the kernel.
#[derive(Debug, Clone, Copy)]
pub struct DmaMapRequest {
    /// PCI BDF encoded as `(bus << 8) | (device << 3) | function`.
    pub device_id: u16,
    /// Size of the desired DMA buffer in bytes.
    pub size: usize,
    /// Caller-supplied physical buffer (4 KiB-aligned); `None` to allocate.
    pub existing_phys: Option<u64>,
    /// Intended data-flow direction.
    pub direction: DmaDirection,
}

impl DmaMapRequest {
    /// A request that allocates fresh contiguous frames, bidirectional.
    pub fn new(device_id: u16, size: usize) -> (r: Self)
        ensures
            r.device_id == device_id,
            r.size == size,
            r.existing_phys is None,
            r.direction == DmaDirection::Bidirectional,
    {
        Self { device_id, size, existing_phys: None, direction: DmaDirection::Bidirectional }
    }

    /// The request with a pre-allocated physical buffer attached.
    pub fn with_phys(self, phys: u64) -> (r: Self)
        ensures
            r == (DmaMapRequest { existing_phys: Some(phys), ..self }),
    {
        let mut r = self;
        r.existing_phys = Some(phys);
        r
    }

    /// The request with its direction hint replaced.
    pub fn with_direction(self, direction: DmaDirection) -> (r: Self)
        ensures
            r == (DmaMapRequest { direction, ..self }),
    {
        let mut r = self;
        r.direction = direction;
        r
    }
}

/// The result of a successful DMA map.
#[derive(Debug, Clone, Copy)]
pub struct DmaMapping {
    /// IO virtual address the device uses for DMA.
    pub iova: u64,
    /// Physical address of the buffer.
    pub phys: u64,
    /// Kernel-virtual address of the buffer.
    pub virt: usize,
    /// Requested size in bytes.
    pub size: usize,
    /// Number of 4 KiB frames backing this mapping.
    pub pages: usize,
    /// Whether the mapping owns its frames (they were allocated for it).
    pub owns_frames: bool,
}

/// Simplified page-table flags for driver mapping requests.
#[derive(Debug, Clone, Copy, PartialEq, Eq, Structural)]
pub struct PageFlags {
    pub writable: bool,
    pub write_combining: bool,
    pub executable: bool,
}

impl PageFlags {
    /// Standard uncacheable MMIO: writable, not write-combining, not executable.
    pub fn mmio() -> (r: Self)
        ensures
            r == (PageFlags { writable: true, write_combining: false, executable: false }),
    {
        PageFlags { writable: true, write_combining: false, executable: false }
    }

    /// Write-combining framebuffer: writable, write-combining, not executable.
    pub fn framebuffer_wc() -> (r: Self)
        ensures
            r == (PageFlags { writable: true, write_combining: true, executable: false }),
    {
        PageFlags { writable: true, write_combining: true, executable: false }
    }
}

/// Number of 4 KiB pages that hold `size` bytes.
pub open spec fn pages_for(size: int) -> int {
    (size + 4095) / 4096
}

/// Whether a page count for `size` can be computed without overflow.
pub open spec fn size_ok(size: usize) -> bool {
    size + 4095 <= usize::MAX
}

/// Number of 4 KiB frames backing a buffer of `size` bytes.
pub fn dma_pages(size: usize) -> (r: usize)
    requires
        size_ok(size),
    ensures
        r == pages_for(size as int),
        r * 4096 >= size,
        r * 4096 <= size + 4095,
{
    (size + 4095) / 4096
}

/// Where the buffer of a request comes from.
#[derive(Debug, Clone, Copy, PartialEq, Eq, Structural)]
pub enum DmaSource {
    /// The caller's buffer at this physical address.
    Existing(u64),
    /// Fresh contiguous frames, this many.
    Allocate(usize),
}

/// The first step of a DMA-map request: use the caller's buffer (which must
/// be 4 KiB-aligned) or allocate `pages` frames.
pub fn dma_source(request: &DmaMapRequest, pages: usize) -> (r: Result<DmaSource, DriverContextError>)
    ensures
        request.existing_phys matches Some(p) ==> (if p % 4096 != 0 {
            r == Err::<DmaSource, DriverContextError>(DriverContextError::InvalidArgument)
        } else {
            r == Ok::<DmaSource, DriverContextError>(DmaSource::Existing(p))
        }),
        request.existing_phys is None ==> r == Ok::<DmaSource, DriverContextError>(
            DmaSource::Allocate(pages),
        ),
{
    match request.existing_phys {
        Some(existing) => {
            assert(((existing & 0xFFFu64) != 0) == (existing % 4096 != 0)) by (bit_vector);
            if existing & 0xFFF != 0 {
                Err(DriverContextError::InvalidArgument)
            } else {
                Ok(DmaSource::Existing(existing))
            }
        },
        None => Ok(DmaSource::Allocate(pages)),
    }
}

/// The mapping a request yields once its buffer at `phys`/`virt` was mapped
/// for the device at `iova`.
pub open spec fn mapping_spec(request: DmaMapRequest, phys: u64, virt: usize, iova: u64) -> DmaMapping {
    DmaMapping {
        iova,
        phys,
        virt,
        size: request.size,
        pages: pages_for(request.size as int) as usize,
        owns_frames: request.existing_phys is None,
    }
}

/// The outcome of a DMA-map request whose buffer is at `phys`/`virt`, given
/// what the IOMMU mapping returned.
pub fn dma_map_complete(
    request: &DmaMapRequest,
    phys: u64,
    virt: usize,
    mapped: Result<u64, DriverContextError>,
) -> (r: Result<DmaMapping, DriverContextError>)
    requires
        size_ok(request.size),
    ensures
        mapped matches Ok(iova) ==> r == Ok::<DmaMapping, DriverContextError>(
            mapping_spec(*request, phys, virt, iova),
        ),
        mapped matches Err(e) ==> r == Err::<DmaMapping, DriverContextError>(e),
{
    match mapped {
        Ok(iova) => Ok(
            DmaMapping {
                iova,
                phys,
                virt,
                size: request.size,
                pages: dma_pages(request.size),
                owns_frames: request.existing_phys.is_none(),
            },
        ),
        Err(e) => Err(e),
    }
}

/// Frames to give back when mapping a request's buffer failed: the frames
/// allocated for it, none when the buffer was the caller's.
pub fn frames_to_release(request: &DmaMapRequest, phys: u64, pages: usize) -> (r: Option<(u64, usize)>)
    ensures
        request.existing_phys is None ==> r == Some((phys, pages)),
        request.existing_phys is Some ==> r is None,
{
    if request.existing_phys.is_none() {
        Some((phys, pages))
    } else {
        None
    }
}

/// What tearing down a mapping takes: unmap `(iova, size)` from the IOMMU,
/// then free `(phys, pages)` when the mapping owns its frames.
pub fn unmap_plan(mapping: &DmaMapping) -> (r: ((u64, usize), Option<(u64, usize)>))
    ensures
        r.0 == (mapping.iova, mapping.size),
        mapping.owns_frames ==> r.1 == Some((mapping.phys, mapping.pages)),
        !mapping.owns_frames ==> r.1 is None,
{
    let frees = if mapping.owns_frames {
        Some((mapping.phys, mapping.pages))
    } else {
        None
    };
    ((mapping.iova, mapping.size), frees)
}

/// A mapping made for a request without a caller buffer frees exactly the
/// frames it was given when torn down; one made over a caller buffer frees
/// nothing.
pub proof fn lemma_unmap_frees_what_map_allocated(
    request: DmaMapRequest,
    phys: u64,
    virt: usize,
    iova: u64,
)
    ensures
        ({
            let m = mapping_spec(request, phys, virt, iova);
            &&& m.owns_frames <==> request.existing_phys is None
            &&& m.iova == iova && m.size == request.size
            &&& m.pages == pages_for(request.size as int)
        }),
{
}

/// Services that a driver needs from the owning kernel or runtime.
pub trait DriverContext: Send + Sync {
    /// Convert a physical address to a kernel-accessible virtual address.
    fn phys_to_virt(&self, phys: u64) -> usize;

    /// Allocate a single physical 4 KiB frame; returns its physical address.
    fn allocate_frame(&self) -> Result<u64, DriverContextError>;

    /// Allocate `count` contiguous physical 4 KiB frames; returns the first.
    fn allocate_contiguous_frames(&self, count: usize) -> Result<u64, DriverContextError>;

    /// Map a physical MMIO region into the kernel's virtual address space.
    fn map_mmio_region(&self, phys: usize, virt: usize, size: usize) -> Result<(), DriverContextError>;

    /// Map a single page with the given flags.
    fn map_page(&self, virt: usize, phys: usize, flags: PageFlags) -> Result<(), DriverContextError>;

    /// Free a frame returned by `allocate_frame`.
    fn free_frame(&self, phys: u64);

    /// Free `count` frames returned by `allocate_contiguous_frames`.
    fn free_contiguous_frames(&self, phys: u64, count: usize);

    /// Map a page-aligned DMA buffer for device access; returns its IOVA.
    fn dma_map(&self, device_id: u16, phys: u64, size: usize) -> Result<u64, DriverContextError>;

    /// Unmap a buffer mapped by `dma_map`.
    fn dma_unmap(&self, iova: u64, size: usize);

    /// Fill `size` bytes at kernel-virtual address `virt` with zeros.
    fn zero_memory(&self, virt: usize, size: usize);

    /// Allocate (or take the caller's buffer), zero fresh frames, and map the
    /// buffer for the device.  A misaligned caller buffer is refused with
    /// `InvalidArgument`; allocation and mapping errors are passed on, and
    /// frames allocated here are freed again when the mapping fails.
    fn dma_map_request(&self, request: &DmaMapRequest) -> (r: Result<DmaMapping, DriverContextError>)
        requires
            size_ok(request.size),
            pages_for(request.size as int) * 4096 <= usize::MAX,
        ensures
            r matches Ok(m) ==> m.size == request.size && m.pages == pages_for(request.size as int)
                && m.owns_frames == request.existing_phys is None,
            r matches Ok(m) ==> (request.existing_phys matches Some(p) ==> m.phys == p),
            (request.existing_phys matches Some(p) && p % 4096 != 0) ==> r == Err::<
                DmaMapping,
                DriverContextError,
            >(DriverContextError::InvalidArgument),
    {
        let pages = dma_pages(request.size);
        let size = pages * 4096;
        let (phys, virt): (u64, usize) = match dma_source(request, pages) {
            Err(e) => {
                return Err(e);
            },
            Ok(DmaSource::Existing(existing)) => (existing, self.phys_to_virt(existing)),
            Ok(DmaSource::Allocate(count)) => {
                let p = match self.allocate_contiguous_frames(count) {
                    Ok(p) => p,
                    Err(e) => {
                        return Err(e);
                    },
                };
                let v = self.phys_to_virt(p);
                self.zero_memory(v, size);
                (p, v)
            },
        };
        let mapped = self.dma_map(request.device_id, phys, request.size);
        if mapped.is_err() {
            if let Some((p, n)) = frames_to_release(request, phys, pages) {
                self.free_contiguous_frames(p, n);
            }
        }
        dma_map_complete(request, phys, virt, mapped)
    }

    /// Unmap a mapping from the IOMMU and free its frames when it owns them.
    fn dma_unmap_mapping(&self, mapping: &DmaMapping) {
        let ((iova, size), frees) = unmap_plan(mapping);
        self.dma_unmap(iova, size);
        if let Some((phys, pages)) = frees {
            self.free_contiguous_frames(phys, pages);
        }
    }
}

} // verus!
