//! The C-compatible DMA interface of the kernel: the request and mapping
//! records drivers in any language exchange with it, and the decisions of
//! its map and unmap entry points.  The entry points themselves, which
//! dereference the drivers' pointers, allocate frames and program the
//! IOMMU, are the caller's.
use vstd::prelude::*;

verus! {

/// Direction of a DMA transfer, with its C code.
#[derive(Clone, Copy, Debug, PartialEq, Eq, Structural)]
pub enum DmaDirection {
    /// Code 0.
    ToDevice,
    /// Code 1.
    FromDevice,
    /// Code 2.
    Bidirectional,
}

/// The C code of a direction.
pub open spec fn direction_code(d: DmaDirection) -> u32 {
    match d {
        DmaDirection::ToDevice => 0,
        DmaDirection::FromDevice => 1,
        DmaDirection::Bidirectional => 2,
    }
}

impl DmaDirection {
    /// The direction's C code.
    pub fn code(&self) -> (r: u32)
        ensures
            r == direction_code(*self),
    {
        match self {
            DmaDirection::ToDevice => 0,
            DmaDirection::FromDevice => 1,
            DmaDirection::Bidirectional => 2,
        }
    }

    /// The direction with C code `code`, if any.
    pub fn from_code(code: u32) -> (r: Option<DmaDirection>)
        ensures
            code <= 2 ==> (r matches Some(d) && direction_code(d) == code),
            code > 2 ==> r is None,
    {
        if code == 0 {
            Some(DmaDirection::ToDevice)
        } else if code == 1 {
            Some(DmaDirection::FromDevice)
        } else if code == 2 {
            Some(DmaDirection::Bidirectional)
        } else {
            None
        }
    }
}

/// A DMA map request as C passes it.
#[derive(Clone, Copy, Debug)]
pub struct DmaMapRequest {
    /// PCI bus/device/function of the device.
    pub device_id: u16,
    /// Size of the buffer in bytes.
    pub size: u64,
    /// Physical address of the caller's buffer; 0 to allocate frames.
    pub existing_phys: u64,
    pub direction: DmaDirection,
}

/// A DMA mapping as C receives it.
#[derive(Clone, Copy, Debug, PartialEq, Eq, Structural)]
pub struct DmaMapping {
    /// IO virtual address for the device.
    pub iova: u64,
    /// Physical address of the buffer.
    pub phys: u64,
    /// Size in bytes.
    pub size: u64,
    /// Number of 4 KiB frames.
    pub pages: u32,
    /// 1 when the mapping owns (allocated) its frames, 0 otherwise.
    pub owns_frames: u32,
}

/// Number of 4 KiB frames that hold a request's buffer.
pub open spec fn request_pages(req: DmaMapRequest) -> int {
    ((req.size as usize) + 4095) / 4096
}

/// Whether a request's page count can be computed without overflow.
pub open spec fn request_size_ok(req: DmaMapRequest) -> bool {
    (req.size as usize) + 4095 <= usize::MAX
}

/// Where the buffer of a C request comes from.
#[derive(Clone, Copy, Debug, PartialEq, Eq, Structural)]
pub enum BufferSource {
    /// The caller's frames at this physical address.
    Existing(u64),
    /// This many fresh contiguous frames.
    Allocate(usize),
}

/// The first step of a C map request: the caller's buffer when it gives
/// one, otherwise as many frames as the size needs.
pub fn dma_map_source(req: &DmaMapRequest) -> (r: BufferSource)
    requires
        request_size_ok(*req),
    ensures
        req.existing_phys != 0 ==> r == BufferSource::Existing(req.existing_phys),
        req.existing_phys == 0 ==> r == BufferSource::Allocate(request_pages(*req) as usize),
{
    if req.existing_phys != 0 {
        BufferSource::Existing(req.existing_phys)
    } else {
        BufferSource::Allocate(((req.size as usize) + 4095) / 4096)
    }
}

/// The mapping the kernel returns for a request whose buffer at `phys` was
/// mapped at `iova`.
pub open spec fn mapping_of(req: DmaMapRequest, phys: u64, iova: u64) -> DmaMapping {
    DmaMapping {
        iova,
        phys,
        size: req.size,
        pages: request_pages(req) as u32,
        owns_frames: if req.existing_phys != 0 { 0 } else { 1 },
    }
}

/// What a C map request returns once its buffer at `phys` went through the
/// IOMMU (`iova`, or `None` on failure): the status (0 or -1), the mapping
/// to store, and the frames to free again (those allocated for a failed
/// request).
pub fn dma_map_result(req: &DmaMapRequest, phys: u64, iova: Option<u64>) -> (r: (
    i32,
    Option<DmaMapping>,
    Option<(u64, usize)>,
))
    requires
        request_size_ok(*req),
    ensures
        iova matches Some(v) ==> r == (0i32, Some(mapping_of(*req, phys, v)), None::<(u64, usize)>),
        iova is None && req.existing_phys == 0 ==> r == (-1i32, None::<DmaMapping>, Some(
            (phys, request_pages(*req) as usize),
        )),
        iova is None && req.existing_phys != 0 ==> r == (-1i32, None::<DmaMapping>, None::<(u64, usize)>),
{
    let pages = ((req.size as usize) + 4095) / 4096;
    match iova {
        Some(v) => {
            let m = DmaMapping {
                iova: v,
                phys,
                size: req.size,
                pages: pages as u32,
                owns_frames: if req.existing_phys != 0 { 0 } else { 1 },
            };
            (0, Some(m), None)
        },
        None => {
            if req.existing_phys == 0 {
                (-1, None, Some((phys, pages)))
            } else {
                (-1, None, None)
            }
        },
    }
}

/// Tearing down a C mapping: unmap `(iova, size)` from the IOMMU, then
/// free `(phys, pages)` when the mapping owns its frames.
pub fn dma_unmap_plan(m: &DmaMapping) -> (r: ((u64, usize), Option<(u64, usize)>))
    ensures
        r.0 == (m.iova, m.size as usize),
        m.owns_frames != 0 ==> r.1 == Some((m.phys, m.pages as usize)),
        m.owns_frames == 0 ==> r.1 is None,
{
    let frees = if m.owns_frames != 0 {
        Some((m.phys, m.pages as usize))
    } else {
        None
    };
    ((m.iova, m.size as usize), frees)
}

/// Unmapping what a successful request returned frees exactly the frames
/// allocated for it, and nothing for a caller's buffer, as long as the
/// page count fits the record's 32-bit field.
pub proof fn lemma_unmap_frees_allocated_frames(req: DmaMapRequest, phys: u64, iova: u64)
    requires
        request_size_ok(req),
        request_pages(req) <= u32::MAX,
    ensures
        ({
            let m = mapping_of(req, phys, iova);
            &&& (m.owns_frames != 0) == (req.existing_phys == 0)
            &&& m.pages as usize == request_pages(req)
            &&& m.iova == iova && m.size == req.size && m.phys == phys
        }),
{
}

} // verus!
