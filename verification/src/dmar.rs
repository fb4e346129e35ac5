//! DMA Remapping (DMAR) table parsing: the VT-d hardware units and the PCI
//! path of the first device scope of each.
use vstd::prelude::*;
use crate::bytes::{le16, le32, le64, read_le16, read_le64};

verus! {

/// A DMA Remapping Hardware Unit Definition (DRHD) entry.
#[derive(Clone, Debug)]
pub struct DmarDrhd {
    pub flags: u8,
    pub segment: u16,
    pub phys_base: u64,
    pub dev_scope_bus: u8,
    pub dev_scope_path: Vec<(u8, u8)>,
}

/// Parsed DMAR table information.
#[derive(Clone, Debug)]
pub struct DmarInfo {
    pub host_address_width: u8,
    pub drhd_units: Vec<DmarDrhd>,
}

/// The contents of a DRHD entry.
pub struct DrhdView {
    pub flags: u8,
    pub segment: u16,
    pub phys_base: u64,
    pub dev_scope_bus: u8,
    pub dev_scope_path: Seq<(u8, u8)>,
}

impl DmarDrhd {
    pub open spec fn view(&self) -> DrhdView {
        DrhdView {
            flags: self.flags,
            segment: self.segment,
            phys_base: self.phys_base,
            dev_scope_bus: self.dev_scope_bus,
            dev_scope_path: self.dev_scope_path@,
        }
    }
}

/// The contents of a list of DRHD entries.
pub open spec fn units_view(units: Seq<DmarDrhd>) -> Seq<DrhdView> {
    units.map_values(|d: DmarDrhd| d.view())
}

/// The (device, function) pairs of a device-scope path from `po` up to `end`.
pub open spec fn scope_path(b: Seq<u8>, po: int, end: int) -> Seq<(u8, u8)>
    decreases end - po,
{
    if po + 2 <= end {
        seq![(b[po], b[po + 1])] + scope_path(b, po + 2, end)
    } else {
        seq![]
    }
}

/// The DRHD entry in the remapping structure at `off` of length `slen`: its
/// flags, segment and register base, and the start bus and path of the first
/// device scope when the structure has room for one.
pub open spec fn drhd_at(b: Seq<u8>, off: int, slen: int) -> DrhdView {
    let scope_off = off + 16;
    let has_scope = scope_off + 6 <= off + slen;
    DrhdView {
        flags: b[off + 4],
        segment: le16(b, off + 6) as u16,
        phys_base: le64(b, off + 8) as u64,
        dev_scope_bus: if has_scope {
            b[scope_off + 5]
        } else {
            0
        },
        dev_scope_path: if has_scope {
            scope_path(b, scope_off + 6, scope_off + b[scope_off + 1])
        } else {
            seq![]
        },
    }
}

/// Whether a DRHD entry's device-scope path lies within the table: the scope
/// is absent, too short to hold a path element, or ends inside the table.
pub open spec fn drhd_in_bounds(b: Seq<u8>, off: int, slen: int) -> bool {
    let scope_off = off + 16;
    !(scope_off + 6 <= off + slen) || b[scope_off + 1] < 8 || scope_off + b[scope_off + 1] <= b.len()
}

/// The DRHD entries of the remapping structures from `off` on, or `None` when
/// a structure is shorter than its own header or runs past the table.
pub open spec fn dmar_units(b: Seq<u8>, off: int) -> Option<Seq<DrhdView>>
    decreases b.len() - off,
{
    if off + 4 > b.len() || off < 0 {
        Some(seq![])
    } else {
        let stype = le16(b, off);
        let slen = le16(b, off + 2);
        if slen < 4 || off + slen > b.len() {
            None
        } else {
            match dmar_units(b, off + slen) {
                None => None,
                Some(rest) => if stype == 0 && slen >= 20 {
                    Some(seq![drhd_at(b, off, slen)] + rest)
                } else {
                    Some(rest)
                },
            }
        }
    }
}

/// The walk over the remapping structures, one structure at a time: with no
/// room left for a structure header there are no units; a structure shorter
/// than its header or running past the table spoils the walk; otherwise a
/// DRHD (type 0, at least 20 bytes) yields exactly one unit (with the
/// structure's flags, segment and register base) ahead of every unit of the
/// structures after it, in order, and any other structure yields none.
pub proof fn lemma_dmar_walk(b: Seq<u8>, off: int)
    requires
        0 <= off,
    ensures
        off + 4 > b.len() ==> dmar_units(b, off) == Some(Seq::<DrhdView>::empty()),
        off + 4 <= b.len() && (le16(b, off + 2) < 4 || off + le16(b, off + 2) > b.len())
            ==> dmar_units(b, off) is None,
        off + 4 <= b.len() && 4 <= le16(b, off + 2) && off + le16(b, off + 2) <= b.len() ==> {
            let slen = le16(b, off + 2);
            let is_drhd = le16(b, off) == 0 && slen >= 20;
            match (dmar_units(b, off), dmar_units(b, off + slen)) {
                (Some(u), Some(rest)) => if is_drhd {
                    &&& u.len() == rest.len() + 1
                    &&& u[0] == drhd_at(b, off, slen)
                    &&& u[0].flags == b[off + 4]
                    &&& u[0].segment == le16(b, off + 6)
                    &&& u[0].phys_base == le64(b, off + 8)
                    &&& u.subrange(1, u.len() as int) == rest
                } else {
                    u == rest
                },
                (None, None) => true,
                _ => false,
            }
        },
{
    if off + 4 <= b.len() {
        let slen = le16(b, off + 2);
        if 4 <= slen && off + slen <= b.len() {
            if let Some(rest) = dmar_units(b, off + slen) {
                if le16(b, off) == 0 && slen >= 20 {
                    let u = seq![drhd_at(b, off, slen)] + rest;
                    assert(u.subrange(1, u.len() as int) =~= rest);
                    assert(le16(b, off + 6) < 0x1_0000 && le64(b, off + 8) <= u64::MAX) by {
                        lemma_le_bounds(b, off);
                    }
                }
            }
        }
    }
}

proof fn lemma_le_bounds(b: Seq<u8>, off: int)
    requires
        0 <= off,
        off + 16 <= b.len(),
    ensures
        0 <= le16(b, off + 6) < 0x1_0000,
        0 <= le64(b, off + 8) <= u64::MAX,
{
    let a = le16(b, off + 8);
    let c = le16(b, off + 10);
    let d = le16(b, off + 12);
    let e = le16(b, off + 14);
    assert(0 <= a < 0x1_0000 && 0 <= c < 0x1_0000 && 0 <= d < 0x1_0000 && 0 <= e < 0x1_0000);
    assert(le32(b, off + 8) == a + c * 0x1_0000);
    assert(le32(b, off + 12) == d + e * 0x1_0000);
    assert(0 <= a + c * 0x1_0000 <= 0xFFFF_FFFF) by (nonlinear_arith)
        requires 0 <= a < 0x1_0000, 0 <= c < 0x1_0000;
    assert(0 <= d + e * 0x1_0000 <= 0xFFFF_FFFF) by (nonlinear_arith)
        requires 0 <= d < 0x1_0000, 0 <= e < 0x1_0000;
    let lo = le32(b, off + 8);
    let hi = le32(b, off + 12);
    assert(0 <= lo + hi * 0x1_0000_0000 <= u64::MAX) by (nonlinear_arith)
        requires 0 <= lo <= 0xFFFF_FFFF, 0 <= hi <= 0xFFFF_FFFF;
}

/// Whether every device-scope path that parsing reaches lies in the table.
pub open spec fn dmar_in_bounds(b: Seq<u8>, off: int) -> bool
    decreases b.len() - off,
{
    if off + 4 > b.len() || off < 0 {
        true
    } else {
        let stype = le16(b, off);
        let slen = le16(b, off + 2);
        if slen < 4 || off + slen > b.len() {
            true
        } else {
            (stype == 0 && slen >= 20 ==> drhd_in_bounds(b, off, slen)) && dmar_in_bounds(
                b,
                off + slen,
            )
        }
    }
}

/// The DMAR table parsed: the host address width (byte 36) and the DRHD
/// entries among the remapping structures that start at byte 48.
pub open spec fn parse_dmar_spec(b: Seq<u8>) -> Option<(u8, Seq<DrhdView>)> {
    match dmar_units(b, 48) {
        None => None,
        Some(units) => Some((b[36], units)),
    }
}

fn parse_scope_path(b: &[u8], start: usize, end: usize) -> (r: Vec<(u8, u8)>)
    requires
        end <= b@.len() || end < start + 2,
        end <= 0x4_0000,
        start <= 0x4_0000,
    ensures
        r@ == scope_path(b@, start as int, end as int),
{
    let mut path: Vec<(u8, u8)> = Vec::new();
    let mut po = start;
    while po + 2 <= end
        invariant
            start <= po,
            po == start || po <= end,
            start <= 0x4_0000,
            end <= 0x4_0000,
            end <= b@.len() || end < start + 2,
            po + 2 <= end ==> end <= b@.len(),
            path@ + scope_path(b@, po as int, end as int) == scope_path(b@, start as int, end as int),
        decreases end - po,
    {
        let dev = b[po];
        let func = b[po + 1];
        proof {
            assert(scope_path(b@, po as int, end as int) == seq![(dev, func)] + scope_path(
                b@,
                po + 2,
                end as int,
            ));
            assert(path@.push((dev, func)) + scope_path(b@, po + 2, end as int) =~= path@
                + scope_path(b@, po as int, end as int));
        }
        path.push((dev, func));
        po += 2;
    }
    assert(path@ =~= path@ + scope_path(b@, po as int, end as int));
    path
}

/// Whether every device-scope path of the DRHD entries of `bytes` lies
/// within the table, which [`parse_dmar`] needs to read them.
pub fn dmar_scopes_in_bounds(bytes: &[u8]) -> (r: bool)
    requires
        bytes@.len() <= 128 * 1024,
    ensures
        r == dmar_in_bounds(bytes@, 48),
{
    let total_len = bytes.len();
    let mut offset: usize = 48;
    while offset + 4 <= total_len
        invariant
            total_len == bytes@.len(),
            total_len <= 128 * 1024,
            48 <= offset <= total_len + 48,
            dmar_in_bounds(bytes@, 48) == dmar_in_bounds(bytes@, offset as int),
        decreases total_len - offset,
    {
        let stype = read_le16(bytes, offset);
        let slen = read_le16(bytes, offset + 2) as usize;
        if slen < 4 || offset + slen > total_len {
            return true;
        }
        if stype == 0 && slen >= 20 {
            let scope_off = offset + 16;
            if scope_off + 6 <= offset + slen {
                let scope_len = bytes[scope_off + 1] as usize;
                if scope_len >= 8 && scope_off + scope_len > total_len {
                    return false;
                }
            }
        }
        offset += slen;
    }
    true
}

/// Parse a DMAR table held in `bytes` (at most 128 KiB, the most
/// [`crate::acpi::get_table_bytes`] admits): `None` when a remapping structure is
/// shorter than its four-byte header or runs past the end of the table.
pub fn parse_dmar(bytes: &[u8]) -> (r: Option<DmarInfo>)
    requires
        36 < bytes@.len() <= 128 * 1024,
        dmar_in_bounds(bytes@, 48),
    ensures
        match parse_dmar_spec(bytes@) {
            None => r is None,
            Some((haw, units)) => r matches Some(info) && info.host_address_width == haw
                && units_view(info.drhd_units@) == units,
        },
{
    let total_len = bytes.len();
    let host_address_width = bytes[36];
    let mut drhd_units: Vec<DmarDrhd> = Vec::new();
    let mut offset: usize = 48;
    while offset + 4 <= total_len
        invariant
            total_len == bytes@.len(),
            total_len <= 128 * 1024,
            48 <= offset <= total_len + 48,
            dmar_in_bounds(bytes@, 48) == dmar_in_bounds(bytes@, offset as int),
            dmar_in_bounds(bytes@, 48),
            dmar_units(bytes@, 48) == (match dmar_units(bytes@, offset as int) {
                None => None,
                Some(rest) => Some(units_view(drhd_units@) + rest),
            }),
        decreases total_len - offset,
    {
        let stype = read_le16(bytes, offset);
        let slen = read_le16(bytes, offset + 2) as usize;
        if slen < 4 || offset + slen > total_len {
            return None;
        }
        let ghost rest = dmar_units(bytes@, offset + slen);
        if stype == 0 && slen >= 20 {
            let flags = bytes[offset + 4];
            let segment = read_le16(bytes, offset + 6);
            let phys_base = read_le64(bytes, offset + 8);
            let mut bus: u8 = 0;
            let mut path: Vec<(u8, u8)> = Vec::new();
            let scope_off = offset + 16;
            if scope_off + 6 <= offset + slen {
                let scope_len = bytes[scope_off + 1] as usize;
                bus = bytes[scope_off + 5];
                path = parse_scope_path(bytes, scope_off + 6, scope_off + scope_len);
            }
            let unit = DmarDrhd { flags, segment, phys_base, dev_scope_bus: bus, dev_scope_path: path };
            proof {
                assert(unit.view() == drhd_at(bytes@, offset as int, slen as int));
                assert(units_view(drhd_units@.push(unit)) =~= units_view(drhd_units@).push(
                    unit.view(),
                ));
                match rest {
                    None => {},
                    Some(rs) => {
                        assert(units_view(drhd_units@) + (seq![unit.view()] + rs) =~= units_view(
                            drhd_units@,
                        ).push(unit.view()) + rs);
                    },
                }
            }
            drhd_units.push(unit);
        }
        offset += slen;
    }
    proof {
        assert(dmar_units(bytes@, offset as int) == Some(Seq::<DrhdView>::empty()));
        assert(units_view(drhd_units@) + Seq::<DrhdView>::empty() =~= units_view(drhd_units@));
    }
    Some(DmarInfo { host_address_width, drhd_units })
}

} // verus!
