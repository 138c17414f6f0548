//! ACPI table parsing: locating the RSDP, reading the root table, and extracting
//! the processors, I/O APICs and local-APIC address from the MADT. Tables are byte
//! images of physical memory, read by the caller; all values are little-endian.
use vstd::prelude::*;

verus! {

/// A processor entry: its local APIC identifier and whether it is usable.
#[derive(Debug, Clone, Copy, PartialEq, Eq, Structural)]
pub struct CpuEntry {
    pub apic_id: u32,
    pub enabled: bool,
}

/// An I/O APIC entry.
#[derive(Debug, Clone, Copy, PartialEq, Eq, Structural)]
pub struct IoApic {
    pub id: u8,
    pub address: u32,
    pub gsi_base: u32,
}

/// What the MADT says about interrupt controllers.
pub struct MadtInfo {
    pub lapic_base: u64,
    pub cpus: Vec<CpuEntry>,
    pub io_apics: Vec<IoApic>,
}

/// The root system description pointer.
#[derive(Debug, Clone, Copy, PartialEq, Eq, Structural)]
pub struct Rsdp {
    pub revision: u8,
    pub rsdt_addr: u32,
    pub xsdt_addr: u64,
}

/// Length of the checksummed part of an RSDP.
pub const RSDP_CHECKED_LEN: usize = 20;

/// Bytes of low physical memory that `find_rsdp` searches (with room for the last
/// candidate of the extended BIOS data area).
pub const LOW_MEMORY_SPAN: usize = 0x10_0400;

/// Signature of the MADT, as a little-endian word ("APIC").
pub const MADT_SIGNATURE: u32 = 0x4349_5041;

/// Length of a system description table header.
pub const SDT_HEADER_LEN: usize = 36;

/// Byte `i` of `s` as an integer.
pub open spec fn byte(s: Seq<u8>, i: int) -> int {
    s[i] as int
}

/// Little-endian 16-bit value at `i`.
pub open spec fn le16(s: Seq<u8>, i: int) -> int {
    byte(s, i) + 256 * byte(s, i + 1)
}

/// Little-endian 32-bit value at `i`.
pub open spec fn le32(s: Seq<u8>, i: int) -> int {
    le16(s, i) + 65536 * le16(s, i + 2)
}

/// Little-endian 64-bit value at `i`.
pub open spec fn le64(s: Seq<u8>, i: int) -> int {
    le32(s, i) + 0x1_0000_0000 * le32(s, i + 4)
}

proof fn lemma_le_bounds(s: Seq<u8>, i: int)
    requires
        0 <= i,
        i + 8 <= s.len(),
    ensures
        0 <= le16(s, i) <= 0xffff,
        0 <= le32(s, i) <= 0xffff_ffff,
        0 <= le64(s, i) <= 0xffff_ffff_ffff_ffff,
{
    assert(0 <= le16(s, i) <= 0xffff);
    assert(0 <= le16(s, i + 2) <= 0xffff);
    assert(0 <= le32(s, i) <= 0xffff_ffff) by (nonlinear_arith)
        requires
            0 <= le16(s, i) <= 0xffff,
            0 <= le16(s, i + 2) <= 0xffff,
            le32(s, i) == le16(s, i) + 65536 * le16(s, i + 2),
    ;
    assert(0 <= le16(s, i + 4) <= 0xffff);
    assert(0 <= le16(s, i + 6) <= 0xffff);
    assert(0 <= le32(s, i + 4) <= 0xffff_ffff) by (nonlinear_arith)
        requires
            0 <= le16(s, i + 4) <= 0xffff,
            0 <= le16(s, i + 6) <= 0xffff,
            le32(s, i + 4) == le16(s, i + 4) + 65536 * le16(s, i + 6),
    ;
    assert(0 <= le64(s, i) <= 0xffff_ffff_ffff_ffff) by (nonlinear_arith)
        requires
            0 <= le32(s, i) <= 0xffff_ffff,
            0 <= le32(s, i + 4) <= 0xffff_ffff,
            le64(s, i) == le32(s, i) + 0x1_0000_0000 * le32(s, i + 4),
    ;
}

/// The little-endian 32-bit value at `i`.
fn read_u32(s: &[u8], i: usize) -> (r: u32)
    requires
        i + 4 <= s.len(),
    ensures
        r == le32(s@, i as int),
{
    let b0 = s[i] as u32;
    let b1 = s[i + 1] as u32;
    let b2 = s[i + 2] as u32;
    let b3 = s[i + 3] as u32;
    b0 + 256 * b1 + 65536 * (b2 + 256 * b3)
}

/// The little-endian 64-bit value at `i`.
fn read_u64(s: &[u8], i: usize) -> (r: u64)
    requires
        i + 8 <= s.len(),
    ensures
        r == le64(s@, i as int),
{
    proof {
        lemma_le_bounds(s@, i as int);
    }
    let lo = read_u32(s, i) as u64;
    let hi = read_u32(s, i + 4) as u64;
    lo + 0x1_0000_0000 * hi
}

/// Sum of the bytes `s[lo..hi]`.
pub open spec fn byte_sum(s: Seq<u8>, lo: int, hi: int) -> int
    decreases hi - lo,
{
    if hi <= lo {
        0
    } else {
        byte_sum(s, lo, hi - 1) + s[hi - 1]
    }
}

/// The bytes add up to 0 modulo 256.
pub fn checksum(bytes: &[u8]) -> (r: bool)
    ensures
        r == (byte_sum(bytes@, 0, bytes@.len() as int) % 256 == 0),
{
    let mut acc: u8 = 0;
    let mut i: usize = 0;
    while i < bytes.len()
        invariant
            i <= bytes@.len(),
            acc == byte_sum(bytes@, 0, i as int) % 256,
        decreases bytes@.len() - i,
    {
        proof {
            vstd::arithmetic::div_mod::lemma_add_mod_noop(byte_sum(bytes@, 0, i as int), bytes@[i as int] as int, 256);
            vstd::arithmetic::div_mod::lemma_small_mod(bytes@[i as int] as nat, 256);
        }
        acc = acc.wrapping_add(bytes[i]);
        i = i + 1;
    }
    acc == 0
}

/// The RSDP signature "RSD PTR " stands at `a`.
pub open spec fn rsdp_signature_at(m: Seq<u8>, a: int) -> bool {
    &&& m[a] == 0x52u8
    &&& m[a + 1] == 0x53u8
    &&& m[a + 2] == 0x44u8
    &&& m[a + 3] == 0x20u8
    &&& m[a + 4] == 0x50u8
    &&& m[a + 5] == 0x54u8
    &&& m[a + 6] == 0x52u8
    &&& m[a + 7] == 0x20u8
}

/// A valid RSDP stands at `a`: its signature, and its first 20 bytes sum to 0.
pub open spec fn rsdp_valid(m: Seq<u8>, a: int) -> bool {
    rsdp_signature_at(m, a) && byte_sum(m, a, a + 20) % 256 == 0
}

/// Whether a valid RSDP stands at `addr` of `mem`.
pub fn check_rsdp(mem: &[u8], addr: usize) -> (r: bool)
    requires
        addr + RSDP_CHECKED_LEN <= mem.len(),
    ensures
        r == rsdp_valid(mem@, addr as int),
{
    let sig = mem[addr] == 0x52 && mem[addr + 1] == 0x53 && mem[addr + 2] == 0x44 && mem[addr + 3] == 0x20
        && mem[addr + 4] == 0x50 && mem[addr + 5] == 0x54 && mem[addr + 6] == 0x52 && mem[addr + 7] == 0x20;
    if !sig {
        return false;
    }
    let mut acc: u8 = 0;
    let mut i: usize = addr;
    while i < addr + RSDP_CHECKED_LEN
        invariant
            addr <= i <= addr + RSDP_CHECKED_LEN,
            addr + RSDP_CHECKED_LEN <= mem.len(),
            acc == byte_sum(mem@, addr as int, i as int) % 256,
        decreases addr + RSDP_CHECKED_LEN - i,
    {
        proof {
            vstd::arithmetic::div_mod::lemma_add_mod_noop(
                byte_sum(mem@, addr as int, i as int),
                mem@[i as int] as int,
                256,
            );
            vstd::arithmetic::div_mod::lemma_small_mod(mem@[i as int] as nat, 256);
        }
        acc = acc.wrapping_add(mem[i]);
        i = i + 1;
    }
    acc == 0
}

/// Candidate `k` of the extended BIOS data area at segment `seg`.
pub open spec fn ebda_candidate(seg: int, k: int) -> int {
    seg * 16 + 16 * k
}

/// Candidate `k` of the BIOS area 0xE0000..0xFFFFF.
pub open spec fn bios_candidate(k: int) -> int {
    0xE0000 + 16 * k
}

/// Where the RSDP is, searching 16-byte boundaries: first the 1 KiB of the extended
/// BIOS data area (whose segment is the 16-bit value at 0x40E, when it is not 0),
/// then 0xE0000..0x100000.
pub open spec fn rsdp_search(m: Seq<u8>, r: Option<u64>) -> bool {
    let seg = le16(m, 0x40E);
    let ebda_hit = seg != 0 && exists|k: int| 0 <= k < 64 && rsdp_valid(m, ebda_candidate(seg, k));
    let bios_hit = exists|k: int| 0 <= k < 0x2000 && rsdp_valid(m, bios_candidate(k));
    match r {
        Some(a) => if ebda_hit {
            exists|k: int|
                0 <= k < 64 && a == ebda_candidate(seg, k) && rsdp_valid(m, a as int) && forall|j: int|
                    0 <= j < k ==> !rsdp_valid(m, ebda_candidate(seg, j))
        } else {
            exists|k: int|
                0 <= k < 0x2000 && a == bios_candidate(k) && rsdp_valid(m, a as int) && forall|j: int|
                    0 <= j < k ==> !rsdp_valid(m, bios_candidate(j))
        },
        None => !ebda_hit && !bios_hit,
    }
}

/// Find the RSDP in `low_mem`, an image of physical memory from address 0.
pub fn find_rsdp(low_mem: &[u8]) -> (r: Option<u64>)
    requires
        low_mem@.len() >= LOW_MEMORY_SPAN,
    ensures
        rsdp_search(low_mem@, r),
{
    let m = Ghost(low_mem@);
    let seg: usize = (low_mem[0x40E] as usize) + 256 * (low_mem[0x40F] as usize);
    assert(seg == le16(low_mem@, 0x40E));
    if seg != 0 {
        let ebda = seg * 16;
        let mut k: usize = 0;
        while k < 64
            invariant
                low_mem@ == m@,
                low_mem@.len() >= LOW_MEMORY_SPAN,
                seg == le16(m@, 0x40E),
                0 < seg <= 0xffff,
                ebda == seg * 16,
                k <= 64,
                forall|j: int| 0 <= j < k ==> !rsdp_valid(m@, ebda_candidate(seg as int, j)),
            decreases 64 - k,
        {
            let addr = ebda + 16 * k;
            if check_rsdp(low_mem, addr) {
                assert(rsdp_valid(m@, ebda_candidate(seg as int, k as int)));
                return Some(addr as u64);
            }
            k = k + 1;
        }
    }
    let mut k: usize = 0;
    while k < 0x2000
        invariant
            low_mem@ == m@,
            low_mem@.len() >= LOW_MEMORY_SPAN,
            seg == le16(m@, 0x40E),
            seg != 0 ==> forall|j: int| 0 <= j < 64 ==> !rsdp_valid(m@, ebda_candidate(seg as int, j)),
            k <= 0x2000,
            forall|j: int| 0 <= j < k ==> !rsdp_valid(m@, bios_candidate(j)),
        decreases 0x2000 - k,
    {
        let addr = 0xE0000 + 16 * k;
        if check_rsdp(low_mem, addr) {
            assert(rsdp_valid(m@, bios_candidate(k as int)));
            return Some(addr as u64);
        }
        k = k + 1;
    }
    None
}

/// The RSDP described by `bytes` (its structure from offset 0): revision at 15, root
/// table at 16, and, from revision 2, extended root table at 24.
pub fn parse_rsdp(bytes: &[u8]) -> (r: Rsdp)
    requires
        bytes@.len() >= 20,
        bytes@[15] >= 2 ==> bytes@.len() >= 32,
    ensures
        r.revision == bytes@[15],
        r.rsdt_addr == le32(bytes@, 16),
        r.xsdt_addr == if bytes@[15] >= 2 {
            le64(bytes@, 24)
        } else {
            0
        },
{
    let revision = bytes[15];
    let rsdt_addr = read_u32(bytes, 16);
    let xsdt_addr = if revision >= 2 { read_u64(bytes, 24) } else { 0 };
    Rsdp { revision, rsdt_addr, xsdt_addr }
}


/// Number of entries of a root table (XSDT when `wide`, else RSDT): its length
/// beyond the header, in 8- or 4-byte units.
pub open spec fn root_entry_count(root: Seq<u8>, wide: bool) -> int {
    let len = le32(root, 4);
    let body = if len > 36 { len - 36 } else { 0 };
    if wide {
        body / 8
    } else {
        body / 4
    }
}

/// Entry `i` of a root table: a physical table address.
pub open spec fn root_entry(root: Seq<u8>, wide: bool, i: int) -> int {
    if wide {
        le64(root, 36 + 8 * i)
    } else {
        le32(root, 36 + 4 * i)
    }
}

/// The first entry of the root table that is not 0 and whose table's signature
/// (`sigs[i]`, read from entry `i`'s address) is the MADT's.
pub open spec fn madt_in_root(root: Seq<u8>, wide: bool, sigs: Seq<u32>, r: Option<u64>) -> bool {
    let n = root_entry_count(root, wide);
    match r {
        Some(a) => exists|i: int|
            0 <= i < n && a == root_entry(root, wide, i) && a != 0 && sigs[i] == MADT_SIGNATURE && forall|j: int|
                0 <= j < i ==> !(root_entry(root, wide, j) != 0 && sigs[j] == MADT_SIGNATURE),
        None => forall|j: int| 0 <= j < n ==> !(root_entry(root, wide, j) != 0 && sigs[j] == MADT_SIGNATURE),
    }
}

/// The root table's bytes and the entries' signatures are all there.
pub open spec fn root_readable(root: Seq<u8>, wide: bool, sigs: Seq<u32>) -> bool {
    &&& root.len() >= 8
    &&& root.len() >= 36 + root_entry_count(root, wide) * (if wide { 8int } else { 4int })
    &&& sigs.len() >= root_entry_count(root, wide)
}

/// Find the MADT through the extended root table when the RSDP has one, else through
/// the root table; `root` is the image of that table and `sigs[i]` the signature word
/// at the address in its entry `i`.
pub fn find_madt(rsdp: &Rsdp, root: &[u8], sigs: &[u32]) -> (r: Option<u64>)
    requires
        rsdp.xsdt_addr != 0 ==> root_readable(root@, true, sigs@),
        rsdp.xsdt_addr == 0 && rsdp.rsdt_addr != 0 ==> root_readable(root@, false, sigs@),
    ensures
        rsdp.xsdt_addr != 0 ==> madt_in_root(root@, true, sigs@, r),
        rsdp.xsdt_addr == 0 && rsdp.rsdt_addr != 0 ==> madt_in_root(root@, false, sigs@, r),
        rsdp.xsdt_addr == 0 && rsdp.rsdt_addr == 0 ==> r.is_none(),
{
    let wide = rsdp.xsdt_addr != 0;
    if !wide && rsdp.rsdt_addr == 0 {
        return None;
    }
    let len = read_u32(root, 4) as usize;
    let body = if len > 36 { len - 36 } else { 0 };
    let count = if wide { body / 8 } else { body / 4 };
    let mut i: usize = 0;
    while i < count
        invariant
            wide == (rsdp.xsdt_addr != 0),
            wide || rsdp.rsdt_addr != 0,
            root_readable(root@, wide, sigs@),
            count == root_entry_count(root@, wide),
            i <= count,
            forall|j: int| 0 <= j < i ==> !(root_entry(root@, wide, j) != 0 && sigs@[j] == MADT_SIGNATURE),
        decreases count - i,
    {
        proof {
            assert(36 + (if wide { 8 * i } else { 4 * i }) + (if wide { 8int } else { 4int }) <= root@.len()) by (
            nonlinear_arith)
                requires
                    i < count,
                    root@.len() >= 36 + count * (if wide { 8int } else { 4int }),
            ;
        }
        let entry: u64 = if wide { read_u64(root, 36 + 8 * i) } else { read_u32(root, 36 + 4 * i) as u64 };
        if entry != 0 && sigs[i] == MADT_SIGNATURE {
            return Some(entry);
        }
        i = i + 1;
    }
    None
}

/// The table addresses listed in a root table's image (64-bit entries when `wide`,
/// else 32-bit), in order.
pub fn root_entries(root: &[u8], wide: bool) -> (r: Vec<u64>)
    requires
        root@.len() >= 8,
        root@.len() >= 36 + root_entry_count(root@, wide) * (if wide { 8int } else { 4int }),
    ensures
        r@.len() == root_entry_count(root@, wide),
        forall|i: int| 0 <= i < r@.len() ==> r@[i] == root_entry(root@, wide, i),
{
    let len = read_u32(root, 4) as usize;
    let body = if len > 36 { len - 36 } else { 0 };
    let count = if wide { body / 8 } else { body / 4 };
    let mut out: Vec<u64> = Vec::new();
    let mut i: usize = 0;
    while i < count
        invariant
            root@.len() >= 36 + root_entry_count(root@, wide) * (if wide { 8int } else { 4int }),
            count == root_entry_count(root@, wide),
            i <= count,
            out@.len() == i,
            forall|j: int| 0 <= j < i ==> out@[j] == root_entry(root@, wide, j),
        decreases count - i,
    {
        proof {
            assert(36 + (if wide { 8 * i } else { 4 * i }) + (if wide { 8int } else { 4int }) <= root@.len()) by (
            nonlinear_arith)
                requires
                    i < count,
                    root@.len() >= 36 + count * (if wide { 8int } else { 4int }),
            ;
        }
        let entry: u64 = if wide { read_u64(root, 36 + 8 * i) } else { read_u32(root, 36 + 4 * i) as u64 };
        out.push(entry);
        i = i + 1;
    }
    out
}

/// Contributions of the MADT's entries from offset `off` to the table length `len`:
/// processors, I/O APICs, and the last local-APIC address override. The walk stops at
/// an entry shorter than two bytes; entries too short for their type add nothing.
pub open spec fn madt_walk(m: Seq<u8>, len: int, off: int) -> (Seq<CpuEntry>, Seq<IoApic>, Option<u64>)
    decreases (if len > off { len - off } else { 0 }),
{
    let elen = m[off + 1] as int;
    if off < 0 || off + 2 > len || elen < 2 {
        (Seq::empty(), Seq::empty(), None)
    } else {
        let etype = m[off];
        let rest = madt_walk(m, len, off + elen);
        let cpus = if etype == 0 && off + 8 <= len {
            seq![CpuEntry { apic_id: m[off + 3] as u32, enabled: le32(m, off + 4) % 2 == 1 }]
        } else if etype == 9 && off + 16 <= len {
            seq![CpuEntry { apic_id: le32(m, off + 4) as u32, enabled: le32(m, off + 8) % 2 == 1 }]
        } else {
            Seq::empty()
        };
        let ios = if etype == 1 && off + 12 <= len {
            seq![IoApic { id: m[off + 2], address: le32(m, off + 4) as u32, gsi_base: le32(m, off + 8) as u32 }]
        } else {
            Seq::empty()
        };
        let ovr = if rest.2.is_some() {
            rest.2
        } else if etype == 5 && off + 12 <= len {
            Some(le64(m, off + 4) as u64)
        } else {
            None
        };
        (cpus + rest.0, ios + rest.1, ovr)
    }
}

proof fn lemma_flag_bit(x: u32)
    by (bit_vector)
    ensures
        (x & 1u32 != 0) == (x % 2 == 1),
{
}

/// Parse a MADT image: the entries after the 44-byte header up to the table's length
/// (the 32-bit value at offset 4); the local APIC address is the override if there is
/// one, else the 32-bit value at offset 36.
pub fn parse_madt(madt: &[u8]) -> (r: MadtInfo)
    requires
        madt@.len() >= 40,
        madt@.len() >= le32(madt@, 4),
        madt@.len() + 256 <= usize::MAX,
    ensures
        ({
            let w = madt_walk(madt@, le32(madt@, 4), 44);
            &&& r.cpus@ == w.0
            &&& r.io_apics@ == w.1
            &&& r.lapic_base == match w.2 {
                Some(a) => a,
                None => le32(madt@, 36) as u64,
            }
        }),
{
    let m = Ghost(madt@);
    let lapic_base = read_u32(madt, 36) as u64;
    let len = read_u32(madt, 4) as usize;
    let mut cpus: Vec<CpuEntry> = Vec::new();
    let mut io_apics: Vec<IoApic> = Vec::new();
    let mut lapic_override: Option<u64> = None;
    let mut off: usize = 44;
    while off + 2 <= len
        invariant
            madt@ == m@,
            len == le32(m@, 4),
            len <= madt@.len(),
            madt@.len() + 256 <= usize::MAX,
            44 <= off <= len + 253,
            cpus@ + madt_walk(m@, len as int, off as int).0 == madt_walk(m@, len as int, 44).0,
            io_apics@ + madt_walk(m@, len as int, off as int).1 == madt_walk(m@, len as int, 44).1,
            madt_walk(m@, len as int, 44).2 == (if madt_walk(m@, len as int, off as int).2.is_some() {
                madt_walk(m@, len as int, off as int).2
            } else {
                lapic_override
            }),
        ensures
            madt_walk(m@, len as int, off as int).0 == Seq::<CpuEntry>::empty(),
            madt_walk(m@, len as int, off as int).1 == Seq::<IoApic>::empty(),
            madt_walk(m@, len as int, off as int).2 == None::<u64>,
            cpus@ + madt_walk(m@, len as int, off as int).0 == madt_walk(m@, len as int, 44).0,
            io_apics@ + madt_walk(m@, len as int, off as int).1 == madt_walk(m@, len as int, 44).1,
            madt_walk(m@, len as int, 44).2 == (if madt_walk(m@, len as int, off as int).2.is_some() {
                madt_walk(m@, len as int, off as int).2
            } else {
                lapic_override
            }),
        decreases len + 253 - off,
    {
        let etype = madt[off];
        let elen = madt[off + 1] as usize;
        if elen < 2 {
            break;
        }
        let ghost w = madt_walk(m@, len as int, off as int);
        let ghost rest = madt_walk(m@, len as int, (off + elen) as int);
        if etype == 0 {
            if off + 8 <= len {
                let apic_id = madt[off + 3];
                let flags = read_u32(madt, off + 4);
                proof {
                    lemma_flag_bit(flags);
                }
                cpus.push(CpuEntry { apic_id: apic_id as u32, enabled: flags & 1 != 0 });
            }
        } else if etype == 1 {
            if off + 12 <= len {
                let id = madt[off + 2];
                let address = read_u32(madt, off + 4);
                let gsi_base = read_u32(madt, off + 8);
                io_apics.push(IoApic { id, address, gsi_base });
            }
        } else if etype == 9 {
            if off + 16 <= len {
                let x2apic_id = read_u32(madt, off + 4);
                let flags = read_u32(madt, off + 8);
                proof {
                    lemma_flag_bit(flags);
                }
                cpus.push(CpuEntry { apic_id: x2apic_id, enabled: flags & 1 != 0 });
            }
        } else if etype == 5 {
            if off + 12 <= len {
                lapic_override = Some(read_u64(madt, off + 4));
            }
        }
        proof {
            assert(w.0 =~= (if etype == 0 && off + 8 <= len {
                seq![CpuEntry { apic_id: m@[off + 3] as u32, enabled: le32(m@, off + 4) % 2 == 1 }]
            } else if etype == 9 && off + 16 <= len {
                seq![CpuEntry { apic_id: le32(m@, off + 4) as u32, enabled: le32(m@, off + 8) % 2 == 1 }]
            } else {
                Seq::empty()
            }) + rest.0);
        }
        assert(cpus@ + rest.0 =~= madt_walk(m@, len as int, 44).0);
        assert(io_apics@ + rest.1 =~= madt_walk(m@, len as int, 44).1);
        off = off + elen;
    }
    let base = match lapic_override {
        Some(a) => a,
        None => lapic_base,
    };
    proof {
        assert(cpus@ =~= cpus@ + Seq::<CpuEntry>::empty());
        assert(io_apics@ =~= io_apics@ + Seq::<IoApic>::empty());
    }
    MadtInfo { lapic_base: base, cpus, io_apics }
}

} // verus!
