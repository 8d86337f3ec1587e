//! Global Descriptor Table entries: packed 8-byte records describing a
//! memory segment's base address, limit and access rights.
//!
//! A descriptor splits a 32-bit base across three fields, a 20-bit limit
//! across two, and keeps an access byte plus a high flags nibble. The spec
//! functions below decode a packed entry back into those logical values;
//! every constructor and mutator is specified against them.

use vstd::prelude::*;

verus! {

/// One 8-byte descriptor record. Field order mirrors the hardware layout:
/// low limit, low base, middle base, access byte, flags nibble merged with
/// the high limit nibble, high base.
#[derive(Clone, Copy, Debug, PartialEq, Eq, Structural)]
pub struct GdtEntry {
    /// Low 16 bits of the segment limit.
    pub limitl: u16,
    /// Low 16 bits of the segment base address.
    pub offsetl: u16,
    /// Bits 16..24 of the segment base address.
    pub offsetm: u8,
    /// Access byte: presence, privilege level, descriptor type and rights.
    pub access: u8,
    /// High nibble: flags; low nibble: bits 16..20 of the segment limit.
    pub flags_limith: u8,
    /// Bits 24..32 of the segment base address.
    pub offseth: u8,
}

/// The 32-bit base address encoded by the three base fields of `e`.
pub open spec fn spec_base(e: GdtEntry) -> u32 {
    (e.offsetl as u32) | ((e.offsetm as u32) << 16u32) | ((e.offseth as u32) << 24u32)
}

/// The 20-bit limit encoded by the low limit field and the low nibble of
/// the flags byte of `e`.
pub open spec fn spec_limit(e: GdtEntry) -> u32 {
    (e.limitl as u32) | (((e.flags_limith & 0x0F) as u32) << 16u32)
}

/// The flags nibble of `e`, kept in the high 4 bits.
pub open spec fn spec_flags(e: GdtEntry) -> u8 {
    e.flags_limith & 0xF0
}

impl GdtEntry {
    /// Packs a descriptor from a 32-bit base, a limit whose low 20 bits are
    /// retained, an access byte, and a flags value whose high 4 bits are
    /// retained. Out-of-range limit and flags bits are silently masked away;
    /// construction never fails.
    pub fn new(offset: u32, limit: u32, access: u8, flags: u8) -> (e: GdtEntry)
        ensures
            spec_base(e) == offset,
            spec_limit(e) == limit & 0xFFFFF,
            e.access == access,
            spec_flags(e) == flags & 0xF0,
            e.limitl == limit as u16,
            e.flags_limith == (flags & 0xF0) | (((limit >> 16u32) as u8) & 0x0F),
            e.offsetl == offset as u16,
            e.offsetm == (offset >> 16u32) as u8,
            e.offseth == (offset >> 24u32) as u8,
    {
        let e = GdtEntry {
            limitl: limit as u16,
            offsetl: offset as u16,
            offsetm: (offset >> 16u32) as u8,
            access: access,
            flags_limith: (flags & 0xF0) | (((limit >> 16u32) as u8) & 0x0F),
            offseth: (offset >> 24u32) as u8,
        };
        proof {
            lemma_base_repack(offset);
            lemma_limit_repack(limit, e.flags_limith, flags);
        }
        e
    }

    /// Repacks the three base fields for a new base address, leaving the
    /// limit, access byte and flags nibble bit-identical.
    pub fn set_offset(&mut self, offset: u32)
        ensures
            spec_base(*final(self)) == offset,
            final(self).access == old(self).access,
            final(self).flags_limith == old(self).flags_limith,
            final(self).limitl == old(self).limitl,
            spec_limit(*final(self)) == spec_limit(*old(self)),
            spec_flags(*final(self)) == spec_flags(*old(self)),
    {
        self.offsetl = offset as u16;
        self.offsetm = (offset >> 16u32) as u8;
        self.offseth = (offset >> 24u32) as u8;
        proof {
            lemma_base_repack(offset);
        }
    }

    /// Repacks the two limit fields for a new limit (low 20 bits retained),
    /// leaving the base fields, access byte and flags nibble bit-identical.
    pub fn set_limit(&mut self, limit: u32)
        ensures
            spec_limit(*final(self)) == limit & 0xFFFFF,
            final(self).access == old(self).access,
            final(self).offsetl == old(self).offsetl,
            final(self).offsetm == old(self).offsetm,
            final(self).offseth == old(self).offseth,
            spec_base(*final(self)) == spec_base(*old(self)),
            spec_flags(*final(self)) == spec_flags(*old(self)),
    {
        self.limitl = limit as u16;
        self.flags_limith = (self.flags_limith & 0xF0) | (((limit >> 16u32) as u8) & 0x0F);
        proof {
            lemma_limit_set(limit, old(self).flags_limith, final(self).flags_limith);
        }
    }
}

// Table slot indices. Hardware selectors encode `index * 8` as a byte
// offset into the table, so this order is part of the external contract.
pub const GDT_NULL: usize = 0;
pub const GDT_KERNEL_CODE: usize = 1;
pub const GDT_KERNEL_DATA: usize = 2;
pub const GDT_KERNEL_TLS: usize = 3;
pub const GDT_USER_CODE: usize = 4;
pub const GDT_USER_DATA: usize = 5;
pub const GDT_USER_TLS: usize = 6;
pub const GDT_TSS: usize = 7;
pub const GDT_TSS_HIGH: usize = 8;

// Access byte bits.
pub const GDT_A_P_PRESENT: u8 = 1 << 7;
pub const GDT_A_DPL_RING_0: u8 = 0 << 5;
pub const GDT_A_DPL_RING_1: u8 = 1 << 5;
pub const GDT_A_DPL_RING_2: u8 = 2 << 5;
pub const GDT_A_DPL_RING_3: u8 = 3 << 5;
pub const GDT_A_S_CODEORDATA: u8 = 1 << 4;
pub const GDT_A_E_CODE: u8 = 1 << 3;
pub const GDT_A_DC_ASSERT: u8 = 1 << 2;
pub const GDT_A_RW_ASSERT: u8 = 1 << 1;
pub const GDT_A_A_WRITED: u8 = 1;

// Task-state segment type codes (system descriptors).
pub const GDT_A_TSS_AVAIL: u8 = 0x9;
pub const GDT_A_TSS_BUSY: u8 = 0xB;

// Flags nibble bits (stored in the high 4 bits of `flags_limith`).
pub const GDT_F_G_PAGE_SIZE: u8 = 1 << 7;
pub const GDT_F_DB_PROTECTEDMODE: u8 = 1 << 6;
pub const GDT_F_L_LONG_MODE: u8 = 1 << 5;

/// The all-zero record every table must keep in slot 0: hardware treats a
/// null selector specially and the entry must never describe a real segment.
pub open spec fn spec_null_entry() -> GdtEntry {
    GdtEntry { limitl: 0, offsetl: 0, offsetm: 0, access: 0, flags_limith: 0, offseth: 0 }
}

/// Builds the boot-time table: the mandatory null descriptor followed by
/// flat long-mode kernel code, kernel data and kernel thread-local segments.
pub fn init_gdt() -> (t: Vec<GdtEntry>)
    ensures
        t@.len() == 4,
        t@[GDT_NULL as int] == spec_null_entry(),
        t@[GDT_KERNEL_CODE as int].access == GDT_A_P_PRESENT | GDT_A_DPL_RING_0
            | GDT_A_S_CODEORDATA | GDT_A_E_CODE | GDT_A_RW_ASSERT,
        t@[GDT_KERNEL_DATA as int].access == GDT_A_P_PRESENT | GDT_A_DPL_RING_0
            | GDT_A_S_CODEORDATA | GDT_A_RW_ASSERT,
        t@[GDT_KERNEL_TLS as int].access == GDT_A_P_PRESENT | GDT_A_DPL_RING_3
            | GDT_A_S_CODEORDATA | GDT_A_RW_ASSERT,
        forall|i: int|
            0 <= i < 4 ==> spec_base(#[trigger] t@[i]) == 0 && spec_limit(t@[i]) == 0,
        forall|i: int| 1 <= i < 4 ==> spec_flags(#[trigger] t@[i]) == GDT_F_L_LONG_MODE,
{
    let mut t: Vec<GdtEntry> = Vec::new();
    t.push(GdtEntry::new(0, 0, 0, 0));
    t.push(
        GdtEntry::new(
            0,
            0,
            GDT_A_P_PRESENT | GDT_A_DPL_RING_0 | GDT_A_S_CODEORDATA | GDT_A_E_CODE
                | GDT_A_RW_ASSERT,
            GDT_F_L_LONG_MODE,
        ),
    );
    t.push(
        GdtEntry::new(
            0,
            0,
            GDT_A_P_PRESENT | GDT_A_DPL_RING_0 | GDT_A_S_CODEORDATA | GDT_A_RW_ASSERT,
            GDT_F_L_LONG_MODE,
        ),
    );
    t.push(
        GdtEntry::new(
            0,
            0,
            GDT_A_P_PRESENT | GDT_A_DPL_RING_3 | GDT_A_S_CODEORDATA | GDT_A_RW_ASSERT,
            GDT_F_L_LONG_MODE,
        ),
    );
    proof {
        assert(0u32 & 0xFFFFF == 0) by (bit_vector);
        assert((0u32 >> 16u32) as u8 == 0) by (bit_vector);
        assert((0u32 >> 24u32) as u8 == 0) by (bit_vector);
        assert((0u8 & 0xF0) | (((0u32 >> 16u32) as u8) & 0x0F) == 0) by (bit_vector);
        assert(((1u8 << 5) & 0xF0) | ((0u32 >> 16u32) as u8 & 0x0F) == (1u8 << 5)) by (bit_vector);
        assert((1u8 << 5) & 0xF0 == (1u8 << 5)) by (bit_vector);
    }
    t
}

/// The operand of the hardware table-load instruction: the table's memory
/// address and its byte size minus one.
#[derive(Clone, Copy, Debug, PartialEq, Eq, Structural)]
pub struct GdtPointer {
    /// Table size in bytes, minus one.
    pub limit: u16,
    /// Memory address of the table's first entry.
    pub base: u64,
}

impl GdtPointer {
    /// Describes a table of `entry_count` 8-byte entries located at `base`.
    pub fn new(base: u64, entry_count: u16) -> (p: GdtPointer)
        requires
            1 <= entry_count <= 8192,
        ensures
            p.base == base,
            p.limit == entry_count * 8 - 1,
    {
        let bytes: u32 = (entry_count as u32) * 8;
        GdtPointer { limit: (bytes - 1) as u16, base: base }
    }
}

/// Splitting a 32-bit base into low/middle/high fields loses nothing: the
/// decoded base equals the input.
proof fn lemma_base_repack(offset: u32)
    by (bit_vector)
    ensures
        ((offset as u16) as u32) | ((((offset >> 16u32) as u8) as u32) << 16u32) | ((((offset
            >> 24u32) as u8) as u32) << 24u32) == offset,
{
}

/// Packing a limit's low 16 bits and bits 16..20 (merged under a flags
/// nibble) decodes to the limit's low 20 bits, and the stored byte keeps
/// exactly the flags' high nibble.
proof fn lemma_limit_repack(limit: u32, fl: u8, flags: u8)
    by (bit_vector)
    requires
        fl == (flags & 0xF0) | (((limit >> 16u32) as u8) & 0x0F),
    ensures
        ((limit as u16) as u32) | (((fl & 0x0F) as u32) << 16u32) == limit & 0xFFFFF,
        fl & 0xF0 == flags & 0xF0,
{
}

/// Updating only the low nibble of the flags byte rewrites the stored limit
/// bits and preserves the flags nibble.
proof fn lemma_limit_set(limit: u32, old_fl: u8, new_fl: u8)
    by (bit_vector)
    requires
        new_fl == (old_fl & 0xF0) | (((limit >> 16u32) as u8) & 0x0F),
    ensures
        ((limit as u16) as u32) | (((new_fl & 0x0F) as u32) << 16u32) == limit & 0xFFFFF,
        new_fl & 0xF0 == old_fl & 0xF0,
{
}

} // verus!
