use bootcore::gdt::{
    GdtEntry, GdtPointer, GDT_A_DPL_RING_0, GDT_A_DPL_RING_3, GDT_A_E_CODE, GDT_A_P_PRESENT,
    GDT_A_RW_ASSERT, GDT_A_S_CODEORDATA, GDT_F_L_LONG_MODE, GDT_KERNEL_CODE, GDT_KERNEL_DATA,
    GDT_KERNEL_TLS, GDT_NULL,
};

fn decode_base(e: &GdtEntry) -> u32 {
    (e.offsetl as u32) | ((e.offsetm as u32) << 16) | ((e.offseth as u32) << 24)
}

fn decode_limit(e: &GdtEntry) -> u32 {
    (e.limitl as u32) | (((e.flags_limith & 0x0F) as u32) << 16)
}

#[test]
fn new_packs_fields() {
    let e = GdtEntry::new(0x12345678, 0xFABCD, 0x9A, 0xC5);
    assert_eq!(e.limitl, 0xABCD);
    assert_eq!(e.offsetl, 0x5678);
    assert_eq!(e.offsetm, 0x34);
    assert_eq!(e.access, 0x9A);
    assert_eq!(e.flags_limith, 0xCF);
    assert_eq!(e.offseth, 0x12);
}

#[test]
fn decode_round_trip() {
    let e = GdtEntry::new(0xCAFEBABE, 0xFFFABCD, 0x55, 0xAF);
    assert_eq!(decode_base(&e), 0xCAFEBABE);
    // only the low 20 bits of the limit are retained
    assert_eq!(decode_limit(&e), 0xFABCD);
    assert_eq!(e.access, 0x55);
    // only the high 4 bits of the flags are retained
    assert_eq!(e.flags_limith & 0xF0, 0xA0);
}

#[test]
fn set_offset_changes_only_base_fields() {
    let mut e = GdtEntry::new(0x11111111, 0x22222, 0x9A, 0xC0);
    let access_before = e.access;
    let flags_limith_before = e.flags_limith;
    let limitl_before = e.limitl;
    e.set_offset(0xDEADBEEF);
    assert_eq!(decode_base(&e), 0xDEADBEEF);
    assert_eq!(e.access, access_before);
    assert_eq!(e.flags_limith, flags_limith_before);
    assert_eq!(e.limitl, limitl_before);
}

#[test]
fn set_limit_changes_only_limit_fields() {
    let mut e = GdtEntry::new(0x11111111, 0x22222, 0x9A, 0xC0);
    e.set_limit(0x7BCDE);
    assert_eq!(decode_limit(&e), 0x7BCDE);
    assert_eq!(decode_base(&e), 0x11111111);
    assert_eq!(e.access, 0x9A);
    assert_eq!(e.flags_limith & 0xF0, 0xC0);
}

#[test]
fn null_entry_is_all_zero() {
    let t = bootcore::gdt::init_gdt();
    let null = t[GDT_NULL];
    assert_eq!(null.limitl, 0);
    assert_eq!(null.offsetl, 0);
    assert_eq!(null.offsetm, 0);
    assert_eq!(null.access, 0);
    assert_eq!(null.flags_limith, 0);
    assert_eq!(null.offseth, 0);
}

#[test]
fn init_gdt_layout() {
    let t = bootcore::gdt::init_gdt();
    assert_eq!(t.len(), 4);
    assert_eq!(
        t[GDT_KERNEL_CODE].access,
        GDT_A_P_PRESENT | GDT_A_DPL_RING_0 | GDT_A_S_CODEORDATA | GDT_A_E_CODE | GDT_A_RW_ASSERT
    );
    assert_eq!(t[GDT_KERNEL_CODE].access, 0x9A);
    assert_eq!(
        t[GDT_KERNEL_DATA].access,
        GDT_A_P_PRESENT | GDT_A_DPL_RING_0 | GDT_A_S_CODEORDATA | GDT_A_RW_ASSERT
    );
    assert_eq!(t[GDT_KERNEL_DATA].access, 0x92);
    assert_eq!(
        t[GDT_KERNEL_TLS].access,
        GDT_A_P_PRESENT | GDT_A_DPL_RING_3 | GDT_A_S_CODEORDATA | GDT_A_RW_ASSERT
    );
    assert_eq!(t[GDT_KERNEL_TLS].access, 0xF2);
    for i in 0..4 {
        assert_eq!(decode_base(&t[i]), 0);
        assert_eq!(decode_limit(&t[i]), 0);
        if i > 0 {
            assert_eq!(t[i].flags_limith & 0xF0, GDT_F_L_LONG_MODE);
        }
    }
}

#[test]
fn pointer_encodes_byte_limit() {
    let p = GdtPointer::new(0x0000_7C00, 4);
    assert_eq!(p.base, 0x0000_7C00);
    assert_eq!(p.limit, 31);
    let full = GdtPointer::new(0xFFFF_8000_0000_1000, 9);
    assert_eq!(full.limit, 71);
}
