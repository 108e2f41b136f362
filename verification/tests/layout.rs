use npdm::codec::{push_bytes, push_u32, push_u64, push_words, push_zeros};
use npdm::layout::{
    write_aci_fs_access_control, write_acid_fs_access_control, Aci, Acid, Meta, SectionLayout, ACID_FAC_SIZE,
    ACID_HEADER_SIZE, ACI_FAC_SIZE, ACI_HEADER_SIZE, META_SIZE, SIGNATURE_SIZE,
};

#[test]
fn numbers_are_written_little_endian() {
    let mut out = vec![0xee];
    push_u32(&mut out, 0x0403_0201);
    push_u64(&mut out, 0x0c0b_0a09_0807_0605);
    push_zeros(&mut out, 2);
    push_bytes(&mut out, &[0xaa, 0xbb]);
    push_words(&mut out, &[1, 0xffff_fffe]);
    assert_eq!(
        out,
        vec![0xee, 1, 2, 3, 4, 5, 6, 7, 8, 9, 10, 11, 12, 0, 0, 0xaa, 0xbb, 1, 0, 0, 0, 0xfe, 0xff, 0xff, 0xff]
    );
    let mut out = Vec::new();
    push_words(&mut out, &[]);
    push_zeros(&mut out, 0);
    push_bytes(&mut out, &[]);
    assert!(out.is_empty());
}

#[test]
fn a_layout_has_no_gaps() {
    let layout = SectionLayout::new(0x40, 0x1c, 10, 24).unwrap();
    assert_eq!(layout.fs_access_control_offset, 0x40);
    assert_eq!(layout.fs_access_control_size, 0x1c);
    assert_eq!(layout.service_access_control_offset, 0x5c);
    assert_eq!(layout.service_access_control_size, 10);
    assert_eq!(layout.kernel_access_control_offset, 0x66);
    assert_eq!(layout.kernel_access_control_size, 24);
    let mut out = Vec::new();
    layout.write(&mut out);
    assert_eq!(
        out,
        vec![0x40, 0, 0, 0, 0x1c, 0, 0, 0, 0x5c, 0, 0, 0, 10, 0, 0, 0, 0x66, 0, 0, 0, 24, 0, 0, 0]
    );
}

#[test]
fn a_layout_must_end_within_32_bits() {
    assert!(SectionLayout::new(0x240, 0x2c, 0, 0xffff_ffff - 0x26c).is_some());
    assert!(SectionLayout::new(0x240, 0x2c, 0, 0xffff_ffff - 0x26b).is_none());
    assert!(SectionLayout::new(0x240, 0x2c, 0xffff_ffff - 0x26b, 0).is_none());
    assert!(SectionLayout::new(0, 0, usize::MAX, usize::MAX).is_none());
    assert!(SectionLayout::new(0xffff_ffff, 0xffff_ffff, 0, 0).is_none());
    let full = SectionLayout::new(0, 0, 0xffff_ffff, 0).unwrap();
    assert_eq!(full.kernel_access_control_offset, 0xffff_ffff);
}

#[test]
fn header_sizes_are_those_of_the_format() {
    assert_eq!(META_SIZE, 0x80);
    assert_eq!(SIGNATURE_SIZE, 0x100);
    assert_eq!(ACID_HEADER_SIZE, 0x140);
    assert_eq!(ACID_FAC_SIZE, 0x2c);
    assert_eq!(ACI_HEADER_SIZE, 0x40);
    assert_eq!(ACI_FAC_SIZE, 0x1c);
    let layout = SectionLayout::new(0, 0, 0, 0).unwrap();
    let meta = Meta {
        signature_key_generation: 0,
        flags: 0,
        main_thread_priority: 0,
        main_thread_core_number: 0,
        system_resource_size: 0,
        version: 0,
        main_thread_stack_size: 0,
        name: [0; 16],
        product_code: [0; 16],
        aci_offset: 0,
        aci_size: 0,
        acid_offset: 0,
        acid_size: 0,
    };
    let mut out = Vec::new();
    meta.write(&mut out);
    assert_eq!(out.len(), META_SIZE as usize);
    let acid = Acid {
        rsa_nca_pubkey: [0; 256],
        signed_size: 0,
        flags: 0,
        program_id_range_min: 0,
        program_id_range_max: 0,
        layout,
    };
    let mut out = Vec::new();
    acid.write(&mut out);
    assert_eq!(out.len(), ACID_HEADER_SIZE as usize);
    let mut out = Vec::new();
    Aci { program_id: 0, layout }.write(&mut out);
    assert_eq!(out.len(), ACI_HEADER_SIZE as usize);
    let mut out = Vec::new();
    write_acid_fs_access_control(&mut out, 0);
    assert_eq!(out.len(), ACID_FAC_SIZE as usize);
    let mut out = Vec::new();
    write_aci_fs_access_control(&mut out, 0);
    assert_eq!(out.len(), ACI_FAC_SIZE as usize);
}

#[test]
fn the_metadata_header_is_exact() {
    let mut name = [0u8; 16];
    name[..3].copy_from_slice(b"abc");
    let meta = Meta {
        signature_key_generation: 1,
        flags: 0x35,
        main_thread_priority: 0x2c,
        main_thread_core_number: 3,
        system_resource_size: 0x0200_0000,
        version: 9,
        main_thread_stack_size: 0x0010_0000,
        name,
        product_code: [7; 16],
        aci_offset: 0x0000_0300,
        aci_size: 0x0000_0111,
        acid_offset: 0x80,
        acid_size: 0x0000_0280,
    };
    let mut out = vec![0xff];
    meta.write(&mut out);
    let mut expected = vec![0xff];
    expected.extend(b"META");
    expected.extend([1, 0, 0, 0, 0, 0, 0, 0, 0x35, 0, 0x2c, 3, 0, 0, 0, 0]);
    expected.extend([0, 0, 0, 2, 9, 0, 0, 0, 0, 0, 0x10, 0]);
    expected.extend(b"abc");
    expected.extend([0; 13]);
    expected.extend([7; 16]);
    expected.extend([0; 0x30]);
    expected.extend([0, 3, 0, 0, 0x11, 1, 0, 0, 0x80, 0, 0, 0, 0x80, 2, 0, 0]);
    assert_eq!(out, expected);
}

#[test]
fn the_filesystem_access_blocks_are_exact() {
    let mut out = Vec::new();
    write_acid_fs_access_control(&mut out, 0x8000_0000_0000_0001);
    let mut expected = vec![1, 0, 0, 0, 1, 0, 0, 0, 0, 0, 0, 0x80];
    expected.extend([0; 32]);
    assert_eq!(out, expected);
    let mut out = Vec::new();
    write_aci_fs_access_control(&mut out, 0x8000_0000_0000_0001);
    let mut expected = vec![1, 0, 0, 0, 1, 0, 0, 0, 0, 0, 0, 0x80];
    expected.extend([0x1c, 0, 0, 0, 0, 0, 0, 0, 0x1c, 0, 0, 0, 0, 0, 0, 0]);
    assert_eq!(out, expected);
}
