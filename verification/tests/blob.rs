use npdm::blob::{encode_capabilities, write_acid};
use npdm::capability::{KernelCapability, KernelVersion, ProgramType, SystemCallId, SystemCalls};
use npdm::descriptor::{
    AcidBehavior, EnabledSystemCall, FsAccessControl, KernelCapabilities, KernelCapabilityValues, MemoryMap, Npdm,
    ServiceAccessControl,
};
use npdm::error::NpdmError;
use npdm::utils::HexOrNum;

fn names(list: &[&str]) -> Vec<String> {
    list.iter().map(|s| s.to_string()).collect()
}

fn sample_caps() -> Vec<KernelCapability> {
    vec![
        KernelCapability::ThreadInfo {
            highest_priority: 44,
            lowest_priority: 59,
            max_core_number: 2,
            min_core_number: 0,
        },
        KernelCapability::EnableSystemCalls(SystemCalls::Name(vec![SystemCallId(0)])),
        KernelCapability::MiscParams(ProgramType::Name("Application".to_string())),
    ]
}

fn sample() -> Npdm {
    Npdm {
        name: "test".to_string(),
        product_code: None,
        signature_key_generation: None,
        main_thread_stack_size: HexOrNum(0x10_0000),
        main_thread_priority: 44,
        main_thread_core_number: 0,
        system_resource_size: None,
        version: None,
        address_space_type: 1,
        is_64_bit: true,
        optimize_memory_allocation: None,
        disable_device_address_space_merge: None,
        is_production: None,
        unqualified_approval: None,
        memory_region: 2,
        program_id_range_min: None,
        program_id_range_max: None,
        program_id: HexOrNum(0x0100_0000_0000_1000),
        fs_access_control: FsAccessControl { flags: HexOrNum(0xffff_ffff_ffff_ffff) },
        accessed_services: Some(names(&["fsp-srv", "lm"])),
        hosted_services: Some(names(&["host"])),
        service_access_control: None,
        kernel_capabilities: KernelCapabilities::TypeValueList(sample_caps()),
        developer_key: None,
    }
}

fn le32(v: u32) -> Vec<u8> {
    v.to_le_bytes().to_vec()
}

fn le64(v: u64) -> Vec<u8> {
    v.to_le_bytes().to_vec()
}

fn read32(bytes: &[u8], at: usize) -> u32 {
    u32::from_le_bytes([bytes[at], bytes[at + 1], bytes[at + 2], bytes[at + 3]])
}

fn sample_tables() -> (Vec<u8>, Vec<u8>) {
    let mut sac = vec![0x06];
    sac.extend_from_slice(b"fsp-srv");
    sac.push(0x01);
    sac.extend_from_slice(b"lm");
    sac.push(0x83);
    sac.extend_from_slice(b"host");
    let mut kac = Vec::new();
    for word in [0x0200_eec7u32, 0x2f, 0x5fff] {
        kac.extend(le32(word));
    }
    (sac, kac)
}

fn sample_instance() -> Vec<u8> {
    let (sac, kac) = sample_tables();
    let mut out = b"ACI0".to_vec();
    out.extend(vec![0; 12]);
    out.extend(le64(0x0100_0000_0000_1000));
    out.extend(vec![0; 8]);
    for v in [0x40, 0x1c, 0x5c, sac.len() as u32, 0x5c + sac.len() as u32, kac.len() as u32] {
        out.extend(le32(v));
    }
    out.extend(vec![0; 8]);
    out.extend([1, 0, 0, 0]);
    out.extend(le64(0xffff_ffff_ffff_ffff));
    for v in [0x1c, 0, 0x1c, 0] {
        out.extend(le32(v));
    }
    out.extend(&sac);
    out.extend(&kac);
    out
}

fn sample_declaration_body(key: &[u8]) -> Vec<u8> {
    let (sac, kac) = sample_tables();
    let mut out = key.to_vec();
    out.extend(b"ACID");
    out.extend(le32(0x16c + (sac.len() + kac.len()) as u32));
    out.extend(le32(0));
    out.extend(le32(1 | (2 << 2)));
    out.extend(le64(0x0100_0000_0000_1000));
    out.extend(le64(0x0100_0000_0000_1000));
    for v in [0x240, 0x2c, 0x26c, sac.len() as u32, 0x26c + sac.len() as u32, kac.len() as u32] {
        out.extend(le32(v));
    }
    out.extend(vec![0; 8]);
    out.extend([1, 0, 0, 0]);
    out.extend(le64(0xffff_ffff_ffff_ffff));
    out.extend(vec![0; 32]);
    out.extend(&sac);
    out.extend(&kac);
    out
}

fn sample_meta(acid_size: u32, aci_size: u32) -> Vec<u8> {
    let mut out = b"META".to_vec();
    out.extend(le32(0));
    out.extend(le32(0));
    out.extend([0b011, 0, 44, 0]);
    out.extend(le32(0));
    out.extend(le32(0));
    out.extend(le32(0));
    out.extend(le32(0x10_0000));
    out.extend(b"test");
    out.extend(vec![0; 12]);
    out.extend(vec![0; 16]);
    out.extend(vec![0; 0x30]);
    for v in [0x80 + acid_size, aci_size, 0x80, acid_size] {
        out.extend(le32(v));
    }
    out
}

#[test]
fn placeholder_blob_is_exact() {
    let blob = sample().into_npdm(AcidBehavior::Empty).unwrap();
    let body = sample_declaration_body(&[0; 0x100]);
    let instance = sample_instance();
    assert_eq!(body.len(), 0x188);
    assert_eq!(instance.len(), 0x78);
    let mut expected = sample_meta(0x288, 0x78);
    assert_eq!(expected.len(), 0x80);
    expected.extend(vec![0; 0x100]);
    expected.extend(&body);
    expected.extend(&instance);
    assert_eq!(blob.len(), 896);
    assert_eq!(blob, expected);
}

#[test]
fn reused_declaration_is_copied_verbatim() {
    let acid: Vec<u8> = (0..0x321u32).map(|i| (i * 7 % 251) as u8).collect();
    let blob = sample().into_npdm(AcidBehavior::Use { acid: &acid }).unwrap();
    let mut expected = sample_meta(0x321, 0x78);
    expected.extend(&acid);
    expected.extend(sample_instance());
    assert_eq!(blob, expected);
    let blob = sample().into_npdm(AcidBehavior::Use { acid: &[] }).unwrap();
    assert_eq!(read32(&blob, 0x7c), 0);
    assert_eq!(read32(&blob, 0x70), 0x80);
    assert_eq!(&blob[0x80..0x84], b"ACI0");
}

#[test]
fn sections_read_from_the_headers_are_contiguous_and_fill_the_file() {
    let mut descriptor = sample();
    descriptor.kernel_capabilities = KernelCapabilities::TypeValueList(vec![
        KernelCapability::EnableSystemCalls(SystemCalls::Name((0..100).map(SystemCallId).collect())),
        KernelCapability::MemoryMap { address: HexOrNum(1), size: HexOrNum(2), is_ro: false, is_io: true },
        KernelCapability::HandleTableSize(5),
    ]);
    descriptor.accessed_services = Some(names(&["a", "bb", "ccc", "dddddddd"]));
    let blob = descriptor.into_npdm(AcidBehavior::Empty).unwrap();
    let (aci_offset, aci_size) = (read32(&blob, 0x70) as usize, read32(&blob, 0x74) as usize);
    let (acid_offset, acid_size) = (read32(&blob, 0x78) as usize, read32(&blob, 0x7c) as usize);
    assert_eq!(acid_offset, 0x80);
    assert_eq!(aci_offset, acid_offset + acid_size);
    assert_eq!(aci_offset + aci_size, blob.len());
    assert_eq!(&blob[acid_offset + 0x200..acid_offset + 0x204], b"ACID");
    assert_eq!(&blob[aci_offset..aci_offset + 4], b"ACI0");
    assert_eq!(read32(&blob, acid_offset + 0x204) as usize, acid_size - 0x100);

    let words = 5 + 2 + 1;
    let table = 2 + 3 + 4 + 9 + 5;
    for (start, header, first, size) in [(acid_offset, 0x220, 0x240, acid_size), (aci_offset, 0x20, 0x40, aci_size)] {
        let at = start + header;
        let (fac_offset, fac_size) = (read32(&blob, at) as usize, read32(&blob, at + 4) as usize);
        let (sac_offset, sac_size) = (read32(&blob, at + 8) as usize, read32(&blob, at + 12) as usize);
        let (kac_offset, kac_size) = (read32(&blob, at + 16) as usize, read32(&blob, at + 20) as usize);
        assert_eq!(fac_offset, first);
        assert_eq!(sac_offset, fac_offset + fac_size);
        assert_eq!(kac_offset, sac_offset + sac_size);
        assert_eq!(kac_offset + kac_size, size);
        assert_eq!(sac_size, table);
        assert_eq!(kac_size, 4 * words);
        assert_eq!(blob[start + fac_offset], 1);
        assert_eq!(&blob[start + sac_offset..start + sac_offset + 2], &[0x00, b'a']);
        assert_eq!(read32(&blob, start + kac_offset) & 0x1f, 0x0f);
    }
}

#[test]
fn capability_table_size_is_four_times_the_word_count() {
    let caps = sample_caps();
    let words = encode_capabilities(&caps).unwrap();
    assert_eq!(words, vec![0x0200_eec7, 0x2f, 0x5fff]);
    let mut count = 0;
    for cap in &caps {
        count += cap.encode().unwrap().len();
    }
    assert_eq!(words.len(), count);
    let sections = sample().encode_sections().unwrap();
    assert_eq!(sections.capability_table.len(), 4 * count);
    let blob = sample().into_npdm(AcidBehavior::Empty).unwrap();
    assert_eq!(read32(&blob, 0x80 + 0x220 + 20) as usize, 4 * count);
    assert_eq!(read32(&blob, 0x80 + 0x288 + 0x20 + 20) as usize, 4 * count);
    assert_eq!(read32(&blob, 0x7c) as usize, 0x26c + sections.service_table.len() + 4 * count);
    assert_eq!(read32(&blob, 0x74) as usize, 0x5c + sections.service_table.len() + 4 * count);
}

#[test]
fn write_acid_appends_the_declaration_without_its_signature() {
    let descriptor = sample();
    let sections = descriptor.encode_sections().unwrap();
    let mut out = vec![0xaa, 0xbb];
    write_acid(&mut out, &descriptor, &sections).unwrap();
    let mut expected = vec![0xaa, 0xbb];
    expected.extend(sample_declaration_body(&[0; 0x100]));
    assert_eq!(out, expected);
}

#[test]
fn meta_flags_hold_the_address_space_and_options() {
    let mut descriptor = sample();
    assert_eq!(descriptor.meta_flags().unwrap(), 0b0000_0011);
    descriptor.address_space_type = 3;
    descriptor.is_64_bit = false;
    descriptor.optimize_memory_allocation = Some(true);
    assert_eq!(descriptor.meta_flags().unwrap(), 0b0001_0110);
    descriptor.disable_device_address_space_merge = Some(true);
    descriptor.optimize_memory_allocation = Some(false);
    descriptor.address_space_type = 0;
    assert_eq!(descriptor.meta_flags().unwrap(), 0b0010_0000);
}

#[test]
fn address_space_type_above_3_is_invalid() {
    let mut descriptor = sample();
    descriptor.address_space_type = 4;
    let r = descriptor.into_npdm(AcidBehavior::Empty);
    assert!(matches!(r, Err(NpdmError::InvalidValue(f)) if f == "address_space_type"));
    descriptor.memory_region = 9;
    let r = descriptor.into_npdm(AcidBehavior::Use { acid: &[] });
    assert!(matches!(r, Err(NpdmError::InvalidValue(f)) if f == "address_space_type"));
}

#[test]
fn memory_region_above_3_is_invalid() {
    let mut descriptor = sample();
    descriptor.memory_region = 4;
    let r = descriptor.into_npdm(AcidBehavior::Empty);
    assert!(matches!(r, Err(NpdmError::InvalidValue(f)) if f == "memory_region"));
    descriptor.memory_region = 3;
    descriptor.is_production = Some(false);
    descriptor.unqualified_approval = Some(true);
    assert_eq!(descriptor.acid_flags().unwrap(), 0b1110);
}

#[test]
fn missing_service_lists_are_reported() {
    let mut descriptor = sample();
    descriptor.accessed_services = None;
    let r = descriptor.into_npdm(AcidBehavior::Empty);
    assert!(matches!(r, Err(NpdmError::MissingField(f)) if f == "accessed_services"));
    let mut descriptor = sample();
    descriptor.hosted_services = None;
    let r = descriptor.into_npdm(AcidBehavior::Empty);
    assert!(matches!(r, Err(NpdmError::MissingField(f)) if f == "hosted_services"));
}

#[test]
fn the_pair_of_service_lists_is_taken_before_the_single_lists() {
    let mut descriptor = sample();
    descriptor.accessed_services = None;
    descriptor.hosted_services = Some(names(&["ignored"]));
    descriptor.service_access_control = Some(ServiceAccessControl {
        accessed_services: names(&["sm:"]),
        hosted_services: names(&[]),
    });
    let sections = descriptor.encode_sections().unwrap();
    assert_eq!(sections.service_table, vec![0x02, b's', b'm', b':']);
}

#[test]
fn a_bad_service_name_gives_no_output() {
    let mut descriptor = sample();
    descriptor.hosted_services = Some(names(&["muchtoolong"]));
    let r = descriptor.into_npdm(AcidBehavior::Empty);
    assert!(matches!(r, Err(NpdmError::InvalidValue(f)) if f == "hosted_services.muchtoolong"));
}

#[test]
fn capability_errors_come_in_list_order() {
    let mut descriptor = sample();
    descriptor.kernel_capabilities = KernelCapabilities::TypeValueList(vec![
        KernelCapability::HandleTableSize(1),
        KernelCapability::KernelVersion(KernelVersion::Version("x".to_string())),
        KernelCapability::DebugFlags { allow_debug: true, force_debug_prod: true, force_debug: false },
    ]);
    descriptor.memory_region = 7;
    let r = descriptor.into_npdm(AcidBehavior::Empty);
    assert!(matches!(r, Err(NpdmError::InvalidValue(f)) if f == "kernel_version"));
    descriptor.kernel_capabilities = KernelCapabilities::TypeValueList(vec![
        KernelCapability::DebugFlags { allow_debug: true, force_debug_prod: true, force_debug: false },
        KernelCapability::KernelVersion(KernelVersion::Version("x".to_string())),
    ]);
    let r = descriptor.into_npdm(AcidBehavior::Empty);
    assert!(matches!(r, Err(NpdmError::InvalidDebugFlags)));
}

#[test]
fn developer_key_is_put_into_the_declaration_header() {
    let mut descriptor = sample();
    let key: Vec<u8> = (0..=255u8).collect();
    let text: String = key.iter().map(|b| format!("{:02x}", b)).collect();
    descriptor.developer_key = Some(text.to_uppercase());
    let blob = descriptor.into_npdm(AcidBehavior::Empty).unwrap();
    assert_eq!(&blob[0x180..0x280], &key[..]);
    assert_eq!(&blob[0x180..], &[sample_declaration_body(&key), sample_instance()].concat()[..]);
}

#[test]
fn developer_key_must_be_256_bytes_of_hexadecimal() {
    for text in ["", "00", "zz", &"0".repeat(511), &"0".repeat(514), &"g".repeat(512)] {
        let mut descriptor = sample();
        descriptor.developer_key = Some(text.to_string());
        let r = descriptor.into_npdm(AcidBehavior::Empty);
        assert!(matches!(r, Err(NpdmError::InvalidValue(f)) if f == "developer_key"));
    }
}

#[test]
fn name_is_cut_to_twelve_bytes() {
    let mut descriptor = sample();
    descriptor.name = "abcdefghijklmnopqrstuvwxyz".to_string();
    assert_eq!(&descriptor.meta_name(), b"abcdefghijkl\0\0\0\0");
    let blob = descriptor.into_npdm(AcidBehavior::Empty).unwrap();
    assert_eq!(&blob[0x20..0x30], b"abcdefghijkl\0\0\0\0");
    assert!(descriptor.name_is_cut());
    descriptor.name = "abcdefghijkl".to_string();
    assert!(!descriptor.name_is_cut());
    assert_eq!(&descriptor.meta_name(), b"abcdefghijkl\0\0\0\0");
    descriptor.name = String::new();
    assert!(!descriptor.name_is_cut());
    assert_eq!(descriptor.meta_name(), [0u8; 16]);
}

#[test]
fn optional_header_fields_are_written() {
    let mut descriptor = sample();
    descriptor.signature_key_generation = Some(0x0102_0304);
    descriptor.system_resource_size = Some(0x1fe0_0000);
    descriptor.version = Some(7);
    descriptor.main_thread_stack_size = HexOrNum(0x1_0000_4000);
    descriptor.program_id_range_min = Some(HexOrNum(0x0100_0000_0000_0000));
    descriptor.program_id_range_max = Some(HexOrNum(0x01ff_ffff_ffff_ffff));
    let blob = descriptor.into_npdm(AcidBehavior::Empty).unwrap();
    assert_eq!(&blob[4..8], &[4, 3, 2, 1]);
    assert_eq!(read32(&blob, 0x14), 0x1fe0_0000);
    assert_eq!(read32(&blob, 0x18), 7);
    assert_eq!(read32(&blob, 0x1c), 0x4000);
    assert_eq!(&blob[0x290..0x298], &le64(0x0100_0000_0000_0000)[..]);
    assert_eq!(&blob[0x298..0x2a0], &le64(0x01ff_ffff_ffff_ffff)[..]);
}

fn values() -> KernelCapabilityValues {
    KernelCapabilityValues {
        highest_priority: 1,
        lowest_priority: 2,
        max_core_number: 3,
        min_core_number: 0,
        enable_system_calls: vec![
            EnabledSystemCall::Value(HexOrNum(0x21)),
            EnabledSystemCall::Name(SystemCallId(0x0c)),
        ],
        memory_maps: None,
        io_memory_maps: None,
        enable_interrupts: None,
        program_type: None,
        kernel_version: None,
        allow_debug: None,
        force_debug_prod: None,
        force_debug: None,
    }
}

#[test]
fn struct_form_lists_thread_info_and_system_calls_first() {
    let list = values().to_list_format().unwrap();
    assert_eq!(list.len(), 2);
    assert!(matches!(
        list[0],
        KernelCapability::ThreadInfo { highest_priority: 1, lowest_priority: 2, max_core_number: 3, min_core_number: 0 }
    ));
    match &list[1] {
        KernelCapability::EnableSystemCalls(SystemCalls::Name(ids)) => {
            assert_eq!(ids.iter().map(|id| id.0).collect::<Vec<u32>>(), vec![0x21, 0x0c]);
        }
        other => panic!("{:?}", other),
    }
}

#[test]
fn struct_form_keeps_the_fixed_order() {
    let mut v = values();
    v.memory_maps = Some(vec![
        MemoryMap { address: HexOrNum(1), size: HexOrNum(2), is_ro: true, is_io: false },
        MemoryMap { address: HexOrNum(3), size: HexOrNum(4), is_ro: false, is_io: true },
    ]);
    v.io_memory_maps = Some(vec![HexOrNum(9)]);
    v.enable_interrupts = Some(vec![[1, 2], [3, 0x3ff]]);
    v.program_type = Some(ProgramType::Name("applet".to_string()));
    v.kernel_version = Some(KernelVersion::Version("3.0".to_string()));
    v.force_debug = Some(true);
    let list = v.to_list_format().unwrap();
    let kinds: Vec<u32> = list.iter().map(|cap| cap.encode().unwrap()[0].trailing_ones()).collect();
    assert_eq!(kinds, vec![3, 4, 6, 6, 7, 11, 11, 13, 14, 16]);
    let words = encode_capabilities(&list).unwrap();
    assert_eq!(
        words,
        vec![
            0x0300_0817,
            0x0000_000f | (1 << (12 + 5)),
            0x2000_000f | (1 << (9 + 5)),
            0x8000_00bf,
            0x0000_013f,
            0x0000_01bf,
            0x8000_023f,
            0x0000_097f,
            0x0080_17ff,
            0xffc0_37ff,
            0x0000_9fff,
            0x0018_3fff,
            0x0008_ffff,
        ]
    );
    let from_struct = KernelCapabilities::Struct(v).get_list().unwrap();
    assert_eq!(encode_capabilities(&from_struct).unwrap(), words);
}

#[test]
fn debug_flags_are_listed_only_if_one_is_given() {
    let mut v = values();
    assert_eq!(v.to_list_format().unwrap().len(), 2);
    v.allow_debug = Some(false);
    let list = v.to_list_format().unwrap();
    assert_eq!(list.len(), 3);
    assert!(matches!(
        list[2],
        KernelCapability::DebugFlags { allow_debug: false, force_debug_prod: false, force_debug: false }
    ));
    v.force_debug_prod = Some(true);
    v.allow_debug = Some(true);
    let list = v.to_list_format().unwrap();
    assert!(matches!(list[2].encode(), Err(NpdmError::InvalidDebugFlags)));
}

#[test]
fn a_system_call_number_out_of_range_has_no_identifier() {
    assert_eq!(EnabledSystemCall::Value(HexOrNum(143)).get_id().unwrap().0, 143);
    assert_eq!(EnabledSystemCall::Name(SystemCallId(5)).get_id().unwrap().0, 5);
    let r = EnabledSystemCall::Value(HexOrNum(144)).get_id();
    assert!(matches!(r, Err(NpdmError::InvalidValue(f)) if f == "enable_system_calls"));
    let r = EnabledSystemCall::Value(HexOrNum(0x1_0000_0000)).get_id();
    assert!(matches!(r, Err(NpdmError::InvalidValue(f)) if f == "enable_system_calls"));
    let mut v = values();
    v.enable_system_calls.push(EnabledSystemCall::Value(HexOrNum(191)));
    let r = v.to_list_format();
    assert!(matches!(r, Err(NpdmError::InvalidValue(f)) if f == "enable_system_calls"));
    let mut descriptor = sample();
    descriptor.kernel_capabilities = KernelCapabilities::Struct(v);
    let r = descriptor.into_npdm(AcidBehavior::Empty);
    assert!(matches!(r, Err(NpdmError::InvalidValue(f)) if f == "enable_system_calls"));
}

#[test]
fn list_form_is_returned_as_it_is() {
    let list = KernelCapabilities::TypeValueList(sample_caps()).get_list().unwrap();
    assert_eq!(encode_capabilities(&list).unwrap(), vec![0x0200_eec7, 0x2f, 0x5fff]);
}

#[test]
fn encoding_twice_gives_the_same_bytes() {
    let descriptor = sample();
    let first = descriptor.into_npdm(AcidBehavior::Empty).unwrap();
    let second = descriptor.into_npdm(AcidBehavior::Empty).unwrap();
    assert_eq!(first, second);
    let a = descriptor.encode_sections().unwrap();
    let b = descriptor.encode_sections().unwrap();
    assert_eq!(a.service_table, b.service_table);
    assert_eq!(a.capability_table, b.capability_table);
}
