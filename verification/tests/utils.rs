use npdm::utils::{add_padding, align, calculate_sha256, check_string_or_truncate, compress_lz4, HexOrNum};

#[test]
fn align_rounds_up_to_the_next_multiple() {
    assert_eq!(align(0x1001, 0xfff), 0x2000);
    assert_eq!(align(0x1000, 0xfff), 0x1000);
    assert_eq!(align(0, 0xfff), 0);
    assert_eq!(align(1, 3), 4);
    assert_eq!(align(5, 0), 5);
}

#[test]
fn align_clears_the_bits_of_the_padding() {
    assert_eq!(align(1, 2), 1);
    assert_eq!(align(2, 2), 4);
    assert_eq!(align(usize::MAX - 0xfff, 0xfff), usize::MAX - 0xfff);
}

#[test]
fn add_padding_fills_with_zeros() {
    let mut v = vec![1, 2, 3];
    add_padding(&mut v, 3);
    assert_eq!(v, vec![1, 2, 3, 0]);
    add_padding(&mut v, 3);
    assert_eq!(v, vec![1, 2, 3, 0]);
    add_padding(&mut v, 0xf);
    assert_eq!(v.len(), 16);
    assert_eq!(&v[..4], &[1, 2, 3, 0]);
    assert!(v[4..].iter().all(|&b| b == 0));
    let mut empty: Vec<u8> = Vec::new();
    add_padding(&mut empty, 0xfff);
    assert!(empty.is_empty());
}

#[test]
fn add_padding_never_shortens() {
    let mut v = vec![9; 3];
    add_padding(&mut v, 2);
    assert_eq!(v, vec![9, 9, 9, 0, 0]);
    let mut v = vec![9; 1];
    add_padding(&mut v, 2);
    assert_eq!(v, vec![9]);
}

#[test]
fn hex_strings_need_the_prefix() {
    assert_eq!(HexOrNum::from_hex_str("0x10").map(|n| n.0), Some(0x10));
    assert_eq!(HexOrNum::from_hex_str("0xdeadBEEF").map(|n| n.0), Some(0xdead_beef));
    assert_eq!(HexOrNum::from_hex_str("0xffffffffffffffff").map(|n| n.0), Some(u64::MAX));
    assert_eq!(HexOrNum::from_hex_str("0x0000000000000000001").map(|n| n.0), Some(1));
    assert_eq!(HexOrNum::from_hex_str("0x+7f").map(|n| n.0), Some(0x7f));
    for text in ["", "0", "0x", "10", "x10", "0X10", "0x1g", "0x 1", "0x-1", "0x10000000000000000", "0x+", "0x1_0", " 0x1"] {
        assert!(HexOrNum::from_hex_str(text).is_none(), "{}", text);
    }
    assert_eq!(HexOrNum::default().0, 0);
}

#[test]
fn hex_strings_agree_with_the_standard_library() {
    for text in ["0", "7", "+7", "-7", "ff", "FF", "fg", "", "+", "++1", "123456789abcdef0", "123456789abcdef01", "00000000000000000000ff"] {
        let ours = HexOrNum::from_hex_str(&format!("0x{}", text)).map(|n| n.0);
        assert_eq!(ours, u64::from_str_radix(text, 16).ok(), "{}", text);
    }
}

#[test]
fn sha256_of_abc() {
    let digest = calculate_sha256(b"abc").unwrap();
    let text: String = digest.iter().map(|b| format!("{:02x}", b)).collect();
    assert_eq!(text, format!("{}{}", "ba7816bf8f01cfea414140de5dae2223", "b00361a396177a9cb410ff61f20015ad"));
    let digest = calculate_sha256(b"").unwrap();
    let text: String = digest.iter().map(|b| format!("{:02x}", b)).collect();
    assert_eq!(text, format!("{}{}", "e3b0c44298fc1c149afbf4c8996fb924", "27ae41e4649b934ca495991b7852b855"));
}

#[test]
fn long_text_is_cut_and_reported() {
    let mut text = "abcdefgh".to_string();
    assert!(check_string_or_truncate(&mut text, 4));
    assert_eq!(text, "abc");
    assert!(!check_string_or_truncate(&mut text, 4));
    assert_eq!(text, "abc");
    assert!(check_string_or_truncate(&mut text, 3));
    assert_eq!(text, "ab");
    assert!(!check_string_or_truncate(&mut text, 5));
    assert_eq!(text, "ab");
    assert!(check_string_or_truncate(&mut text, 1));
    assert_eq!(text, "");
    assert!(!check_string_or_truncate(&mut text, 1));
    assert_eq!(text, "");
    let mut text = "aé".to_string();
    assert!(check_string_or_truncate(&mut text, 2));
    assert_eq!(text, "a");
    let mut text = "aé".to_string();
    assert!(!check_string_or_truncate(&mut text, 4));
    assert_eq!(text, "aé");
}

#[test]
fn a_field_of_16_bytes_holds_15_bytes_of_content() {
    for len in 0..40usize {
        let plain: String = (0..len).map(|i| (b'a' + (i % 26) as u8) as char).collect();
        let mut text = plain.clone();
        let warned = check_string_or_truncate(&mut text, 16);
        assert_eq!(warned, len >= 16);
        assert!(text.len() <= 15);
        assert!(plain.starts_with(text.as_str()));
        if len < 16 {
            assert_eq!(text, plain);
        } else {
            assert_eq!(text, &plain[..15]);
        }
    }
}

#[test]
fn lz4_block_is_read_back() {
    let mut data: Vec<u8> = (0..4000u32).map(|i| (i % 7) as u8).collect();
    let plain = data.clone();
    let compressed = compress_lz4(&mut data).unwrap();
    assert_eq!(data, plain);
    assert!(compressed.len() < plain.len());
    let back = lz4::block::decompress(&compressed, Some(plain.len() as i32)).unwrap();
    assert_eq!(back, plain);
}

#[test]
fn lz4_block_stays_within_its_bound() {
    let mut empty: Vec<u8> = Vec::new();
    assert_eq!(compress_lz4(&mut empty).unwrap(), vec![0]);
    assert!(empty.is_empty());
    // Data that do not repeat themselves grow when they are compressed.
    let mut state: u32 = 1;
    let mut data: Vec<u8> = Vec::new();
    for _ in 0..1000 {
        state = state.wrapping_mul(1_664_525).wrapping_add(1_013_904_223);
        data.push((state >> 24) as u8);
    }
    let plain = data.clone();
    let compressed = compress_lz4(&mut data).unwrap();
    assert_eq!(data, plain);
    assert!(compressed.len() >= 1);
    assert!(compressed.len() <= 1000 + 1000 / 255 + 16);
    assert_ne!(compressed, plain);
    let back = lz4::block::decompress(&compressed, Some(1000)).unwrap();
    assert_eq!(back, plain);
    for len in [1usize, 2, 12, 13, 254, 255, 256, 65_536] {
        let mut data = vec![0xa5u8; len];
        let compressed = compress_lz4(&mut data).unwrap();
        assert!(compressed.len() >= 1 && compressed.len() <= len + len / 255 + 16);
        assert_eq!(lz4::block::decompress(&compressed, Some(len as i32)).unwrap(), data);
    }
}
