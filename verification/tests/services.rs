use npdm::error::NpdmError;
use npdm::services::{encode_services, sac_encoded_len, sac_encoded_len_checked};

fn names(list: &[&str]) -> Vec<String> {
    list.iter().map(|s| s.to_string()).collect()
}

#[test]
fn callable_service_aa() {
    assert_eq!(encode_services(&names(&["aa"]), &[]).unwrap(), vec![0x01, b'a', b'a']);
}

#[test]
fn hostable_service_aa() {
    assert_eq!(encode_services(&[], &names(&["aa"])).unwrap(), vec![0x81, b'a', b'a']);
}

#[test]
fn nine_character_name_fails() {
    let r = encode_services(&names(&["abcdefghi"]), &[]);
    assert!(matches!(r, Err(NpdmError::InvalidValue(f)) if f == "accessed_services.abcdefghi"));
    let r = encode_services(&[], &names(&["abcdefghi"]));
    assert!(matches!(r, Err(NpdmError::InvalidValue(f)) if f == "hosted_services.abcdefghi"));
}

#[test]
fn empty_name_fails() {
    let r = encode_services(&names(&["ok", ""]), &names(&["toolongname"]));
    assert!(matches!(r, Err(NpdmError::InvalidValue(f)) if f == "accessed_services."));
    let r = encode_services(&names(&["ok"]), &names(&["fine", ""]));
    assert!(matches!(r, Err(NpdmError::InvalidValue(f)) if f == "hosted_services."));
}

#[test]
fn the_first_bad_name_is_reported() {
    let r = encode_services(&names(&["a", "waytoolong", ""]), &names(&[""]));
    assert!(matches!(r, Err(NpdmError::InvalidValue(f)) if f == "accessed_services.waytoolong"));
}

#[test]
fn eight_byte_name_is_the_longest() {
    assert_eq!(
        encode_services(&names(&["fsp-ldr!"]), &names(&["12345678"])).unwrap(),
        vec![0x07, b'f', b's', b'p', b'-', b'l', b'd', b'r', b'!', 0x87, b'1', b'2', b'3', b'4', b'5', b'6', b'7', b'8']
    );
}

#[test]
fn length_counts_bytes_not_characters() {
    assert_eq!(encode_services(&names(&["é"]), &[]).unwrap(), vec![0x01, 0xc3, 0xa9]);
    assert!(encode_services(&names(&["ééééé"]), &[]).is_err());
}

#[test]
fn called_services_come_first_and_order_is_kept() {
    let table = encode_services(&names(&["fsp-srv", "lm"]), &names(&["z", "a"])).unwrap();
    let mut expected = vec![0x06];
    expected.extend_from_slice(b"fsp-srv");
    expected.push(0x01);
    expected.extend_from_slice(b"lm");
    expected.extend_from_slice(&[0x80, b'z', 0x80, b'a']);
    assert_eq!(table, expected);
}

#[test]
fn table_size_is_the_sum_of_the_entry_sizes() {
    let accessed = names(&["fsp-srv", "lm", "set:sys"]);
    let hosted = names(&["test"]);
    assert_eq!(sac_encoded_len(&accessed), 8 + 3 + 8);
    assert_eq!(sac_encoded_len(&hosted), 5);
    assert_eq!(sac_encoded_len(&[]), 0);
    let table = encode_services(&accessed, &hosted).unwrap();
    assert_eq!(table.len(), sac_encoded_len(&accessed) + sac_encoded_len(&hosted));
}

#[test]
fn checked_size_agrees_with_the_size() {
    let list = names(&["fsp-srv", "", "é", "a name that is too long"]);
    assert_eq!(sac_encoded_len_checked(&list), Some(sac_encoded_len(&list)));
    assert_eq!(sac_encoded_len_checked(&list), Some(8 + 1 + 3 + 24));
    assert_eq!(sac_encoded_len_checked(&[]), Some(0));
}
