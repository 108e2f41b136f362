use npdm::blob::write_acid;
use npdm::capability::{KernelCapability, ProgramType, SystemCallId, SystemCalls};
use npdm::der::parse_private_key;
use npdm::descriptor::{AcidBehavior, FsAccessControl, KernelCapabilities, Npdm};
use npdm::error::{KeyFault, NpdmError};
use npdm::key::{
    at_least_two, check_signature, get_pkey_from_pem, is_wide_enough, key_from_contents, modulus_fills_its_bytes,
    sign_digest,
};
use npdm::utils::{calculate_sha256, HexOrNum};
use rsa::{BigUint, PaddingScheme, PublicKey, RSAPrivateKey, RSAPublicKey};

// Two test keys whose primes lie just below a power of two, so that they
// can be written down as small numbers: 2^1024 - 105 and 2^1024 - 179 for
// a modulus of 2048 bits, 2^512 - 569 and 2^512 - 629 for one of 1024 bits.
const BIG_PRIMES: (usize, u32, u32) = (1024, 105, 179);
const SMALL_PRIMES: (usize, u32, u32) = (512, 569, 629);

const RSA_OID: [u8; 9] = [0x2a, 0x86, 0x48, 0x86, 0xf7, 0x0d, 0x01, 0x01, 0x01];

fn below_power_of_two(bits: usize, less: u32) -> BigUint {
    let mut power = vec![0u8; bits / 8 + 1];
    power[0] = 1;
    BigUint::from_bytes_be(&power) - BigUint::from(less)
}

fn der_unsigned(n: &BigUint) -> Vec<u8> {
    let mut bytes = n.to_bytes_be();
    if bytes[0] >= 0x80 {
        bytes.insert(0, 0);
    }
    tlv(0x02, &bytes)
}

// The five numbers of the key with the given primes and the public
// exponent 65537.
fn key_numbers(primes: (usize, u32, u32)) -> [BigUint; 5] {
    let one = BigUint::from(1u8);
    let e = BigUint::from(65537u32);
    let p = below_power_of_two(primes.0, primes.1);
    let q = below_power_of_two(primes.0, primes.2);
    let phi = (&p - &one) * (&q - &one);
    let rest = (&phi % &e).to_bytes_be().iter().fold(0u64, |acc, &b| acc * 256 + b as u64);
    let k = (1..65537u64).find(|k| (1 + k * rest) % 65537 == 0).unwrap();
    let d = (&one + BigUint::from(k) * &phi) / &e;
    [&p * &q, e, d, p, q]
}

fn key_der(primes: (usize, u32, u32), with_parameters: bool) -> Vec<u8> {
    let mut inner = tlv(0x02, &[0]);
    for n in key_numbers(primes).iter() {
        inner.extend(der_unsigned(n));
    }
    for ignored in [1u8, 2, 3] {
        inner.extend(tlv(0x02, &[ignored]));
    }
    let mut algorithm = tlv(0x06, &RSA_OID);
    if with_parameters {
        algorithm.extend([0x05, 0x00]);
    }
    let mut outer = tlv(0x02, &[0]);
    outer.extend(tlv(0x30, &algorithm));
    outer.extend(tlv(0x04, &tlv(0x30, &inner)));
    tlv(0x30, &outer)
}

fn armored(label: &str, contents: Vec<u8>) -> String {
    pem::encode(&pem::Pem { tag: label.to_string(), contents })
}

fn key_2048() -> String {
    armored("PRIVATE KEY", key_der(BIG_PRIMES, false))
}

fn key_1024() -> String {
    armored("PRIVATE KEY", key_der(SMALL_PRIMES, false))
}

fn key_with_parameters() -> String {
    armored("PRIVATE KEY", key_der(BIG_PRIMES, true))
}

// A text in the form of a PEM block, put together from its parts.
fn block(begin: &str, payload: &str, end: &str) -> String {
    let dashes = "-".repeat(5);
    format!("{0}BEGIN {1}{0}\n{2}\n{0}END {3}{0}\n", dashes, begin, payload, end)
}

type Numbers = (Vec<u8>, Vec<u8>, Vec<u8>, Vec<u8>, Vec<u8>);

fn der_of(pem_text: &str) -> Vec<u8> {
    pem::parse(pem_text).unwrap().contents
}

// What the `yasna` reader makes of the same bytes.
fn read_with_yasna(data: &[u8]) -> Option<Numbers> {
    let parsed = yasna::parse_der(data, |reader| {
        reader.read_sequence(|reader| {
            let _v = reader.next().read_i64()?;
            let _oid = reader.next().read_sequence(|reader| reader.next().read_oid())?;
            let bytes = reader.next().read_bytes()?;
            yasna::parse_der(&bytes, |reader| {
                reader.read_sequence(|reader| {
                    let _v = reader.next().read_i64()?;
                    let modulus = reader.next().read_biguint()?;
                    let pubexp = reader.next().read_biguint()?;
                    let privexp = reader.next().read_biguint()?;
                    let prime1 = reader.next().read_biguint()?;
                    let prime2 = reader.next().read_biguint()?;
                    let _exp1 = reader.next().read_biguint()?;
                    let _exp2 = reader.next().read_biguint()?;
                    let _coeff = reader.next().read_biguint()?;
                    Ok((modulus, pubexp, privexp, prime1, prime2))
                })
            })
        })
    });
    match parsed {
        Ok((n, e, d, p, q)) => {
            Some((n.to_bytes_be(), e.to_bytes_be(), d.to_bytes_be(), p.to_bytes_be(), q.to_bytes_be()))
        }
        Err(_) => None,
    }
}

fn read_with_library(data: &[u8]) -> Option<Numbers> {
    parse_private_key(data)
        .map(|k| (k.modulus, k.public_exponent, k.private_exponent, k.prime1, k.prime2))
}

#[test]
fn key_numbers_are_read_from_the_der_structure() {
    let der = der_of(&key_2048());
    assert_eq!(der, key_der(BIG_PRIMES, false));
    let key = parse_private_key(&der).unwrap();
    let [n, e, d, p, q] = key_numbers(BIG_PRIMES);
    assert_eq!(key.modulus.len(), 256);
    assert_eq!(&key.modulus[..4], &[0xff, 0xff, 0xff, 0xff]);
    assert_eq!(key.modulus, n.to_bytes_be());
    assert_eq!(key.public_exponent, vec![1, 0, 1]);
    assert_eq!(key.public_exponent, e.to_bytes_be());
    assert_eq!(key.private_exponent, d.to_bytes_be());
    assert_eq!(key.prime1.len(), 128);
    assert_eq!(key.prime1[127], 0x97);
    assert_eq!(key.prime1, p.to_bytes_be());
    assert_eq!(key.prime2.len(), 128);
    assert_eq!(key.prime2[127], 0x4d);
    assert_eq!(key.prime2, q.to_bytes_be());
    let product = BigUint::from_bytes_be(&key.prime1) * BigUint::from_bytes_be(&key.prime2);
    assert_eq!(product.to_bytes_be(), key.modulus);
}

#[test]
fn key_reading_agrees_with_yasna_on_valid_keys() {
    for text in [key_2048(), key_1024()] {
        let der = der_of(&text);
        let ours = read_with_library(&der);
        assert!(ours.is_some());
        assert_eq!(ours, read_with_yasna(&der));
    }
}

#[test]
fn key_reading_agrees_with_yasna_on_damaged_keys() {
    let der = der_of(&key_1024());
    let mut accepted = 0;
    for at in 0..der.len() {
        for value in [0x00, 0x01, 0x02, 0x04, 0x06, 0x1f, 0x22, 0x24, 0x30, 0x3f, 0x7f, 0x80, 0x81, 0x82, 0x84, 0x88, 0xff, der[at] ^ 0x01, der[at] ^ 0x20, der[at] ^ 0x80] {
            let mut damaged = der.clone();
            damaged[at] = value;
            let ours = read_with_library(&damaged);
            assert_eq!(ours, read_with_yasna(&damaged), "byte {} set to {:#x}", at, value);
            if ours.is_some() {
                accepted += 1;
            }
        }
    }
    assert!(accepted > der.len());
}

#[test]
fn key_reading_agrees_with_yasna_on_cut_and_extended_keys() {
    let der = der_of(&key_1024());
    for len in 0..der.len() {
        assert_eq!(read_with_library(&der[..len]), None, "cut to {}", len);
        assert_eq!(read_with_yasna(&der[..len]), None, "cut to {}", len);
    }
    let mut longer = der.clone();
    longer.push(0);
    assert_eq!(read_with_library(&longer), None);
    assert_eq!(read_with_yasna(&longer), None);
}

fn tlv(tag: u8, content: &[u8]) -> Vec<u8> {
    let mut out = vec![tag];
    if content.len() < 128 {
        out.push(content.len() as u8);
    } else if content.len() < 256 {
        out.extend([0x81, content.len() as u8]);
    } else {
        out.extend([0x82, (content.len() >> 8) as u8, content.len() as u8]);
    }
    out.extend(content);
    out
}

fn small_key(version: &[u8], oid: &[u8], numbers: &[&[u8]]) -> Vec<u8> {
    let mut inner = tlv(0x02, version);
    for n in numbers {
        inner.extend(tlv(0x02, n));
    }
    let mut outer = tlv(0x02, &[0]);
    outer.extend(tlv(0x30, &tlv(0x06, oid)));
    outer.extend(tlv(0x04, &tlv(0x30, &inner)));
    tlv(0x30, &outer)
}

#[test]
fn key_reading_agrees_with_yasna_on_small_structures() {
    let eight: [&[u8]; 8] = [&[0x0c, 0x91], &[0x11], &[0x0a, 0xc1], &[0x3d], &[0x35], &[1], &[2], &[3]];
    let good = small_key(&[0], &RSA_OID, &eight);
    assert_eq!(
        read_with_library(&good),
        Some((vec![0x0c, 0x91], vec![0x11], vec![0x0a, 0xc1], vec![0x3d], vec![0x35]))
    );
    let mut cases = vec![good];
    cases.push(small_key(&[0], &RSA_OID, &eight[..7]));
    let nine: Vec<&[u8]> = eight.iter().cloned().chain([&[4u8][..]]).collect();
    cases.push(small_key(&[0], &RSA_OID, &nine));
    for number in [&[][..], &[0x00], &[0x00, 0x7f], &[0x00, 0x80], &[0x80], &[0xff, 0x80], &[0x7f, 0xff], &[0x00, 0x00, 0x01]] {
        let mut numbers = eight;
        numbers[0] = number;
        cases.push(small_key(&[0], &RSA_OID, &numbers));
        numbers = eight;
        numbers[7] = number;
        cases.push(small_key(&[0], &RSA_OID, &numbers));
    }
    for version in [&[][..], &[0x7f], &[0x80], &[0x00, 0x01], &[0x00, 0x80], &[0xff, 0x7f], &[0xff, 0x80], &[1, 2, 3, 4, 5, 6, 7, 8], &[1, 2, 3, 4, 5, 6, 7, 8, 9]] {
        cases.push(small_key(version, &RSA_OID, &eight));
    }
    for oid in [&[][..], &[0x2a], &[0x80, 0x01], &[0x2a, 0x80], &[0x2a, 0x86], &[0x81, 0x80, 0x01], &[0xff, 0xff, 0xff, 0xff, 0xff, 0xff, 0xff, 0xff, 0xff, 0x7f], &[0x81, 0xff, 0xff, 0xff, 0xff, 0xff, 0xff, 0xff, 0xff, 0x7f], &[0x82, 0xff, 0xff, 0xff, 0xff, 0xff, 0xff, 0xff, 0xff, 0x7f]] {
        cases.push(small_key(&[0], oid, &eight));
    }
    let mut accepted = 0;
    for case in &cases {
        let ours = read_with_library(case);
        assert_eq!(ours, read_with_yasna(case), "{:02x?}", case);
        if ours.is_some() {
            accepted += 1;
        }
    }
    assert!(accepted >= 8 && accepted < cases.len());
}

#[test]
fn lengths_must_be_encoded_as_der_demands() {
    let eight: [&[u8]; 8] = [&[0x0c, 0x91], &[0x11], &[0x0a, 0xc1], &[0x3d], &[0x35], &[1], &[2], &[3]];
    let good = small_key(&[0], &RSA_OID, &eight);
    assert!(good.len() < 128);
    let body = &good[2..];
    let mut cases: Vec<Vec<u8>> = Vec::new();
    for header in [&[0x30, 0x81, body.len() as u8][..], &[0x30, 0x82, 0, body.len() as u8], &[0x30, 0x80], &[0x30, 0xff], &[0x30, body.len() as u8 + 1], &[0x30, body.len() as u8 - 1], &[0x10, body.len() as u8], &[0x31, body.len() as u8], &[0xb0, body.len() as u8], &[0x30]] {
        cases.push([header, body].concat());
    }
    let mut max_length = vec![0x02, 0x88, 0xff, 0xff, 0xff, 0xff, 0xff, 0xff, 0xff, 0xfe];
    max_length.extend([0; 16]);
    for case in &cases {
        assert_eq!(read_with_library(case), None, "{:02x?}", case);
        assert_eq!(read_with_yasna(case), None, "{:02x?}", case);
    }
    assert_eq!(read_with_library(&max_length), None);
    assert_eq!(read_with_library(&[0x30, 0x89, 1, 0, 0, 0, 0, 0, 0, 0, 0]), None);
    let padded: Vec<u8> = (0..200).map(|_| 0u8).collect();
    let long = tlv(0x30, &padded);
    assert_eq!(&long[..3], &[0x30, 0x81, 200]);
    assert_eq!(read_with_library(&long), read_with_yasna(&long));
}

#[test]
fn a_key_is_loaded_from_pem_text() {
    let key = get_pkey_from_pem(&key_2048()).unwrap();
    assert_eq!(key.modulus.len(), 256);
    let key = get_pkey_from_pem(&key_1024()).unwrap();
    assert_eq!(key.modulus.len(), 128);
    let with_noise = format!("some text before\n{}and after\n", key_2048());
    assert!(get_pkey_from_pem(&with_noise).is_ok());
}

#[test]
fn text_without_a_pem_block_is_a_key_error() {
    let texts = [
        String::new(),
        "hello".to_string(),
        block("PRIVATE KEY", "AAAA", "PUBLIC KEY"),
        block("PRIVATE KEY", "!!!!", "PRIVATE KEY"),
    ];
    for text in texts {
        assert!(matches!(get_pkey_from_pem(&text), Err(NpdmError::KeyError(KeyFault::Pem))), "{}", text);
    }
}

#[test]
fn a_pem_block_without_a_key_is_a_key_error() {
    let text = block("PRIVATE KEY", "AAAA", "PRIVATE KEY");
    assert!(matches!(get_pkey_from_pem(&text), Err(NpdmError::KeyError(KeyFault::Der))));
    assert!(matches!(get_pkey_from_pem(&key_with_parameters()), Err(NpdmError::KeyError(KeyFault::Der))));
    assert_eq!(read_with_yasna(&der_of(&key_with_parameters())), None);
}

#[test]
fn numbers_that_do_not_belong_together_are_a_key_error() {
    // p = 61, q = 53, n = 3233, e = 17, d = 2753
    let good: [&[u8]; 8] = [&[0x0c, 0xa1], &[0x11], &[0x0a, 0xc1], &[0x3d], &[0x35], &[1], &[2], &[3]];
    assert!(key_from_contents(&small_key(&[0], &RSA_OID, &good)).is_ok());
    let mut cases: Vec<[&[u8]; 8]> = Vec::new();
    for (at, number) in [(0, &[0x0c, 0xa2][..]), (1, &[0x13]), (2, &[0x0a, 0xc2]), (3, &[0x3b]), (4, &[0x2f]), (1, &[0x01]), (3, &[0x00]), (3, &[0x01]), (4, &[0x00]), (4, &[0x01]), (0, &[0x00]), (1, &[0x40, 0, 0, 1])] {
        let mut numbers = good;
        numbers[at] = number;
        cases.push(numbers);
    }
    for numbers in cases {
        let der = small_key(&[0], &RSA_OID, &numbers);
        assert!(parse_private_key(&der).is_some());
        let r = key_from_contents(&der);
        assert!(matches!(r, Err(NpdmError::KeyError(KeyFault::Components))), "{:02x?}", numbers);
    }
    // e = 17, p = 2: nothing leaves 1 when divided by 1
    let two: [&[u8]; 8] = [&[0x6a], &[0x11], &[0x01], &[0x02], &[0x35], &[1], &[2], &[3]];
    let r = key_from_contents(&small_key(&[0], &RSA_OID, &two));
    assert!(matches!(r, Err(NpdmError::KeyError(KeyFault::Components))));
}

#[test]
fn validation_agrees_with_the_rsa_crate() {
    let good: [&[u8]; 8] = [&[0x0c, 0xa1], &[0x11], &[0x0a, 0xc1], &[0x3d], &[0x35], &[1], &[2], &[3]];
    let mut accepted = 0;
    for at in 0..5 {
        for first in 0..=0x7f {
            for second in [0x00, 0x11, 0x35, 0x3d, 0xa1, 0xc1] {
                let number = [first, second];
                let mut numbers = good;
                numbers[at] = if first == 0 && second < 0x80 { &number[1..] } else { &number[..] };
                let der = small_key(&[0], &RSA_OID, &numbers);
                let ours = key_from_contents(&der).is_ok();
                let value = |i: usize| BigUint::from_bytes_be(numbers[i]);
                let theirs = value(3) >= BigUint::from(2u8)
                    && value(4) >= BigUint::from(2u8)
                    && RSAPrivateKey::from_components(value(0), value(1), value(2), vec![value(3), value(4)])
                        .validate()
                        .is_ok();
                assert_eq!(ours, theirs, "{:02x?}", numbers);
                if ours {
                    accepted += 1;
                }
            }
        }
    }
    assert!(accepted >= 5);
}

#[test]
fn at_least_two_looks_at_the_whole_number() {
    assert!(!at_least_two(&[]));
    assert!(!at_least_two(&[0]));
    assert!(!at_least_two(&[1]));
    assert!(at_least_two(&[2]));
    assert!(!at_least_two(&[0, 0, 1]));
    assert!(at_least_two(&[0, 0, 2]));
    assert!(at_least_two(&[1, 0]));
    assert!(at_least_two(&[0, 1, 0]));
    assert!(at_least_two(&[0xff, 0xff]));
}

#[test]
fn a_signature_must_have_256_bytes() {
    assert_eq!(check_signature(Some(vec![7; 256])).unwrap(), vec![7; 256]);
    assert!(matches!(check_signature(Some(vec![7; 255])), Err(NpdmError::SignatureLength)));
    assert!(matches!(check_signature(Some(vec![7; 257])), Err(NpdmError::SignatureLength)));
    assert!(matches!(check_signature(Some(vec![])), Err(NpdmError::SignatureLength)));
    assert!(matches!(check_signature(None), Err(NpdmError::KeyError(KeyFault::Signing))));
}

fn public_key(pem_text: &str) -> RSAPublicKey {
    let key = get_pkey_from_pem(pem_text).unwrap();
    RSAPublicKey::new(BigUint::from_bytes_be(&key.modulus), BigUint::from_bytes_be(&key.public_exponent)).unwrap()
}

fn verifies(public: &RSAPublicKey, signed: &[u8], signature: &[u8]) -> bool {
    let hash = calculate_sha256(signed).unwrap();
    let padding = PaddingScheme::new_pss::<sha2::Sha256, _>(rand::thread_rng());
    public.verify(padding, &hash, signature).is_ok()
}

#[test]
fn a_digest_is_signed_with_pss() {
    let key = get_pkey_from_pem(&key_2048()).unwrap();
    let public = public_key(&key_2048());
    let hash = calculate_sha256(b"signed bytes").unwrap();
    let first = sign_digest(&key, &hash).unwrap();
    assert_eq!(first.len(), 256);
    assert!(verifies(&public, b"signed bytes", &first));
    assert!(!verifies(&public, b"other bytes", &first));
    let second = sign_digest(&key, &hash).unwrap();
    assert!(verifies(&public, b"signed bytes", &second));
    assert_ne!(first, second);
}

#[test]
fn a_short_key_gives_a_signature_of_the_wrong_length() {
    let key = get_pkey_from_pem(&key_1024()).unwrap();
    let hash = calculate_sha256(b"signed bytes").unwrap();
    assert!(matches!(sign_digest(&key, &hash), Err(NpdmError::SignatureLength)));
    let good: [&[u8]; 8] = [&[0x0c, 0xa1], &[0x11], &[0x0a, 0xc1], &[0x3d], &[0x35], &[1], &[2], &[3]];
    let tiny = key_from_contents(&small_key(&[0], &RSA_OID, &good)).unwrap();
    assert!(matches!(sign_digest(&tiny, &hash), Err(NpdmError::SignatureLength)));
}

#[test]
fn what_is_not_a_digest_cannot_be_signed() {
    let key = get_pkey_from_pem(&key_2048()).unwrap();
    assert!(matches!(sign_digest(&key, b"short"), Err(NpdmError::KeyError(KeyFault::Signing))));
}

fn descriptor() -> Npdm {
    Npdm {
        name: "signed".to_string(),
        product_code: None,
        signature_key_generation: None,
        main_thread_stack_size: HexOrNum(0x4000),
        main_thread_priority: 44,
        main_thread_core_number: 0,
        system_resource_size: None,
        version: None,
        address_space_type: 3,
        is_64_bit: true,
        optimize_memory_allocation: None,
        disable_device_address_space_merge: None,
        is_production: Some(false),
        unqualified_approval: None,
        memory_region: 0,
        program_id_range_min: None,
        program_id_range_max: None,
        program_id: HexOrNum(0x0100_0000_0000_2000),
        fs_access_control: FsAccessControl { flags: HexOrNum(0x8000_0000_0000_0001) },
        accessed_services: Some(vec!["sm:".to_string()]),
        hosted_services: Some(vec![]),
        service_access_control: None,
        kernel_capabilities: KernelCapabilities::TypeValueList(vec![
            KernelCapability::EnableSystemCalls(SystemCalls::Name(vec![SystemCallId(1), SystemCallId(2)])),
            KernelCapability::MiscParams(ProgramType::Value(HexOrNum(0))),
        ]),
        developer_key: None,
    }
}

#[test]
fn the_signature_verifies_against_the_unsigned_declaration() {
    let npdm = descriptor();
    let blob = npdm.into_npdm(AcidBehavior::Sign { pem: &key_2048() }).unwrap();
    let acid_size = u32::from_le_bytes([blob[0x7c], blob[0x7d], blob[0x7e], blob[0x7f]]) as usize;
    let signature = &blob[0x80..0x180];
    let signed = &blob[0x180..0x80 + acid_size];
    assert!(verifies(&public_key(&key_2048()), signed, signature));
    assert!(!verifies(&public_key(&key_2048()), &blob[0x181..0x80 + acid_size], signature));

    let mut body = Vec::new();
    write_acid(&mut body, &npdm, &npdm.encode_sections().unwrap()).unwrap();
    assert_eq!(signed, &body[..]);

    let placeholder = npdm.into_npdm(AcidBehavior::Empty).unwrap();
    assert_eq!(blob.len(), placeholder.len());
    assert_eq!(&blob[..0x80], &placeholder[..0x80]);
    assert_eq!(&blob[0x180..], &placeholder[0x180..]);
    assert_eq!(&placeholder[0x80..0x180], &[0u8; 0x100][..]);
    assert_ne!(signature, &[0u8; 0x100][..]);
}

#[test]
fn signing_fails_before_anything_is_put_out() {
    let npdm = descriptor();
    let r = npdm.into_npdm(AcidBehavior::Sign { pem: "no key" });
    assert!(matches!(r, Err(NpdmError::KeyError(KeyFault::Pem))));
    let r = npdm.into_npdm(AcidBehavior::Sign { pem: &key_with_parameters() });
    assert!(matches!(r, Err(NpdmError::KeyError(KeyFault::Der))));
    let r = npdm.into_npdm(AcidBehavior::Sign { pem: &key_1024() });
    assert!(matches!(r, Err(NpdmError::SignatureLength)));
    let mut bad = descriptor();
    bad.memory_region = 4;
    let r = bad.into_npdm(AcidBehavior::Sign { pem: "no key" });
    assert!(matches!(r, Err(NpdmError::InvalidValue(f)) if f == "memory_region"));
}

#[test]
fn a_length_beyond_the_buffer_is_turned_down() {
    let eight: [&[u8]; 8] = [&[0x0c, 0xa1], &[0x11], &[0x0a, 0xc1], &[0x3d], &[0x35], &[1], &[2], &[3]];
    let good = small_key(&[0], &RSA_OID, &eight);
    assert_eq!(&good[2..5], &[0x02, 0x01, 0x00]);
    // The version of the outer structure claims nearly 2^64 bytes.
    let mut huge = good[..3].to_vec();
    huge.extend([0x88, 0xff, 0xff, 0xff, 0xff, 0xff, 0xff, 0xff, 0xff]);
    huge.extend(&good[4..]);
    huge[1] += 8;
    assert_eq!(read_with_library(&huge), None);
    let mut huge = good[..3].to_vec();
    huge.extend([0x88, 0x7f, 0xff, 0xff, 0xff, 0xff, 0xff, 0xff, 0xff]);
    huge.extend(&good[4..]);
    huge[1] += 8;
    assert_eq!(read_with_library(&huge), None);
    assert!(matches!(key_from_contents(&huge), Err(NpdmError::KeyError(KeyFault::Der))));
}

#[test]
fn a_modulus_needs_34_bytes_to_sign() {
    let mut key = get_pkey_from_pem(&key_2048()).unwrap();
    assert!(is_wide_enough(&key));
    key.modulus = vec![1; 34];
    assert!(is_wide_enough(&key));
    key.modulus = vec![1; 33];
    assert!(!is_wide_enough(&key));
    key.modulus = [vec![0; 40], vec![1; 33]].concat();
    assert!(!is_wide_enough(&key));
    key.modulus = [vec![0; 40], vec![1; 34]].concat();
    assert!(is_wide_enough(&key));
    key.modulus = vec![0; 300];
    assert!(!is_wide_enough(&key));
    key.modulus = vec![];
    assert!(!is_wide_enough(&key));
}

#[test]
fn the_first_byte_of_a_modulus_counts() {
    let mut key = get_pkey_from_pem(&key_2048()).unwrap();
    assert_eq!(key.modulus[0], 0xff);
    assert!(modulus_fills_its_bytes(&key));
    for (modulus, fills) in [
        (vec![], false),
        (vec![0], false),
        (vec![0, 0, 0], false),
        (vec![1], false),
        (vec![1, 0xff, 0xff], false),
        (vec![0, 0, 1, 0xff], false),
        (vec![2], true),
        (vec![0, 2, 0], true),
        (vec![0x80, 0, 0], true),
        (vec![0, 0, 0xff], true),
    ] {
        key.modulus = modulus;
        assert_eq!(modulus_fills_its_bytes(&key), fills, "{:?}", key.modulus);
    }
}

#[test]
fn a_signature_that_is_handed_out_verifies() {
    let key = get_pkey_from_pem(&key_2048()).unwrap();
    let public = public_key(&key_2048());
    for message in [&b""[..], b"a", b"the declaration"] {
        let hash = calculate_sha256(message).unwrap();
        assert_eq!(hash.len(), 32);
        let signature = sign_digest(&key, &hash).unwrap();
        assert!(verifies(&public, message, &signature));
        let mut other = signature.clone();
        other[100] ^= 1;
        assert!(!verifies(&public, message, &other));
    }
}
