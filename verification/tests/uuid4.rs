use std::collections::hash_map::DefaultHasher;
use std::hash::{Hash, Hasher};

use nice_trader::uuid::{UUID4Error, UUID4, UUID4_LEN};
use uuid::Uuid;

fn rejection(s: &str) -> &'static str {
    match UUID4::parse(s) {
        Ok(_) => "",
        Err(e) => e.message(),
    }
}

#[test]
fn test_new() {
    let uuid = UUID4::new();
    let uuid_string = uuid.to_string();
    let uuid_parsed = Uuid::parse_str(&uuid_string).unwrap();
    assert_eq!(uuid_parsed.get_version().unwrap(), uuid::Version::Random);
    assert_eq!(uuid_parsed.to_string().len(), 36);

    assert_eq!(&uuid_string[14..15], "4");
    let variant_char = &uuid_string[19..20];
    assert!(matches!(variant_char, "8" | "9" | "a" | "b" | "A" | "B"));
}

#[test]
fn test_uuid_format() {
    let uuid = UUID4::new();
    let bytes = uuid.value;

    assert_eq!(bytes.len(), UUID4_LEN);
    assert_eq!(bytes[36], 0);

    assert_eq!(bytes[8] as char, '-');
    assert_eq!(bytes[13] as char, '-');
    assert_eq!(bytes[18] as char, '-');
    assert_eq!(bytes[23] as char, '-');

    let s = uuid.to_string();
    assert_eq!(s.chars().nth(14).unwrap(), '4');
}

#[test]
fn test_from_random_bytes() {
    let uuid = UUID4::from_random_bytes([0xff; 16]);
    assert_eq!(uuid.to_string(), "ffffffff-ffff-4fff-bfff-ffffffffffff");
    let uuid = UUID4::from_random_bytes([0; 16]);
    assert_eq!(uuid.to_string(), "00000000-0000-4000-8000-000000000000");
    let uuid = UUID4::from_random_bytes([
        0x2d, 0x89, 0x66, 0x6b, 0x1a, 0x1e, 0x0a, 0x75, 0x33, 0x93, 0x4e, 0xb3, 0xb4, 0x54, 0xc7,
        0x57,
    ]);
    assert_eq!(uuid.to_string(), "2d89666b-1a1e-4a75-b393-4eb3b454c757");
}

#[test]
fn test_from_str_with_non_version_4_uuid_is_rejected() {
    let uuid_string = "6ba7b810-9dad-11d1-80b4-00c04fd430c8"; // v1 UUID
    assert_eq!(rejection(uuid_string), "UUID is not version 4");
}

#[test]
fn test_case_insensitive_parsing() {
    let upper = "2D89666B-1A1E-4A75-B193-4EB3B454C757";
    let lower = "2d89666b-1a1e-4a75-b193-4eb3b454c757";
    let uuid_upper = UUID4::from(upper);
    let uuid_lower = UUID4::from(lower);

    assert!(uuid_upper == uuid_lower);
    assert_eq!(uuid_upper.to_string(), lower);
}

#[test]
fn test_invalid_version_v1() {
    assert_eq!(rejection("6ba7b810-9dad-11d1-80b4-00c04fd430c8"), "UUID is not version 4");
}

#[test]
fn test_invalid_version_v2() {
    assert_eq!(rejection("000001f5-8fa9-21d1-9df3-00e098032b8c"), "UUID is not version 4");
}

#[test]
fn test_invalid_version_v3() {
    assert_eq!(rejection("3d813cbb-47fb-32ba-91df-831e1593ac29"), "UUID is not version 4");
}

#[test]
fn test_invalid_version_v5() {
    assert_eq!(rejection("fb4f37c1-4ba3-5173-9812-2b90e76a06f7"), "UUID is not version 4");
}

#[test]
fn test_non_rfc4122_variant() {
    assert_eq!(rejection("550e8400-e29b-41d4-0000-446655440000"), "UUID is not RFC 4122 variant");
}

#[test]
fn test_parse_errors() {
    assert!(matches!(
        UUID4::parse("6ba7b810-9dad-11d1-80b4-00c04fd430c8"),
        Err(UUID4Error::NotVersion4)
    ));
    assert!(matches!(
        UUID4::parse("550e8400-e29b-41d4-0000-446655440000"),
        Err(UUID4Error::NotRfc4122Variant)
    ));
    assert!(matches!(UUID4::parse("nope"), Err(UUID4Error::InvalidText)));
}

#[test]
fn test_invalid_uuid_cases() {
    for invalid_uuid in [
        "",
        "not-a-uuid-at-all",
        "6ba7b810-9dad-11d1-80b4",
        "6ba7b810-9dad-11d1-80b4-00c04fd430c8-extra",
        "6ba7b810-9dad-11d1-80b4=00c04fd430c8",
        "6ba7b81019dad111d180b400c04fd430c8",
        "6ba7b810-9dad-11d1-80b4-00c04fd430",
        "6ba7b810-9dad-11d1-80b4-00c04fd430cg",
    ] {
        assert!(matches!(UUID4::from_str(invalid_uuid), Err(UUID4Error::InvalidText)));
    }
}

#[test]
fn test_other_accepted_forms() {
    let lower = "2d89666b-1a1e-4a75-b193-4eb3b454c757";
    for form in [
        "2d89666b1a1e4a75b1934eb3b454c757",
        "{2d89666b-1a1e-4a75-b193-4eb3b454c757}",
        "urn:uuid:2d89666b-1a1e-4a75-b193-4eb3b454c757",
        "URN:UUID:2D89666B-1A1E-4A75-B193-4EB3B454C757",
    ] {
        assert_eq!(UUID4::from_str(form).ok().unwrap().to_string(), lower);
    }
}

#[test]
fn test_default() {
    let uuid: UUID4 = UUID4::default();
    let uuid_string = uuid.to_string();
    let uuid_parsed = Uuid::parse_str(&uuid_string).unwrap();
    assert_eq!(uuid_parsed.get_version().unwrap(), uuid::Version::Random);
}

#[test]
fn test_from_str() {
    let uuid_string = "2d89666b-1a1e-4a75-b193-4eb3b454c757";
    let uuid = UUID4::from(uuid_string);
    let result_string = uuid.to_string();
    let result_parsed = Uuid::parse_str(&result_string).unwrap();
    let expected_parsed = Uuid::parse_str(uuid_string).unwrap();
    assert_eq!(result_parsed, expected_parsed);
}

#[test]
fn test_from_uuid() {
    let original = uuid::Uuid::new_v4();
    let uuid4 = UUID4::from_uuid_bytes(*original.as_bytes());
    assert_eq!(uuid4.to_string(), original.to_string());
}

#[test]
fn test_equality() {
    let uuid1 = UUID4::from("2d89666b-1a1e-4a75-b193-4eb3b454c757");
    let uuid2 = UUID4::from("46922ecb-4324-4e40-a56c-841e0d774cef");
    assert!(uuid1 == uuid1);
    assert!(uuid1 != uuid2);
}

#[test]
fn test_debug() {
    let uuid_string = "2d89666b-1a1e-4a75-b193-4eb3b454c757";
    let uuid = UUID4::from(uuid_string);
    assert_eq!(uuid.debug_string(), format!("UUID4({uuid_string})"));
}

#[test]
fn test_display() {
    let uuid_string = "2d89666b-1a1e-4a75-b193-4eb3b454c757";
    let uuid = UUID4::from(uuid_string);
    assert_eq!(uuid.to_string(), uuid_string);
}

#[test]
fn test_as_str() {
    let uuid = UUID4::new();
    let s = uuid.as_str();

    assert_eq!(s, uuid.to_string());
    assert_eq!(s.len(), 36);
}

#[test]
fn test_hash_consistency() {
    let uuid = UUID4::new();

    let mut hasher1 = DefaultHasher::new();
    let mut hasher2 = DefaultHasher::new();

    uuid.hash(&mut hasher1);
    uuid.hash(&mut hasher2);

    assert_eq!(hasher1.finish(), hasher2.finish());
}

#[test]
fn test_as_bytes() {
    let uuid_string = "2d89666b-1a1e-4a75-b193-4eb3b454c757";
    let uuid = UUID4::from(uuid_string);

    let bytes = uuid.as_bytes();
    assert_eq!(bytes.len(), 16);

    let reconstructed = Uuid::from_bytes(bytes);
    assert_eq!(reconstructed.to_string(), uuid_string);
    assert_eq!(reconstructed.get_version().unwrap(), uuid::Version::Random);
}

#[test]
fn test_as_bytes_round_trip() {
    let uuid1 = UUID4::new();
    let bytes = uuid1.as_bytes();
    let uuid2 = UUID4::from_uuid_bytes(*Uuid::from_bytes(bytes).as_bytes());

    assert!(uuid1 == uuid2);
}

#[test]
fn test_text_round_trip() {
    let uuid1 = UUID4::new();
    let uuid2 = UUID4::from_str(uuid1.as_str()).ok().unwrap();
    assert!(uuid1 == uuid2);
}

#[test]
fn test_validate_v4() {
    let mut bytes = [0u8; 16];
    bytes[6] = 0x4a;
    bytes[8] = 0xbf;
    assert_eq!(UUID4::validate_v4(&bytes), Ok(()));
    bytes[8] = 0xc0;
    assert_eq!(UUID4::validate_v4(&bytes), Err(UUID4Error::NotRfc4122Variant));
    bytes[6] = 0x1a;
    assert_eq!(UUID4::validate_v4(&bytes), Err(UUID4Error::NotVersion4));
}

#[test]
fn test_display_of_invalid_utf8_is_lossy() {
    let mut uuid = UUID4::from("2d89666b-1a1e-4a75-b193-4eb3b454c757");
    uuid.value[0] = 0xff;
    assert_eq!(uuid.to_string(), "\u{FFFD}d89666b-1a1e-4a75-b193-4eb3b454c757");
    assert_eq!(uuid.debug_string(), "UUID4(\u{FFFD}d89666b-1a1e-4a75-b193-4eb3b454c757)");
}

#[test]
fn test_equality_up_to_case() {
    let a = UUID4::from("2D89666B-1A1E-4A75-B193-4EB3B454C757");
    let b = UUID4::from("2d89666b-1a1e-4a75-b193-4EB3B454C757");
    let c = UUID4::from("46922ecb-4324-4e40-a56c-841e0d774cef");
    assert!(a == b);
    assert!(a != c);
}
