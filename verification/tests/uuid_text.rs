use crystory::text::{display_form, same_text};
use crystory::uuid_text::{is_nil_uuid, usable_identifier, NIL_UUID};

#[test]
fn nil_sentinel_is_recognised() {
    assert_eq!(NIL_UUID, "00000000-0000-0000-0000-000000000000");
    assert!(is_nil_uuid("00000000-0000-0000-0000-000000000000"));
    assert!(!is_nil_uuid("00000000-0000-0000-0000-000000000001"));
    assert!(!is_nil_uuid("00000000000000000000000000000000"));
    assert!(!is_nil_uuid(""));
}

#[test]
fn every_form_that_parses_is_usable() {
    assert!(usable_identifier("67e55044-10b1-426f-9247-bb680e5fe0c8"));
    assert!(usable_identifier("F9168C5E-CEB2-4faa-B6BF-329BF39FA1E4"));
    assert!(usable_identifier("67e5504410b1426f9247bb680e5fe0c8"));
    assert!(usable_identifier("{67e55044-10b1-426f-9247-bb680e5fe0c8}"));
    assert!(usable_identifier("urn:uuid:67e55044-10b1-426f-9247-bb680e5fe0c8"));
    assert!(usable_identifier("URN:UUID:67e55044-10b1-426f-9247-bb680e5fe0c8"));
    assert!(usable_identifier("Urn:Uuid:67e55044-10b1-426f-9247-bb680e5fe0c8"));
}

#[test]
fn the_nil_sentinel_is_not_usable() {
    assert!(!usable_identifier("00000000-0000-0000-0000-000000000000"));
}

#[test]
fn what_does_not_parse_is_not_usable() {
    assert!(!usable_identifier(""));
    assert!(!usable_identifier("garbage"));
    assert!(!usable_identifier("67e55044-10b1-426f-9247-bb680e5fe0c"));
    assert!(!usable_identifier("67e55044-10b1-426f-9247-bb680e5fe0c8a"));
    assert!(!usable_identifier("67e55044-10b1-426f-9247-bb680e5fe0cg"));
    assert!(!usable_identifier("67e55044010b1-426f-9247-bb680e5fe0c8"));
    assert!(!usable_identifier("67e5504410b1426f9247bb680e5fe0cx"));
    assert!(!usable_identifier("[67e55044-10b1-426f-9247-bb680e5fe0c8]"));
    assert!(!usable_identifier("{67e55044-10b1-426f-9247-bb680e5fe0c8"));
    assert!(!usable_identifier("{67e5504410b1426f9247bb680e5fe0c8}"));
    assert!(!usable_identifier("urn-uuid:67e55044-10b1-426f-9247-bb680e5fe0c8"));
    assert!(!usable_identifier("urn:uuid:67e5504410b1426f9247bb680e5fe0c8"));
    assert!(!usable_identifier(" 67e55044-10b1-426f-9247-bb680e5fe0c8"));
    assert!(!usable_identifier("67e55044-10b1-426f-9247-bb680e5fe0c8\n"));
    assert!(!usable_identifier("67e55044-10b1-426f-9247-bb680e5fe0é"));
}

#[test]
fn display_form_is_upper_case() {
    assert_eq!(display_form("ab12cd34-00ef-4a5b-8c6d-0123456789ab"), "AB12CD34-00EF-4A5B-8C6D-0123456789AB");
    assert_eq!(display_form("AB12"), "AB12");
    assert_eq!(display_form("a-z {1}"), "A-Z {1}");
    assert_eq!(display_form(""), "");
}

#[test]
fn display_form_of_text_outside_ascii_is_its_unicode_upper_case() {
    assert_eq!(display_form("é1"), "É1");
    assert_eq!(display_form("tschüß"), "TSCHÜSS");
}

#[test]
fn same_text_compares_characters() {
    assert!(same_text("abc", "abc"));
    assert!(!same_text("abc", "abd"));
    assert!(!same_text("abc", "ABC"));
    assert!(same_text("", ""));
}
