use crystory::store::{
    accept_marker, after_write, decide_marker, decide_marker_with, read_marker, MarkerDecision,
    MARKER_FILE_NAME,
};
use crystory::uuid_text::usable_identifier;

const VALID: &str = "67e55044-10b1-426f-9247-bb680e5fe0c8";
const OTHER: &str = "0a1b2c3d-4e5f-4a6b-8c7d-9e0f1a2b3c4d";
const NIL: &str = "00000000-0000-0000-0000-000000000000";

fn text(s: &str) -> Option<String> {
    Some(s.to_string())
}

#[test]
fn marker_file_has_its_name() {
    assert_eq!(MARKER_FILE_NAME, ".crystory_uuid");
}

#[test]
fn valid_marker_is_returned_verbatim() {
    assert_eq!(accept_marker(VALID), text(VALID));
    assert_eq!(accept_marker("F9168C5E-CEB2-4faa-B6BF-329BF39FA1E4"), text("F9168C5E-CEB2-4faa-B6BF-329BF39FA1E4"));
    assert_eq!(accept_marker("67e5504410b1426f9247bb680e5fe0c8"), text("67e5504410b1426f9247bb680e5fe0c8"));
}

#[test]
fn whitespace_around_a_marker_is_tolerated() {
    assert_eq!(accept_marker("67e55044-10b1-426f-9247-bb680e5fe0c8\n"), text(VALID));
    assert_eq!(accept_marker("  67e55044-10b1-426f-9247-bb680e5fe0c8 \r\n"), text(VALID));
    assert_eq!(accept_marker("\t67e55044-10b1-426f-9247-bb680e5fe0c8\u{a0}"), text(VALID));
}

#[test]
fn garbage_and_nil_markers_are_not_accepted() {
    assert_eq!(accept_marker(""), None);
    assert_eq!(accept_marker("   "), None);
    assert_eq!(accept_marker("not a uuid"), None);
    assert_eq!(accept_marker(NIL), None);
    assert_eq!(accept_marker("00000000-0000-0000-0000-000000000000\n"), None);
    assert_eq!(accept_marker("67e55044-10b1-426f-9247 bb680e5fe0c8"), None);
}

#[test]
fn missing_marker_holds_no_identifier() {
    assert_eq!(read_marker(&None), None);
    assert_eq!(read_marker(&text(VALID)), text(VALID));
    assert_eq!(read_marker(&text("junk")), None);
}

#[test]
fn decision_keeps_a_valid_marker_and_replaces_anything_else() {
    let fresh = || OTHER.to_string();
    assert_eq!(decide_marker_with(&text(VALID), fresh()), MarkerDecision::Keep(VALID.to_string()));
    assert_eq!(
        decide_marker_with(&text("67e55044-10b1-426f-9247-bb680e5fe0c8  "), fresh()),
        MarkerDecision::Keep(VALID.to_string())
    );
    assert_eq!(decide_marker_with(&None, fresh()), MarkerDecision::Replace(OTHER.to_string()));
    assert_eq!(decide_marker_with(&text("junk"), fresh()), MarkerDecision::Replace(OTHER.to_string()));
    assert_eq!(decide_marker_with(&text(NIL), fresh()), MarkerDecision::Replace(OTHER.to_string()));
}

#[test]
fn minted_identifier_is_a_version_4_uuid_in_canonical_form() {
    for marker in [None, text("junk"), text(NIL)] {
        match decide_marker(&marker) {
            MarkerDecision::Replace(id) => {
                assert_eq!(id.len(), 36);
                assert!(usable_identifier(&id));
                let chars: Vec<char> = id.chars().collect();
                for (i, c) in chars.iter().enumerate() {
                    if i == 8 || i == 13 || i == 18 || i == 23 {
                        assert_eq!(*c, '-');
                    } else {
                        assert!(c.is_ascii_digit() || ('a'..='f').contains(c));
                    }
                }
                assert_eq!(chars[14], '4');
                assert!(['8', '9', 'a', 'b'].contains(&chars[19]));
                assert_eq!(id, id.trim());
                assert_eq!(accept_marker(&id), Some(id.clone()));
            }
            MarkerDecision::Keep(id) => panic!("kept {id}"),
        }
    }
}

#[test]
fn minted_identifiers_differ() {
    let a = decide_marker(&None);
    let b = decide_marker(&None);
    assert_ne!(a, b);
}

#[test]
fn decide_marker_keeps_a_valid_marker() {
    assert_eq!(decide_marker(&text(VALID)), MarkerDecision::Keep(VALID.to_string()));
    assert_eq!(decide_marker(&text("\n67e55044-10b1-426f-9247-bb680e5fe0c8\n")), MarkerDecision::Keep(VALID.to_string()));
}

#[test]
fn failed_write_leaves_no_identifier() {
    assert_eq!(after_write(VALID.to_string(), true), text(VALID));
    assert_eq!(after_write(VALID.to_string(), false), None);
}

/// One resolution against a marker held in memory.
fn resolve(marker: &mut Option<String>, writable: bool) -> Option<String> {
    match decide_marker(marker) {
        MarkerDecision::Keep(id) => Some(id),
        MarkerDecision::Replace(minted) => {
            if writable {
                *marker = Some(minted.clone());
            }
            after_write(minted, writable)
        }
    }
}

#[test]
fn resolving_twice_gives_the_same_identifier() {
    for start in [None, text("junk"), text(NIL), text(VALID), text("  67e55044-10b1-426f-9247-bb680e5fe0c8\n")] {
        let mut marker = start.clone();
        let first = resolve(&mut marker, true);
        let after_first = marker.clone();
        let second = resolve(&mut marker, true);
        assert!(first.is_some());
        assert_eq!(first, second);
        assert_eq!(marker, after_first);
    }
}

#[test]
fn valid_marker_is_not_overwritten() {
    let mut marker = text(VALID);
    assert_eq!(resolve(&mut marker, true), text(VALID));
    assert_eq!(marker, text(VALID));
}

#[test]
fn corrupt_marker_is_replaced_by_a_fresh_identifier() {
    let mut marker = text("\u{0}\u{1}garbage");
    let id = resolve(&mut marker, true).unwrap();
    assert!(usable_identifier(&id));
    assert_eq!(marker, Some(id));
}

#[test]
fn read_only_volume_yields_no_identifier() {
    let mut marker = None;
    assert_eq!(resolve(&mut marker, false), None);
    assert_eq!(marker, None);
    let mut marker = text(VALID);
    assert_eq!(resolve(&mut marker, false), text(VALID));
}
