use bb_core::canonical::{CanonicalLink, SourceDomain};
use bb_core::probe::{classify_probe, probe_url, ProbeResult, Verification, STATUS_OK};
use bb_core::storage::{LinkTable, StoreOutcome};
use bb_core::text::{from_chars, str_eq, to_chars};

#[test]
fn new_table_is_empty() {
    let table = LinkTable::new();
    assert_eq!(table.len(), 0);
    assert!(!table.contains("https://youtube.com/watch?v=a"));
    assert_eq!(table.get(0), None);
}

#[test]
fn insert_appends_in_order() {
    let mut table = LinkTable::new();
    assert_eq!(table.insert("a".to_string()), StoreOutcome::Inserted);
    assert_eq!(table.insert("b".to_string()), StoreOutcome::Inserted);
    assert_eq!(table.insert("".to_string()), StoreOutcome::Inserted);
    assert_eq!(table.len(), 3);
    assert_eq!(table.get(0).unwrap(), "a");
    assert_eq!(table.get(1).unwrap(), "b");
    assert_eq!(table.get(2).unwrap(), "");
    assert_eq!(table.get(3), None);
    assert!(table.contains("b"));
    assert!(!table.contains("c"));
}

#[test]
fn insert_of_a_held_url_is_a_conflict() {
    let mut table = LinkTable::new();
    assert_eq!(table.insert("a".to_string()), StoreOutcome::Inserted);
    assert_eq!(table.insert("b".to_string()), StoreOutcome::Inserted);
    assert_eq!(table.insert("a".to_string()), StoreOutcome::Conflict);
    assert_eq!(table.insert("b".to_string()), StoreOutcome::Conflict);
    assert_eq!(table.len(), 2);
    assert_eq!(table.insert("A".to_string()), StoreOutcome::Inserted);
    assert_eq!(table.len(), 3);
}

#[test]
fn table_never_holds_a_url_twice() {
    let mut table = LinkTable::new();
    for url in ["x", "y", "x", "z", "y", "x", "", ""] {
        table.insert(url.to_string());
    }
    assert_eq!(table.len(), 4);
    for i in 0..table.len() {
        for j in 0..i {
            assert_ne!(table.get(i), table.get(j));
        }
    }
}

#[test]
fn only_status_200_verifies() {
    assert_eq!(STATUS_OK, 200);
    assert_eq!(classify_probe(ProbeResult::Responded { status: 200 }), Verification::Verified);
    for status in [0, 100, 199, 201, 204, 299, 301, 400, 404, 500, u16::MAX] {
        assert_eq!(classify_probe(ProbeResult::Responded { status }), Verification::Rejected);
    }
    assert_eq!(classify_probe(ProbeResult::Failed), Verification::Rejected);
}

#[test]
fn probe_asks_about_the_canonical_url() {
    let link = CanonicalLink { source_domain: SourceDomain::ShortHost, resource_id: "xyz789".to_string() };
    assert_eq!(
        probe_url(&link),
        "https://www.youtube.com/oembed?format=json&url=https://youtube.com/watch?v=xyz789"
    );
    let empty = CanonicalLink { source_domain: SourceDomain::PrimaryHost, resource_id: String::new() };
    assert_eq!(probe_url(&empty), "https://www.youtube.com/oembed?format=json&url=https://youtube.com/watch?v=");
}

#[test]
fn chars_round_trip() {
    for s in ["", "abc", "v=é&x", "日本語 text"] {
        let chars = to_chars(s);
        assert_eq!(chars, s.chars().collect::<Vec<char>>());
        assert_eq!(from_chars(&chars, 0, chars.len()), s);
    }
    let chars = to_chars("héllo");
    assert_eq!(from_chars(&chars, 1, 3), "él");
    assert_eq!(from_chars(&chars, 2, 2), "");
}

#[test]
fn str_eq_compares_whole_strings() {
    assert!(str_eq("", ""));
    assert!(str_eq("music", "music"));
    assert!(!str_eq("music", "musics"));
    assert!(!str_eq("musics", "music"));
    assert!(!str_eq("music", "musik"));
    assert!(!str_eq("", "a"));
    assert!(str_eq("é", "é"));
    assert!(!str_eq("e", "é"));
}
