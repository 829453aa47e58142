use updown_core::codec::{decode_record, record_text};
use updown_core::paths::path_basename;
use updown_core::recent::RecentFiles;

#[test]
fn decode_missing_record_is_empty() {
    let got = decode_record(None);
    assert!(got.is_empty());
}

#[test]
fn decode_malformed_record_is_empty() {
    assert!(decode_record(Some("not json at all")).is_empty());
    assert!(decode_record(Some("{\"a\": 1}")).is_empty());
    assert!(decode_record(Some("[1, 2, 3]")).is_empty());
    assert!(decode_record(Some("")).is_empty());
}

#[test]
fn decode_well_formed_record() {
    let got = decode_record(Some("[\"/x/a.md\", \"/x/b.md\"]"));
    assert_eq!(got, vec!["/x/a.md".to_string(), "/x/b.md".to_string()]);
}

#[test]
fn record_of_empty_list_is_empty_array() {
    let s = RecentFiles::new();
    assert_eq!(record_text(&s), "[]");
}

#[test]
fn clear_persists_an_empty_record() {
    let mut s = RecentFiles::new();
    s.add("/x/a.md".to_string());
    s.clear();
    assert_eq!(record_text(&s), "[]");
}

#[test]
fn record_round_trips_through_decode() {
    let mut s = RecentFiles::new();
    s.add("/x/a.md".to_string());
    s.add("/y/b b.md".to_string());
    s.add("/z/\"quoted\".md".to_string());
    let text = record_text(&s);
    let back = decode_record(Some(&text));
    assert_eq!(&back, s.entries());
}

#[test]
fn basename_of_unix_path() {
    assert_eq!(path_basename("/a/b/c.md"), "c.md");
}

#[test]
fn basename_of_windows_path() {
    assert_eq!(path_basename("C:\\a\\b.md"), "b.md");
}

#[test]
fn basename_of_plain_name() {
    assert_eq!(path_basename("plainname"), "plainname");
}

#[test]
fn basename_edge_cases() {
    assert_eq!(path_basename(""), "");
    assert_eq!(path_basename("a/"), "");
    assert_eq!(path_basename("/x/mixed\\sep.md"), "sep.md");
}
