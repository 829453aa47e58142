use updown_core::recent::RecentFiles;

fn store_with(paths: &[&str]) -> RecentFiles {
    let mut s = RecentFiles::new();
    for p in paths {
        s.add(p.to_string());
    }
    s
}

#[test]
fn add_dedups_and_moves_to_front() {
    let s = store_with(&["/x/a.md", "/x/b.md", "/x/a.md"]);
    let got: Vec<String> = s.entries().clone();
    assert_eq!(got, vec!["/x/a.md".to_string(), "/x/b.md".to_string()]);
}

#[test]
fn add_present_keeps_length() {
    let mut s = store_with(&["/a", "/b", "/c"]);
    assert_eq!(s.len(), 3);
    s.add("/b".to_string());
    assert_eq!(s.len(), 3);
    let got: Vec<String> = s.entries().clone();
    assert_eq!(got, vec!["/b".to_string(), "/c".to_string(), "/a".to_string()]);
}

#[test]
fn add_caps_at_ten_and_drops_oldest() {
    let mut s = RecentFiles::new();
    for i in 0..10 {
        s.add(format!("/doc/{i}.md"));
    }
    assert_eq!(s.len(), 10);
    s.add("/doc/new.md".to_string());
    assert_eq!(s.len(), 10);
    assert_eq!(s.entries()[0], "/doc/new.md");
    // the oldest entry, /doc/0.md, is gone
    assert!(!s.entries().iter().any(|p| p == "/doc/0.md"));
    // the rest survive in order, most recent first
    assert_eq!(s.entries()[9], "/doc/1.md");
}

#[test]
fn no_duplicates_after_any_adds() {
    let mut s = RecentFiles::new();
    let paths = ["/a", "/b", "/a", "/c", "/b", "/a", "/d"];
    for p in paths {
        s.add(p.to_string());
    }
    let es = s.entries();
    assert!(es.len() <= 10);
    for i in 0..es.len() {
        for j in (i + 1)..es.len() {
            assert_ne!(es[i], es[j]);
        }
    }
    assert_eq!(es.clone(), vec!["/d".to_string(), "/a".to_string(), "/b".to_string(), "/c".to_string()]);
}

#[test]
fn clear_empties_the_list() {
    let mut s = store_with(&["/a", "/b"]);
    s.clear();
    assert_eq!(s.len(), 0);
    assert!(s.entries().is_empty());
}

#[test]
fn get_is_positional() {
    let s = store_with(&["/a", "/b", "/c"]);
    assert_eq!(s.get(0), Some(&"/c".to_string()));
    assert_eq!(s.get(2), Some(&"/a".to_string()));
    assert_eq!(s.get(3), None);
}

#[test]
fn from_survivors_filters_and_keeps_order() {
    let entries: Vec<String> =
        ["/a", "/b", "/c", "/d"].iter().map(|p| p.to_string()).collect();
    let alive = vec![true, false, true, false];
    let s = RecentFiles::from_survivors(entries, &alive);
    let got: Vec<String> = s.entries().clone();
    assert_eq!(got, vec!["/a".to_string(), "/c".to_string()]);
}

#[test]
fn from_survivors_caps_at_ten() {
    let entries: Vec<String> = (0..12).map(|i| format!("/doc/{i}.md")).collect();
    let alive = vec![true; 12];
    let s = RecentFiles::from_survivors(entries, &alive);
    assert_eq!(s.len(), 10);
    assert_eq!(s.entries()[0], "/doc/0.md");
    assert_eq!(s.entries()[9], "/doc/9.md");
}
