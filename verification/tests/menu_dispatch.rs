use updown_core::dispatch::{menu_event_action, MenuChoice};
use updown_core::menu::{recent_menu_model, MenuEntry};
use updown_core::recent::RecentFiles;
use updown_core::text::parse_dec_usize;

#[test]
fn menu_for_empty_store_is_one_disabled_placeholder() {
    let s = RecentFiles::new();
    let m = recent_menu_model(&s);
    assert_eq!(m.len(), 1);
    match &m[0] {
        MenuEntry::Action { id, label, enabled } => {
            assert_eq!(id, "no_recent");
            assert_eq!(label, "No Recent Items");
            assert!(!*enabled);
        },
        MenuEntry::Separator => panic!("placeholder expected, not a separator"),
    }
}

#[test]
fn menu_for_filled_store_lists_items_separator_clear() {
    let mut s = RecentFiles::new();
    s.add("/x/a.md".to_string());
    s.add("/y/b.md".to_string());
    let m = recent_menu_model(&s);
    assert_eq!(m.len(), 4);
    match &m[0] {
        MenuEntry::Action { id, label, enabled } => {
            assert_eq!(id, "recent_0");
            assert_eq!(label, "b.md");
            assert!(*enabled);
        },
        _ => panic!("item expected"),
    }
    match &m[1] {
        MenuEntry::Action { id, label, enabled } => {
            assert_eq!(id, "recent_1");
            assert_eq!(label, "a.md");
            assert!(*enabled);
        },
        _ => panic!("item expected"),
    }
    assert!(matches!(&m[2], MenuEntry::Separator));
    match &m[3] {
        MenuEntry::Action { id, label, enabled } => {
            assert_eq!(id, "clear_recent");
            assert_eq!(label, "Clear Recent Items");
            assert!(*enabled);
        },
        _ => panic!("clear item expected"),
    }
}

#[test]
fn dispatch_fixed_identifiers() {
    assert!(matches!(menu_event_action("about"), MenuChoice::Push(a) if a == "about"));
    assert!(matches!(
        menu_event_action("install_quicklook"),
        MenuChoice::Push(a) if a == "installQuickLook"
    ));
    assert!(matches!(menu_event_action("clear_recent"), MenuChoice::ClearRecent));
    assert!(matches!(menu_event_action("open"), MenuChoice::Push(a) if a == "open"));
    assert!(matches!(menu_event_action("save"), MenuChoice::Push(a) if a == "save"));
    assert!(matches!(menu_event_action("save_as"), MenuChoice::Push(a) if a == "saveAs"));
    assert!(matches!(
        menu_event_action("toggle_folder"),
        MenuChoice::Push(a) if a == "toggleFolder"
    ));
    assert!(matches!(
        menu_event_action("view_source"),
        MenuChoice::Push(a) if a == "viewSource"
    ));
    assert!(matches!(
        menu_event_action("view_preview"),
        MenuChoice::Push(a) if a == "viewPreview"
    ));
    assert!(matches!(
        menu_event_action("view_split"),
        MenuChoice::Push(a) if a == "viewSplit"
    ));
}

#[test]
fn dispatch_recent_indices() {
    assert!(matches!(menu_event_action("recent_0"), MenuChoice::OpenRecent(0)));
    assert!(matches!(menu_event_action("recent_9"), MenuChoice::OpenRecent(9)));
    assert!(matches!(menu_event_action("recent_42"), MenuChoice::OpenRecent(42)));
}

#[test]
fn dispatch_ignores_unknown_and_malformed() {
    assert!(matches!(menu_event_action("bogus"), MenuChoice::Ignore));
    assert!(matches!(menu_event_action(""), MenuChoice::Ignore));
    assert!(matches!(menu_event_action("recent_"), MenuChoice::Ignore));
    assert!(matches!(menu_event_action("recent_x"), MenuChoice::Ignore));
    assert!(matches!(menu_event_action("recent_1x"), MenuChoice::Ignore));
    assert!(matches!(
        menu_event_action("recent_99999999999999999999999999"),
        MenuChoice::Ignore
    ));
}

#[test]
fn parse_decimal_values() {
    assert_eq!(parse_dec_usize("0"), Some(0));
    assert_eq!(parse_dec_usize("042"), Some(42));
    assert_eq!(parse_dec_usize("10"), Some(10));
    assert_eq!(parse_dec_usize(""), None);
    assert_eq!(parse_dec_usize("9a"), None);
    assert_eq!(parse_dec_usize("-1"), None);
    assert_eq!(parse_dec_usize("99999999999999999999999999"), None);
}
