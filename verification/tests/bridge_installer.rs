use updown_core::bridge::{escape_js, handle_open_event, menu_action_script, open_file_script};
use updown_core::installer::{
    appex_path, apps_dir_path, bundle_candidates, choose_bundle_source, copy_error,
    create_dir_error, home_missing_message, install_dest, remove_old_error, resource_dir_error,
    success_message, unsupported_platform_message,
};
use updown_core::pending::PendingFile;

#[test]
fn take_is_idempotent() {
    let mut p = PendingFile::empty();
    p.set("/x/a.md".to_string());
    assert_eq!(p.take(), Some("/x/a.md".to_string()));
    assert_eq!(p.take(), None);
    assert_eq!(p.take(), None);
}

#[test]
fn set_overwrites_unread_value() {
    let mut p = PendingFile::empty();
    p.set("/first.md".to_string());
    p.set("/second.md".to_string());
    assert_eq!(p.take(), Some("/second.md".to_string()));
    assert_eq!(p.take(), None);
}

#[test]
fn open_event_uses_exactly_the_first_path() {
    let mut p = PendingFile::empty();
    let paths = vec!["/a.md".to_string(), "/b.md".to_string(), "/c.md".to_string()];
    let pushed = handle_open_event(&mut p, &paths);
    assert_eq!(pushed, Some("/a.md".to_string()));
    assert_eq!(p.take(), Some("/a.md".to_string()));
    assert_eq!(p.take(), None);
}

#[test]
fn open_event_without_paths_changes_nothing() {
    let mut p = PendingFile::empty();
    let pushed = handle_open_event(&mut p, &Vec::new());
    assert_eq!(pushed, None);
    assert_eq!(p.take(), None);
}

#[test]
fn escaping_doubles_backslashes_and_quotes() {
    assert_eq!(escape_js("C:\\docs\\it's.md"), "C:\\\\docs\\\\it\\'s.md");
    assert_eq!(escape_js("/plain/path.md"), "/plain/path.md");
    assert_eq!(escape_js(""), "");
}

#[test]
fn scripts_are_built_verbatim() {
    assert_eq!(
        open_file_script("/tmp/x.md"),
        "window.__openFile && window.__openFile('/tmp/x.md')"
    );
    assert_eq!(
        open_file_script("/a'b.md"),
        "window.__openFile && window.__openFile('/a\\'b.md')"
    );
    assert_eq!(
        menu_action_script("saveAs"),
        "window.__menuAction && window.__menuAction('saveAs')"
    );
}

#[test]
fn bundle_resolution_prefers_primary() {
    let (primary, alt) = bundle_candidates("/res");
    assert_eq!(primary, "/res/resources/UpDownQuickLook.app");
    assert_eq!(alt, "/res/UpDownQuickLook.app");
    let r = choose_bundle_source(primary.clone(), true, alt.clone(), true);
    assert_eq!(r, Ok(primary.clone()));
    let r = choose_bundle_source(primary.clone(), false, alt.clone(), true);
    assert_eq!(r, Ok(alt.clone()));
}

#[test]
fn bundle_missing_error_lists_both_locations() {
    let (primary, alt) = bundle_candidates("/res");
    let r = choose_bundle_source(primary, false, alt, false);
    assert_eq!(
        r,
        Err("Quick Look app not found in app bundle. Checked:\n  \
             /res/resources/UpDownQuickLook.app\n  /res/UpDownQuickLook.app"
            .to_string())
    );
}

#[test]
fn installer_messages_are_exact() {
    assert_eq!(unsupported_platform_message(), "Quick Look is only available on macOS");
    assert_eq!(resource_dir_error("no dir"), "Failed to get resource dir: no dir");
    assert_eq!(home_missing_message(), "Cannot determine HOME directory");
    assert_eq!(apps_dir_path("/Users/me"), "/Users/me/Applications");
    assert_eq!(install_dest("/Users/me/Applications"), "/Users/me/Applications/UpDownQuickLook.app");
    assert_eq!(
        create_dir_error("/Users/me/Applications", "denied"),
        "Failed to create /Users/me/Applications: denied"
    );
    assert_eq!(
        remove_old_error("busy"),
        "Failed to remove old Quick Look app: busy"
    );
    assert_eq!(copy_error("disk full"), "Failed to copy Quick Look app: disk full");
    assert_eq!(
        appex_path("/Users/me/Applications/UpDownQuickLook.app"),
        "/Users/me/Applications/UpDownQuickLook.app/Contents/PlugIns/UpDownPreview.appex"
    );
    assert_eq!(
        success_message("/Users/me/Applications/UpDownQuickLook.app"),
        "Quick Look extension installed to /Users/me/Applications/UpDownQuickLook.app"
    );
}
