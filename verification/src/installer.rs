//! Decisions and user-visible messages of the one-shot system-integration
//! installer. The installer copies a bundled preview extension into the
//! user's applications directory and registers it; it is valid on one
//! target platform only. The shell performs the filesystem steps (existence
//! checks, directory creation, removal, the recursive copy, the two
//! best-effort registration calls and the indexing launch) and takes every
//! branch decision and message from here.

use vstd::prelude::*;
use vstd::string::StringExecFns;

verus! {

/// The error reported when the installer runs on the wrong platform.
pub fn unsupported_platform_message() -> (r: String)
    ensures
        r@ == "Quick Look is only available on macOS"@,
{
    String::from_str("Quick Look is only available on macOS")
}

/// The error reported when the application's resource directory cannot be
/// resolved; `err` is the resolver's own message.
pub fn resource_dir_error(err: &str) -> (r: String)
    ensures
        r@ == "Failed to get resource dir: "@ + err@,
{
    let mut s = String::from_str("Failed to get resource dir: ");
    s.append(err);
    s
}

/// The two candidate bundle locations under the resource directory, in
/// fallback order: first under `resources`, then at the top level.
pub fn bundle_candidates(resource_dir: &str) -> (r: (String, String))
    ensures
        r.0@ == resource_dir@ + "/resources/UpDownQuickLook.app"@,
        r.1@ == resource_dir@ + "/UpDownQuickLook.app"@,
{
    let mut primary = String::from_str(resource_dir);
    primary.append("/resources/UpDownQuickLook.app");
    let mut alt = String::from_str(resource_dir);
    alt.append("/UpDownQuickLook.app");
    (primary, alt)
}

/// The error reported when neither candidate location holds the bundle; it
/// lists both checked locations verbatim.
pub open spec fn missing_bundle_text(primary: Seq<char>, alt: Seq<char>) -> Seq<char> {
    "Quick Look app not found in app bundle. Checked:\n  "@ + primary + "\n  "@ + alt
}

/// Picks the bundle to install from: the primary location when it exists,
/// else the fallback, else the error naming both.
pub fn choose_bundle_source(
    primary: String,
    primary_exists: bool,
    alt: String,
    alt_exists: bool,
) -> (r: Result<String, String>)
    ensures
        primary_exists ==> (r matches Ok(s) && s@ == primary@),
        !primary_exists && alt_exists ==> (r matches Ok(s) && s@ == alt@),
        !primary_exists && !alt_exists ==> (r matches Err(m) && m@ == missing_bundle_text(
            primary@,
            alt@,
        )),
{
    if primary_exists {
        Ok(primary)
    } else if alt_exists {
        Ok(alt)
    } else {
        let mut m = String::from_str("Quick Look app not found in app bundle. Checked:\n  ");
        m.append(primary.as_str());
        m.append("\n  ");
        m.append(alt.as_str());
        proof {
            assert(m@ =~= missing_bundle_text(primary@, alt@));
        }
        Err(m)
    }
}

/// The error reported when the home directory cannot be determined.
pub fn home_missing_message() -> (r: String)
    ensures
        r@ == "Cannot determine HOME directory"@,
{
    String::from_str("Cannot determine HOME directory")
}

/// The user-level applications directory under a home directory.
pub fn apps_dir_path(home: &str) -> (r: String)
    ensures
        r@ == home@ + "/Applications"@,
{
    let mut s = String::from_str(home);
    s.append("/Applications");
    s
}

/// Where the bundle is installed under the applications directory.
pub fn install_dest(apps_dir: &str) -> (r: String)
    ensures
        r@ == apps_dir@ + "/UpDownQuickLook.app"@,
{
    let mut s = String::from_str(apps_dir);
    s.append("/UpDownQuickLook.app");
    s
}

/// The hard error reported when the applications directory cannot be
/// created; it names the directory and the filesystem's own message.
pub fn create_dir_error(path: &str, err: &str) -> (r: String)
    ensures
        r@ == "Failed to create "@ + path@ + ": "@ + err@,
{
    let mut s = String::from_str("Failed to create ");
    s.append(path);
    s.append(": ");
    s.append(err);
    proof {
        assert(s@ =~= "Failed to create "@ + path@ + ": "@ + err@);
    }
    s
}

/// The hard error reported when a previous installation cannot be removed.
pub fn remove_old_error(err: &str) -> (r: String)
    ensures
        r@ == "Failed to remove old Quick Look app: "@ + err@,
{
    let mut s = String::from_str("Failed to remove old Quick Look app: ");
    s.append(err);
    s
}

/// The hard error reported when the recursive copy fails.
pub fn copy_error(err: &str) -> (r: String)
    ensures
        r@ == "Failed to copy Quick Look app: "@ + err@,
{
    let mut s = String::from_str("Failed to copy Quick Look app: ");
    s.append(err);
    s
}

/// The known sub-path of the embedded extension component inside an
/// installed bundle; registration runs only when it exists.
pub fn appex_path(dest: &str) -> (r: String)
    ensures
        r@ == dest@ + "/Contents/PlugIns/UpDownPreview.appex"@,
{
    let mut s = String::from_str(dest);
    s.append("/Contents/PlugIns/UpDownPreview.appex");
    s
}

/// The success message, naming the resolved install path.
pub fn success_message(dest: &str) -> (r: String)
    ensures
        r@ == "Quick Look extension installed to "@ + dest@,
{
    let mut s = String::from_str("Quick Look extension installed to ");
    s.append(dest);
    s
}

} // verus!
