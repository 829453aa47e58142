//! Decides what a native menu click means. Every interactive menu item has a
//! stable string identifier; the dispatcher maps it to the action the shell
//! must perform: forward a named action to the UI, clear the recent list,
//! open the recent entry at an index, or do nothing.

use vstd::prelude::*;
use vstd::string::StrSliceExecFns;
use vstd::string::StringExecFns;
use crate::text::{dec_rep, dec_val, digits_only, lemma_dec_rep_val, parse_dec_usize, str_eq};

verus! {

/// What the shell must do for a menu click.
pub enum MenuChoice {
    /// Forward this action name to the UI layer.
    Push(String),
    /// Empty the recent-files list, persist and rebuild.
    ClearRecent,
    /// Look up this index in the recent-files list and open the entry.
    OpenRecent(usize),
    /// Not an identifier this subsystem reacts to.
    Ignore,
}

/// The spec-level value of a `MenuChoice`.
pub enum ChoiceModel {
    Push(Seq<char>),
    ClearRecent,
    OpenRecent(int),
    Ignore,
}

impl View for MenuChoice {
    type V = ChoiceModel;

    open spec fn view(&self) -> ChoiceModel {
        match self {
            MenuChoice::Push(a) => ChoiceModel::Push(a@),
            MenuChoice::ClearRecent => ChoiceModel::ClearRecent,
            MenuChoice::OpenRecent(i) => ChoiceModel::OpenRecent(*i as int),
            MenuChoice::Ignore => ChoiceModel::Ignore,
        }
    }
}

/// The action for each identifier: the fixed ids map to their action names,
/// `clear_recent` clears, and `recent_<index>` opens that entry when
/// `<index>` is a well-formed number.
pub open spec fn dispatch_model(id: Seq<char>) -> ChoiceModel {
    if id == "about"@ {
        ChoiceModel::Push("about"@)
    } else if id == "install_quicklook"@ {
        ChoiceModel::Push("installQuickLook"@)
    } else if id == "clear_recent"@ {
        ChoiceModel::ClearRecent
    } else if id.len() >= 7 && id.take(7) == "recent_"@ {
        let rest = id.skip(7);
        if rest.len() > 0 && digits_only(rest) && dec_val(rest) <= usize::MAX {
            ChoiceModel::OpenRecent(dec_val(rest) as int)
        } else {
            ChoiceModel::Ignore
        }
    } else if id == "open"@ {
        ChoiceModel::Push("open"@)
    } else if id == "save"@ {
        ChoiceModel::Push("save"@)
    } else if id == "save_as"@ {
        ChoiceModel::Push("saveAs"@)
    } else if id == "toggle_folder"@ {
        ChoiceModel::Push("toggleFolder"@)
    } else if id == "view_source"@ {
        ChoiceModel::Push("viewSource"@)
    } else if id == "view_preview"@ {
        ChoiceModel::Push("viewPreview"@)
    } else if id == "view_split"@ {
        ChoiceModel::Push("viewSplit"@)
    } else {
        ChoiceModel::Ignore
    }
}

/// The generated `recent_<index>` identifiers invert to their position:
/// clicking the item built for index `i` dispatches to exactly index `i`.
pub proof fn lemma_recent_id_round_trip(i: nat)
    requires
        i <= usize::MAX,
    ensures
        dispatch_model("recent_"@ + dec_rep(i)) == ChoiceModel::OpenRecent(i as int),
{
    reveal_strlit("recent_");
    reveal_strlit("about");
    reveal_strlit("install_quicklook");
    reveal_strlit("clear_recent");
    lemma_dec_rep_val(i);
    let id = "recent_"@ + dec_rep(i);
    assert(id.len() >= 8);
    assert(id[0] == 'r');
    assert(id != "about"@);
    assert(id != "install_quicklook"@);
    assert(id != "clear_recent"@);
    assert(id.take(7) =~= "recent_"@);
    assert(id.skip(7) =~= dec_rep(i));
}

/// Maps a clicked menu identifier to the action the shell must perform.
pub fn menu_event_action(id: &str) -> (r: MenuChoice)
    ensures
        r@ == dispatch_model(id@),
{
    if str_eq(id, "about") {
        return MenuChoice::Push(String::from_str("about"));
    }
    if str_eq(id, "install_quicklook") {
        return MenuChoice::Push(String::from_str("installQuickLook"));
    }
    if str_eq(id, "clear_recent") {
        return MenuChoice::ClearRecent;
    }
    let n = id.unicode_len();
    if n >= 7 {
        let prefix = id.substring_char(0, 7);
        if str_eq(prefix, "recent_") {
            let rest = id.substring_char(7, n);
            proof {
                assert(id@.take(7) =~= id@.subrange(0, 7));
                assert(rest@ =~= id@.skip(7));
            }
            match parse_dec_usize(rest) {
                Some(v) => {
                    return MenuChoice::OpenRecent(v);
                },
                None => {
                    return MenuChoice::Ignore;
                },
            }
        }
    }
    if str_eq(id, "open") {
        return MenuChoice::Push(String::from_str("open"));
    }
    if str_eq(id, "save") {
        return MenuChoice::Push(String::from_str("save"));
    }
    if str_eq(id, "save_as") {
        return MenuChoice::Push(String::from_str("saveAs"));
    }
    if str_eq(id, "toggle_folder") {
        return MenuChoice::Push(String::from_str("toggleFolder"));
    }
    if str_eq(id, "view_source") {
        return MenuChoice::Push(String::from_str("viewSource"));
    }
    if str_eq(id, "view_preview") {
        return MenuChoice::Push(String::from_str("viewPreview"));
    }
    if str_eq(id, "view_split") {
        return MenuChoice::Push(String::from_str("viewSplit"));
    }
    MenuChoice::Ignore
}

} // verus!
