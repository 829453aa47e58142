//! The model of the "Open Recent" submenu: an exact projection of the
//! recent-files list. The shell removes whatever the native submenu holds
//! and appends these entries in order, both at startup and after every
//! mutation, so one routine serves both paths.

use vstd::prelude::*;
use vstd::string::StringExecFns;
use crate::paths::{basename_of, path_basename};
use crate::recent::{RecentFiles, MAX_RECENT};
use crate::text::{dec_rep, digit_char, digit_char_of};

verus! {

/// One entry of the submenu, in order: an interactive item or a separator.
pub enum MenuEntry {
    Action { id: String, label: String, enabled: bool },
    Separator,
}

/// The spec-level value of a `MenuEntry`.
#[verifier::ext_equal]
pub enum MenuEntryModel {
    Action { id: Seq<char>, label: Seq<char>, enabled: bool },
    Separator,
}

impl View for MenuEntry {
    type V = MenuEntryModel;

    open spec fn view(&self) -> MenuEntryModel {
        match self {
            MenuEntry::Action { id, label, enabled } => MenuEntryModel::Action {
                id: id@,
                label: label@,
                enabled: *enabled,
            },
            MenuEntry::Separator => MenuEntryModel::Separator,
        }
    }
}

impl DeepView for MenuEntry {
    type V = MenuEntryModel;

    open spec fn deep_view(&self) -> MenuEntryModel {
        self.view()
    }
}

/// The enabled item shown for entry `i` of the list: its label is the
/// path's basename, its identifier encodes the position.
pub open spec fn recent_item_model(l: Seq<Seq<char>>, i: int) -> MenuEntryModel {
    MenuEntryModel::Action {
        id: "recent_"@ + dec_rep(i as nat),
        label: basename_of(l[i]),
        enabled: true,
    }
}

/// The whole submenu for a list `l`: one disabled placeholder when `l` is
/// empty; otherwise one item per entry in order, a separator, and the
/// clear item.
pub open spec fn menu_model(l: Seq<Seq<char>>) -> Seq<MenuEntryModel> {
    if l.len() == 0 {
        seq![
            MenuEntryModel::Action {
                id: "no_recent"@,
                label: "No Recent Items"@,
                enabled: false,
            },
        ]
    } else {
        Seq::new(l.len(), |i: int| recent_item_model(l, i)).push(MenuEntryModel::Separator).push(
            MenuEntryModel::Action { id: "clear_recent"@, label: "Clear Recent Items"@, enabled: true },
        )
    }
}

/// An empty list yields exactly one disabled placeholder and nothing else;
/// a list of N > 0 entries yields N enabled items in list order, then one
/// separator, then one clear item.
pub proof fn lemma_menu_shape(l: Seq<Seq<char>>)
    ensures
        l.len() == 0 ==> menu_model(l).len() == 1 && menu_model(l)[0] == (MenuEntryModel::Action {
            id: "no_recent"@,
            label: "No Recent Items"@,
            enabled: false,
        }),
        l.len() > 0 ==> menu_model(l).len() == l.len() + 2 && (forall|i: int|
            0 <= i < l.len() ==> menu_model(l)[i] == recent_item_model(l, i)) && menu_model(l)[
            l.len() as int] == MenuEntryModel::Separator && menu_model(l)[l.len() as int + 1]
            == (MenuEntryModel::Action {
            id: "clear_recent"@,
            label: "Clear Recent Items"@,
            enabled: true,
        }),
{
}

/// Builds the submenu entries for the current list.
pub fn recent_menu_model(files: &RecentFiles) -> (r: Vec<MenuEntry>)
    requires
        files.inv(),
    ensures
        r.deep_view() == menu_model(files@),
{
    let ghost l = files@;
    let mut out: Vec<MenuEntry> = Vec::new();
    let es = files.entries();
    let n = es.len();
    if n == 0 {
        out.push(
            MenuEntry::Action {
                id: String::from_str("no_recent"),
                label: String::from_str("No Recent Items"),
                enabled: false,
            },
        );
        proof {
            assert(out.deep_view() =~= menu_model(l));
        }
        return out;
    }
    let mut i: usize = 0;
    proof {
        assert(out.deep_view() =~= Seq::new(0, |k: int| recent_item_model(l, k)));
    }
    while i < n
        invariant
            i <= n,
            n == l.len(),
            l.len() <= MAX_RECENT,
            es.deep_view() == l,
            n == es@.len(),
            out.deep_view() == Seq::new(i as nat, |k: int| recent_item_model(l, k)),
        decreases n - i,
    {
        let label_str = path_basename(es[i].as_str());
        let label = String::from_str(label_str);
        let mut id = String::from_str("recent_");
        id.push(digit_char_of(i));
        proof {
            assert(dec_rep(i as nat) =~= seq![digit_char(i as nat)]);
            assert(id@ =~= "recent_"@ + dec_rep(i as nat));
        }
        let ghost prev = out.deep_view();
        proof {
            assert(out.deep_view().len() == i as nat);
            assert(out@.len() == i);
        }
        out.push(MenuEntry::Action { id, label, enabled: true });
        proof {
            assert(l[i as int] == es@[i as int]@);
            assert(out@[i as int].deep_view() =~= recent_item_model(l, i as int));
            assert(out.deep_view().len() == (i + 1) as nat);
            assert forall|k: int| 0 <= k < i implies #[trigger] out.deep_view()[k] == prev[k] by {
                assert(out.deep_view()[k] == out@[k].deep_view());
            }
            assert(out.deep_view() =~= Seq::new((i + 1) as nat, |k: int| recent_item_model(l, k)));
        }
        i = i + 1;
    }
    out.push(MenuEntry::Separator);
    proof {
        assert(out.deep_view() =~= Seq::new(n as nat, |k: int| recent_item_model(l, k)).push(
            MenuEntryModel::Separator,
        ));
    }
    out.push(
        MenuEntry::Action {
            id: String::from_str("clear_recent"),
            label: String::from_str("Clear Recent Items"),
            enabled: true,
        },
    );
    proof {
        assert(out.deep_view() =~= menu_model(l));
    }
    out
}

} // verus!
