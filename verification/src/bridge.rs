//! The bridge between OS open events, the pending-file mailbox, and the
//! scripts pushed to the UI layer. An open event is delivered on both
//! channels every time: the first path is stored in the mailbox and also
//! returned for a best-effort live push.

use vstd::prelude::*;
use vstd::string::StrSliceExecFns;
use vstd::string::StringExecFns;
use crate::pending::PendingFile;

verus! {

/// How one character is written inside a single-quoted script literal.
pub open spec fn esc_char(c: char) -> Seq<char> {
    if c == '\\' {
        seq!['\\', '\\']
    } else if c == '\'' {
        seq!['\\', '\'']
    } else {
        seq![c]
    }
}

/// `s` with every backslash doubled and every single quote backslashed.
pub open spec fn escaped_js(s: Seq<char>) -> Seq<char>
    decreases s.len(),
{
    if s.len() == 0 {
        Seq::empty()
    } else {
        esc_char(s[0]) + escaped_js(s.drop_first())
    }
}

proof fn lemma_escaped_push(s: Seq<char>, c: char)
    ensures
        escaped_js(s.push(c)) == escaped_js(s) + esc_char(c),
    decreases s.len(),
{
    if s.len() == 0 {
        assert(s.push(c)[0] == c);
        assert(s.push(c).drop_first() =~= s);
        assert(escaped_js(s) =~= Seq::<char>::empty());
        assert(escaped_js(s.push(c)) =~= escaped_js(s) + esc_char(c));
    } else {
        assert(s.push(c)[0] == s[0]);
        assert(s.push(c).drop_first() =~= s.drop_first().push(c));
        lemma_escaped_push(s.drop_first(), c);
        assert(escaped_js(s.push(c)) =~= esc_char(s[0]) + (escaped_js(s.drop_first())
            + esc_char(c)));
        assert(escaped_js(s.push(c)) =~= escaped_js(s) + esc_char(c));
    }
}

/// Escapes a path for use inside a single-quoted script literal.
pub fn escape_js(s: &str) -> (r: String)
    ensures
        r@ == escaped_js(s@),
{
    let n = s.unicode_len();
    let mut out = String::new();
    proof {
        assert(s@.take(0) =~= Seq::<char>::empty());
        assert(out@ =~= escaped_js(s@.take(0)));
    }
    let mut i: usize = 0;
    while i < n
        invariant
            i <= n,
            n == s@.len(),
            out@ == escaped_js(s@.take(i as int)),
        decreases n - i,
    {
        let c = s.get_char(i);
        proof {
            assert(s@.take(i + 1) =~= s@.take(i as int).push(s@[i as int]));
            lemma_escaped_push(s@.take(i as int), s@[i as int]);
        }
        if c == '\\' {
            out.append("\\\\");
            proof {
                reveal_strlit("\\\\");
                assert("\\\\"@ =~= esc_char(c));
                assert(out@ =~= escaped_js(s@.take(i + 1)));
            }
        } else if c == '\'' {
            out.append("\\'");
            proof {
                reveal_strlit("\\'");
                assert("\\'"@ =~= esc_char(c));
                assert(out@ =~= escaped_js(s@.take(i + 1)));
            }
        } else {
            out.push(c);
            proof {
                assert(seq![c] =~= esc_char(c));
                assert(out@ =~= escaped_js(s@.take(i + 1)));
            }
        }
        i = i + 1;
    }
    proof {
        assert(s@.take(n as int) =~= s@);
    }
    out
}

/// The script that asks an already-running UI to open `path`.
pub open spec fn open_file_script_model(path: Seq<char>) -> Seq<char> {
    "window.__openFile && window.__openFile('"@ + escaped_js(path) + "')"@
}

/// Builds the live-push script for an opened file. A silent no-op on the UI
/// side when no open-file handler is registered yet.
pub fn open_file_script(path: &str) -> (r: String)
    ensures
        r@ == open_file_script_model(path@),
{
    let mut s = String::from_str("window.__openFile && window.__openFile('");
    let esc = escape_js(path);
    s.append(esc.as_str());
    s.append("')");
    proof {
        assert(s@ =~= open_file_script_model(path@));
    }
    s
}

/// The script that forwards a named menu action to the UI. Action names are
/// fixed identifiers, so nothing in them needs escaping.
pub open spec fn menu_action_script_model(action: Seq<char>) -> Seq<char> {
    "window.__menuAction && window.__menuAction('"@ + action + "')"@
}

/// Builds the menu-action push script.
pub fn menu_action_script(action: &str) -> (r: String)
    ensures
        r@ == menu_action_script_model(action@),
{
    let mut s = String::from_str("window.__menuAction && window.__menuAction('");
    s.append(action);
    s.append("')");
    proof {
        assert(s@ =~= menu_action_script_model(action@));
    }
    s
}

/// Handles one OS open event carrying the given file paths. Exactly the
/// first path is used: it is stored in the mailbox (overwriting any unread
/// value) and returned for the live push; the rest are discarded. An event
/// without paths changes nothing.
pub fn handle_open_event(pending: &mut PendingFile, paths: &Vec<String>) -> (r: Option<String>)
    ensures
        r is Some <==> paths@.len() > 0,
        paths@.len() > 0 ==> final(pending)@ == Some(paths.deep_view()[0]),
        paths@.len() == 0 ==> final(pending)@ == old(pending)@,
        r matches Some(p) ==> paths@.len() > 0 && p@ == paths.deep_view()[0],
{
    if paths.len() == 0 {
        return None;
    }
    let first = paths[0].clone();
    pending.set(first.clone());
    proof {
        assert(paths.deep_view()[0] == paths@[0]@);
    }
    Some(first)
}

} // verus!
