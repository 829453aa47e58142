//! Encoding and decoding of the persisted recent-files record: a JSON array
//! of absolute path strings. The shell reads and writes the record file; the
//! functions here turn record text into entries and back.

use vstd::prelude::*;
use crate::recent::RecentFiles;

verus! {

/// The JSON text that encodes `entries` as an array of strings. The text is
/// a function of the entries alone.
pub uninterp spec fn encoded_record(entries: Seq<Seq<char>>) -> Seq<char>;

/// What the JSON parser makes of `text` when asked for an array of strings:
/// the decoded paths, or nothing when the text is not such an array. The
/// outcome is a function of the text alone.
pub uninterp spec fn parsed_record(text: Seq<char>) -> Option<Seq<Seq<char>>>;

/// Relies on serde_json::to_string: the result depends on the serialized
/// value alone, and serializing a vector of strings cannot fail (only a
/// failing Serialize impl or a map with non-string keys can make it fail).
#[verifier::external_body]
fn encode_json(entries: &Vec<String>) -> (r: Option<String>)
    ensures
        r is Some,
        r matches Some(s) ==> s@ == encoded_record(entries.deep_view()),
{
    serde_json::to_string(entries).ok()
}

/// Relies on serde_json::from_str: the outcome depends on the text alone;
/// it is an error exactly when the text is not a JSON array of strings.
#[verifier::external_body]
fn parse_json(text: &str) -> (r: Option<Vec<String>>)
    ensures
        r is Some <==> parsed_record(text@) is Some,
        r matches Some(v) ==> parsed_record(text@) == Some(v.deep_view()),
{
    serde_json::from_str::<Vec<String>>(text).ok()
}

/// The record text to persist for the current list.
pub fn record_text(files: &RecentFiles) -> (r: String)
    ensures
        r@ == encoded_record(files@),
{
    match encode_json(files.entries()) {
        Some(s) => s,
        None => {
            proof {
                assert(false);
            }
            String::new()
        },
    }
}

/// The entries a record text decodes to: none when the text is absent or is
/// not a JSON array of strings.
pub open spec fn decode_model(text: Option<Seq<char>>) -> Seq<Seq<char>> {
    match text {
        None => Seq::empty(),
        Some(t) => match parsed_record(t) {
            None => Seq::empty(),
            Some(l) => l,
        },
    }
}

/// Decodes the persisted record. A missing record (`None`) and a malformed
/// one both decode to no entries; decoding never fails.
pub fn decode_record(text: Option<&str>) -> (r: Vec<String>)
    ensures
        r.deep_view() == decode_model(match text {
            Some(t) => Some(t@),
            None => None,
        }),
{
    match text {
        None => {
            let r: Vec<String> = Vec::new();
            proof {
                assert(r.deep_view() =~= Seq::<Seq<char>>::empty());
            }
            r
        },
        Some(t) => {
            match parse_json(t) {
                Some(v) => v,
                None => {
                    let r: Vec<String> = Vec::new();
                    proof {
                        assert(r.deep_view() =~= Seq::<Seq<char>>::empty());
                    }
                    r
                },
            }
        },
    }
}

/// Loading from a missing or malformed record yields the empty list, no
/// matter which liveness flags the filesystem would have supplied.
pub proof fn lemma_load_bad_record_empty(text: Option<Seq<char>>, alive: Seq<bool>)
    requires
        text matches Some(t) ==> parsed_record(t) is None,
    ensures
        crate::recent::cap(crate::recent::survivors(decode_model(text), alive))
            == Seq::<Seq<char>>::empty(),
{
    assert(decode_model(text) =~= Seq::<Seq<char>>::empty());
}

} // verus!
