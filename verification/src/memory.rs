//! Persisted memory notes: a JSON-encoded, uniqueness-preserving set.
//!
//! The store keeps a student's memory notes as one JSON list of strings.
//! Recording a note reads that text, inserts the note unless it is already
//! present, and writes the list back. The JSON encoding and decoding are
//! done by an outside library; what it returns for a given text is named,
//! not restated, and the set logic in between is verified.

use crate::error::Error;
use crate::progress::insert_memory;
use vstd::prelude::*;

verus! {

pub uninterp spec fn json_of_strings(v: Seq<Seq<char>>) -> Seq<char>;

pub uninterp spec fn strings_of_json(s: Seq<char>) -> Option<Seq<Seq<char>>>;

/// Relies on serde_json::to_string: the JSON text of a list of strings is a
/// function of the list alone, and serializing a list of strings cannot
/// fail.
#[verifier::external_body]
fn strings_to_json(v: &Vec<String>) -> (r: String)
    ensures
        r@ == json_of_strings(v.deep_view()),
{
    match serde_json::to_string(v) {
        Ok(s) => s,
        Err(_) => String::new(),
    }
}

/// Relies on serde_json::from_str: whether a text parses as a list of
/// strings, and to which list, depends on the text alone.
#[verifier::external_body]
fn strings_from_json(s: &str) -> (r: Option<Vec<String>>)
    ensures
        match r {
            Some(v) => strings_of_json(s@) == Some(v.deep_view()),
            None => strings_of_json(s@) is None,
        },
{
    serde_json::from_str::<Vec<String>>(s).ok()
}

/// Decodes a stored JSON note set into its notes. Text that does not
/// decode as a list of strings is rejected.
pub fn memory_notes_from_json(stored: &str) -> (r: Result<Vec<String>, Error>)
    ensures
        match strings_of_json(stored@) {
            Some(list) => r matches Ok(v) && v.deep_view() == list,
            None => r matches Err(Error::Fatal(m)) && m@ == "memory set is not a JSON list"@,
        },
{
    match strings_from_json(stored) {
        Some(v) => Ok(v),
        None => Err(Error::Fatal("memory set is not a JSON list".to_owned())),
    }
}

/// Records one memory note in a stored JSON note set: the stored text is
/// decoded, the note inserted unless already present, and the new text
/// returned for writing back. Text that does not decode as a list of
/// strings is rejected.
pub fn merge_memory_json(stored: &str, memory: &str) -> (r: Result<String, Error>)
    ensures
        match strings_of_json(stored@) {
            Some(list) => r matches Ok(out) && out@ == json_of_strings(
                insert_memory(list, memory@),
            ),
            None => r matches Err(Error::Fatal(m)) && m@ == "memory set is not a JSON list"@,
        },
{
    let mut list = match strings_from_json(stored) {
        Some(v) => v,
        None => {
            return Err(
                Error::Fatal(
                    "memory set is not a JSON list".to_owned(),
                ),
            );
        },
    };
    let ghost pre = list.deep_view();
    let note = memory.to_owned();
    let n = list.len();
    let mut i: usize = 0;
    loop
        invariant
            0 <= i <= n,
            n == list@.len(),
            pre == list.deep_view(),
            note@ == memory@,
            forall|j: int| 0 <= j < i ==> pre[j] != memory@,
        ensures
            0 <= i <= n,
            pre == list.deep_view(),
            forall|j: int| 0 <= j < i ==> pre[j] != memory@,
            i < n ==> pre[i as int] == memory@,
        decreases n - i,
    {
        if i >= n {
            break ;
        }
        proof {
            assert(pre[i as int] == list@[i as int].deep_view());
        }
        if list[i].eq(&note) {
            break ;
        }
        i = i + 1;
    }
    if i < n {
        proof {
            assert(pre.contains(memory@));
            assert(insert_memory(pre, memory@) == pre);
        }
    } else {
        proof {
            if pre.contains(memory@) {
                let w = choose|w: int| 0 <= w < pre.len() && pre[w] == memory@;
                assert(pre[w] != memory@);
            }
        }
        let ghost mv = note@;
        list.push(note);
        proof {
            assert forall|j: int| 0 <= j < pre.len() implies #[trigger] list.deep_view()[j]
                == pre[j] by {
                assert(list.deep_view()[j] == list@[j].deep_view());
            }
            assert(list.deep_view()[pre.len() as int] == mv);
            assert(list.deep_view() =~= pre.push(mv));
        }
    }
    Ok(strings_to_json(&list))
}

} // verus!
