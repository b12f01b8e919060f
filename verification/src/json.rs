//! JSON values, as far as the library looks into them.
use vstd::prelude::*;

use crate::seqs;
use crate::text;

verus! {

/// A JSON value. Of a number only its value as a signed integer is kept, where it has one.
#[derive(Debug)]
pub enum Json {
    Null,
    Bool(bool),
    Number { as_i64: Option<i64> },
    String(String),
    Array(Vec<Json>),
    Object(Vec<(String, Json)>),
}

/// The entry has the key `key`.
pub open spec fn has_key(key: Seq<char>) -> spec_fn((String, Json)) -> bool {
    |entry: (String, Json)| entry.0@ == key
}

/// The value of the first entry with the key `key`.
pub open spec fn member(entries: Seq<(String, Json)>, key: Seq<char>) -> Option<Json> {
    match seqs::first_index(entries, has_key(key)) {
        Some(i) => Some(entries[i].1),
        None => None,
    }
}

/// The value of the first entry with the key `key`.
pub fn get<'a>(entries: &'a Vec<(String, Json)>, key: &str) -> (r: Option<&'a Json>)
    ensures
        match r {
            Some(value) => member(entries@, key@) == Some(*value),
            None => member(entries@, key@) is None,
        },
{
    let mut i: usize = 0;
    while i < entries.len()
        invariant
            i <= entries@.len(),
            forall|j: int| 0 <= j < i ==> !has_key(key@)(#[trigger] entries@[j]),
        decreases entries@.len() - i,
    {
        if text::same_text(entries[i].0.as_str(), key) {
            proof {
                assert(seqs::is_first(entries@, has_key(key@), i as int));
                seqs::lemma_first(entries@, has_key(key@), i as int);
            }
            return Some(&entries[i].1);
        }
        i += 1;
    }
    proof {
        seqs::lemma_no_first(entries@, has_key(key@));
    }
    None
}

} // verus!
