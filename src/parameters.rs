//! An order-keeping map of parameters, keyed by upper-cased names.
use vstd::prelude::*;
use crate::text::{upper_text, upper_chars, string_of, chars_of};

verus! {

#[verifier::external_type_specification]
#[verifier::external_body]
#[verifier::reject_recursive_types(K)]
#[verifier::reject_recursive_types(V)]
#[verifier::reject_recursive_types(S)]
pub struct ExIndexMap<K, V, S>(indexmap::IndexMap<K, V, S>);

/// The entries of a map, in their order.
pub uninterp spec fn entries_of(m: indexmap::IndexMap<String, String>) -> Seq<(Seq<char>, Seq<char>)>;

/// Entries as a sequence of key and value.
pub type Entries = Seq<(Seq<char>, Seq<char>)>;

/// Where the key `k` first stands in `e`, or -1.
pub open spec fn key_index(e: Entries, k: Seq<char>) -> int
    decreases e.len(),
{
    if e.len() == 0 {
        -1
    } else {
        let j = key_index(e.drop_last(), k);
        if j >= 0 {
            j
        } else if e.last().0 == k {
            e.len() - 1
        } else {
            -1
        }
    }
}

/// The value under `k`.
pub open spec fn lookup(e: Entries, k: Seq<char>) -> Option<Seq<char>> {
    let j = key_index(e, k);
    if j >= 0 {
        Some(e[j].1)
    } else {
        None
    }
}

/// `e` with `v` under `k`: in the key's place where it is present, else last.
pub open spec fn insert_entry(e: Entries, k: Seq<char>, v: Seq<char>) -> Entries {
    let j = key_index(e, k);
    if j >= 0 {
        e.update(j, (k, v))
    } else {
        e.push((k, v))
    }
}

/// Relies on `IndexMap::new`: a new map is empty.
#[verifier::external_body]
fn map_new() -> (r: indexmap::IndexMap<String, String>)
    ensures
        entries_of(r) == Seq::<(Seq<char>, Seq<char>)>::empty(),
{
    indexmap::IndexMap::new()
}

/// Relies on `IndexMap::insert`: an equal key keeps its place and takes the new
/// value; a new key goes last.
#[verifier::external_body]
fn map_insert(m: &mut indexmap::IndexMap<String, String>, k: String, v: String)
    ensures
        entries_of(*final(m)) == insert_entry(entries_of(*old(m)), k@, v@),
{
    m.insert(k, v);
}

/// Relies on `IndexMap::get`: the value stored under an equal key.
#[verifier::external_body]
fn map_get(m: &indexmap::IndexMap<String, String>, k: &str) -> (r: Option<String>)
    ensures
        r matches Some(v) ==> lookup(entries_of(*m), k@) == Some(v@),
        r is None ==> lookup(entries_of(*m), k@) is None,
{
    m.get(k).cloned()
}

/// Relies on `IndexMap::len`: the number of entries.
#[verifier::external_body]
fn map_len(m: &indexmap::IndexMap<String, String>) -> (r: usize)
    ensures
        r == entries_of(*m).len(),
{
    m.len()
}

/// Relies on `IndexMap::get_index`: the entry at a position.
#[verifier::external_body]
fn map_get_index(m: &indexmap::IndexMap<String, String>, i: usize) -> (r: (String, String))
    requires
        i < entries_of(*m).len(),
    ensures
        r.0@ == entries_of(*m)[i as int].0,
        r.1@ == entries_of(*m)[i as int].1,
{
    let (k, v) = m.get_index(i).unwrap();
    (k.clone(), v.clone())
}

/// Parameters: `KEY=VALUE` pairs in the order of their first insertion, keys upper-cased.
pub struct Parameters {
    params: indexmap::IndexMap<String, String>,
}

impl Parameters {
    pub closed spec fn entries(&self) -> Entries {
        entries_of(self.params)
    }

    pub fn new() -> (r: Parameters)
        ensures
            r.entries() == Seq::<(Seq<char>, Seq<char>)>::empty(),
    {
        Parameters { params: map_new() }
    }

    /// Stores `value` under the upper-cased `key`.
    pub fn insert(&mut self, key: String, value: String)
        ensures
            final(self).entries() == insert_entry(old(self).entries(), upper_text(key@), value@),
    {
        let k = string_of(&upper_chars(&chars_of(key.as_str())));
        map_insert(&mut self.params, k, value);
    }

    /// The value stored under the upper-cased `key`.
    pub fn get(&self, key: &str) -> (r: Option<String>)
        ensures
            r matches Some(v) ==> lookup(self.entries(), upper_text(key@)) == Some(v@),
            r is None ==> lookup(self.entries(), upper_text(key@)) is None,
    {
        let k = string_of(&upper_chars(&chars_of(key)));
        map_get(&self.params, k.as_str())
    }

    /// The value stored under `key`, taken as it is.
    pub fn get_exact(&self, key: &Vec<char>) -> (r: Option<String>)
        ensures
            r matches Some(v) ==> lookup(self.entries(), key@) == Some(v@),
            r is None ==> lookup(self.entries(), key@) is None,
    {
        let k = string_of(key);
        map_get(&self.params, k.as_str())
    }

    pub fn len(&self) -> (r: usize)
        ensures
            r == self.entries().len(),
    {
        map_len(&self.params)
    }

    pub fn is_empty(&self) -> (r: bool)
        ensures
            r == (self.entries().len() == 0),
    {
        map_len(&self.params) == 0
    }

    /// The entry at position `i`.
    pub fn entry(&self, i: usize) -> (r: (String, String))
        requires
            i < self.entries().len(),
        ensures
            r.0@ == self.entries()[i as int].0,
            r.1@ == self.entries()[i as int].1,
    {
        map_get_index(&self.params, i)
    }
}

} // verus!
