//! Insertion-ordered maps from the `indexmap` crate, declared for the
//! verifier. A map's contents are modelled as a sequence of key-value pairs
//! in insertion order (`client_entries`, `workspace_entries`); each trusted
//! wrapper states, over that sequence, what the underlying method does,
//! following the crate's own documentation: `insert` updates the value in
//! place for an existing key and appends otherwise, `shift_remove` closes the
//! gap while preserving the order of the remaining entries, and so on.

use vstd::prelude::*;

use crate::state::{Client, Workspace};

verus! {

#[verifier::external_type_specification]
#[verifier::external_body]
#[verifier::reject_recursive_types(K)]
#[verifier::reject_recursive_types(V)]
#[verifier::reject_recursive_types(S)]
pub struct ExIndexMap<K, V, S>(indexmap::IndexMap<K, V, S>);

pub type ClientMap = indexmap::IndexMap<u32, Client, std::collections::hash_map::RandomState>;

pub type WorkspaceMap = indexmap::IndexMap<
    String,
    Workspace,
    std::collections::hash_map::RandomState,
>;

/// The key-value pairs held by a client map, in insertion order.
pub uninterp spec fn client_entries(m: ClientMap) -> Seq<(u32, Client)>;

/// The key-value pairs held by a workspace map, in insertion order.
pub uninterp spec fn workspace_entries(m: WorkspaceMap) -> Seq<(String, Workspace)>;

/// True when some entry of `s` has key `w`.
pub open spec fn has_ckey(s: Seq<(u32, Client)>, w: u32) -> bool {
    exists|i: int| 0 <= i < s.len() && s[i].0 == w
}

/// The index of the entry of `s` with key `w` (unique when keys are unique).
pub open spec fn ckey_index(s: Seq<(u32, Client)>, w: u32) -> int {
    choose|i: int| 0 <= i < s.len() && s[i].0 == w
}

/// True when no two entries of `s` share a key.
pub open spec fn ckeys_unique(s: Seq<(u32, Client)>) -> bool {
    forall|i: int, j: int| 0 <= i < j < s.len() ==> s[i].0 != s[j].0
}

/// True when some entry of `s` has a key whose characters are `name`.
pub open spec fn has_wkey(s: Seq<(String, Workspace)>, name: Seq<char>) -> bool {
    exists|i: int| 0 <= i < s.len() && s[i].0@ == name
}

/// The index of the entry of `s` whose key reads `name`.
pub open spec fn wkey_index(s: Seq<(String, Workspace)>, name: Seq<char>) -> int {
    choose|i: int| 0 <= i < s.len() && s[i].0@ == name
}

/// True when no two entries of `s` have keys that read the same.
pub open spec fn wkeys_unique(s: Seq<(String, Workspace)>) -> bool {
    forall|i: int, j: int| 0 <= i < j < s.len() ==> s[i].0@ != s[j].0@
}

/// Relies on `IndexMap::new`: the new map is empty.
#[verifier::external_body]
pub(crate) fn cmap_new() -> (m: ClientMap)
    ensures
        client_entries(m) == Seq::<(u32, Client)>::empty(),
{
    indexmap::IndexMap::new()
}

/// Relies on `IndexMap::iter`: iteration visits the entries in order.
#[verifier::external_body]
pub(crate) fn cmap_items(m: &ClientMap) -> (r: Vec<(u32, Client)>)
    ensures
        r@ == client_entries(*m),
{
    m.iter().map(|(k, v)| (*k, *v)).collect()
}

/// Relies on `IndexMap::get`: returns the value stored for the key, if any.
#[verifier::external_body]
pub(crate) fn cmap_get(m: &ClientMap, key: u32) -> (r: Option<Client>)
    ensures
        match r {
            Some(c) => exists|i: int|
                0 <= i < client_entries(*m).len() && client_entries(*m)[i] == (key, c),
            None => !has_ckey(client_entries(*m), key),
        },
{
    m.get(&key).copied()
}

/// Relies on `IndexMap::insert`: an existing key keeps its place and gets the
/// new value; a new key is appended, last in order.
#[verifier::external_body]
pub(crate) fn cmap_insert(m: &mut ClientMap, key: u32, value: Client)
    requires
        ckeys_unique(client_entries(*old(m))),
    ensures
        ({
            let s = client_entries(*old(m));
            let t = client_entries(*final(m));
            if has_ckey(s, key) {
                t == s.update(ckey_index(s, key), (key, value))
            } else {
                t == s.push((key, value))
            }
        }),
{
    m.insert(key, value);
}

/// Relies on `IndexMap::shift_remove`: removes the entry for the key, shifting
/// the entries after it while preserving their relative order.
#[verifier::external_body]
pub(crate) fn cmap_shift_remove(m: &mut ClientMap, key: u32) -> (r: Option<Client>)
    requires
        ckeys_unique(client_entries(*old(m))),
    ensures
        ({
            let s = client_entries(*old(m));
            let t = client_entries(*final(m));
            if has_ckey(s, key) {
                r == Some(s[ckey_index(s, key)].1) && t == s.remove(ckey_index(s, key))
            } else {
                r == None::<Client> && t == s
            }
        }),
{
    m.shift_remove(&key)
}

/// Relies on `IndexMap::new`: the new map is empty.
#[verifier::external_body]
pub(crate) fn wmap_new() -> (m: WorkspaceMap)
    ensures
        workspace_entries(m) == Seq::<(String, Workspace)>::empty(),
{
    indexmap::IndexMap::new()
}

/// Relies on `IndexMap::len`: the number of entries.
#[verifier::external_body]
pub(crate) fn wmap_len(m: &WorkspaceMap) -> (n: usize)
    ensures
        n == workspace_entries(*m).len(),
{
    m.len()
}

/// Relies on `IndexMap::get_index_of`: the index of the entry whose key equals
/// the given one, compared as strings.
#[verifier::external_body]
pub(crate) fn wmap_get_index_of(m: &WorkspaceMap, key: &String) -> (r: Option<usize>)
    requires
        wkeys_unique(workspace_entries(*m)),
    ensures
        ({
            let s = workspace_entries(*m);
            match r {
                Some(i) => i < s.len() && s[i as int].0@ == key@,
                None => !has_wkey(s, key@),
            }
        }),
{
    m.get_index_of(key)
}

/// Relies on `IndexMap::insert`: an existing key keeps its place and its key
/// value and gets the new value; a new key is appended, last in order.
#[verifier::external_body]
pub(crate) fn wmap_insert(m: &mut WorkspaceMap, key: String, value: Workspace)
    requires
        wkeys_unique(workspace_entries(*old(m))),
    ensures
        ({
            let s = workspace_entries(*old(m));
            let t = workspace_entries(*final(m));
            if has_wkey(s, key@) {
                t == s.update(wkey_index(s, key@), (s[wkey_index(s, key@)].0, value))
            } else {
                t == s.push((key, value))
            }
        }),
{
    m.insert(key, value);
}

/// Relies on `IndexMap::get_index`: the entry at the given position.
#[verifier::external_body]
pub(crate) fn wmap_get_at(m: &WorkspaceMap, i: usize) -> (r: &Workspace)
    requires
        i < workspace_entries(*m).len(),
    ensures
        *r == workspace_entries(*m)[i as int].1,
{
    m.get_index(i).unwrap().1
}

/// Relies on `IndexMap::get_index_mut` and a plain store: replaces the value
/// at the given position, leaving the key and the order alone, and hands the
/// previous value back.
#[verifier::external_body]
pub(crate) fn wmap_swap_value_at(m: &mut WorkspaceMap, i: usize, value: Workspace) -> (r: Workspace)
    requires
        i < workspace_entries(*old(m)).len(),
    ensures
        r == workspace_entries(*old(m))[i as int].1,
        workspace_entries(*final(m)) == workspace_entries(*old(m)).update(
            i as int,
            (workspace_entries(*old(m))[i as int].0, value),
        ),
{
    let slot = m.get_index_mut(i).unwrap().1;
    std::mem::replace(slot, value)
}

/// Relies on `IndexMap::shift_remove_index`: removes the entry at the given
/// position, shifting the entries after it while preserving their order.
/// Hands back the removed entry's value.
#[verifier::external_body]
pub(crate) fn wmap_shift_remove_index(m: &mut WorkspaceMap, i: usize) -> (r: Workspace)
    requires
        i < workspace_entries(*old(m)).len(),
    ensures
        r == workspace_entries(*old(m))[i as int].1,
        workspace_entries(*final(m)) == workspace_entries(*old(m)).remove(i as int),
{
    m.shift_remove_index(i).unwrap().1
}

/// Relies on `IndexMap::insert_before`: a key not yet present is inserted at
/// exactly the given position, shifting the entries from that position on.
#[verifier::external_body]
pub(crate) fn wmap_insert_before(m: &mut WorkspaceMap, i: usize, key: String, value: Workspace)
    requires
        i <= workspace_entries(*old(m)).len(),
        !has_wkey(workspace_entries(*old(m)), key@),
    ensures
        workspace_entries(*final(m)) == workspace_entries(*old(m)).insert(
            i as int,
            (key, value),
        ),
{
    m.insert_before(i, key, value);
}

/// Relies on `IndexMap::keys`: the keys in insertion order; cloning a `String`
/// preserves its characters.
#[verifier::external_body]
pub(crate) fn wmap_keys(m: &WorkspaceMap) -> (r: Vec<String>)
    ensures
        r@.len() == workspace_entries(*m).len(),
        forall|i: int|
            0 <= i < r@.len() ==> r@[i] == workspace_entries(*m)[i].0,
{
    m.keys().cloned().collect()
}

} // verus!
