//! The vault index: entries keyed by UUID in insertion order, each naming a
//! file (its name and virtual folder), its size and the encrypted blobs that
//! hold it. The order of entries is the order they were added.

use vstd::prelude::*;

use indexmap::IndexMap;

verus! {

/// One encrypted blob that forms part of a file.
#[derive(Debug)]
pub struct VaultPart {
    /// UUID of the blob, also its file name on disk.
    pub uuid: String,
    /// Base64 of the raw AES-256 key of this blob.
    pub key_base64: String,
}

/// Metadata for one logical file stored in the vault.
#[derive(Debug)]
pub struct VaultEntry {
    /// File name only, without a folder.
    pub name: String,
    /// Virtual folder, `/`-separated, without leading or trailing `/`; empty for the root.
    pub path: String,
    /// Plaintext size in bytes.
    pub size: u64,
    /// Encrypted parts in order.
    pub parts: Vec<VaultPart>,
    pub thumbnail_uuid: Option<String>,
    pub thumbnail_key_base64: Option<String>,
}

#[verifier::external_type_specification]
#[verifier::external_body]
#[verifier::reject_recursive_types(K)]
#[verifier::reject_recursive_types(V)]
#[verifier::reject_recursive_types(S)]
pub struct ExIndexMap<K, V, S>(IndexMap<K, V, S>);

/// The (key, entry) pairs of an entry map, in the map's order.
pub uninterp spec fn index_entries(m: IndexMap<String, VaultEntry>) -> Seq<(Seq<char>, VaultEntry)>;

/// No key occurs twice.
pub open spec fn keys_unique(es: Seq<(Seq<char>, VaultEntry)>) -> bool {
    forall|i: int, j: int| 0 <= i < es.len() && 0 <= j < es.len() && i != j ==> es[i].0 != es[j].0
}

/// Position of `k` among the keys, or -1.
pub open spec fn key_pos(es: Seq<(Seq<char>, VaultEntry)>, k: Seq<char>) -> int {
    if exists|i: int| 0 <= i < es.len() && es[i].0 == k {
        choose|i: int| 0 <= i < es.len() && es[i].0 == k
    } else {
        -1
    }
}

/// The pairs after inserting `(k, v)` as `IndexMap::insert` does: an existing
/// key keeps its place and takes the new value; a new key goes last.
pub open spec fn inserted(es: Seq<(Seq<char>, VaultEntry)>, k: Seq<char>, v: VaultEntry) -> Seq<(Seq<char>, VaultEntry)> {
    if key_pos(es, k) >= 0 {
        es.update(key_pos(es, k), (k, v))
    } else {
        es.push((k, v))
    }
}

/// The pairs after `IndexMap::shift_remove` of `k`: later pairs move up one place.
pub open spec fn removed(es: Seq<(Seq<char>, VaultEntry)>, k: Seq<char>) -> Seq<(Seq<char>, VaultEntry)> {
    if key_pos(es, k) >= 0 {
        es.remove(key_pos(es, k))
    } else {
        es
    }
}

/// `IndexMap::new`. Claims: the new map is empty.
#[verifier::external_body]
pub(crate) fn entry_map_new() -> (m: IndexMap<String, VaultEntry>)
    ensures
        index_entries(m) == Seq::<(Seq<char>, VaultEntry)>::empty(),
{
    IndexMap::new()
}

/// `IndexMap::len`. Claims: the number of pairs.
#[verifier::external_body]
pub(crate) fn entry_map_len(m: &IndexMap<String, VaultEntry>) -> (n: usize)
    ensures
        n == index_entries(*m).len(),
{
    m.len()
}

/// `IndexMap::get_index`. Claims: the pair at position `i`.
#[verifier::external_body]
pub(crate) fn entry_map_get_index(m: &IndexMap<String, VaultEntry>, i: usize) -> (r: (&String, &VaultEntry))
    requires
        i < index_entries(*m).len(),
    ensures
        r.0@ == index_entries(*m)[i as int].0,
        *r.1 == index_entries(*m)[i as int].1,
{
    m.get_index(i).expect("index in range")
}

/// `IndexMap::get_index_of`. Claims: the position of the pair holding `key` (no
/// earlier pair holds it), or `None` when no pair has that key.
#[verifier::external_body]
pub(crate) fn entry_map_get_index_of(m: &IndexMap<String, VaultEntry>, key: &str) -> (r: Option<usize>)
    ensures
        match r {
            Some(i) => i < index_entries(*m).len() && index_entries(*m)[i as int].0 == key@
                && forall|j: int| 0 <= j < i ==> index_entries(*m)[j].0 != key@,
            None => forall|j: int| 0 <= j < index_entries(*m).len() ==> index_entries(*m)[j].0 != key@,
        },
{
    m.get_index_of(key)
}

/// `IndexMap::insert`. Claims: the pairs change as `inserted` says, keys stay
/// unique when they were, and the previous value of the key is returned.
#[verifier::external_body]
pub(crate) fn entry_map_insert(m: &mut IndexMap<String, VaultEntry>, key: String, value: VaultEntry) -> (r: Option<VaultEntry>)
    ensures
        keys_unique(index_entries(*old(m))) ==> index_entries(*final(m)) == inserted(index_entries(*old(m)), key@, value),
        keys_unique(index_entries(*old(m))) ==> keys_unique(index_entries(*final(m))),
        keys_unique(index_entries(*old(m))) ==> match r {
            Some(v) => key_pos(index_entries(*old(m)), key@) >= 0
                && v == index_entries(*old(m))[key_pos(index_entries(*old(m)), key@)].1,
            None => key_pos(index_entries(*old(m)), key@) == -1,
        },
{
    m.insert(key, value)
}

/// `IndexMap::shift_remove`. Claims: the pair with `key` is removed and later
/// pairs keep their order; its value is returned.
#[verifier::external_body]
pub(crate) fn entry_map_shift_remove(m: &mut IndexMap<String, VaultEntry>, key: &str) -> (r: Option<VaultEntry>)
    ensures
        keys_unique(index_entries(*old(m))) ==> index_entries(*final(m)) == removed(index_entries(*old(m)), key@),
        keys_unique(index_entries(*old(m))) ==> keys_unique(index_entries(*final(m))),
        keys_unique(index_entries(*old(m))) ==> match r {
            Some(v) => key_pos(index_entries(*old(m)), key@) >= 0
                && v == index_entries(*old(m))[key_pos(index_entries(*old(m)), key@)].1,
            None => key_pos(index_entries(*old(m)), key@) == -1,
        },
{
    m.shift_remove(key)
}

} // verus!

verus! {

/// A copy of a string with the same contents.
pub fn copy_string(s: &String) -> (r: String)
    ensures
        r == *s,
{
    s.clone()
}

/// A copy of an optional string.
pub fn copy_opt_string(s: &Option<String>) -> (r: Option<String>)
    ensures
        r == *s,
{
    match s {
        Some(x) => Some(x.clone()),
        None => None,
    }
}

impl VaultPart {
    /// A copy of this part.
    pub fn duplicate(&self) -> (r: VaultPart)
        ensures
            r == *self,
    {
        VaultPart { uuid: self.uuid.clone(), key_base64: self.key_base64.clone() }
    }
}

/// A copy of a list of parts.
pub fn copy_parts(parts: &Vec<VaultPart>) -> (r: Vec<VaultPart>)
    ensures
        r@ == parts@,
{
    let mut r: Vec<VaultPart> = Vec::new();
    let mut i: usize = 0;
    while i < parts.len()
        invariant
            i <= parts@.len(),
            r@ == parts@.subrange(0, i as int),
        decreases parts@.len() - i,
    {
        r.push(parts[i].duplicate());
        assert(r@ =~= parts@.subrange(0, i + 1));
        i = i + 1;
    }
    assert(parts@.subrange(0, parts@.len() as int) =~= parts@);
    r
}

impl VaultEntry {
    /// A copy of this entry.
    pub fn duplicate(&self) -> (r: VaultEntry)
        ensures
            r.name == self.name,
            r.path == self.path,
            r.size == self.size,
            r.parts@ == self.parts@,
            r.thumbnail_uuid == self.thumbnail_uuid,
            r.thumbnail_key_base64 == self.thumbnail_key_base64,
    {
        VaultEntry {
            name: self.name.clone(),
            path: self.path.clone(),
            size: self.size,
            parts: copy_parts(&self.parts),
            thumbnail_uuid: copy_opt_string(&self.thumbnail_uuid),
            thumbnail_key_base64: copy_opt_string(&self.thumbnail_key_base64),
        }
    }
}

/// Top-level vault index, stored encrypted as `index.lock`.
pub struct VaultIndex {
    pub version: u32,
    /// Optional blobs subdirectory, relative to the vault root.
    pub blobs_dir: Option<String>,
    /// All entries, keyed by UUID, in the order they were added.
    pub entries: IndexMap<String, VaultEntry>,
}

impl VaultIndex {
    /// The (UUID, entry) pairs in order.
    pub open spec fn pairs(&self) -> Seq<(Seq<char>, VaultEntry)> {
        index_entries(self.entries)
    }

    /// The index is well formed: no UUID occurs twice.
    pub open spec fn wf(&self) -> bool {
        keys_unique(self.pairs())
    }

    /// A new index of the current format version with no entries.
    pub fn new_empty(blobs_dir: Option<String>) -> (r: VaultIndex)
        ensures
            r.version == 1,
            r.blobs_dir == blobs_dir,
            r.pairs() == Seq::<(Seq<char>, VaultEntry)>::empty(),
            r.wf(),
    {
        VaultIndex { version: 1, blobs_dir, entries: entry_map_new() }
    }

    /// Whether no UUID occurs twice, checked by looking each key up again.
    pub fn is_wf(&self) -> (r: bool)
        ensures
            r == self.wf(),
    {
        let n = entry_map_len(&self.entries);
        let mut i: usize = 0;
        while i < n
            invariant
                n == self.pairs().len(),
                i <= n,
                forall|a: int, b: int| 0 <= b < a < i ==> self.pairs()[a].0 != self.pairs()[b].0,
            decreases n - i,
        {
            let (k, _) = entry_map_get_index(&self.entries, i);
            match entry_map_get_index_of(&self.entries, k.as_str()) {
                Some(j) => {
                    if j != i {
                        assert(self.pairs()[j as int].0 == self.pairs()[i as int].0);
                        return false;
                    }
                },
                None => {
                    assert(self.pairs()[i as int].0 == k@);
                    return false;
                },
            }
            i = i + 1;
        }
        assert forall|a: int, b: int| 0 <= a < n && 0 <= b < n && a != b implies self.pairs()[a].0 != self.pairs()[b].0 by {
            if a < b {
                assert(self.pairs()[b].0 != self.pairs()[a].0);
            }
        }
        true
    }

    /// Number of entries.
    pub fn len(&self) -> (n: usize)
        ensures
            n == self.pairs().len(),
    {
        entry_map_len(&self.entries)
    }

    /// The entry at position `i`, with its UUID.
    pub fn entry_at(&self, i: usize) -> (r: (&String, &VaultEntry))
        requires
            i < self.pairs().len(),
        ensures
            r.0@ == self.pairs()[i as int].0,
            *r.1 == self.pairs()[i as int].1,
    {
        entry_map_get_index(&self.entries, i)
    }

    /// Position of the entry with this UUID.
    pub fn position_of(&self, uuid: &str) -> (r: Option<usize>)
        requires
            self.wf(),
        ensures
            match r {
                Some(i) => i < self.pairs().len() && self.pairs()[i as int].0 == uuid@
                    && key_pos(self.pairs(), uuid@) == i,
                None => key_pos(self.pairs(), uuid@) == -1,
            },
    {
        let r = entry_map_get_index_of(&self.entries, uuid);
        proof {
            if r.is_none() {
                assert(!(exists|i: int| 0 <= i < self.pairs().len() && self.pairs()[i].0 == uuid@));
            } else {
                let i = r.unwrap() as int;
                assert(self.pairs()[i].0 == uuid@);
                let j = key_pos(self.pairs(), uuid@);
                assert(0 <= j < self.pairs().len() && self.pairs()[j].0 == uuid@);
            }
        }
        r
    }

    /// The entry with this UUID (`IndexMap::get`).
    pub fn get(&self, uuid: &str) -> (r: Option<&VaultEntry>)
        requires
            self.wf(),
        ensures
            match r {
                Some(e) => key_pos(self.pairs(), uuid@) >= 0 && *e == self.pairs()[key_pos(self.pairs(), uuid@)].1,
                None => key_pos(self.pairs(), uuid@) == -1,
            },
    {
        match self.position_of(uuid) {
            Some(i) => Some(self.entry_at(i).1),
            None => None,
        }
    }

    /// Insert or replace the entry for `uuid`; an existing UUID keeps its place.
    pub fn insert(&mut self, uuid: String, entry: VaultEntry) -> (r: Option<VaultEntry>)
        requires
            old(self).wf(),
        ensures
            final(self).wf(),
            final(self).pairs() == inserted(old(self).pairs(), uuid@, entry),
            final(self).version == old(self).version,
            final(self).blobs_dir == old(self).blobs_dir,
    {
        entry_map_insert(&mut self.entries, uuid, entry)
    }

    /// Remove the entry for `uuid`, keeping the order of the others (`shift_remove`).
    pub fn remove(&mut self, uuid: &str) -> (r: Option<VaultEntry>)
        requires
            old(self).wf(),
        ensures
            final(self).wf(),
            final(self).pairs() == removed(old(self).pairs(), uuid@),
            final(self).version == old(self).version,
            final(self).blobs_dir == old(self).blobs_dir,
            r is Some <==> key_pos(old(self).pairs(), uuid@) >= 0,
    {
        entry_map_shift_remove(&mut self.entries, uuid)
    }
}

} // verus!
