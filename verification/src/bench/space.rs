//! How the files of a store add up.

use vstd::prelude::*;

use crate::num;
use crate::num::saturating_mul_u64;
use crate::text::{letters, part, same};

verus! {

/// The names by which kinds of storage files are reported.
pub fn storage_file_type_name(file_type: usize) -> (name: &'static str)
    requires
        file_type < STORAGE_FILE_TYPES,
    ensures
        name@ == (if file_type == 0 {
            "segment"@
        } else if file_type == 1 {
            "strata_lsm_table"@
        } else if file_type == 2 {
            "rocksdb_sst"@
        } else {
            "rocksdb_blob"@
        }),
{
    if file_type == 0 {
        "segment"
    } else if file_type == 1 {
        "strata_lsm_table"
    } else if file_type == 2 {
        "rocksdb_sst"
    } else {
        "rocksdb_blob"
    }
}

/// How many kinds of storage files there are.
pub const STORAGE_FILE_TYPES: usize = 4;

/// The place of the first slash, or the end.
pub open spec fn slash(path: Seq<char>) -> nat
    decreases path.len(),
{
    if path.len() == 0 || path[0] == '/' {
        0
    } else {
        1 + slash(path.skip(1))
    }
}

/// Whether a part of a path counts: an empty part or a single dot does not.
pub open spec fn is_component(name: Seq<char>) -> bool {
    name.len() > 0 && name != seq!['.']
}

/// The parts of a path that count.
pub open spec fn components(path: Seq<char>) -> Seq<Seq<char>>
    decreases path.len(),
{
    let end = slash(path);
    let head = path.take(end as int);
    let rest = if end < path.len() {
        components(path.skip(end as int + 1))
    } else {
        Seq::empty()
    };
    if is_component(head) {
        seq![head] + rest
    } else {
        rest
    }
}

/// The parts of a path.
pub open spec fn views(names: Seq<String>) -> Seq<Seq<char>> {
    names.map_values(|name: String| name@)
}

fn path_components(path: &str) -> (names: Vec<String>)
    ensures
        views(names@) == components(path@),
{
    let chars: Vec<char> = letters(path);
    let len: usize = chars.len();
    let mut names: Vec<String> = Vec::new();
    let mut from: usize = 0;
    let mut done: bool = false;
    assert(path@.skip(0) =~= path@);
    assert(views(names@) + components(path@) =~= components(path@));
    while !done
        invariant
            from <= len,
            len == path@.len(),
            chars@ == path@,
            !done ==> components(path@) == views(names@) + components(path@.skip(from as int)),
            done ==> components(path@) == views(names@),
        decreases len - from + (if done {
            0int
        } else {
            1int
        }),
    {
        let ghost rest = path@.skip(from as int);
        let mut end: usize = from;
        assert(rest.skip(0) =~= rest);
        while end < len && chars[end] != '/'
            invariant
                from <= end <= len,
                len == path@.len(),
                chars@ == path@,
                rest == path@.skip(from as int),
                slash(rest) == end - from + slash(rest.skip(end - from)),
            decreases len - end,
        {
            assert(rest.skip(end - from)[0] == path@[end as int]);
            assert(rest.skip(end - from).skip(1) =~= rest.skip(end - from + 1));
            end = end + 1;
        }
        proof {
            if end < len {
                assert(rest.skip(end - from)[0] == path@[end as int]);
            }
            assert(slash(rest) == end - from);
            assert(rest.take(end - from) =~= path@.subrange(from as int, end as int));
        }
        let name: String = part(path, from, end);
        let ghost before = names@;
        let ghost tail = if end < len {
            components(rest.skip(end - from + 1))
        } else {
            Seq::<Seq<char>>::empty()
        };
        let counts: bool = end > from && !(end - from == 1 && chars[from] == '.');
        assert(counts == is_component(name@)) by {
            if end - from == 1 && chars@[from as int] == '.' {
                assert(name@ =~= seq!['.']);
            }
            if name@ == seq!['.'] {
                assert(name@[0] == '.');
            }
        }
        if counts {
            names.push(name);
            assert(views(names@) =~= views(before).push(name@));
            assert(views(before) + (seq![name@] + tail) =~= views(names@) + tail);
        } else {
            assert(views(before) + tail =~= views(names@) + tail);
        }
        if end < len {
            assert(rest.skip(end - from + 1) =~= path@.skip(end + 1));
            from = end + 1;
        } else {
            assert(views(names@) + tail =~= views(names@));
            from = len;
            done = true;
        }
    }
    names
}

/// The place of the last dot of a name, or nothing.
pub open spec fn last_dot(name: Seq<char>) -> Option<int>
    decreases name.len(),
{
    if name.len() == 0 {
        None
    } else if name.last() == '.' {
        Some(name.len() - 1)
    } else {
        last_dot(name.drop_last())
    }
}

/// What follows the last dot of a file's name; a name that begins with its only dot has none.
pub open spec fn extension_of(path: Seq<char>) -> Option<Seq<char>> {
    let parts = components(path);
    if parts.len() == 0 || parts.last() == seq!['.', '.'] {
        None
    } else {
        match last_dot(parts.last()) {
            Some(dot) => if dot == 0 {
                None
            } else {
                Some(parts.last().skip(dot + 1))
            },
            None => None,
        }
    }
}

fn extension(parts: &Vec<String>) -> (result: Option<String>)
    ensures
        match result {
            Some(extension) => parts@.len() > 0 && parts@.last()@ != seq!['.', '.'] && (last_dot(
                parts@.last()@,
            ) matches Some(dot) && dot > 0 && extension@ == parts@.last()@.skip(dot + 1)),
            None => parts@.len() == 0 || parts@.last()@ == seq!['.', '.'] || (match last_dot(
                parts@.last()@,
            ) {
                Some(dot) => dot == 0,
                None => true,
            }),
        },
{
    if parts.len() == 0 {
        return None;
    }
    let name: &str = parts[parts.len() - 1].as_str();
    let chars: Vec<char> = letters(name);
    let len: usize = chars.len();
    if len == 2 && chars[0] == '.' && chars[1] == '.' {
        assert(name@ =~= seq!['.', '.']);
        return None;
    }
    assert(name@ != seq!['.', '.']) by {
        if name@ == seq!['.', '.'] {
            assert(name@[0] == '.' && name@[1] == '.');
        }
    }
    let mut dot: usize = len;
    assert(name@.take(len as int) =~= name@);
    while dot > 0 && chars[dot - 1] != '.'
        invariant
            dot <= len,
            len == name@.len(),
            chars@ == name@,
            last_dot(name@) == last_dot(name@.take(dot as int)),
        decreases dot,
    {
        assert(name@.take(dot as int).last() == chars@[dot - 1]);
        assert(name@.take(dot as int).drop_last() =~= name@.take(dot - 1));
        dot = dot - 1;
    }
    proof {
        if dot > 0 {
            assert(name@.take(dot as int).last() == chars@[dot - 1]);
        }
    }
    if dot <= 1 {
        return None;
    }
    assert(name@.subrange(dot as int, len as int) =~= name@.skip(dot as int));
    Some(part(name, dot, len))
}

/// Whether a path leads through a part of that name.
pub open spec fn passes_through(path: Seq<char>, name: Seq<char>) -> bool {
    components(path).contains(name)
}

fn has_component(parts: &Vec<String>, name: &str) -> (result: bool)
    ensures
        result == views(parts@).contains(name@),
{
    let mut i: usize = 0;
    while i < parts.len()
        invariant
            i <= parts@.len(),
            forall|k: int| 0 <= k < i ==> views(parts@)[k] != name@,
        decreases parts@.len() - i,
    {
        assert(views(parts@)[i as int] == parts@[i as int]@);
        if same(parts[i].as_str(), name) {
            return true;
        }
        i = i + 1;
    }
    false
}

/// Whether a name belongs to the directory of an epoch.
pub open spec fn is_epoch_name(name: Seq<char>) -> bool {
    name.len() >= 6 && name.take(6) == seq!['e', 'p', 'o', 'c', 'h', '-']
}

fn names_epoch(name: &str) -> (result: bool)
    ensures
        result == is_epoch_name(name@),
{
    let chars: Vec<char> = letters(name);
    if chars.len() < 6 {
        return false;
    }
    let result: bool = chars[0] == 'e' && chars[1] == 'p' && chars[2] == 'o' && chars[3] == 'c'
        && chars[4] == 'h' && chars[5] == '-';
    proof {
        let front = name@.take(6);
        let expected = seq!['e', 'p', 'o', 'c', 'h', '-'];
        if result {
            assert(front =~= expected);
        } else if front == expected {
            assert(front[0] == 'e' && front[1] == 'p' && front[2] == 'o' && front[3] == 'c'
                && front[4] == 'h' && front[5] == '-');
        }
    }
    result
}

/// Whether a path leads through the directory of an epoch.
pub open spec fn passes_epoch(path: Seq<char>) -> bool {
    exists|i: int| 0 <= i < components(path).len() && is_epoch_name(#[trigger] components(path)[i])
}

fn has_epoch_component(parts: &Vec<String>) -> (result: bool)
    ensures
        result == (exists|i: int|
            0 <= i < views(parts@).len() && is_epoch_name(#[trigger] views(parts@)[i])),
{
    let mut i: usize = 0;
    while i < parts.len()
        invariant
            i <= parts@.len(),
            forall|k: int| 0 <= k < i ==> !is_epoch_name(#[trigger] views(parts@)[k]),
        decreases parts@.len() - i,
    {
        assert(views(parts@)[i as int] == parts@[i as int]@);
        if names_epoch(parts[i].as_str()) {
            return true;
        }
        i = i + 1;
    }
    false
}

/// The kind of a storage file, by its name and the directories that it is in.
pub open spec fn spec_storage_file_type(path: Seq<char>) -> Option<usize> {
    match extension_of(path) {
        Some(extension) => if extension == "data"@ {
            Some(0)
        } else if extension == "sst"@ {
            if passes_through(path, "lsm"@) || passes_through(path, "relocations"@) {
                Some(1)
            } else {
                Some(2)
            }
        } else if extension == "blob"@ {
            Some(3)
        } else {
            None
        },
        None => None,
    }
}

fn file_type_of(parts: &Vec<String>, extension: &Option<String>) -> (file_type: Option<usize>)
    ensures
        file_type == (match extension {
            Some(extension) => if extension@ == "data"@ {
                Some(0usize)
            } else if extension@ == "sst"@ {
                if views(parts@).contains("lsm"@) || views(parts@).contains("relocations"@) {
                    Some(1)
                } else {
                    Some(2)
                }
            } else if extension@ == "blob"@ {
                Some(3)
            } else {
                None
            },
            None => None,
        }),
{
    match extension {
        Some(extension) => {
            let extension: &str = extension.as_str();
            if same(extension, "data") {
                Some(0)
            } else if same(extension, "sst") {
                if has_component(parts, "lsm") || has_component(parts, "relocations") {
                    Some(1)
                } else {
                    Some(2)
                }
            } else if same(extension, "blob") {
                Some(3)
            } else {
                None
            }
        },
        None => None,
    }
}

/// The kind of a storage file, where it is one.
pub fn storage_file_type(path: &str) -> (file_type: Option<usize>)
    ensures
        file_type == spec_storage_file_type(path@),
{
    let parts: Vec<String> = path_components(path);
    proof {
        lemma_last_view(parts@);
    }
    let extension: Option<String> = extension(&parts);
    file_type_of(&parts, &extension)
}

proof fn lemma_last_view(parts: Seq<String>)
    ensures
        views(parts).len() == parts.len(),
        parts.len() > 0 ==> views(parts).last() == parts.last()@,
{
}

/// What an entry of a directory is.
#[derive(Clone, Copy, Debug, PartialEq, Eq, Structural)]
pub enum EntryKind {
    File,
    Directory,
    /// A link, or anything else that is counted by its own size alone.
    Other,
}

/// What a directory tree and its file system hold.
#[derive(Clone, Copy, Debug, PartialEq, Eq, Structural)]
pub struct SpaceSnapshot {
    pub apparent_bytes: u64,
    pub allocated_bytes: u64,
    pub files: u64,
    pub filesystem_available_bytes: u64,
    pub filesystem_total_bytes: u64,
    pub segment_bytes: u64,
    pub strata_lsm_table_bytes: u64,
    pub rocksdb_sst_bytes: u64,
    pub rocksdb_blob_bytes: u64,
    pub strata_exact_epoch_bytes: u64,
    pub strata_spillover_bytes: u64,
    pub strata_epoch_directories: u64,
}

impl Default for SpaceSnapshot {
    fn default() -> (snapshot: SpaceSnapshot)
        ensures
            snapshot == SpaceSnapshot::empty(),
    {
        SpaceSnapshot {
            apparent_bytes: 0,
            allocated_bytes: 0,
            files: 0,
            filesystem_available_bytes: 0,
            filesystem_total_bytes: 0,
            segment_bytes: 0,
            strata_lsm_table_bytes: 0,
            rocksdb_sst_bytes: 0,
            rocksdb_blob_bytes: 0,
            strata_exact_epoch_bytes: 0,
            strata_spillover_bytes: 0,
            strata_epoch_directories: 0,
        }
    }
}

/// A count and more, as far as it can be told.
pub open spec fn plus(count: u64, more: u64) -> u64 {
    num::at_most(count + more, u64::MAX as int) as u64
}

/// Bytes of a block of the file system.
pub const BLOCK_BYTES: u64 = 512;

impl SpaceSnapshot {
    pub open spec fn empty() -> SpaceSnapshot {
        SpaceSnapshot {
            apparent_bytes: 0,
            allocated_bytes: 0,
            files: 0,
            filesystem_available_bytes: 0,
            filesystem_total_bytes: 0,
            segment_bytes: 0,
            strata_lsm_table_bytes: 0,
            rocksdb_sst_bytes: 0,
            rocksdb_blob_bytes: 0,
            strata_exact_epoch_bytes: 0,
            strata_spillover_bytes: 0,
            strata_epoch_directories: 0,
        }
    }

    /// With one more file of a path.
    pub open spec fn with_file(self, path: Seq<char>, len: u64) -> SpaceSnapshot {
        let file_type = spec_storage_file_type(path);
        let is_data = extension_of(path) == Some("data"@);
        SpaceSnapshot {
            files: plus(self.files, 1),
            segment_bytes: if file_type == Some(0usize) {
                plus(self.segment_bytes, len)
            } else {
                self.segment_bytes
            },
            strata_lsm_table_bytes: if file_type == Some(1usize) {
                plus(self.strata_lsm_table_bytes, len)
            } else {
                self.strata_lsm_table_bytes
            },
            rocksdb_sst_bytes: if file_type == Some(2usize) {
                plus(self.rocksdb_sst_bytes, len)
            } else {
                self.rocksdb_sst_bytes
            },
            rocksdb_blob_bytes: if file_type == Some(3usize) {
                plus(self.rocksdb_blob_bytes, len)
            } else {
                self.rocksdb_blob_bytes
            },
            strata_exact_epoch_bytes: if is_data && passes_epoch(path) {
                plus(self.strata_exact_epoch_bytes, len)
            } else {
                self.strata_exact_epoch_bytes
            },
            strata_spillover_bytes: if is_data && !passes_epoch(path) && passes_through(
                path,
                "spillover"@,
            ) {
                plus(self.strata_spillover_bytes, len)
            } else {
                self.strata_spillover_bytes
            },
            ..self
        }
    }

    /// With one more entry: its own size, and what its name says of it.
    pub open spec fn with_entry(
        self,
        path: Seq<char>,
        kind: EntryKind,
        len: u64,
        blocks: u64,
    ) -> SpaceSnapshot {
        let sized = SpaceSnapshot {
            apparent_bytes: plus(self.apparent_bytes, len),
            allocated_bytes: plus(
                self.allocated_bytes,
                num::at_most(blocks * BLOCK_BYTES, u64::MAX as int) as u64,
            ),
            ..self
        };
        match kind {
            EntryKind::File => sized.with_file(path, len),
            EntryKind::Directory => if components(path).len() > 0 && is_epoch_name(
                components(path).last(),
            ) {
                SpaceSnapshot {
                    strata_epoch_directories: plus(self.strata_epoch_directories, 1),
                    ..sized
                }
            } else {
                sized
            },
            EntryKind::Other => sized,
        }
    }

    fn add_file(&mut self, path: &str, len: u64)
        ensures
            *final(self) == old(self).with_file(path@, len),
    {
        let parts: Vec<String> = path_components(path);
        proof {
            lemma_last_view(parts@);
        }
        let extension: Option<String> = extension(&parts);
        self.files = self.files.saturating_add(1);
        match file_type_of(&parts, &extension) {
            Some(file_type) => {
                if file_type == 0 {
                    self.segment_bytes = self.segment_bytes.saturating_add(len);
                } else if file_type == 1 {
                    self.strata_lsm_table_bytes = self.strata_lsm_table_bytes.saturating_add(len);
                } else if file_type == 2 {
                    self.rocksdb_sst_bytes = self.rocksdb_sst_bytes.saturating_add(len);
                } else {
                    self.rocksdb_blob_bytes = self.rocksdb_blob_bytes.saturating_add(len);
                }
            },
            None => {},
        }
        let is_data: bool = match &extension {
            Some(extension) => same(extension.as_str(), "data"),
            None => false,
        };
        if is_data {
            if has_epoch_component(&parts) {
                self.strata_exact_epoch_bytes = self.strata_exact_epoch_bytes.saturating_add(len);
            } else if has_component(&parts, "spillover") {
                self.strata_spillover_bytes = self.strata_spillover_bytes.saturating_add(len);
            }
        }
    }

    /// Adds one entry of a directory tree.
    pub fn add_entry(&mut self, path: &str, kind: EntryKind, len: u64, blocks: u64)
        ensures
            *final(self) == old(self).with_entry(path@, kind, len, blocks),
    {
        self.apparent_bytes = self.apparent_bytes.saturating_add(len);
        let allocated: u64 = saturating_mul_u64(blocks, BLOCK_BYTES);
        self.allocated_bytes = self.allocated_bytes.saturating_add(allocated);
        match kind {
            EntryKind::File => {
                self.add_file(path, len);
            },
            EntryKind::Directory => {
                let parts: Vec<String> = path_components(path);
                proof {
                    lemma_last_view(parts@);
                }
                if parts.len() > 0 && names_epoch(parts[parts.len() - 1].as_str()) {
                    self.strata_epoch_directories = self.strata_epoch_directories.saturating_add(1);
                }
            },
            EntryKind::Other => {},
        }
    }

    /// Adds what the file system reports.
    pub fn set_filesystem(&mut self, available_bytes: u64, total_bytes: u64)
        ensures
            *final(self) == (SpaceSnapshot {
                filesystem_available_bytes: available_bytes,
                filesystem_total_bytes: total_bytes,
                ..*old(self)
            }),
    {
        self.filesystem_available_bytes = available_bytes;
        self.filesystem_total_bytes = total_bytes;
    }
}

// Laws.

/// Every storage file is counted under one kind, so that the kinds together never hold more than
/// the tree.
pub proof fn law_kinds_are_disjoint(
    snapshot: SpaceSnapshot,
    path: Seq<char>,
    kind: EntryKind,
    len: u64,
    blocks: u64,
)
    requires
        snapshot.segment_bytes + snapshot.strata_lsm_table_bytes + snapshot.rocksdb_sst_bytes
            + snapshot.rocksdb_blob_bytes <= snapshot.apparent_bytes,
        snapshot.strata_exact_epoch_bytes + snapshot.strata_spillover_bytes
            <= snapshot.segment_bytes,
        snapshot.apparent_bytes + len <= u64::MAX,
    ensures
        ({
            let after = snapshot.with_entry(path, kind, len, blocks);
            &&& after.segment_bytes + after.strata_lsm_table_bytes + after.rocksdb_sst_bytes
                + after.rocksdb_blob_bytes <= after.apparent_bytes
            &&& after.strata_exact_epoch_bytes + after.strata_spillover_bytes
                <= after.segment_bytes
        }),
{
}

} // verus!
