//! Override content: verbatim files bundled with the pack, keyed by relative
//! path, and the rules that pick them out of the pack archive.
use vstd::prelude::*;

verus! {

/// One override: a relative path and the bytes to write there.
#[derive(Debug, Clone)]
pub struct OverrideFile {
    pub path: String,
    pub content: Vec<u8>,
}

/// A set of overrides with distinct paths. A later insert for a path
/// replaces the earlier content.
pub struct OverrideSet {
    files: Vec<OverrideFile>,
    contents: Ghost<Map<Seq<char>, Seq<u8>>>,
}

impl View for OverrideSet {
    type V = Map<Seq<char>, Seq<u8>>;

    closed spec fn view(&self) -> Map<Seq<char>, Seq<u8>> {
        self.contents@
    }
}

impl OverrideSet {
    /// The entries in the order they are written.
    pub closed spec fn entries(&self) -> Seq<OverrideFile> {
        self.files@
    }

    /// Paths are distinct, and the entries hold exactly the map's contents.
    pub closed spec fn wf(&self) -> bool {
        &&& forall|i: int, j: int|
            0 <= i < j < self.files@.len() ==> self.files@[i].path@ != self.files@[j].path@
        &&& forall|i: int|
            #![trigger self.files@[i]]
            0 <= i < self.files@.len() ==> self.contents@.contains_key(self.files@[i].path@)
                && self.contents@[self.files@[i].path@] == self.files@[i].content@
        &&& forall|p: Seq<char>|
            #[trigger] self.contents@.contains_key(p) ==> exists|i: int|
                0 <= i < self.files@.len() && self.files@[i].path@ == p
    }

    /// The entry positions hold exactly the keys of the view.
    pub proof fn lemma_entries(&self)
        requires
            self.wf(),
        ensures
            forall|i: int|
                #![trigger self.entries()[i]]
                0 <= i < self.entries().len() ==> self@.contains_key(self.entries()[i].path@)
                    && self@[self.entries()[i].path@] == self.entries()[i].content@,
            forall|p: Seq<char>|
                #[trigger] self@.contains_key(p) <==> exists|i: int|
                    0 <= i < self.entries().len() && self.entries()[i].path@ == p,
    {
        assert forall|p: Seq<char>| (exists|i: int|
            0 <= i < self.entries().len() && self.entries()[i].path@ == p) implies #[trigger] self@.contains_key(p) by {
            let i = choose|i: int| 0 <= i < self.entries().len() && self.entries()[i].path@ == p;
            assert(self.files@[i].path@ == p);
        }
        assert forall|p: Seq<char>| #[trigger] self@.contains_key(p) implies (exists|i: int|
            0 <= i < self.entries().len() && self.entries()[i].path@ == p) by {
            assert(self.contents@.contains_key(p));
            let i = choose|i: int| 0 <= i < self.files@.len() && self.files@[i].path@ == p;
            assert(self.entries()[i].path@ == p);
        }
    }

    /// An empty set.
    pub fn new() -> (r: Self)
        ensures
            r.wf(),
            r@ == Map::<Seq<char>, Seq<u8>>::empty(),
    {
        OverrideSet { files: Vec::new(), contents: Ghost(Map::empty()) }
    }

    /// The number of distinct paths.
    pub fn len(&self) -> (r: usize)
        ensures
            r == self.entries().len(),
    {
        self.files.len()
    }

    /// The entry at a position.
    pub fn get(&self, i: usize) -> (r: &OverrideFile)
        requires
            i < self.entries().len(),
        ensures
            *r == self.entries()[i as int],
    {
        &self.files[i]
    }

    /// The position of the entry for a path, if there is one.
    fn position(&self, path: &String) -> (r: Option<usize>)
        requires
            self.wf(),
        ensures
            match r {
                Some(i) => i < self.files@.len() && self.files@[i as int].path@ == path@,
                None => !self@.contains_key(path@),
            },
    {
        let mut i: usize = 0;
        while i < self.files.len()
            invariant
                self.wf(),
                0 <= i <= self.files@.len(),
                forall|j: int| 0 <= j < i ==> self.files@[j].path@ != path@,
            decreases self.files@.len() - i,
        {
            if self.files[i].path == *path {
                return Some(i);
            }
            i = i + 1;
        }
        None
    }

    /// Whether a path has an override.
    pub fn contains(&self, path: &String) -> (r: bool)
        requires
            self.wf(),
        ensures
            r == self@.contains_key(path@),
    {
        match self.position(path) {
            Some(_) => true,
            None => false,
        }
    }

    /// Sets the content for a path, replacing any earlier content.
    pub fn insert(&mut self, path: String, content: Vec<u8>)
        requires
            old(self).wf(),
        ensures
            final(self).wf(),
            final(self)@ == old(self)@.insert(path@, content@),
    {
        let ghost target = self.contents@.insert(path@, content@);
        match self.position(&path) {
            Some(i) => {
                let entry = OverrideFile { path, content };
                self.files.set(i, entry);
                self.contents = Ghost(target);
                assert forall|p: Seq<char>| #[trigger] self.contents@.contains_key(p) implies exists|k: int|
                    0 <= k < self.files@.len() && self.files@[k].path@ == p by {
                    if p != self.files@[i as int].path@ {
                        let k = choose|k: int| 0 <= k < old(self).files@.len() && old(self).files@[k].path@ == p;
                        assert(self.files@[k].path@ == p);
                    }
                }
            },
            None => {
                let entry = OverrideFile { path, content };
                self.files.push(entry);
                self.contents = Ghost(target);
                assert forall|p: Seq<char>| #[trigger] self.contents@.contains_key(p) implies exists|k: int|
                    0 <= k < self.files@.len() && self.files@[k].path@ == p by {
                    let last = self.files@.len() - 1;
                    if p != self.files@[last].path@ {
                        let k = choose|k: int| 0 <= k < old(self).files@.len() && old(self).files@[k].path@ == p;
                        assert(self.files@[k].path@ == p);
                    }
                }
            },
        }
    }
}

/// A file entry of the pack archive, read whole.
#[derive(Debug, Clone)]
pub struct ArchiveEntry {
    pub name: String,
    pub is_dir: bool,
    pub content: Vec<u8>,
}

/// The name of the manifest document inside the pack archive.
pub open spec fn spec_index_name() -> Seq<char> {
    "modrinth.index.json"@
}

/// The position of the first archive entry that holds the manifest document.
pub fn find_index_entry(entries: &Vec<ArchiveEntry>) -> (r: Option<usize>)
    ensures
        match r {
            Some(i) => i < entries@.len() && entries@[i as int].name@ == spec_index_name()
                && forall|j: int| 0 <= j < i ==> entries@[j].name@ != spec_index_name(),
            None => forall|j: int| 0 <= j < entries@.len() ==> entries@[j].name@ != spec_index_name(),
        },
{
    let index_name = String::from_str("modrinth.index.json");
    let mut i: usize = 0;
    while i < entries.len()
        invariant
            index_name@ == spec_index_name(),
            0 <= i <= entries@.len(),
            forall|j: int| 0 <= j < i ==> entries@[j].name@ != spec_index_name(),
        decreases entries@.len() - i,
    {
        if entries[i].name == index_name {
            return Some(i);
        }
        i = i + 1;
    }
    None
}

/// The path an archive entry overrides under a directory prefix: the rest of
/// its name, when the entry is a file whose name starts with the prefix and
/// goes on past it.
pub open spec fn spec_override_target(name: Seq<char>, prefix: Seq<char>, is_dir: bool) -> Option<Seq<char>> {
    if !is_dir && name.len() > prefix.len() && name.subrange(0, prefix.len() as int) == prefix {
        Some(name.subrange(prefix.len() as int, name.len() as int))
    } else {
        None
    }
}

/// Strips a directory prefix from an archive entry name, as
/// `spec_override_target` says.
pub fn override_target(name: &str, prefix: &str, is_dir: bool) -> (r: Option<String>)
    ensures
        match r {
            Some(p) => spec_override_target(name@, prefix@, is_dir) == Some(p@),
            None => spec_override_target(name@, prefix@, is_dir) is None,
        },
{
    if is_dir {
        return None;
    }
    let n = name.unicode_len();
    let m = prefix.unicode_len();
    if n <= m {
        return None;
    }
    let mut i: usize = 0;
    while i < m
        invariant
            n == name@.len(),
            m == prefix@.len(),
            m < n,
            0 <= i <= m,
            forall|j: int| 0 <= j < i ==> name@[j] == prefix@[j],
        decreases m - i,
    {
        if name.get_char(i) != prefix.get_char(i) {
            assert(name@.subrange(0, m as int)[i as int] != prefix@[i as int]);
            return None;
        }
        i = i + 1;
    }
    assert(name@.subrange(0, m as int) =~= prefix@);
    Some(String::from_str(name.substring_char(m, n)))
}

/// The overrides that the entries give under one prefix: each matching entry
/// in archive order, a later one replacing an earlier one for the same path.
pub open spec fn override_layer(entries: Seq<ArchiveEntry>, prefix: Seq<char>) -> Map<Seq<char>, Seq<u8>>
    decreases entries.len(),
{
    if entries.len() == 0 {
        Map::empty()
    } else {
        let rest = override_layer(entries.drop_last(), prefix);
        let e = entries.last();
        match spec_override_target(e.name@, prefix, e.is_dir) {
            Some(p) => rest.insert(p, e.content@),
            None => rest,
        }
    }
}

/// The generic override directory of a pack archive.
pub open spec fn spec_generic_prefix() -> Seq<char> {
    "overrides/"@
}

/// The server override directory of a pack archive.
pub open spec fn spec_server_prefix() -> Seq<char> {
    "server-overrides/"@
}

/// The overrides of a pack archive: the generic layer, with the server layer
/// laid over it.
pub open spec fn spec_overrides(entries: Seq<ArchiveEntry>) -> Map<Seq<char>, Seq<u8>> {
    override_layer(entries, spec_generic_prefix()).union_prefer_right(
        override_layer(entries, spec_server_prefix()),
    )
}

/// Lays the overrides found under one prefix over an existing set.
fn add_layer(set: &mut OverrideSet, entries: &Vec<ArchiveEntry>, prefix: &str)
    requires
        old(set).wf(),
    ensures
        final(set).wf(),
        final(set)@ == old(set)@.union_prefer_right(override_layer(entries@, prefix@)),
{
    let ghost base = set@;
    let mut i: usize = 0;
    assert(entries@.subrange(0, 0) =~= Seq::<ArchiveEntry>::empty());
    assert(base.union_prefer_right(Map::empty()) =~= base);
    while i < entries.len()
        invariant
            set.wf(),
            0 <= i <= entries@.len(),
            set@ == base.union_prefer_right(override_layer(entries@.subrange(0, i as int), prefix@)),
        decreases entries@.len() - i,
    {
        let e = &entries[i];
        let ghost before = override_layer(entries@.subrange(0, i as int), prefix@);
        assert(entries@.subrange(0, i + 1).drop_last() =~= entries@.subrange(0, i as int));
        match override_target(e.name.as_str(), prefix, e.is_dir) {
            Some(p) => {
                let content = e.content.clone();
                assert(content@ =~= e.content@);
                set.insert(p, content);
                assert(base.union_prefer_right(before).insert(p@, e.content@) =~= base.union_prefer_right(
                    before.insert(p@, e.content@),
                ));
            },
            None => {},
        }
        i = i + 1;
    }
    assert(entries@.subrange(0, entries@.len() as int) =~= entries@);
}

/// Collects the overrides of a pack archive: every file under `overrides/`,
/// then every file under `server-overrides/`, so that a server override wins
/// over a generic one for the same path.
pub fn read_overrides(entries: &Vec<ArchiveEntry>) -> (r: OverrideSet)
    ensures
        r.wf(),
        r@ == spec_overrides(entries@),
{
    let mut set = OverrideSet::new();
    add_layer(&mut set, entries, "overrides/");
    add_layer(&mut set, entries, "server-overrides/");
    assert(Map::<Seq<char>, Seq<u8>>::empty().union_prefer_right(override_layer(entries@, spec_generic_prefix()))
        =~= override_layer(entries@, spec_generic_prefix()));
    set
}

/// When a path has both a generic and a server override, the server content
/// is the one kept; a path with a generic override only keeps that content.
pub proof fn lemma_server_overrides_win(entries: Seq<ArchiveEntry>, path: Seq<char>)
    ensures
        override_layer(entries, spec_server_prefix()).contains_key(path) ==> spec_overrides(entries).contains_key(path)
            && spec_overrides(entries)[path] == override_layer(entries, spec_server_prefix())[path],
        !override_layer(entries, spec_server_prefix()).contains_key(path) && override_layer(
            entries,
            spec_generic_prefix(),
        ).contains_key(path) ==> spec_overrides(entries).contains_key(path) && spec_overrides(entries)[path]
            == override_layer(entries, spec_generic_prefix())[path],
{
}

} // verus!
