//! The reconciliation engine. Each declared file is checked, repaired from its
//! mirrors when missing or corrupt, then the overrides are written and, in
//! prune mode, untracked files under the managed directories are removed.
//!
//! The engine is a state machine: `ModManager::step` takes the current state
//! and the outcome of the last action, and gives the next state and the next
//! action for the driver to carry out on the filesystem or the network.
use crate::errors::FileError;
use crate::mrpack::{spec_applies_to_server, MRFile, MRIndex};
use crate::overrides::{OverrideFile, OverrideSet};
use crate::verify::content_valid;
use vstd::prelude::*;

verus! {

/// How many directories prune mode walks.
pub const PRUNE_ROOTS: usize = 3;

/// The directories prune mode walks: two that hold declared files, then one
/// that holds overrides.
pub open spec fn spec_prune_root(root: int) -> Seq<char> {
    if root == 0 {
        "mods"@
    } else if root == 1 {
        "resourcepacks"@
    } else {
        "config"@
    }
}

/// Whether a prune directory is checked against the overrides rather than
/// against the declared files.
pub open spec fn root_holds_overrides(root: int) -> bool {
    root >= 2
}

/// The name of a prune directory.
pub fn prune_root(root: usize) -> (r: String)
    requires
        root < PRUNE_ROOTS,
    ensures
        r@ == spec_prune_root(root as int),
{
    if root == 0 {
        String::from_str("mods")
    } else if root == 1 {
        String::from_str("resourcepacks")
    } else {
        String::from_str("config")
    }
}

/// What the driver is asked to do next. Indices refer to the manager's
/// declared files, its overrides, the prune directories, or the listing last
/// handed back.
#[derive(Debug, Clone, Copy, PartialEq, Eq, Structural)]
pub enum Action {
    /// Read the local copy of a declared file whole.
    ReadLocal { file: usize },
    /// Delete the local copy of a declared file, which failed validation.
    DeleteLocal { file: usize },
    /// Create the parent directories of a declared file.
    CreateParent { file: usize },
    /// Fetch a declared file from one of its mirrors into its path.
    Fetch { file: usize, mirror: usize },
    /// Remove what a failed fetch left at a declared file's path.
    Discard { file: usize },
    /// Create the parents of an override and write its content.
    WriteOverride { entry: usize },
    /// List the files under a prune directory, recursively.
    ListTree { root: usize },
    /// Delete an entry of the last listing.
    PruneFile { entry: usize },
    /// The run is over and succeeded.
    Done,
    /// The run is over and failed.
    Fail { error: FileError },
}

/// What came of the last action.
#[derive(Debug)]
pub enum Event {
    /// The action completed.
    Succeeded,
    /// The action failed.
    Failed,
    /// The local file to read does not exist.
    Missing,
    /// The bytes of the local file read.
    Contents(Vec<u8>),
    /// The files found under a prune directory.
    Listing(Vec<String>),
}

/// Where a run stands: the action last issued, and for what.
#[derive(Debug)]
pub enum SyncState {
    Start,
    Checking { file: usize },
    Deleting { file: usize },
    Preparing { file: usize },
    Fetching { file: usize, mirror: usize },
    Discarding { file: usize, mirror: usize },
    Writing { entry: usize },
    Walking { root: usize },
    Pruning { root: usize, found: Vec<String>, entry: usize },
    Finished { error: Option<FileError> },
}

/// The terminal state and action for a run's outcome.
pub open spec fn finish(error: Option<FileError>) -> (SyncState, Action) {
    (
        SyncState::Finished { error },
        match error {
            None => Action::Done,
            Some(e) => Action::Fail { error: e },
        },
    )
}

/// Whether an action changes the filesystem.
pub open spec fn is_change(a: Action) -> bool {
    match a {
        Action::DeleteLocal { .. } | Action::CreateParent { .. } | Action::Fetch { .. }
        | Action::Discard { .. } | Action::WriteOverride { .. } | Action::PruneFile { .. } => true,
        _ => false,
    }
}

/// The engine: the declared files that apply to a server, the overrides, and
/// whether untracked files are pruned.
pub struct ModManager {
    files: Vec<MRFile>,
    overrides: OverrideSet,
    prune: bool,
}

impl ModManager {
    /// The declared files the engine reconciles.
    pub closed spec fn files(&self) -> Seq<MRFile> {
        self.files@
    }

    /// The overrides the engine writes.
    pub closed spec fn overrides(&self) -> OverrideSet {
        self.overrides
    }

    /// Whether the run ends with pruning.
    pub closed spec fn prunes(&self) -> bool {
        self.prune
    }

    /// Every file applies to a server, and the overrides are well formed.
    pub open spec fn wf(&self) -> bool {
        &&& self.overrides().wf()
        &&& self.files().len() <= usize::MAX
        &&& forall|i: int| 0 <= i < self.files().len() ==> spec_applies_to_server(#[trigger] self.files()[i])
    }

    /// Whether a path found under a prune directory is known: an override path
    /// under the override directory, a declared path under the others.
    pub open spec fn is_known(&self, root: int, path: Seq<char>) -> bool {
        if root_holds_overrides(root) {
            self.overrides()@.contains_key(path)
        } else {
            exists|i: int| 0 <= i < self.files().len() && #[trigger] self.files()[i].path@ == path
        }
    }

    /// The first position at or after `from` whose path is not known, or the
    /// length of the listing when there is none.
    pub open spec fn next_untracked(&self, root: int, found: Seq<String>, from: int) -> int
        decreases found.len() - from,
    {
        if from < 0 || from >= found.len() {
            found.len() as int
        } else if self.is_known(root, found[from]@) {
            self.next_untracked(root, found, from + 1)
        } else {
            from
        }
    }

    /// Walk the prune directory `root`, or end the run when pruning is off or
    /// every directory has been walked.
    pub open spec fn begin_walk(&self, root: int) -> (SyncState, Action) {
        if self.prunes() && 0 <= root < PRUNE_ROOTS {
            (SyncState::Walking { root: root as usize }, Action::ListTree { root: root as usize })
        } else {
            finish(None)
        }
    }

    /// Prune the first unknown entry of a listing at or after `from`, or go on
    /// to the next directory when there is none.
    pub open spec fn begin_prune(&self, root: int, found: Vec<String>, from: int) -> (SyncState, Action) {
        let k = self.next_untracked(root, found@, from);
        if k < found@.len() {
            (
                SyncState::Pruning { root: root as usize, found, entry: k as usize },
                Action::PruneFile { entry: k as usize },
            )
        } else {
            self.begin_walk(root + 1)
        }
    }

    /// Write override `entry`, or go on to pruning once all are written.
    pub open spec fn begin_override(&self, entry: int) -> (SyncState, Action) {
        if 0 <= entry < self.overrides().entries().len() {
            (SyncState::Writing { entry: entry as usize }, Action::WriteOverride { entry: entry as usize })
        } else {
            self.begin_walk(0)
        }
    }

    /// Check declared file `file`, or go on to the overrides once all are done.
    pub open spec fn begin_file(&self, file: int) -> (SyncState, Action) {
        if 0 <= file < self.files().len() {
            (SyncState::Checking { file: file as usize }, Action::ReadLocal { file: file as usize })
        } else {
            self.begin_override(0)
        }
    }

    /// Fetch a declared file from mirror `mirror`, or fail the run once every
    /// mirror has been tried.
    pub open spec fn begin_fetch(&self, file: int, mirror: int) -> (SyncState, Action) {
        if 0 <= mirror < self.files()[file].downloads@.len() {
            (
                SyncState::Fetching { file: file as usize, mirror: mirror as usize },
                Action::Fetch { file: file as usize, mirror: mirror as usize },
            )
        } else {
            finish(Some(FileError::AllDownloadsFailed))
        }
    }

    /// Whether the local bytes are valid for a declared file.
    pub open spec fn local_valid(&self, file: int, data: Seq<u8>) -> bool {
        content_valid(data, self.files()[file].hashes.sha1@, self.files()[file].hashes.sha512@)
    }

    /// The transition relation of a run: the next state and action, given the
    /// state and the outcome of the action last issued.
    pub open spec fn next(&self, state: SyncState, event: Event) -> (SyncState, Action) {
        match state {
            SyncState::Start => self.begin_file(0),
            SyncState::Checking { file } => match event {
                Event::Missing => (SyncState::Preparing { file }, Action::CreateParent { file }),
                Event::Contents(data) => if self.local_valid(file as int, data@) {
                    self.begin_file(file + 1)
                } else {
                    (SyncState::Deleting { file }, Action::DeleteLocal { file })
                },
                _ => finish(Some(FileError::IOError)),
            },
            SyncState::Deleting { file } => if event is Succeeded {
                (SyncState::Preparing { file }, Action::CreateParent { file })
            } else {
                finish(Some(FileError::DeleteFailed))
            },
            SyncState::Preparing { file } => if event is Succeeded {
                self.begin_fetch(file as int, 0)
            } else {
                finish(Some(FileError::IOError))
            },
            SyncState::Fetching { file, mirror } => if event is Succeeded {
                self.begin_file(file + 1)
            } else {
                (SyncState::Discarding { file, mirror }, Action::Discard { file })
            },
            SyncState::Discarding { file, mirror } => if event is Succeeded {
                self.begin_fetch(file as int, mirror + 1)
            } else {
                finish(Some(FileError::DeleteFailed))
            },
            SyncState::Writing { entry } => if event is Succeeded {
                self.begin_override(entry + 1)
            } else {
                finish(Some(FileError::IOError))
            },
            SyncState::Walking { root } => match event {
                Event::Listing(found) => self.begin_prune(root as int, found, 0),
                _ => self.begin_walk(root + 1),
            },
            SyncState::Pruning { root, found, entry } => if event is Succeeded {
                self.begin_prune(root as int, found, entry + 1)
            } else {
                finish(Some(FileError::DeleteFailed))
            },
            SyncState::Finished { error } => finish(error),
        }
    }

    /// Whether the indices a state holds are in range.
    pub open spec fn valid_state(&self, state: SyncState) -> bool {
        match state {
            SyncState::Start => true,
            SyncState::Checking { file } => file < self.files().len(),
            SyncState::Deleting { file } => file < self.files().len(),
            SyncState::Preparing { file } => file < self.files().len(),
            SyncState::Fetching { file, mirror } => file < self.files().len() && mirror
                < self.files()[file as int].downloads@.len(),
            SyncState::Discarding { file, mirror } => file < self.files().len() && mirror
                < self.files()[file as int].downloads@.len(),
            SyncState::Writing { entry } => entry < self.overrides().entries().len(),
            SyncState::Walking { root } => root < PRUNE_ROOTS,
            SyncState::Pruning { root, found, entry } => root < PRUNE_ROOTS && entry < found@.len()
                && found@.len() <= usize::MAX,
            SyncState::Finished { .. } => true,
        }
    }

    /// Builds the engine for a server sync: keeps, in order, the declared
    /// files that apply to a server, and takes the overrides as they are.
    pub fn new(index: MRIndex, overrides: OverrideSet, prune: bool) -> (r: Self)
        requires
            overrides.wf(),
        ensures
            r.wf(),
            r.files() == index.files@.filter(|f: MRFile| spec_applies_to_server(f)),
            r.overrides() == overrides,
            r.prunes() == prune,
    {
        let ghost all = index.files@;
        let n = index.files.len();
        let mut pending = index.files;
        let mut reversed: Vec<MRFile> = Vec::new();
        while pending.len() > 0
            invariant
                pending@ == all.subrange(0, pending@.len() as int),
                pending@.len() + reversed@.len() == n,
                n == all.len(),
                forall|j: int| 0 <= j < reversed@.len() ==> #[trigger] reversed@[j] == all[n - 1 - j],
            decreases pending@.len(),
        {
            let f = pending.pop().unwrap();
            reversed.push(f);
        }
        let mut files: Vec<MRFile> = Vec::new();
        let mut i: usize = 0;
        assert(all.subrange(0, 0) =~= Seq::<MRFile>::empty());
        while i < n
            invariant
                n == all.len(),
                0 <= i <= n,
                reversed@.len() == n - i,
                forall|j: int| 0 <= j < reversed@.len() ==> #[trigger] reversed@[j] == all[n - 1 - j],
                files@ == all.subrange(0, i as int).filter(|f: MRFile| spec_applies_to_server(f)),
            decreases n - i,
        {
            let f = reversed.pop().unwrap();
            assert(f == all[i as int]);
            assert(all.subrange(0, i + 1) =~= all.subrange(0, i as int).push(f));
            proof {
                all.subrange(0, i as int).lemma_filter_push(f, |f: MRFile| spec_applies_to_server(f));
            }
            if f.applies_to_server() {
                files.push(f);
            }
            i = i + 1;
        }
        assert(all.subrange(0, n as int) =~= all);
        proof {
            assert forall|k: int| 0 <= k < files@.len() implies spec_applies_to_server(#[trigger] files@[k]) by {
                all.lemma_filter_pred(|f: MRFile| spec_applies_to_server(f), k);
            }
        }
        ModManager { files, overrides, prune }
    }

    /// The number of declared files the engine reconciles.
    pub fn file_count(&self) -> (r: usize)
        ensures
            r == self.files().len(),
    {
        self.files.len()
    }

    /// A declared file the engine reconciles.
    pub fn file(&self, i: usize) -> (r: &MRFile)
        requires
            i < self.files().len(),
        ensures
            *r == self.files()[i as int],
    {
        &self.files[i]
    }

    /// The number of overrides.
    pub fn override_count(&self) -> (r: usize)
        ensures
            r == self.overrides().entries().len(),
    {
        self.overrides.len()
    }

    /// An override the engine writes.
    pub fn override_entry(&self, i: usize) -> (r: &OverrideFile)
        requires
            i < self.overrides().entries().len(),
        ensures
            *r == self.overrides().entries()[i as int],
    {
        self.overrides.get(i)
    }

    /// Whether a path found under a prune directory is known, and so kept.
    pub fn is_known_path(&self, root: usize, path: &String) -> (r: bool)
        requires
            self.wf(),
        ensures
            r == self.is_known(root as int, path@),
    {
        if root >= 2 {
            proof {
                self.overrides.lemma_entries();
            }
            return self.overrides.contains(path);
        }
        let mut i: usize = 0;
        while i < self.files.len()
            invariant
                root < 2,
                0 <= i <= self.files@.len(),
                forall|j: int| 0 <= j < i ==> self.files@[j].path@ != path@,
            decreases self.files@.len() - i,
        {
            if self.files[i].path == *path {
                assert(self.files()[i as int].path@ == path@);
                assert(self.is_known(root as int, path@));
                return true;
            }
            i = i + 1;
        }
        false
    }

    fn exec_finish(error: Option<FileError>) -> (r: (SyncState, Action))
        ensures
            r == finish(error),
    {
        let action = match error {
            None => Action::Done,
            Some(e) => Action::Fail { error: e },
        };
        (SyncState::Finished { error }, action)
    }

    fn exec_begin_walk(&self, root: usize) -> (r: (SyncState, Action))
        requires
            root <= PRUNE_ROOTS,
        ensures
            r == self.begin_walk(root as int),
            self.valid_state(r.0),
    {
        if self.prune && root < PRUNE_ROOTS {
            (SyncState::Walking { root }, Action::ListTree { root })
        } else {
            Self::exec_finish(None)
        }
    }

    fn exec_begin_prune(&self, root: usize, found: Vec<String>, from: usize) -> (r: (SyncState, Action))
        requires
            self.wf(),
            root < PRUNE_ROOTS,
            from <= found@.len(),
        ensures
            r == self.begin_prune(root as int, found, from as int),
            self.valid_state(r.0),
    {
        let mut k = from;
        let mut stop = false;
        while !stop && k < found.len()
            invariant
                self.wf(),
                from <= k <= found@.len(),
                stop ==> k < found@.len() && !self.is_known(root as int, found@[k as int]@),
                self.next_untracked(root as int, found@, from as int) == self.next_untracked(
                    root as int,
                    found@,
                    k as int,
                ),
            decreases found@.len() - k + if stop { 0int } else { 1int },
        {
            if self.is_known_path(root, &found[k]) {
                k = k + 1;
            } else {
                stop = true;
            }
        }
        if k < found.len() {
            (SyncState::Pruning { root, found, entry: k }, Action::PruneFile { entry: k })
        } else {
            self.exec_begin_walk(root + 1)
        }
    }

    fn exec_begin_override(&self, entry: usize) -> (r: (SyncState, Action))
        ensures
            r == self.begin_override(entry as int),
            self.valid_state(r.0),
    {
        if entry < self.overrides.len() {
            (SyncState::Writing { entry }, Action::WriteOverride { entry })
        } else {
            self.exec_begin_walk(0)
        }
    }

    fn exec_begin_file(&self, file: usize) -> (r: (SyncState, Action))
        ensures
            r == self.begin_file(file as int),
            self.valid_state(r.0),
    {
        if file < self.files.len() {
            (SyncState::Checking { file }, Action::ReadLocal { file })
        } else {
            self.exec_begin_override(0)
        }
    }

    fn exec_file_after(&self, file: usize) -> (r: (SyncState, Action))
        requires
            file < self.files().len(),
        ensures
            r == self.begin_file(file + 1),
            self.valid_state(r.0),
    {
        // the file count bounds `file + 1`
        let _files = self.files.len();
        self.exec_begin_file(file + 1)
    }

    fn exec_begin_fetch(&self, file: usize, mirror: usize) -> (r: (SyncState, Action))
        requires
            file < self.files().len(),
        ensures
            r == self.begin_fetch(file as int, mirror as int),
            self.valid_state(r.0),
    {
        if mirror < self.files[file].downloads.len() {
            (SyncState::Fetching { file, mirror }, Action::Fetch { file, mirror })
        } else {
            Self::exec_finish(Some(FileError::AllDownloadsFailed))
        }
    }

    /// Advances a run: given the state and the outcome of the action last
    /// issued, gives the next state and the action to carry out. A run starts
    /// from `SyncState::Start` and ends at `Action::Done` or `Action::Fail`.
    pub fn step(&self, state: SyncState, event: Event) -> (r: (SyncState, Action))
        requires
            self.wf(),
            self.valid_state(state),
        ensures
            r == self.next(state, event),
            self.valid_state(r.0),
    {
        match state {
            SyncState::Start => self.exec_begin_file(0),
            SyncState::Checking { file } => match event {
                Event::Missing => (SyncState::Preparing { file }, Action::CreateParent { file }),
                Event::Contents(data) => {
                    if self.files[file].is_valid_content(data.as_slice()) {
                        self.exec_file_after(file)
                    } else {
                        (SyncState::Deleting { file }, Action::DeleteLocal { file })
                    }
                },
                _ => Self::exec_finish(Some(FileError::IOError)),
            },
            SyncState::Deleting { file } => match event {
                Event::Succeeded => (SyncState::Preparing { file }, Action::CreateParent { file }),
                _ => Self::exec_finish(Some(FileError::DeleteFailed)),
            },
            SyncState::Preparing { file } => match event {
                Event::Succeeded => self.exec_begin_fetch(file, 0),
                _ => Self::exec_finish(Some(FileError::IOError)),
            },
            SyncState::Fetching { file, mirror } => match event {
                Event::Succeeded => self.exec_file_after(file),
                _ => (SyncState::Discarding { file, mirror }, Action::Discard { file }),
            },
            SyncState::Discarding { file, mirror } => match event {
                Event::Succeeded => {
                    // the mirror count bounds `mirror + 1`
                    let _mirrors = self.files[file].downloads.len();
                    self.exec_begin_fetch(file, mirror + 1)
                },
                _ => Self::exec_finish(Some(FileError::DeleteFailed)),
            },
            SyncState::Writing { entry } => match event {
                Event::Succeeded => {
                    // the override count bounds `entry + 1`
                    let _entries = self.overrides.len();
                    self.exec_begin_override(entry + 1)
                },
                _ => Self::exec_finish(Some(FileError::IOError)),
            },
            SyncState::Walking { root } => match event {
                Event::Listing(found) => self.exec_begin_prune(root, found, 0),
                _ => self.exec_begin_walk(root + 1),
            },
            SyncState::Pruning { root, found, entry } => match event {
                Event::Succeeded => {
                    // the listing's length bounds `entry + 1`
                    let _found = found.len();
                    self.exec_begin_prune(root, found, entry + 1)
                },
                _ => Self::exec_finish(Some(FileError::DeleteFailed)),
            },
            SyncState::Finished { error } => Self::exec_finish(error),
        }
    }

    /// The state a run reaches and the actions it issues, given the outcomes
    /// of its actions in order.
    pub open spec fn run(&self, state: SyncState, events: Seq<Event>) -> (SyncState, Seq<Action>)
        decreases events.len(),
    {
        if events.len() == 0 {
            (state, Seq::empty())
        } else {
            let first = self.next(state, events[0]);
            let rest = self.run(first.0, events.drop_first());
            (rest.0, seq![first.1] + rest.1)
        }
    }

    proof fn lemma_valid_run_from(&self, i: int, contents: Seq<Vec<u8>>)
        requires
            self.wf(),
            0 <= i <= self.files().len(),
            contents.len() == self.files().len(),
            forall|j: int| 0 <= j < contents.len() ==> self.local_valid(j, #[trigger] contents[j]@),
        ensures
            self.run(
                self.begin_file(i).0,
                contents.subrange(i, contents.len() as int).map_values(|c: Vec<u8>| Event::Contents(c)),
            ) == (
                self.begin_override(0).0,
                Seq::new((self.files().len() - i) as nat, |j: int| self.begin_file(i + j + 1).1),
            ),
        decreases self.files().len() - i,
    {
        let n = self.files().len() as int;
        let events = contents.subrange(i, n).map_values(|c: Vec<u8>| Event::Contents(c));
        if i == n {
            assert(events =~= Seq::<Event>::empty());
            assert(self.begin_file(i) == self.begin_override(0));
            assert(Seq::new(0nat, |j: int| self.begin_file(i + j + 1).1) =~= Seq::<Action>::empty());
        } else {
            self.lemma_valid_run_from(i + 1, contents);
            assert(events.drop_first() =~= contents.subrange(i + 1, n).map_values(
                |c: Vec<u8>| Event::Contents(c),
            ));
            assert(events[0] == Event::Contents(contents[i]));
            assert(self.local_valid(i, contents[i]@));
            assert(self.begin_file(i).0 == SyncState::Checking { file: i as usize });
            assert(self.next(self.begin_file(i).0, events[0]) == self.begin_file(i + 1));
            let rest = self.run(self.begin_file(i + 1).0, events.drop_first());
            assert(self.run(self.begin_file(i).0, events) == (rest.0, seq![self.begin_file(i + 1).1] + rest.1));
            assert(seq![self.begin_file(i + 1).1] + Seq::new(
                (n - i - 1) as nat,
                |j: int| self.begin_file(i + 1 + j + 1).1,
            ) =~= Seq::new((n - i) as nat, |j: int| self.begin_file(i + j + 1).1));
        }
    }

    /// A run over files that are all present and valid reads each declared
    /// file once, changes nothing on their account, and goes straight on to
    /// the overrides. Overrides are rewritten on every run; with none, and
    /// pruning off, the run ends in success having changed nothing, so a
    /// repeated sync over an unchanged tree is a no-op.
    pub proof fn lemma_valid_files_left_alone(&self, first: Event, contents: Seq<Vec<u8>>)
        requires
            self.wf(),
            contents.len() == self.files().len(),
            forall|j: int| 0 <= j < contents.len() ==> self.local_valid(j, #[trigger] contents[j]@),
        ensures
            ({
                let r = self.run(
                    SyncState::Start,
                    seq![first] + contents.map_values(|c: Vec<u8>| Event::Contents(c)),
                );
                &&& r.0 == self.begin_override(0).0
                &&& r.1.len() == self.files().len() + 1
                &&& forall|j: int|
                    0 <= j < self.files().len() ==> r.1[j] == Action::ReadLocal { file: j as usize }
                &&& r.1[self.files().len() as int] == self.begin_override(0).1
                &&& self.overrides().entries().len() == 0 && !self.prunes() ==> r.0 == (SyncState::Finished {
                    error: None,
                }) && forall|j: int| 0 <= j < r.1.len() ==> !is_change(#[trigger] r.1[j])
            }),
    {
        let n = self.files().len() as int;
        let events = seq![first] + contents.map_values(|c: Vec<u8>| Event::Contents(c));
        self.lemma_valid_run_from(0, contents);
        assert(events.drop_first() =~= contents.subrange(0, n).map_values(|c: Vec<u8>| Event::Contents(c)));
        let r = self.run(SyncState::Start, events);
        assert(r.1 =~= seq![self.begin_file(0).1] + Seq::new(n as nat, |j: int| self.begin_file(j + 1).1));
        assert forall|j: int| 0 <= j < n implies r.1[j] == Action::ReadLocal { file: j as usize } by {
            assert(r.1[j] == self.begin_file(j).1);
        }
        assert(r.1[n] == self.begin_file(n).1);
    }

    /// A corrupt local copy is deleted, its parents made sure of, and it is
    /// fetched again from its first mirror; once that succeeds the run moves
    /// on to the next declared file.
    pub proof fn lemma_repair_on_corruption(&self, file: usize, data: Vec<u8>)
        requires
            self.wf(),
            file < self.files().len(),
            !self.local_valid(file as int, data@),
            self.files()[file as int].downloads@.len() > 0,
        ensures
            self.next(SyncState::Checking { file }, Event::Contents(data)) == (SyncState::Deleting { file }, Action::DeleteLocal { file }),
            self.next(SyncState::Deleting { file }, Event::Succeeded) == (SyncState::Preparing { file }, Action::CreateParent { file }),
            self.next(SyncState::Preparing { file }, Event::Succeeded) == (SyncState::Fetching { file, mirror: 0 }, Action::Fetch { file, mirror: 0 }),
            self.next(SyncState::Fetching { file, mirror: 0 }, Event::Succeeded) == self.begin_file(file + 1),
    {
    }

    /// A failed mirror is followed by removing what it left at the path and
    /// trying the next mirror in declared order; a mirror that succeeds ends
    /// the work on that file.
    pub proof fn lemma_mirror_fallback(&self, file: usize, mirror: usize, event: Event)
        requires
            self.wf(),
            file < self.files().len(),
            mirror + 1 < self.files()[file as int].downloads@.len(),
            !(event is Succeeded),
        ensures
            self.next(SyncState::Fetching { file, mirror }, event) == (SyncState::Discarding { file, mirror }, Action::Discard { file }),
            self.next(SyncState::Discarding { file, mirror }, Event::Succeeded) == (SyncState::Fetching { file, mirror: (mirror + 1) as usize }, Action::Fetch { file, mirror: (mirror + 1) as usize }),
            self.next(SyncState::Fetching { file, mirror }, Event::Succeeded) == self.begin_file(file + 1),
    {
    }

    /// When the last mirror fails too, what it left at the path is removed
    /// and the run ends with `AllDownloadsFailed`, for good.
    pub proof fn lemma_mirror_exhaustion(&self, file: usize, last: usize, event: Event, later: Event)
        requires
            self.wf(),
            file < self.files().len(),
            last + 1 == self.files()[file as int].downloads@.len(),
            !(event is Succeeded),
        ensures
            self.next(SyncState::Fetching { file, mirror: last }, event) == (SyncState::Discarding { file, mirror: last }, Action::Discard { file }),
            self.next(SyncState::Discarding { file, mirror: last }, Event::Succeeded) == finish(Some(FileError::AllDownloadsFailed)),
            self.next(finish(Some(FileError::AllDownloadsFailed)).0, later) == finish(Some(FileError::AllDownloadsFailed)),
    {
    }

    proof fn lemma_next_untracked(&self, root: int, found: Seq<String>, from: int)
        requires
            0 <= from <= found.len(),
        ensures
            from <= self.next_untracked(root, found, from) <= found.len(),
            self.next_untracked(root, found, from) < found.len() ==> !self.is_known(
                root,
                found[self.next_untracked(root, found, from)]@,
            ),
        decreases found.len() - from,
    {
        if from < found.len() && self.is_known(root, found[from]@) {
            self.lemma_next_untracked(root, found, from + 1);
        }
    }

    /// Pruning is a membership test on paths, never on content: whatever the
    /// state and outcome, a step that asks to prune names an entry of the
    /// listing whose path is known neither as a declared file (under the
    /// declared-file directories) nor as an override (under the override
    /// directory). A known path is never pruned, whatever is on disk there.
    pub proof fn lemma_prune_safety(&self, state: SyncState, event: Event)
        requires
            self.wf(),
            self.valid_state(state),
            match event {
                Event::Listing(found) => found@.len() <= usize::MAX,
                _ => true,
            },
        ensures
            match self.next(state, event).1 {
                Action::PruneFile { entry } => match self.next(state, event).0 {
                    SyncState::Pruning { root, found, entry: e } => e == entry && entry < found@.len()
                        && !self.is_known(root as int, found@[entry as int]@),
                    _ => false,
                },
                _ => true,
            },
    {
        match state {
            SyncState::Walking { root } => {
                if let Event::Listing(found) = event {
                    self.lemma_next_untracked(root as int, found@, 0);
                }
            },
            SyncState::Pruning { root, found, entry } => {
                self.lemma_next_untracked(root as int, found@, entry + 1);
            },
            _ => {},
        }
    }

    /// Files whose environment marks the server unsupported take no part in
    /// a server sync: an engine built from an index holds none of them, so no
    /// action names one, and under the declared-file directories a path is
    /// known exactly when a file that applies to the server declares it.
    pub proof fn lemma_unsupported_excluded(&self, index: MRIndex)
        requires
            self.files() == index.files@.filter(|f: MRFile| spec_applies_to_server(f)),
        ensures
            forall|j: int|
                0 <= j < index.files@.len() && !spec_applies_to_server(#[trigger] index.files@[j])
                    ==> !self.files().contains(index.files@[j]),
            forall|root: int, p: Seq<char>|
                0 <= root < 2 ==> (#[trigger] self.is_known(root, p) <==> exists|j: int|
                    0 <= j < index.files@.len() && spec_applies_to_server(#[trigger] index.files@[j])
                        && index.files@[j].path@ == p),
    {
        let pred = |f: MRFile| spec_applies_to_server(f);
        let all = index.files@;
        assert forall|j: int|
            0 <= j < all.len() && !spec_applies_to_server(#[trigger] all[j]) implies !self.files().contains(all[j]) by {
            if self.files().contains(all[j]) {
                let k = choose|k: int| 0 <= k < self.files().len() && self.files()[k] == all[j];
                all.lemma_filter_pred(pred, k);
            }
        }
        assert forall|root: int, p: Seq<char>| 0 <= root < 2 implies (#[trigger] self.is_known(root, p) <==> exists|j: int|
            0 <= j < all.len() && spec_applies_to_server(#[trigger] all[j]) && all[j].path@ == p) by {
            if self.is_known(root, p) {
                let k = choose|k: int| 0 <= k < self.files().len() && #[trigger] self.files()[k].path@ == p;
                all.lemma_filter_pred(pred, k);
                assert(self.files().contains(self.files()[k]));
                all.lemma_filter_contains_rev(pred, self.files()[k]);
                let j = choose|j: int| 0 <= j < all.len() && all[j] == self.files()[k];
                assert(spec_applies_to_server(all[j]) && all[j].path@ == p);
            }
            if exists|j: int| 0 <= j < all.len() && spec_applies_to_server(#[trigger] all[j]) && all[j].path@ == p {
                let j = choose|j: int| 0 <= j < all.len() && spec_applies_to_server(#[trigger] all[j]) && all[j].path@ == p;
                all.lemma_filter_contains(pred, j);
                let k = choose|k: int| 0 <= k < self.files().len() && self.files()[k] == all[j];
                assert(self.files()[k].path@ == p);
            }
        }
    }
}

} // verus!
