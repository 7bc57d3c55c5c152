use vstd::prelude::*;
use crate::database::{hashes_unique, lemma_position_from, lookup_name, DataBase, Row};
use crate::error::DataStoreError;
use crate::paths::{path_extension, stored_name_for, stored_name_of};
use crate::text::strings_view;

verus! {

/// The source paths rejected as duplicates of one stored file.
pub struct DuplicationEntry {
    on_destination: String,
    sources: Vec<String>,
}

impl View for DuplicationEntry {
    /// `(stored name kept in the destination, rejected source paths in order)`
    type V = (Seq<char>, Seq<Seq<char>>);

    closed spec fn view(&self) -> Self::V {
        (self.on_destination@, strings_view(self.sources@))
    }
}

impl DuplicationEntry {
    /// A group for the stored file `dst` with the one rejected source `src`.
    pub fn new(dst: String, src: String) -> (r: DuplicationEntry)
        ensures
            r@ == (dst@, seq![src@]),
    {
        let r = DuplicationEntry { on_destination: dst, sources: vec![src] };
        assert(strings_view(r.sources@) =~= seq![src@]);
        r
    }

    /// Adds one more rejected source path.
    pub fn push(&mut self, src: String)
        ensures
            final(self)@ == (old(self)@.0, old(self)@.1.push(src@)),
    {
        let ghost before = self.sources@;
        self.sources.push(src);
        assert(strings_view(self.sources@) =~= strings_view(before).push(src@));
    }

    /// The stored name of the file kept in the destination.
    pub fn on_destination(&self) -> (r: &String)
        ensures
            r@ == self@.0,
    {
        &self.on_destination
    }

    /// The rejected source paths, in the order they were met.
    pub fn sources(&self) -> (r: &Vec<String>)
        ensures
            strings_view(r@) == self@.1,
    {
        &self.sources
    }
}

/// A duplication group as `(content hash, (kept stored name, rejected sources))`.
pub type Group = (Seq<char>, (Seq<char>, Seq<Seq<char>>));

/// No two groups share a content hash.
pub open spec fn group_keys_unique(g: Seq<Group>) -> bool {
    forall|i: int, j: int| 0 <= i < j < g.len() ==> g[i].0 != g[j].0
}

/// The position of the group for content hash `h`, searching from `i`; -1 if none.
pub open spec fn group_position_from(g: Seq<Group>, h: Seq<char>, i: int) -> int
    decreases g.len() - i,
{
    if i < 0 || i >= g.len() {
        -1
    } else if g[i].0 == h {
        i
    } else {
        group_position_from(g, h, i + 1)
    }
}

/// The groups after the duplicate `src` of content `h`, kept as `kept`, is recorded.
pub open spec fn put_spec(g: Seq<Group>, h: Seq<char>, kept: Seq<char>, src: Seq<char>) -> Seq<Group> {
    let p = group_position_from(g, h, 0);
    if p < 0 {
        g.push((h, (kept, seq![src])))
    } else {
        g.update(p, (h, (g[p].1.0, g[p].1.1.push(src))))
    }
}

pub open spec fn groups_view(v: Seq<(String, DuplicationEntry)>) -> Seq<Group> {
    v.map_values(|e: (String, DuplicationEntry)| (e.0@, e.1@))
}

proof fn lemma_group_position_from(g: Seq<Group>, h: Seq<char>, i: int)
    requires
        0 <= i,
    ensures
        group_position_from(g, h, i) == -1 ==> forall|k: int| i <= k < g.len() ==> g[k].0 != h,
        group_position_from(g, h, i) != -1 ==> {
            let p = group_position_from(g, h, i);
            &&& i <= p < g.len()
            &&& g[p].0 == h
            &&& forall|k: int| i <= k < p ==> g[k].0 != h
        },
    decreases g.len() - i,
{
    if i < g.len() && g[i].0 != h {
        lemma_group_position_from(g, h, i + 1);
    }
}

/// The duplication groups of one ingestion run, one per content hash, in the order in
/// which each hash was first met as a duplicate.
pub struct DuplicationManager {
    entries: Vec<(String, DuplicationEntry)>,
}

impl View for DuplicationManager {
    type V = Seq<Group>;

    closed spec fn view(&self) -> Seq<Group> {
        groups_view(self.entries@)
    }
}

impl DuplicationManager {
    /// Content hashes of the groups are unique.
    pub open spec fn wf(&self) -> bool {
        group_keys_unique(self@)
    }

    /// No groups.
    pub fn new() -> (r: DuplicationManager)
        ensures
            r@ == Seq::<Group>::empty(),
            r.wf(),
    {
        let r = DuplicationManager { entries: Vec::new() };
        assert(r@ =~= Seq::<Group>::empty());
        r
    }

    /// Records `duplicated` as a rejected source of content `hash_value`, which the
    /// destination keeps as `exists`: appended to the hash's group, or a new group.
    pub fn put(&mut self, hash_value: String, exists: String, duplicated: String)
        requires
            old(self).wf(),
        ensures
            final(self).wf(),
            final(self)@ == put_spec(old(self)@, hash_value@, exists@, duplicated@),
    {
        let ghost g = self@;
        let n = self.entries.len();
        let mut i: usize = 0;
        while i < n
            invariant
                n == self.entries@.len(),
                g == self@,
                g == old(self)@,
                self.wf(),
                i <= n,
                group_position_from(g, hash_value@, 0) == group_position_from(g, hash_value@, i as int),
            decreases n - i,
        {
            if self.entries[i].0 == hash_value {
                assert(g[i as int].0 == hash_value@);
                let ghost old_entries = self.entries@;
                self.entries[i].1.push(duplicated);
                proof {
                    assert forall|k: int| 0 <= k < n && k != i implies self.entries@[k] == old_entries[k] by {}
                    assert(self@ =~= put_spec(g, hash_value@, exists@, duplicated@));
                }
                return;
            }
            assert(g[i as int].0 != hash_value@);
            i = i + 1;
        }
        proof {
            lemma_group_position_from(g, hash_value@, 0);
        }
        self._new_entry(hash_value, exists, duplicated);
    }

    /// Opens a new group for content `hash_value`, kept as `exists`, with the one
    /// rejected source `duplicated`.
    pub fn _new_entry(&mut self, hash_value: String, exists: String, duplicated: String)
        requires
            old(self).wf(),
            forall|k: int| 0 <= k < old(self)@.len() ==> old(self)@[k].0 != hash_value@,
        ensures
            final(self).wf(),
            final(self)@ == old(self)@.push((hash_value@, (exists@, seq![duplicated@]))),
    {
        let ghost before = self.entries@;
        let entry = DuplicationEntry::new(exists, duplicated);
        self.entries.push((hash_value, entry));
        assert(self@ =~= groups_view(before).push((hash_value@, (exists@, seq![duplicated@])))) by {
            assert forall|k: int| 0 <= k < before.len() implies self.entries@[k] == before[k] by {}
        }
    }

    /// The groups as `(content hash, group)`.
    pub fn entries(&self) -> (r: &Vec<(String, DuplicationEntry)>)
        ensures
            groups_view(r@) == self@,
    {
        &self.entries
    }
}

/// What to do with the next candidate path, decided before it is read.
#[derive(Debug, Clone, Copy, PartialEq, Eq, Structural)]
pub enum Admission {
    /// Not a regular file: pass over it; it counts toward nothing.
    Skip,
    /// The run is over: leave this and every later candidate untouched.
    Halt,
    /// Hash the candidate and classify it.
    Hash,
}

/// Where a hashed candidate goes.
pub enum Placement {
    /// New content: move the source into the destination under this stored name.
    Store(String),
    /// Content already kept under this stored name: leave the source where it is.
    Duplicate(String),
}

/// `Placement` with its names as character sequences.
pub enum PlacementView {
    Store(Seq<char>),
    Duplicate(Seq<char>),
}

impl View for Placement {
    type V = PlacementView;

    open spec fn view(&self) -> PlacementView {
        match self {
            Placement::Store(n) => PlacementView::Store(n@),
            Placement::Duplicate(n) => PlacementView::Duplicate(n@),
        }
    }
}

/// What became of moving a new file into the destination.
pub enum MoveOutcome {
    /// The file now stands in the destination under its stored name.
    Moved,
    /// The destination already held a file of that name; nothing was moved.
    NameTaken,
    /// The move failed for the given reason.
    Failed(String),
}

/// The state of an ingestion run.
pub struct RunState {
    pub catalog: Seq<Row>,
    pub take: Option<usize>,
    pub taken: usize,
    pub halted: bool,
    pub groups: Seq<Group>,
}

/// The decision on a candidate that is (`is_regular`) or is not a regular file.
pub open spec fn admission_of(s: RunState, is_regular: bool) -> Admission {
    if s.halted {
        Admission::Halt
    } else if !is_regular {
        Admission::Skip
    } else {
        match s.take {
            Some(n) => if s.taken >= n {
                Admission::Halt
            } else {
                Admission::Hash
            },
            None => Admission::Hash,
        }
    }
}

/// The state after that decision.
pub open spec fn after_admission(s: RunState, is_regular: bool) -> RunState {
    match admission_of(s, is_regular) {
        Admission::Halt => RunState { halted: true, ..s },
        Admission::Skip => s,
        Admission::Hash => if s.take is Some {
            RunState { taken: (s.taken + 1) as usize, ..s }
        } else {
            s
        },
    }
}

/// Where content with hash `h`, read from `src`, goes given the catalog `c`.
pub open spec fn placement_of(c: Seq<Row>, h: Seq<char>, src: Seq<char>) -> PlacementView {
    match lookup_name(c, h) {
        Some(n) => PlacementView::Duplicate(n),
        None => PlacementView::Store(stored_name_of(h, path_extension(src))),
    }
}

/// The state after classifying content `h` read from `src`: a duplicate joins its group.
pub open spec fn after_classify(s: RunState, h: Seq<char>, src: Seq<char>) -> RunState {
    match lookup_name(s.catalog, h) {
        Some(n) => RunState { groups: put_spec(s.groups, h, n, src), ..s },
        None => s,
    }
}

/// Content met again after it was stored, in the same run or a later one, is classified
/// as a duplicate of the stored file and leaves the catalog as it is; the catalog holds
/// exactly one entry for that content.
pub proof fn lemma_ingest_idempotent(s: RunState, h: Seq<char>, first: Seq<char>, again: Seq<char>, later: RunState)
    requires
        hashes_unique(s.catalog),
        placement_of(s.catalog, h, first) == PlacementView::Store(stored_name_of(h, path_extension(first))),
        later.catalog == s.catalog.push((stored_name_of(h, path_extension(first)), h)),
    ensures
        placement_of(later.catalog, h, again) == PlacementView::Duplicate(stored_name_of(h, path_extension(first))),
        after_classify(later, h, again).catalog == later.catalog,
        hashes_unique(later.catalog),
        forall|i: int| 0 <= i < later.catalog.len() && later.catalog[i].1 == h ==> i == s.catalog.len(),
{
    let c = s.catalog;
    let c2 = later.catalog;
    lemma_position_from(c, h, 0);
    lemma_position_from(c2, h, 0);
    assert forall|k: int| 0 <= k < c.len() implies c2[k] == c[k] by {}
    assert(c2[c.len() as int].1 == h);
}

/// A candidate whose content is already catalogued is never given a stored name: it is
/// classified as a duplicate of the catalogued file, the catalog is left as it is, and
/// its path is recorded unchanged as the latest source in the group of its content.
pub proof fn lemma_duplicate_left_in_place(s: RunState, h: Seq<char>, src: Seq<char>)
    requires
        lookup_name(s.catalog, h) is Some,
        group_keys_unique(s.groups),
    ensures
        placement_of(s.catalog, h, src) == PlacementView::Duplicate(lookup_name(s.catalog, h)->0),
        after_classify(s, h, src).catalog == s.catalog,
        ({
            let g = after_classify(s, h, src).groups;
            let p = group_position_from(g, h, 0);
            &&& 0 <= p < g.len()
            &&& g[p].1.1.last() == src
            &&& g[p].1.0 == if group_position_from(s.groups, h, 0) < 0 {
                lookup_name(s.catalog, h)->0
            } else {
                s.groups[group_position_from(s.groups, h, 0)].1.0
            }
        }),
{
    let g0 = s.groups;
    let n = lookup_name(s.catalog, h)->0;
    let g = put_spec(g0, h, n, src);
    lemma_group_position_from(g0, h, 0);
    lemma_group_position_from(g, h, 0);
    let p0 = group_position_from(g0, h, 0);
    let p = group_position_from(g, h, 0);
    if p0 < 0 {
        assert(g[g0.len() as int].0 == h);
        if p < g0.len() {
            assert(g[p] == g0[p]);
        }
    } else {
        assert(g[p0].0 == h);
        if p < p0 {
            assert(g[p] == g0[p]);
        }
    }
}

/// One ingestion run over a catalog: admits candidates up to an optional limit,
/// classifies each as new or duplicate, and records the new ones once they are moved.
pub struct IngestRun {
    catalog: DataBase,
    take: Option<usize>,
    taken: usize,
    halted: bool,
    duplicates: DuplicationManager,
}

impl View for IngestRun {
    type V = RunState;

    closed spec fn view(&self) -> RunState {
        RunState {
            catalog: self.catalog@,
            take: self.take,
            taken: self.taken,
            halted: self.halted,
            groups: self.duplicates@,
        }
    }
}

impl IngestRun {
    /// The catalog's hashes and the groups' hashes are unique, and no more candidates
    /// were admitted than the limit allows.
    pub open spec fn wf(&self) -> bool {
        &&& hashes_unique(self@.catalog)
        &&& group_keys_unique(self@.groups)
        &&& match self@.take {
            Some(n) => self@.taken <= n,
            None => self@.taken == 0,
        }
    }

    /// A run over `catalog` that admits at most `take` regular files, when given.
    pub fn new(catalog: DataBase, take: Option<usize>) -> (r: IngestRun)
        requires
            catalog.wf(),
        ensures
            r.wf(),
            r@ == (RunState {
                catalog: catalog@,
                take,
                taken: 0,
                halted: false,
                groups: Seq::empty(),
            }),
    {
        IngestRun { catalog, take, taken: 0, halted: false, duplicates: DuplicationManager::new() }
    }

    /// Decides on the next candidate, which is (`is_regular_file`) or is not a regular file.
    pub fn screen(&mut self, is_regular_file: bool) -> (r: Admission)
        requires
            old(self).wf(),
        ensures
            final(self).wf(),
            r == admission_of(old(self)@, is_regular_file),
            final(self)@ == after_admission(old(self)@, is_regular_file),
    {
        if self.halted {
            return Admission::Halt;
        }
        if !is_regular_file {
            return Admission::Skip;
        }
        match self.take {
            Some(n) => {
                if self.taken >= n {
                    self.halted = true;
                    Admission::Halt
                } else {
                    self.taken = self.taken + 1;
                    Admission::Hash
                }
            },
            None => Admission::Hash,
        }
    }

    /// Classifies content with hash `hash` read from `source_path`: a duplicate of a
    /// catalogued file is recorded in that file's group; new content gets its stored name.
    pub fn classify(&mut self, hash: &String, source_path: &String) -> (r: Placement)
        requires
            old(self).wf(),
        ensures
            final(self).wf(),
            r@ == placement_of(old(self)@.catalog, hash@, source_path@),
            final(self)@ == after_classify(old(self)@, hash@, source_path@),
    {
        let (found, existing) = self.catalog.is_duplicated(hash.as_str());
        if found {
            self.duplicates.put(hash.clone(), existing.clone(), source_path.clone());
            Placement::Duplicate(existing)
        } else {
            Placement::Store(stored_name_for(hash.as_str(), source_path.as_str()))
        }
    }

    /// Records the outcome of moving new content `hash` to `stored_name`: a moved file
    /// enters the catalog; a taken name is a `Conflict`, a failed move an `Io` error.
    pub fn settle(&mut self, hash: String, stored_name: String, outcome: MoveOutcome) -> (r: Result<(), DataStoreError>)
        requires
            old(self).wf(),
        ensures
            final(self).wf(),
            match outcome {
                MoveOutcome::Moved => match lookup_name(old(self)@.catalog, hash@) {
                    Some(_) => r == Err::<(), DataStoreError>(DataStoreError::Conflict(hash))
                        && final(self)@ == old(self)@,
                    None => r is Ok && final(self)@ == (RunState {
                        catalog: old(self)@.catalog.push((stored_name@, hash@)),
                        ..old(self)@
                    }),
                },
                MoveOutcome::NameTaken => r == Err::<(), DataStoreError>(DataStoreError::Conflict(stored_name))
                    && final(self)@ == old(self)@,
                MoveOutcome::Failed(why) => r == Err::<(), DataStoreError>(DataStoreError::Io(why))
                    && final(self)@ == old(self)@,
            },
    {
        match outcome {
            MoveOutcome::Moved => self.catalog.add(hash, stored_name),
            MoveOutcome::NameTaken => Err(DataStoreError::Conflict(stored_name)),
            MoveOutcome::Failed(why) => Err(DataStoreError::Io(why)),
        }
    }

    /// The catalog as the run has left it so far.
    pub fn catalog(&self) -> (r: &DataBase)
        ensures
            r@ == self@.catalog,
            self.wf() ==> r.wf(),
    {
        &self.catalog
    }

    /// The duplication groups met so far.
    pub fn duplicates(&self) -> (r: &DuplicationManager)
        ensures
            r@ == self@.groups,
    {
        &self.duplicates
    }
}

} // verus!
