use vstd::prelude::*;
use vstd::string::*;
use crate::error::DataStoreError;
use crate::text::{contains_text, is_prefix, is_substring, starts_with_text};

verus! {

/// A catalog entry as `(stored_name, content_hash)`.
pub type Row = (Seq<char>, Seq<char>);

/// No two entries share a content hash.
pub open spec fn hashes_unique(c: Seq<Row>) -> bool {
    forall|i: int, j: int| 0 <= i < j < c.len() ==> c[i].1 != c[j].1
}

/// The first position at or after `i` whose entry has content hash `h`; -1 if none.
pub open spec fn position_from(c: Seq<Row>, h: Seq<char>, i: int) -> int
    decreases c.len() - i,
{
    if i < 0 || i >= c.len() {
        -1
    } else if c[i].1 == h {
        i
    } else {
        position_from(c, h, i + 1)
    }
}

/// The position of the entry with content hash `h`; -1 if the catalog has none.
pub open spec fn position_of_hash(c: Seq<Row>, h: Seq<char>) -> int {
    position_from(c, h, 0)
}

/// The stored name recorded for content hash `h`, if any.
pub open spec fn lookup_name(c: Seq<Row>, h: Seq<char>) -> Option<Seq<char>> {
    let p = position_of_hash(c, h);
    if p < 0 {
        None
    } else {
        Some(c[p].0)
    }
}

/// A search term selects an entry when it occurs in the stored name or begins the hash.
pub open spec fn entry_matches(e: Row, term: Seq<char>) -> bool {
    is_substring(term, e.0) || is_prefix(term, e.1)
}

/// The entries that `term` selects, in catalog order.
pub open spec fn matching(c: Seq<Row>, term: Seq<char>) -> Seq<Row> {
    c.filter(|e: Row| entry_matches(e, term))
}

pub open spec fn rows_view(v: Seq<(String, String)>) -> Seq<Row> {
    v.map_values(|e: (String, String)| (e.0@, e.1@))
}

pub proof fn lemma_position_from(c: Seq<Row>, h: Seq<char>, i: int)
    requires
        0 <= i,
    ensures
        position_from(c, h, i) == -1 ==> forall|k: int| i <= k < c.len() ==> c[k].1 != h,
        position_from(c, h, i) != -1 ==> {
            let p = position_from(c, h, i);
            &&& i <= p < c.len()
            &&& c[p].1 == h
            &&& forall|k: int| i <= k < p ==> c[k].1 != h
        },
    decreases c.len() - i,
{
    if i < c.len() && c[i].1 != h {
        lemma_position_from(c, h, i + 1);
    }
}

/// Searching for any part of an entry's stored name, or for any non-empty initial
/// part of its content hash, finds that entry.
pub proof fn lemma_search_complete(c: Seq<Row>, i: int, term: Seq<char>)
    requires
        0 <= i < c.len(),
        is_substring(term, c[i].0) || (term.len() > 0 && is_prefix(term, c[i].1)),
    ensures
        matching(c, term).contains(c[i]),
{
    c.lemma_filter_contains(|e: Row| entry_matches(e, term), i);
}

/// The catalog: which stored name each content hash is kept under, in insertion order.
pub struct DataBase {
    entries: Vec<(String, String)>,
}

impl View for DataBase {
    type V = Seq<Row>;

    closed spec fn view(&self) -> Seq<Row> {
        rows_view(self.entries@)
    }
}

impl DataBase {
    /// Content hashes are unique.
    pub open spec fn wf(&self) -> bool {
        hashes_unique(self@)
    }

    /// An empty catalog.
    pub fn new() -> (r: DataBase)
        ensures
            r@ == Seq::<Row>::empty(),
            r.wf(),
    {
        let r = DataBase { entries: Vec::new() };
        assert(r@ =~= Seq::<Row>::empty());
        r
    }

    /// A catalog holding `rows`, given as `(stored_name, content_hash)` in catalog order.
    /// Fails with `Schema` when two rows share a content hash.
    pub fn from_rows(rows: &Vec<(String, String)>) -> (r: Result<DataBase, DataStoreError>)
        ensures
            r is Ok <==> hashes_unique(rows_view(rows@)),
            r matches Ok(db) ==> db@ == rows_view(rows@) && db.wf(),
            r matches Err(e) ==> e is Schema,
    {
        let ghost all = rows_view(rows@);
        let mut db = DataBase::new();
        let n = rows.len();
        let mut i: usize = 0;
        while i < n
            invariant
                n == rows@.len(),
                all == rows_view(rows@),
                all.len() == n,
                i <= n,
                db.wf(),
                db@ == all.subrange(0, i as int),
            decreases n - i,
        {
            let row = &rows[i];
            assert(all[i as int] == (row.0@, row.1@));
            let ghost before = db@;
            match db.add(row.1.clone(), row.0.clone()) {
                Err(_) => {
                    proof {
                        lemma_position_from(before, row.1@, 0);
                        let j = position_of_hash(before, row.1@);
                        assert(all[j] == before[j]);
                        assert(!hashes_unique(all));
                    }
                    return Err(DataStoreError::Schema(row.1.clone()));
                },
                Ok(_) => {
                    assert(db@ =~= all.subrange(0, i + 1));
                },
            }
            i = i + 1;
        }
        assert(all.subrange(0, n as int) =~= all);
        Ok(db)
    }

    /// The number of entries.
    pub fn len(&self) -> (r: usize)
        ensures
            r == self@.len(),
    {
        self.entries.len()
    }

    fn position(&self, hash_val: &str) -> (r: Option<usize>)
        ensures
            match r {
                Some(i) => i as int == position_of_hash(self@, hash_val@) && i < self@.len(),
                None => position_of_hash(self@, hash_val@) == -1,
            },
    {
        let n = self.entries.len();
        let mut i: usize = 0;
        while i < n
            invariant
                n == self@.len(),
                i <= n,
                position_of_hash(self@, hash_val@) == position_from(self@, hash_val@, i as int),
            decreases n - i,
        {
            if self.entries[i].1 == String::from_str(hash_val) {
                assert(self@[i as int].1 == hash_val@);
                return Some(i);
            }
            assert(self@[i as int].1 != hash_val@);
            i = i + 1;
        }
        None
    }

    /// Whether content with hash `hash_val` is already catalogued, and under which
    /// stored name (empty when it is not).
    pub fn is_duplicated(&self, hash_val: &str) -> (r: (bool, String))
        ensures
            match lookup_name(self@, hash_val@) {
                Some(name) => r.0 && r.1@ == name,
                None => !r.0 && r.1@ == Seq::<char>::empty(),
            },
    {
        match self.position(hash_val) {
            Some(i) => (true, self.entries[i].0.clone()),
            None => (false, String::new()),
        }
    }

    /// Records that content with hash `hash_val` is stored as `new_name`. Fails with
    /// `Conflict`, changing nothing, when the hash is already catalogued.
    pub fn add(&mut self, hash_val: String, new_name: String) -> (r: Result<(), DataStoreError>)
        requires
            old(self).wf(),
        ensures
            final(self).wf(),
            lookup_name(old(self)@, hash_val@) is Some <==> r is Err,
            r is Err ==> final(self)@ == old(self)@ && r == Err::<(), DataStoreError>(DataStoreError::Conflict(hash_val)),
            r is Ok ==> final(self)@ == old(self)@.push((new_name@, hash_val@)),
    {
        match self.position(hash_val.as_str()) {
            Some(_) => Err(DataStoreError::Conflict(hash_val)),
            None => {
                proof {
                    lemma_position_from(self@, hash_val@, 0);
                }
                let ghost before = self@;
                self.entries.push((new_name, hash_val));
                assert(self@ =~= before.push((new_name@, hash_val@)));
                Ok(())
            },
        }
    }

    /// Changes the stored name recorded for `hash_val` to `new_name`. Fails with
    /// `NotFound`, changing nothing, when the hash is not catalogued.
    pub fn rename(&mut self, hash_val: String, new_name: String) -> (r: Result<(), DataStoreError>)
        requires
            old(self).wf(),
        ensures
            final(self).wf(),
            lookup_name(old(self)@, hash_val@) is None <==> r is Err,
            r is Err ==> final(self)@ == old(self)@ && r == Err::<(), DataStoreError>(DataStoreError::NotFound(hash_val)),
            r is Ok ==> final(self)@ == old(self)@.update(
                position_of_hash(old(self)@, hash_val@),
                (new_name@, hash_val@),
            ),
    {
        match self.position(hash_val.as_str()) {
            None => Err(DataStoreError::NotFound(hash_val)),
            Some(i) => {
                proof {
                    lemma_position_from(self@, hash_val@, 0);
                }
                let ghost before = self@;
                self.entries.set(i, (new_name, hash_val));
                assert(self@ =~= before.update(i as int, (new_name@, hash_val@)));
                Ok(())
            },
        }
    }

    /// All entries as `(stored_name, content_hash)`, in catalog order.
    pub fn read_all(&self) -> (r: Vec<(String, String)>)
        ensures
            rows_view(r@) == self@,
    {
        let n = self.entries.len();
        let mut out: Vec<(String, String)> = Vec::new();
        let mut i: usize = 0;
        while i < n
            invariant
                n == self@.len(),
                i <= n,
                rows_view(out@) == self@.subrange(0, i as int),
            decreases n - i,
        {
            let e = &self.entries[i];
            let ghost before = out@;
            out.push((e.0.clone(), e.1.clone()));
            assert(out@ == before.push(*e));
            assert(rows_view(before).len() == i);
            assert(rows_view(out@).len() == i + 1);
            assert(self@[i as int] == (e.0@, e.1@));
            assert forall|k: int| 0 <= k < i implies rows_view(out@)[k] == rows_view(before)[k] by {
                assert(out@[k] == before[k]);
            }
            assert(rows_view(out@)[i as int] == (e.0@, e.1@));
            assert(rows_view(out@) =~= self@.subrange(0, i + 1));
            i = i + 1;
        }
        assert(self@.subrange(0, n as int) =~= self@);
        out
    }

    /// The entries whose stored name contains `target` or whose content hash starts
    /// with it, in catalog order; an entry matching both appears once.
    pub fn find(&self, target: &str) -> (r: Vec<(String, String)>)
        ensures
            rows_view(r@) == matching(self@, target@),
    {
        let n = self.entries.len();
        let mut out: Vec<(String, String)> = Vec::new();
        let mut i: usize = 0;
        while i < n
            invariant
                n == self@.len(),
                i <= n,
                rows_view(out@) == matching(self@.subrange(0, i as int), target@),
            decreases n - i,
        {
            let e = &self.entries[i];
            let hit = contains_text(e.0.as_str(), target) || starts_with_text(e.1.as_str(), target);
            proof {
                let s = self@.subrange(0, i + 1);
                assert(s.drop_last() =~= self@.subrange(0, i as int));
                assert(s.last() == self@[i as int]);
                reveal(Seq::filter);
            }
            if hit {
                out.push((e.0.clone(), e.1.clone()));
            }
            assert(rows_view(out@) =~= matching(self@.subrange(0, i + 1), target@));
            i = i + 1;
        }
        assert(self@.subrange(0, n as int) =~= self@);
        out
    }
}

} // verus!
