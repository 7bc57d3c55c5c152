use vstd::prelude::*;
use crate::paths::{db_file_name, store_file_name};
use crate::text::strings_view;

verus! {

/// The distinct members of a sequence of names.
pub open spec fn names_set(v: Seq<Seq<char>>) -> Set<Seq<char>> {
    Set::new(|x: Seq<char>| v.contains(x))
}

/// The names of a directory listing that count as stored files: all but the store file.
pub open spec fn disk_set(listing: Seq<Seq<char>>) -> Set<Seq<char>> {
    names_set(listing).remove(store_file_name())
}

/// The difference between a directory and its catalog.
pub struct Drift {
    /// Names on disk that the catalog does not record, each once, in listing order.
    pub added: Vec<String>,
    /// Names the catalog records that are not on disk, each once, in catalog order.
    pub deleted: Vec<String>,
}

fn contains_name(v: &Vec<String>, x: &String) -> (r: bool)
    ensures
        r == strings_view(v@).contains(x@),
{
    let n = v.len();
    let mut i: usize = 0;
    while i < n
        invariant
            n == v@.len(),
            i <= n,
            forall|k: int| 0 <= k < i ==> v@[k]@ != x@,
        decreases n - i,
    {
        if v[i] == *x {
            assert(strings_view(v@)[i as int] == x@);
            return true;
        }
        i = i + 1;
    }
    assert forall|k: int| 0 <= k < strings_view(v@).len() implies strings_view(v@)[k] != x@ by {
        assert(strings_view(v@)[k] == v@[k]@);
    }
    false
}

proof fn lemma_push_contains(s: Seq<Seq<char>>, v: Seq<char>)
    ensures
        forall|y: Seq<char>| #[trigger] s.push(v).contains(y) <==> (s.contains(y) || y == v),
{
    assert forall|y: Seq<char>| #[trigger] s.push(v).contains(y) <==> (s.contains(y) || y == v) by {
        if s.push(v).contains(y) {
            let k = choose|k: int| 0 <= k < s.push(v).len() && #[trigger] s.push(v)[k] == y;
            if k < s.len() {
                assert(s[k] == y);
            }
        }
        if s.contains(y) {
            let k = choose|k: int| 0 <= k < s.len() && #[trigger] s[k] == y;
            assert(s.push(v)[k] == y);
        }
        if y == v {
            assert(s.push(v)[s.len() as int] == y);
        }
    }
}

/// The members of `from` that are not in `other`, each once, in the order of `from`,
/// leaving out `skip` when given.
fn names_missing(from: &Vec<String>, other: &Vec<String>, skip: Option<&str>) -> (r: Vec<String>)
    ensures
        strings_view(r@).no_duplicates(),
        forall|x: Seq<char>| #[trigger] names_set(strings_view(r@)).contains(x) <==> (
            strings_view(from@).contains(x)
            && !strings_view(other@).contains(x)
            && (match skip { Some(s) => x != s@, None => true })
        ),
{
    let ghost f = strings_view(from@);
    let ghost o = strings_view(other@);
    let n = from.len();
    let mut out: Vec<String> = Vec::new();
    let mut i: usize = 0;
    assert(strings_view(out@) =~= Seq::<Seq<char>>::empty());
    while i < n
        invariant
            n == from@.len(),
            f == strings_view(from@),
            o == strings_view(other@),
            i <= n,
            strings_view(out@).no_duplicates(),
            forall|x: Seq<char>| #[trigger] strings_view(out@).contains(x) <==> (
                f.subrange(0, i as int).contains(x)
                && !o.contains(x)
                && (match skip { Some(s) => x != s@, None => true })
            ),
        decreases n - i,
    {
        let x = &from[i];
        assert(f[i as int] == x@);
        let skipped = match skip {
            Some(s) => *x == String::from_str(s),
            None => false,
        };
        let ghost before = strings_view(out@);
        let pushed = !skipped && !contains_name(other, x) && !contains_name(&out, x);
        if pushed {
            out.push(x.clone());
            assert(strings_view(out@) =~= before.push(x@));
        }
        proof {
            assert(f.subrange(0, i + 1) =~= f.subrange(0, i as int).push(x@));
            lemma_push_contains(f.subrange(0, i as int), x@);
            if pushed {
                lemma_push_contains(before, x@);
            }
        }
        i = i + 1;
    }
    assert(f.subrange(0, n as int) =~= f);
    out
}

/// Compares the names found in a directory (`on_disk`, the store file among them or
/// not) with the stored names of its catalog (`saved`).
pub fn diff_names(on_disk: &Vec<String>, saved: &Vec<String>) -> (r: Drift)
    ensures
        strings_view(r.added@).no_duplicates(),
        strings_view(r.deleted@).no_duplicates(),
        names_set(strings_view(r.added@))
            == disk_set(strings_view(on_disk@)).difference(names_set(strings_view(saved@))),
        names_set(strings_view(r.deleted@))
            == names_set(strings_view(saved@)).difference(disk_set(strings_view(on_disk@))),
{
    let nothing: Vec<String> = Vec::new();
    assert(strings_view(nothing@) =~= Seq::<Seq<char>>::empty());
    let present = names_missing(on_disk, &nothing, Some(db_file_name()));
    let added = names_missing(&present, saved, None);
    let deleted = names_missing(saved, &present, None);
    proof {
        let d = disk_set(strings_view(on_disk@));
        let s = names_set(strings_view(saved@));
        assert forall|x: Seq<char>| strings_view(present@).contains(x) <==> d.contains(x) by {
            assert(names_set(strings_view(present@)).contains(x) == strings_view(present@).contains(x));
        }
        assert(names_set(strings_view(added@)) =~= d.difference(s));
        assert(names_set(strings_view(deleted@)) =~= s.difference(d));
    }
    Drift { added, deleted }
}

/// What the reconciler reports partitions the names involved: `added` and `deleted`
/// are disjoint, and together with the names in both they make up every name on disk
/// or in the catalog.
pub proof fn lemma_drift_partition(disk: Set<Seq<char>>, saved: Set<Seq<char>>, added: Set<Seq<char>>, deleted: Set<Seq<char>>)
    requires
        added == disk.difference(saved),
        deleted == saved.difference(disk),
    ensures
        added.disjoint(deleted),
        added.union(deleted).union(disk.intersect(saved)) == disk.union(saved),
        added.disjoint(disk.intersect(saved)),
        deleted.disjoint(disk.intersect(saved)),
{
    assert(added.union(deleted).union(disk.intersect(saved)) =~= disk.union(saved));
}

} // verus!
