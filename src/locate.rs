use vstd::prelude::*;
use vstd::string::*;
use crate::database::{matching, rows_view, DataBase, Row};
use crate::text::strings_view;

verus! {

/// The first seven characters of a hash (all of it when shorter).
pub open spec fn short_hash(h: Seq<char>) -> Seq<char> {
    if h.len() <= 7 {
        h
    } else {
        h.subrange(0, 7)
    }
}

/// The report line of one search hit: its short hash, a space, its stored name.
pub open spec fn hit_line(e: Row) -> Seq<char> {
    short_hash(e.1) + seq![' '] + e.0
}

/// The report lines of the entries that `target` selects, in catalog order; their
/// number is the total that the search reports.
pub fn locate(db: &DataBase, target: &str) -> (r: Vec<String>)
    ensures
        strings_view(r@) == matching(db@, target@).map_values(|e: Row| hit_line(e)),
{
    let hits = db.find(target);
    let ghost m = matching(db@, target@);
    let n = hits.len();
    let mut out: Vec<String> = Vec::new();
    let mut i: usize = 0;
    assert forall|k: int| 0 <= k < n implies m[k] == (#[trigger] hits@[k].0@, hits@[k].1@) by {
        assert(rows_view(hits@)[k] == (hits@[k].0@, hits@[k].1@));
    }
    assert(strings_view(out@) =~= m.subrange(0, 0).map_values(|e: Row| hit_line(e)));
    while i < n
        invariant
            n == hits@.len(),
            m.len() == n,
            forall|k: int| 0 <= k < n ==> m[k] == (#[trigger] hits@[k].0@, hits@[k].1@),
            i <= n,
            out@.len() == i,
            strings_view(out@) == m.subrange(0, i as int).map_values(|e: Row| hit_line(e)),
        decreases n - i,
    {
        let hash = hits[i].1.as_str();
        let len = hash.unicode_len();
        let cut: usize = if len <= 7 { len } else { 7 };
        let mut line = String::from_str(hash.substring_char(0, cut));
        proof {
            reveal_strlit(" ");
        }
        line.append(" ");
        line.append(hits[i].0.as_str());
        assert(hits@[i as int].0@ == m[i as int].0);
        assert(line@ =~= hit_line(m[i as int]));
        let ghost before = out@;
        out.push(line);
        assert(strings_view(out@) =~= m.subrange(0, i + 1).map_values(|e: Row| hit_line(e))) by {
            assert forall|k: int| 0 <= k < i implies strings_view(out@)[k] == hit_line(m[k]) by {
                assert(out@[k] == before[k]);
                assert(strings_view(before)[k] == m.subrange(0, i as int).map_values(|e: Row| hit_line(e))[k]);
            }
            assert(strings_view(out@)[i as int] == line@);
        }
        i = i + 1;
    }
    assert(m.subrange(0, n as int) =~= m);
    out
}

} // verus!
