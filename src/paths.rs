use vstd::prelude::*;
use vstd::string::*;

verus! {

/// The name of the catalog's store file inside a managed directory.
pub open spec fn store_file_name() -> Seq<char> {
    seq!['.', 'm', 'v', 'd', 'u', 'p', '.', 'd', 'b']
}

/// The characters of `p` after its last `c`; all of `p` when it holds no `c`.
pub open spec fn tail_after(p: Seq<char>, c: char) -> Seq<char>
    decreases p.len(),
{
    if p.len() == 0 || p.last() == c {
        Seq::empty()
    } else {
        tail_after(p.drop_last(), c).push(p.last())
    }
}

/// The final component of a `/`-separated path, as `Path::file_name` reads it:
/// trailing separators and `.` components are passed over; a path whose last
/// component is `..`, or that has none, has no file name.
pub open spec fn file_name_of(p: Seq<char>) -> Option<Seq<char>>
    decreases p.len(),
{
    if p.len() == 0 {
        None
    } else if p.last() == '/' {
        file_name_of(p.drop_last())
    } else {
        let seg = tail_after(p, '/');
        if seg == seq!['.'] {
            if p.len() == 1 {
                None
            } else {
                file_name_of(p.drop_last())
            }
        } else if seg == seq!['.', '.'] {
            None
        } else {
            Some(seg)
        }
    }
}

/// The extension of a file name: what follows its last `.`, provided that dot is
/// not the name's first character.
pub open spec fn extension_of_name(name: Seq<char>) -> Option<Seq<char>> {
    let t = tail_after(name, '.');
    if t.len() + 2 > name.len() {
        None
    } else {
        Some(t)
    }
}

/// The extension of the file a path names.
pub open spec fn path_extension(p: Seq<char>) -> Option<Seq<char>> {
    match file_name_of(p) {
        Some(n) => extension_of_name(n),
        None => None,
    }
}

/// The path of the store file of the directory `dir`.
pub open spec fn db_path_of(dir: Seq<char>) -> Seq<char> {
    if dir.len() == 0 {
        store_file_name()
    } else if dir.last() == '/' {
        dir + store_file_name()
    } else {
        dir + seq!['/'] + store_file_name()
    }
}

/// The canonical stored name of content with hash `hash` whose source had extension `ext`.
pub open spec fn stored_name_of(hash: Seq<char>, ext: Option<Seq<char>>) -> Seq<char> {
    match ext {
        Some(e) => hash + seq!['.'] + e,
        None => hash,
    }
}

pub open spec fn opt_view(o: Option<String>) -> Option<Seq<char>> {
    match o {
        Some(s) => Some(s@),
        None => None,
    }
}

proof fn lemma_tail_after(p: Seq<char>, c: char, i: int)
    requires
        0 <= i <= p.len(),
        i == 0 || p[i - 1] == c,
        forall|k: int| i <= k < p.len() ==> p[k] != c,
    ensures
        tail_after(p, c) == p.subrange(i, p.len() as int),
    decreases p.len(),
{
    if p.len() == i {
        assert(p.subrange(i, p.len() as int) =~= Seq::<char>::empty());
    } else {
        let q = p.drop_last();
        assert forall|k: int| i <= k < q.len() implies q[k] != c by {
            assert(q[k] == p[k]);
        }
        if i > 0 {
            assert(q[i - 1] == p[i - 1]);
        }
        lemma_tail_after(q, c, i);
        assert(p.subrange(i, p.len() as int) =~= q.subrange(i, q.len() as int).push(p.last()));
    }
}

/// Where the characters after the last `c` of `s` begin.
fn tail_start(s: &str, c: char) -> (r: usize)
    ensures
        r <= s@.len(),
        tail_after(s@, c) == s@.subrange(r as int, s@.len() as int),
{
    let n = s.unicode_len();
    let mut i: usize = n;
    while i > 0 && s.get_char(i - 1) != c
        invariant
            i <= n,
            n == s@.len(),
            forall|k: int| i <= k < n ==> s@[k] != c,
        decreases i,
    {
        i = i - 1;
    }
    proof {
        lemma_tail_after(s@, c, i as int);
    }
    i
}

/// The name of the catalog's store file.
pub fn db_file_name() -> (r: &'static str)
    ensures
        r@ == store_file_name(),
{
    proof {
        reveal_strlit(".mvdup.db");
    }
    ".mvdup.db"
}

/// The path of the store file of the directory `path`.
pub fn append_db_filename(path: &str) -> (r: String)
    ensures
        r@ == db_path_of(path@),
{
    let n = path.unicode_len();
    let mut r = String::from_str(path);
    if n > 0 && path.get_char(n - 1) != '/' {
        proof {
            reveal_strlit("/");
        }
        r.append("/");
    }
    r.append(db_file_name());
    r
}

/// The final component of `path`, as `file_name_of` describes it.
pub fn filename_of(path: &str) -> (r: Option<String>)
    ensures
        opt_view(r) == file_name_of(path@),
{
    let mut end: usize = path.unicode_len();
    assert(path@.subrange(0, end as int) =~= path@);
    loop
        invariant
            end <= path@.len(),
            file_name_of(path@) == file_name_of(path@.subrange(0, end as int)),
        decreases end,
    {
        let ghost p = path@.subrange(0, end as int);
        if end == 0 {
            return None;
        }
        let head = path.substring_char(0, end);
        let last = path.get_char(end - 1);
        assert(p.drop_last() =~= path@.subrange(0, end - 1));
        if last == '/' {
            end = end - 1;
        } else {
            let start = tail_start(head, '/');
            let seg = head.substring_char(start, end);
            assert(seg@.len() > 0 ==> seg@[seg@.len() - 1] == last);
            assert(seg@.len() > 1 ==> seg@[seg@.len() - 2] == path@[end - 2]);
            if end - start == 1 && last == '.' {
                assert(seg@ =~= seq!['.']);
                if end == 1 {
                    return None;
                }
                end = end - 1;
            } else if end - start == 2 && last == '.' && path.get_char(end - 2) == '.' {
                assert(seg@ =~= seq!['.', '.']);
                return None;
            } else {
                assert(seg@ != seq!['.']);
                assert(seg@ != seq!['.', '.']);
                return Some(String::from_str(seg));
            }
        }
    }
}

/// The extension of the file that `path` names, as `path_extension` describes it.
pub fn extension_of(path: &str) -> (r: Option<String>)
    ensures
        opt_view(r) == path_extension(path@),
{
    match filename_of(path) {
        None => None,
        Some(name) => {
            let n = name.as_str().unicode_len();
            let start = tail_start(name.as_str(), '.');
            if start < 2 {
                None
            } else {
                Some(String::from_str(name.as_str().substring_char(start, n)))
            }
        },
    }
}

/// The canonical name under which content with hash `hash`, read from `source_path`,
/// is stored: the hash, followed by `.` and the source's extension when it has one.
pub fn stored_name_for(hash: &str, source_path: &str) -> (r: String)
    ensures
        r@ == stored_name_of(hash@, path_extension(source_path@)),
{
    let mut r = String::from_str(hash);
    match extension_of(source_path) {
        None => {},
        Some(ext) => {
            proof {
                reveal_strlit(".");
            }
            r.append(".");
            r.append(ext.as_str());
        },
    }
    r
}

} // verus!
