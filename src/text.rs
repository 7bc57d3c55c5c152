use vstd::prelude::*;

verus! {

/// The character sequences of a sequence of strings.
pub open spec fn strings_view(v: Seq<String>) -> Seq<Seq<char>> {
    v.map_values(|s: String| s@)
}

/// `t` occurs in `s` starting at position `i`.
pub open spec fn occurs_at(t: Seq<char>, s: Seq<char>, i: int) -> bool {
    0 <= i && i + t.len() <= s.len() && s.subrange(i, i + t.len()) == t
}

/// `t` is a contiguous part of `s`.
pub open spec fn is_substring(t: Seq<char>, s: Seq<char>) -> bool {
    exists|i: int| occurs_at(t, s, i)
}

/// `t` is an initial part of `s`.
pub open spec fn is_prefix(t: Seq<char>, s: Seq<char>) -> bool {
    occurs_at(t, s, 0)
}

/// Whether `t` occurs in `s` at position `i`.
fn matches_at(t: &str, s: &str, i: usize) -> (r: bool)
    requires
        i <= s@.len(),
    ensures
        r == occurs_at(t@, s@, i as int),
{
    let tn = t.unicode_len();
    let sn = s.unicode_len();
    if tn > sn - i {
        return false;
    }
    let mut k: usize = 0;
    while k < tn
        invariant
            tn == t@.len(),
            sn == s@.len(),
            i + tn <= sn,
            k <= tn,
            forall|j: int| 0 <= j < k ==> s@[i + j] == t@[j],
        decreases tn - k,
    {
        if s.get_char(i + k) != t.get_char(k) {
            assert(s@.subrange(i as int, i + tn)[k as int] != t@[k as int]);
            return false;
        }
        k = k + 1;
    }
    assert(s@.subrange(i as int, i + tn) =~= t@);
    true
}

/// Whether `t` is a contiguous part of `s`.
pub fn contains_text(s: &str, t: &str) -> (r: bool)
    ensures
        r == is_substring(t@, s@),
{
    let tn = t.unicode_len();
    let sn = s.unicode_len();
    if tn > sn {
        return false;
    }
    let mut i: usize = 0;
    while i <= sn - tn
        invariant
            tn == t@.len(),
            sn == s@.len(),
            tn <= sn,
            i <= sn - tn + 1,
            forall|j: int| 0 <= j < i ==> !occurs_at(t@, s@, j),
        decreases sn - tn + 1 - i,
    {
        if matches_at(t, s, i) {
            return true;
        }
        if i == sn - tn {
            return false;
        }
        i = i + 1;
    }
    false
}

/// Whether `t` is an initial part of `s`.
pub fn starts_with_text(s: &str, t: &str) -> (r: bool)
    ensures
        r == is_prefix(t@, s@),
{
    matches_at(t, s, 0)
}

} // verus!
