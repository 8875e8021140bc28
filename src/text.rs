//! Plain-text search and substitution over character sequences.
use vstd::prelude::*;
use vstd::string::*;

verus! {

/// `p` occurs in `t` starting at `i`.
pub open spec fn occurs_at(t: Seq<char>, p: Seq<char>, i: int) -> bool {
    0 <= i && i + p.len() <= t.len() && t.subrange(i, i + p.len()) == p
}

/// `p` occurs somewhere in `t`.
pub open spec fn contains_text(t: Seq<char>, p: Seq<char>) -> bool {
    exists|i: int| occurs_at(t, p, i)
}

/// `i` is the first place where `p` occurs in `t`.
pub open spec fn is_first_occurrence(t: Seq<char>, p: Seq<char>, i: int) -> bool {
    occurs_at(t, p, i) && forall|j: int| 0 <= j < i ==> !occurs_at(t, p, j)
}

/// The characters of a string.
pub fn chars_of(s: &str) -> (r: Vec<char>)
    ensures
        r@ == s@,
{
    let mut r: Vec<char> = Vec::new();
    for c in it: s.chars()
        invariant
            r@ == it.seq().subrange(0, it.index() as int),
            it.seq() == s@,
    {
        r.push(c);
    }
    r
}

/// `t` with every occurrence of `from`, taken from the left and never
/// overlapping, replaced by `to`.
pub open spec fn replace_all(t: Seq<char>, from: Seq<char>, to: Seq<char>) -> Seq<char>
    decreases t.len(),
{
    if t.len() == 0 || from.len() == 0 {
        t
    } else if from.len() <= t.len() && t.subrange(0, from.len() as int) == from {
        to + replace_all(t.subrange(from.len() as int, t.len() as int), from, to)
    } else {
        seq![t[0]] + replace_all(t.subrange(1, t.len() as int), from, to)
    }
}

/// Whether `p` occurs in `t` at `i`.
pub fn matches_at(t: &Vec<char>, p: &Vec<char>, i: usize) -> (r: bool)
    requires
        i <= t@.len(),
    ensures
        r == occurs_at(t@, p@, i as int),
{
    if p.len() > t.len() - i {
        return false;
    }
    let end = i + p.len();
    let mut k: usize = 0;
    while k < p.len()
        invariant
            k <= p@.len(),
            end == i + p@.len(),
            end <= t@.len(),
            forall|j: int| 0 <= j < k ==> t@[i + j] == p@[j],
        decreases p.len() - k,
    {
        if t[i + k] != p[k] {
            assert(t@.subrange(i as int, i + p@.len())[k as int] != p@[k as int]);
            return false;
        }
        k = k + 1;
    }
    assert(t@.subrange(i as int, i + p@.len()) =~= p@);
    true
}

/// The first place where `p` occurs in `t`.
pub fn find_first(t: &Vec<char>, p: &Vec<char>) -> (r: Option<usize>)
    ensures
        match r {
            Some(i) => is_first_occurrence(t@, p@, i as int),
            None => !contains_text(t@, p@),
        },
{
    let mut i: usize = 0;
    loop
        invariant
            i <= t@.len(),
            forall|j: int| 0 <= j < i ==> !occurs_at(t@, p@, j),
        decreases t@.len() - i,
    {
        if matches_at(t, p, i) {
            return Some(i);
        }
        if i == t.len() {
            assert forall|j: int| !occurs_at(t@, p@, j) by {
                if j > i {
                    assert(!occurs_at(t@, p@, j));
                }
            }
            return None;
        }
        i = i + 1;
    }
}

/// Whether `pat` occurs in `s`.
pub fn contains_str(s: &str, pat: &str) -> (r: bool)
    ensures
        r == contains_text(s@, pat@),
{
    let t = chars_of(s);
    let p = chars_of(pat);
    find_first(&t, &p).is_some()
}

/// `s` with every occurrence of `from` replaced by `to`, as
/// `str::replace` does for a non-empty `from`; an empty `from` leaves `s` as
/// it is.
pub fn replace_str(s: &str, from: &str, to: &str) -> (r: String)
    ensures
        r@ == replace_all(s@, from@, to@),
{
    let t = chars_of(s);
    let p = chars_of(from);
    let n = t.len();
    let mut out = String::new();
    if p.len() == 0 {
        out.append(s);
        return out;
    }
    let mut start: usize = 0;
    let mut i: usize = 0;
    assert(t@.subrange(0, n as int) =~= t@);
    assert(out@ + t@.subrange(0, 0) =~= Seq::<char>::empty());
    while i < n
        invariant
            n == t@.len(),
            t@ == s@,
            p@ == from@,
            p@.len() > 0,
            start <= i <= n,
            out@ + t@.subrange(start as int, i as int) + replace_all(
                t@.subrange(i as int, n as int),
                p@,
                to@,
            ) == replace_all(t@, p@, to@),
        decreases n - i,
    {
        let ghost rest = t@.subrange(i as int, n as int);
        if matches_at(&t, &p, i) {
            let run = s.substring_char(start, i);
            out.append(run);
            out.append(to);
            proof {
                assert(rest.subrange(0, p@.len() as int) =~= p@);
                assert(rest.subrange(p@.len() as int, rest.len() as int) =~= t@.subrange(
                    i + p@.len(),
                    n as int,
                ));
                assert(t@.subrange(i + p@.len(), i + p@.len()) =~= Seq::<char>::empty());
            }
            i = i + p.len();
            start = i;
        } else {
            proof {
                assert(p@.len() <= rest.len() ==> rest.subrange(0, p@.len() as int) =~= t@.subrange(
                    i as int,
                    i + p@.len(),
                ));
                assert(rest.subrange(1, rest.len() as int) =~= t@.subrange(i + 1, n as int));
                assert(t@.subrange(start as int, i as int) + seq![t@[i as int]] =~= t@.subrange(
                    start as int,
                    i + 1,
                ));
            }
            i = i + 1;
        }
    }
    let run = s.substring_char(start, n);
    out.append(run);
    assert(t@.subrange(n as int, n as int) =~= Seq::<char>::empty());
    out
}

} // verus!
