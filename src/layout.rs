//! Fitting names into fixed-width report columns.
use vstd::prelude::*;
use vstd::string::*;

verus! {

/// `p` fitted to `n` characters: a longer name keeps its last `n - 3`
/// characters behind `...`; a shorter one is padded with spaces.
pub open spec fn fitted_name(p: Seq<char>, n: nat) -> Seq<char> {
    if p.len() > n {
        "..."@ + p.subrange(p.len() - n + 3, p.len() as int)
    } else {
        p + Seq::new((n - p.len()) as nat, |i: int| ' ')
    }
}

/// Truncates or pads a name to exactly `n_chars` characters.
pub fn fit_name_in(path: &String, n_chars: usize) -> (r: String)
    requires
        path@.len() > n_chars ==> n_chars >= 3,
    ensures
        r@ == fitted_name(path@, n_chars as nat),
        r@.len() == n_chars,
{
    let s = path.as_str();
    let len = s.unicode_len();
    let mut out = String::new();
    if len > n_chars {
        out.append("...");
        out.append(s.substring_char(len - n_chars + 3, len));
        proof {
            reveal_strlit("...");
        }
        return out;
    }
    out.append(s);
    let mut k: usize = len;
    while k < n_chars
        invariant
            len == path@.len(),
            len <= k <= n_chars,
            out@ == path@ + Seq::new((k - len) as nat, |i: int| ' '),
        decreases n_chars - k,
    {
        out.append(" ");
        proof {
            reveal_strlit(" ");
            assert(out@ =~= path@ + Seq::new((k + 1 - len) as nat, |i: int| ' '));
        }
        k = k + 1;
    }
    out
}

} // verus!
