//! Strings as sequences of characters, and the search for one inside another.

use vstd::prelude::*;

verus! {

/// `pat` stands in `text` from position `i` on.
pub open spec fn occurs_at(pat: Seq<char>, text: Seq<char>, i: int) -> bool {
    &&& 0 <= i
    &&& i + pat.len() <= text.len()
    &&& text.subrange(i, i + pat.len()) == pat
}

/// `pat` stands somewhere in `text`. The empty sequence stands in every text.
pub open spec fn is_substring(pat: Seq<char>, text: Seq<char>) -> bool {
    exists|i: int| occurs_at(pat, text, i)
}

/// The characters of `s`, in order.
pub fn chars_of(s: &str) -> (v: Vec<char>)
    ensures
        v@ == s@,
{
    let mut v: Vec<char> = Vec::new();
    for c in it: s.chars()
        invariant
            v@ == it.seq().take(it.index()),
            it.seq() == s@,
    {
        v.push(c);
    }
    v
}

/// Whether `pat` stands in `text` from position `start` on.
fn matches_at(text: &Vec<char>, pat: &Vec<char>, start: usize) -> (b: bool)
    requires
        start + pat@.len() <= text@.len(),
    ensures
        b == occurs_at(pat@, text@, start as int),
{
    let mut k: usize = 0;
    while k < pat.len()
        invariant
            k <= pat.len(),
            start + pat.len() <= text.len(),
            forall|j: int| 0 <= j < k ==> text@[start + j] == pat@[j],
        decreases pat.len() - k,
    {
        if text[start + k] != pat[k] {
            proof {
                let window = text@.subrange(start as int, start + pat@.len());
                assert(window[k as int] == text@[start + k]);
            }
            return false;
        }
        k += 1;
    }
    proof {
        assert(text@.subrange(start as int, start + pat@.len()) =~= pat@);
    }
    true
}

/// Whether `pat` stands somewhere in `text`, as `str::contains` tells it for a
/// string pattern.
pub fn contains(text: &str, pat: &str) -> (b: bool)
    ensures
        b == is_substring(pat@, text@),
{
    let t = chars_of(text);
    let p = chars_of(pat);
    if p.len() > t.len() {
        return false;
    }
    let last: usize = t.len() - p.len();
    let mut i: usize = 0;
    while i < last
        invariant
            i <= last,
            last == t.len() - p.len(),
            t@ == text@,
            p@ == pat@,
            forall|j: int| 0 <= j < i ==> !occurs_at(p@, t@, j),
        decreases last - i,
    {
        if matches_at(&t, &p, i) {
            return true;
        }
        i += 1;
    }
    matches_at(&t, &p, last)
}

} // verus!
