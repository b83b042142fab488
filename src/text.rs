//! Character-level helpers over protocol lines: pattern search inside a
//! window of a line, whitespace-separated words, and owned substrings.
use vstd::prelude::*;
use vstd::string::StrSliceExecFns;
use vstd::std_specs::iter::IteratorSpec;
use vstd::string::StringExecFns;

verus! {

/// `pat` occurs in `s` starting at position `i`.
pub open spec fn occurs_at(s: Seq<char>, pat: Seq<char>, i: int) -> bool {
    0 <= i && i + pat.len() <= s.len() && s.subrange(i, i + pat.len()) == pat
}

/// `pat` occurs somewhere in `s`.
pub open spec fn contains(s: Seq<char>, pat: Seq<char>) -> bool {
    exists|i: int| occurs_at(s, pat, i)
}

/// The first position in `lo .. hi` at which `pat` occurs and ends no later than `hi`.
pub open spec fn find_within(s: Seq<char>, pat: Seq<char>, lo: int, hi: int) -> Option<int>
    decreases hi - lo + 1,
{
    if lo < 0 || hi > s.len() || lo + pat.len() > hi {
        None
    } else if occurs_at(s, pat, lo) {
        Some(lo)
    } else {
        find_within(s, pat, lo + 1, hi)
    }
}

/// The first position of `pat` in the whole of `s`.
pub open spec fn find(s: Seq<char>, pat: Seq<char>) -> Option<int> {
    find_within(s, pat, 0, s.len() as int)
}

/// The window `lo .. hi` of `s` contains `pat`.
pub open spec fn contains_within(s: Seq<char>, pat: Seq<char>, lo: int, hi: int) -> bool {
    find_within(s, pat, lo, hi) is Some
}

/// Characters with the Unicode `White_Space` property.
pub open spec fn is_space(c: char) -> bool {
    ('\u{9}' <= c && c <= '\u{d}') || c == ' ' || c == '\u{85}' || c == '\u{a0}' || c
        == '\u{1680}' || ('\u{2000}' <= c && c <= '\u{200a}') || c == '\u{2028}' || c
        == '\u{2029}' || c == '\u{202f}' || c == '\u{205f}' || c == '\u{3000}'
}

/// The maximal runs of non-space characters of `s`, in order.
pub open spec fn words(s: Seq<char>) -> Seq<Seq<char>>
    decreases s.len(),
{
    if s.len() == 0 {
        Seq::empty()
    } else {
        let prev = words(s.drop_last());
        let c = s.last();
        if is_space(c) {
            prev
        } else if s.len() >= 2 && !is_space(s[s.len() - 2]) && prev.len() > 0 {
            prev.update(prev.len() - 1, prev.last().push(c))
        } else {
            prev.push(seq![c])
        }
    }
}

/// `s` with each occurrence of `from` (left to right, not overlapping)
/// replaced by `to`.
pub open spec fn replace_all(s: Seq<char>, from: Seq<char>, to: Seq<char>) -> Seq<char>
    decreases s.len(),
{
    if from.len() == 0 {
        s
    } else {
        match find(s, from) {
            None => s,
            Some(i) => if 0 <= i && i + from.len() <= s.len() {
                s.subrange(0, i) + to + replace_all(s.subrange(i + from.len(), s.len() as int), from, to)
            } else {
                s
            },
        }
    }
}

/// What `find_within` returns: a real occurrence in the window, and the first one.
pub proof fn lemma_find_within(s: Seq<char>, pat: Seq<char>, lo: int, hi: int)
    requires
        0 <= lo,
        hi <= s.len(),
    ensures
        match find_within(s, pat, lo, hi) {
            Some(i) => lo <= i && i + pat.len() <= hi && occurs_at(s, pat, i) && forall|j: int|
                lo <= j < i ==> !#[trigger] occurs_at(s, pat, j),
            None => forall|j: int| lo <= j && j + pat.len() <= hi ==> !#[trigger] occurs_at(s, pat, j),
        },
    decreases hi - lo + 1,
{
    if lo + pat.len() > hi {
    } else if occurs_at(s, pat, lo) {
    } else {
        lemma_find_within(s, pat, lo + 1, hi);
    }
}

/// Searching a window is searching the subsequence that the window holds.
pub proof fn lemma_contains_within(s: Seq<char>, pat: Seq<char>, lo: int, hi: int)
    requires
        0 <= lo <= hi <= s.len(),
    ensures
        contains_within(s, pat, lo, hi) == contains(s.subrange(lo, hi), pat),
{
    let sub = s.subrange(lo, hi);
    lemma_find_within(s, pat, lo, hi);
    if contains_within(s, pat, lo, hi) {
        let i = find_within(s, pat, lo, hi)->0;
        assert(sub.subrange(i - lo, i - lo + pat.len()) =~= s.subrange(i, i + pat.len()));
        assert(occurs_at(sub, pat, i - lo));
    } else {
        assert forall|j: int| !occurs_at(sub, pat, j) by {
            if occurs_at(sub, pat, j) {
                assert(sub.subrange(j, j + pat.len()) =~= s.subrange(lo + j, lo + j + pat.len()));
                assert(occurs_at(s, pat, lo + j));
            }
        }
    }
}

/// Searching the subsequence `lo .. hi` of `s` finds what searching that window
/// of `s` finds, moved by `lo`.
pub proof fn lemma_find_subrange(s: Seq<char>, pat: Seq<char>, lo: int, hi: int, i: int)
    requires
        0 <= lo <= hi <= s.len(),
        0 <= i,
    ensures
        find_within(s.subrange(lo, hi), pat, i, hi - lo) == match find_within(s, pat, lo + i, hi) {
            Some(j) => Some(j - lo),
            None => None,
        },
    decreases hi - lo - i + 1,
{
    let sub = s.subrange(lo, hi);
    if i + pat.len() <= hi - lo {
        assert(sub.subrange(i, i + pat.len()) =~= s.subrange(lo + i, lo + i + pat.len()));
        if !occurs_at(sub, pat, i) {
            lemma_find_subrange(s, pat, lo, hi, i + 1);
        }
    }
}

/// The characters of `s`, in order.
pub fn chars_of(s: &str) -> (r: Vec<char>)
    ensures
        r@ == s@,
{
    broadcast use vstd::string::group_string_axioms;

    let mut it = s.chars();
    let mut r: Vec<char> = Vec::new();
    loop
        invariant
            r@ + it.remaining() == s@,
            it.obeys_prophetic_iter_laws(),
            it.decrease() is Some,
        ensures
            r@ == s@,
        decreases it.decrease()->0,
    {
        match it.next() {
            Some(c) => {
                r.push(c);
            },
            None => {
                assert(r@ =~= s@);
                break ;
            },
        }
    }
    r
}

/// Whether `pat` (given by its characters) occurs in `v` at position `i`.
pub fn matches_at(v: &Vec<char>, i: usize, pat: &Vec<char>) -> (r: bool)
    ensures
        r == occurs_at(v@, pat@, i as int),
{
    if i > v.len() || pat.len() > v.len() - i {
        return false;
    }
    let n = v.len();
    let mut k: usize = 0;
    while k < pat.len()
        invariant
            n == v@.len(),
            i <= v@.len(),
            i + pat@.len() <= v@.len(),
            k <= pat@.len(),
            forall|m: int| 0 <= m < k ==> v@[i + m] == pat@[m],
        decreases pat.len() - k,
    {
        if v[i + k] != pat[k] {
            assert(v@.subrange(i as int, i + pat@.len())[k as int] != pat@[k as int]);
            return false;
        }
        k = k + 1;
    }
    assert(v@.subrange(i as int, i + pat@.len()) =~= pat@);
    true
}

/// The first position of `pat` in the window `lo .. hi` of `v`.
pub fn find_in(v: &Vec<char>, pat: &Vec<char>, lo: usize, hi: usize) -> (r: Option<usize>)
    requires
        lo <= hi <= v@.len(),
    ensures
        match r {
            Some(i) => find_within(v@, pat@, lo as int, hi as int) == Some(i as int),
            None => find_within(v@, pat@, lo as int, hi as int) is None,
        },
        r matches Some(i) ==> lo <= i && i + pat@.len() <= hi && occurs_at(v@, pat@, i as int),
{
    proof {
        lemma_find_within(v@, pat@, lo as int, hi as int);
    }
    if pat.len() == 0 {
        assert(v@.subrange(lo as int, lo as int) =~= pat@);
        return Some(lo);
    }
    let mut i: usize = lo;
    while i <= hi && pat.len() <= hi - i
        invariant
            lo <= i <= hi,
            pat@.len() > 0,
            hi <= v@.len(),
            find_within(v@, pat@, lo as int, hi as int) == find_within(
                v@,
                pat@,
                i as int,
                hi as int,
            ),
        decreases hi - i,
    {
        if matches_at(v, i, pat) {
            return Some(i);
        }
        i = i + 1;
    }
    None
}

/// Whether the window `lo .. hi` of `v` contains `pat`.
pub fn contains_in(v: &Vec<char>, pat: &Vec<char>, lo: usize, hi: usize) -> (r: bool)
    requires
        lo <= hi <= v@.len(),
    ensures
        r == contains_within(v@, pat@, lo as int, hi as int),
        r == contains(v@.subrange(lo as int, hi as int), pat@),
{
    proof {
        lemma_contains_within(v@, pat@, lo as int, hi as int);
    }
    find_in(v, pat, lo, hi).is_some()
}

/// Whether the character is Unicode white space.
pub fn space_char(c: char) -> (r: bool)
    ensures
        r == is_space(c),
{
    ('\u{9}' <= c && c <= '\u{d}') || c == ' ' || c == '\u{85}' || c == '\u{a0}' || c
        == '\u{1680}' || ('\u{2000}' <= c && c <= '\u{200a}') || c == '\u{2028}' || c
        == '\u{2029}' || c == '\u{202f}' || c == '\u{205f}' || c == '\u{3000}'
}

/// The bounds of the words of the window `lo .. hi` of `v`.
pub fn word_bounds(v: &Vec<char>, lo: usize, hi: usize) -> (r: Vec<(usize, usize)>)
    requires
        lo <= hi <= v@.len(),
    ensures
        r@.len() == words(v@.subrange(lo as int, hi as int)).len(),
        forall|k: int|
            0 <= k < r@.len() ==> lo <= (#[trigger] r@[k]).0 <= r@[k].1 <= hi && words(
                v@.subrange(lo as int, hi as int),
            )[k] == v@.subrange(r@[k].0 as int, r@[k].1 as int),
{
    let mut r: Vec<(usize, usize)> = Vec::new();
    let mut i: usize = lo;
    assert(v@.subrange(lo as int, lo as int) =~= Seq::<char>::empty());
    while i < hi
        invariant
            lo <= i <= hi <= v@.len(),
            r@.len() == words(v@.subrange(lo as int, i as int)).len(),
            forall|k: int|
                0 <= k < r@.len() ==> lo <= (#[trigger] r@[k]).0 <= r@[k].1 <= i && words(
                    v@.subrange(lo as int, i as int),
                )[k] == v@.subrange(r@[k].0 as int, r@[k].1 as int),
            i > lo && !is_space(v@[i - 1]) ==> r@.len() > 0 && r@[r@.len() - 1].1 == i,
        decreases hi - i,
    {
        let ghost pre = v@.subrange(lo as int, i as int);
        let ghost next = v@.subrange(lo as int, i + 1);
        assert(next.drop_last() =~= pre);
        assert(next.last() == v@[i as int]);
        let c = v[i];
        if space_char(c) {
        } else if i > lo && !space_char(v[i - 1]) {
            assert(next[next.len() - 2] == v@[i - 1]);
            let last = r.len() - 1;
            let start = r[last].0;
            let ghost old_r = r@;
            r.set(last, (start, i + 1));
            assert forall|k: int| 0 <= k < r@.len() implies lo <= (#[trigger] r@[k]).0 <= r@[k].1
                <= i + 1 && words(next)[k] == v@.subrange(r@[k].0 as int, r@[k].1 as int) by {
                if k == last {
                    assert(v@.subrange(start as int, i + 1) =~= v@.subrange(
                        start as int,
                        i as int,
                    ).push(c));
                } else {
                    assert(r@[k] == old_r[k]);
                }
            }
        } else {
            if i > lo {
                assert(next[next.len() - 2] == v@[i - 1]);
            }
            r.push((i, i + 1));
            assert(v@.subrange(i as int, i + 1) =~= seq![c]);
            assert forall|k: int| 0 <= k < r@.len() implies lo <= (#[trigger] r@[k]).0 <= r@[k].1
                <= i + 1 && words(next)[k] == v@.subrange(r@[k].0 as int, r@[k].1 as int) by {
                if k < r@.len() - 1 {
                    assert(words(next)[k] == words(pre)[k]);
                }
            }
        }
        i = i + 1;
    }
    r
}

/// `s` with each occurrence of `from` replaced by `to`.
pub fn replace_text(s: &str, from: &str, to: &str) -> (r: String)
    ensures
        r@ == replace_all(s@, from@, to@),
{
    if from.unicode_len() == 0 {
        return String::from_str(s);
    }
    let v = chars_of(s);
    let pat = chars_of(from);
    let n = v.len();
    let mut r = String::new();
    let mut p: usize = 0;
    assert(v@.subrange(0, n as int) =~= s@);
    while p < n
        invariant
            p <= n == v@.len(),
            v@ == s@,
            pat@ == from@,
            pat@.len() > 0,
            r@ + replace_all(v@.subrange(p as int, n as int), from@, to@) == replace_all(s@, from@, to@),
        decreases n - p,
    {
        let ghost rest = v@.subrange(p as int, n as int);
        proof {
            lemma_find_subrange(v@, from@, p as int, n as int, 0);
        }
        match find_in(&v, &pat, p, n) {
            None => {
                let tail = substring(s, p, n);
                r.append(tail.as_str());
                p = n;
                assert(v@.subrange(n as int, n as int) =~= Seq::<char>::empty());
                assert(replace_all(Seq::<char>::empty(), from@, to@) == Seq::<char>::empty());
                assert(r@ =~= r@ + Seq::<char>::empty());
            },
            Some(i) => {
                let head = substring(s, p, i);
                let ghost r0 = r@;
                r.append(head.as_str());
                r.append(to);
                let next = i + pat.len();
                assert(rest.subrange(0, i - p) =~= v@.subrange(p as int, i as int));
                assert(rest.subrange(i - p + from@.len(), rest.len() as int) =~= v@.subrange(
                    next as int,
                    n as int,
                ));
                assert(r0 + (v@.subrange(p as int, i as int) + to@ + replace_all(
                    v@.subrange(next as int, n as int),
                    from@,
                    to@,
                )) =~= r@ + replace_all(v@.subrange(next as int, n as int), from@, to@));
                p = next;
            },
        }
    }
    if p >= n {
        assert(v@.subrange(p as int, n as int) =~= Seq::<char>::empty());
    }
    assert(r@ =~= r@ + Seq::<char>::empty());
    r
}

/// An owned copy of the characters `lo .. hi` of `s`.
pub fn substring(s: &str, lo: usize, hi: usize) -> (r: String)
    requires
        lo <= hi <= s@.len(),
    ensures
        r@ == s@.subrange(lo as int, hi as int),
{
    String::from_str(s.substring_char(lo, hi))
}

} // verus!
