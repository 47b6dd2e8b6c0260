use vstd::prelude::*;

verus! {

/// `s` without the run of `c` at its front.
pub open spec fn strip_start(s: Seq<char>, c: char) -> Seq<char>
    decreases s.len(),
{
    if s.len() > 0 && s[0] == c {
        strip_start(s.drop_first(), c)
    } else {
        s
    }
}

/// `s` without the run of `c` at its back.
pub open spec fn strip_end(s: Seq<char>, c: char) -> Seq<char>
    decreases s.len(),
{
    if s.len() > 0 && s.last() == c {
        strip_end(s.drop_last(), c)
    } else {
        s
    }
}

/// `s` with every leading and trailing `c` removed (`str::trim_matches` on one char).
pub open spec fn trim_char(s: Seq<char>, c: char) -> Seq<char> {
    strip_end(strip_start(s, c), c)
}

/// Index of the first `c` in `s`, or `s.len()` when `s` holds none.
pub open spec fn find_char(s: Seq<char>, c: char) -> nat
    decreases s.len(),
{
    if s.len() == 0 {
        0
    } else if s[0] == c {
        0
    } else {
        1 + find_char(s.drop_first(), c)
    }
}

/// The `k`-th piece (from 0) of `s` cut at every `sep`, as `str::split(sep).nth(k)`
/// yields it; `None` when `s` has fewer than `k + 1` pieces.
pub open spec fn split_piece(s: Seq<char>, sep: char, k: nat) -> Option<Seq<char>>
    decreases k,
{
    let p = find_char(s, sep);
    if k == 0 {
        Some(s.subrange(0, p as int))
    } else if p >= s.len() {
        None
    } else {
        split_piece(s.subrange(p as int + 1, s.len() as int), sep, (k - 1) as nat)
    }
}

proof fn lemma_find_char(s: Seq<char>, c: char, p: int)
    requires
        0 <= p <= s.len(),
        forall|i: int| 0 <= i < p ==> s[i] != c,
        p == s.len() || s[p] == c,
    ensures
        find_char(s, c) == p,
    decreases p,
{
    if p > 0 {
        let t = s.drop_first();
        assert forall|i: int| 0 <= i < p - 1 implies t[i] != c by {
            assert(t[i] == s[i + 1]);
        }
        if p < s.len() {
            assert(t[p - 1] == s[p]);
        }
        lemma_find_char(t, c, p - 1);
    }
}

/// Position of the first `c` in `s` at or after `start`, or the length of `s`.
fn find_from(s: &str, c: char, start: usize) -> (p: usize)
    requires
        start <= s@.len(),
    ensures
        start <= p <= s@.len(),
        find_char(s@.subrange(start as int, s@.len() as int), c) == p - start,
{
    let n = s.unicode_len();
    let mut p: usize = start;
    while p < n && s.get_char(p) != c
        invariant
            n == s@.len(),
            start <= p <= n,
            forall|i: int| start <= i < p ==> s@[i] != c,
        decreases n - p,
    {
        p += 1;
    }
    proof {
        let t = s@.subrange(start as int, n as int);
        assert forall|i: int| 0 <= i < p - start implies t[i] != c by {
            assert(t[i] == s@[start + i]);
        }
        if p < n {
            assert(t[p - start] == s@[p as int]);
        }
        lemma_find_char(t, c, p - start);
    }
    p
}

/// The `k`-th piece (from 0) of `s` split at every `sep`.
pub fn nth_piece(s: &str, sep: char, k: usize) -> (r: Option<String>)
    ensures
        r is Some <==> split_piece(s@, sep, k as nat) is Some,
        r is Some ==> r->0@ == split_piece(s@, sep, k as nat)->0,
{
    let n = s.unicode_len();
    let mut start: usize = 0;
    let mut left: usize = k;
    assert(s@.subrange(0, n as int) =~= s@);
    loop
        invariant
            n == s@.len(),
            start <= n,
            split_piece(s@, sep, k as nat) == split_piece(
                s@.subrange(start as int, n as int),
                sep,
                left as nat,
            ),
        decreases left,
    {
        let p = find_from(s, sep, start);
        let ghost t = s@.subrange(start as int, n as int);
        if left == 0 {
            let piece = s.substring_char(start, p);
            assert(piece@ =~= t.subrange(0, (p - start) as int));
            return Some(piece.to_owned());
        }
        if p >= n {
            return None;
        }
        assert(t.subrange(p - start + 1, t.len() as int) =~= s@.subrange(p + 1, n as int));
        start = p + 1;
        left = left - 1;
    }
}

/// `s` with every leading and trailing `c` removed.
pub fn trim_matches_char(s: &str, c: char) -> (r: String)
    ensures
        r@ == trim_char(s@, c),
{
    let n = s.unicode_len();
    let mut i: usize = 0;
    assert(s@.subrange(0, n as int) =~= s@);
    while i < n && s.get_char(i) == c
        invariant
            n == s@.len(),
            i <= n,
            strip_start(s@, c) == strip_start(s@.subrange(i as int, n as int), c),
        decreases n - i,
    {
        assert(s@.subrange(i as int, n as int).drop_first() =~= s@.subrange(i + 1, n as int));
        i += 1;
    }
    if i < n {
        assert(s@.subrange(i as int, n as int)[0] == s@[i as int]);
    }
    let mut j: usize = n;
    while j > i && s.get_char(j - 1) == c
        invariant
            n == s@.len(),
            i <= j <= n,
            strip_start(s@, c) == s@.subrange(i as int, n as int),
            strip_end(s@.subrange(i as int, n as int), c) == strip_end(
                s@.subrange(i as int, j as int),
                c,
            ),
        decreases j,
    {
        assert(s@.subrange(i as int, j as int).drop_last() =~= s@.subrange(i as int, j - 1));
        j -= 1;
    }
    if j > i {
        assert(s@.subrange(i as int, j as int).last() == s@[j - 1]);
    }
    let piece = s.substring_char(i, j);
    piece.to_owned()
}

} // verus!
