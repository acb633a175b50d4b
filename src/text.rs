use vstd::prelude::*;
use vstd::string::*;

verus! {

/// Whether `p` occurs in `t` starting at position `i`.
pub open spec fn matches_at(t: Seq<char>, p: Seq<char>, i: int) -> bool {
    0 <= i && i + p.len() <= t.len() && t.subrange(i, i + p.len()) == p
}

/// The first position at or after `i` where `p` occurs in `t`.
pub open spec fn first_at(t: Seq<char>, p: Seq<char>, i: int) -> Option<int>
    decreases t.len() + 1 - i,
{
    if i < 0 || i + p.len() > t.len() {
        None
    } else if matches_at(t, p, i) {
        Some(i)
    } else {
        first_at(t, p, i + 1)
    }
}

/// Whether `p` occurs anywhere in `t`.
pub open spec fn contains_text(t: Seq<char>, p: Seq<char>) -> bool {
    first_at(t, p, 0) is Some
}

/// Parts joined with `sep` between each two neighbours.
pub open spec fn join(parts: Seq<Seq<char>>, sep: Seq<char>) -> Seq<char>
    decreases parts.len(),
{
    if parts.len() == 0 {
        Seq::empty()
    } else if parts.len() == 1 {
        parts[0]
    } else {
        join(parts.drop_last(), sep) + sep + parts.last()
    }
}

proof fn lemma_first_at_none(t: Seq<char>, p: Seq<char>, i: int, k: int)
    requires
        0 <= i <= k,
        forall|j: int| i <= j < k ==> !matches_at(t, p, j),
        k + p.len() > t.len(),
    ensures
        first_at(t, p, i) is None,
    decreases t.len() + 1 - i,
{
    if i + p.len() <= t.len() {
        lemma_first_at_none(t, p, i + 1, k);
    }
}

proof fn lemma_first_at_found(t: Seq<char>, p: Seq<char>, i: int, k: int)
    requires
        0 <= i <= k,
        forall|j: int| i <= j < k ==> !matches_at(t, p, j),
        matches_at(t, p, k),
    ensures
        first_at(t, p, i) == Some(k),
    decreases k - i,
{
    if i < k {
        lemma_first_at_found(t, p, i + 1, k);
    }
}

/// Whether two texts are equal, character by character.
pub fn same_text(a: &str, b: &str) -> (r: bool)
    ensures
        r == (a@ == b@),
{
    let n = a.unicode_len();
    if n != b.unicode_len() {
        return false;
    }
    let mut i: usize = 0;
    while i < n
        invariant
            n == a@.len(),
            n == b@.len(),
            i <= n,
            forall|j: int| 0 <= j < i ==> a@[j] == b@[j],
        decreases n - i,
    {
        if a.get_char(i) != b.get_char(i) {
            return false;
        }
        i = i + 1;
    }
    assert(a@ =~= b@);
    true
}

/// Whether `p` occurs in `t` at position `i`.
fn occurs_at(t: &str, p: &str, i: usize) -> (r: bool)
    requires
        i as int + p@.len() <= t@.len(),
        t@.len() <= usize::MAX,
    ensures
        r == matches_at(t@, p@, i as int),
{
    let m = p.unicode_len();
    let mut j: usize = 0;
    while j < m
        invariant
            m == p@.len(),
            i as int + m <= t@.len(),
            t@.len() <= usize::MAX,
            j <= m,
            forall|k: int| 0 <= k < j ==> t@[i + k] == p@[k],
        decreases m - j,
    {
        if t.get_char(i + j) != p.get_char(j) {
            assert(t@.subrange(i as int, i + p@.len())[j as int] != p@[j as int]);
            return false;
        }
        j = j + 1;
    }
    assert(t@.subrange(i as int, i + p@.len()) =~= p@);
    true
}

/// The first position at or after `start` where `p` occurs in `t`.
pub fn find_from(t: &str, p: &str, start: usize) -> (r: Option<usize>)
    ensures
        r matches Some(k) ==> first_at(t@, p@, start as int) == Some(k as int),
        r matches Some(k) ==> start <= k && matches_at(t@, p@, k as int),
        t@.len() <= usize::MAX,
        r is None ==> first_at(t@, p@, start as int) is None,
{
    let n = t.unicode_len();
    let m = p.unicode_len();
    if start > n || m > n - start {
        proof {
            lemma_first_at_none(t@, p@, start as int, start as int);
        }
        return None;
    }
    if m == 0 {
        assert(t@.subrange(start as int, start as int) =~= p@);
        return Some(start);
    }
    let mut i: usize = start;
    while i <= n - m
        invariant
            n == t@.len(),
            m == p@.len(),
            1 <= m <= n,
            start <= i,
            i <= n - m + 1,
            forall|j: int| start <= j < i ==> !matches_at(t@, p@, j),
        decreases n - i,
    {
        if occurs_at(t, p, i) {
            proof {
                lemma_first_at_found(t@, p@, start as int, i as int);
            }
            return Some(i);
        }
        i = i + 1;
    }
    proof {
        lemma_first_at_none(t@, p@, start as int, i as int);
    }
    None
}

/// Whether `p` occurs anywhere in `t`.
pub fn contains(t: &str, p: &str) -> (r: bool)
    ensures
        r == contains_text(t@, p@),
{
    find_from(t, p, 0).is_some()
}

/// The parts joined with `sep` between each two neighbours.
pub fn join_with(parts: &Vec<String>, sep: &str) -> (r: String)
    ensures
        r@ == join(parts@.map_values(|s: String| s@), sep@),
{
    let ghost views = parts@.map_values(|s: String| s@);
    let mut out = String::new();
    let mut i: usize = 0;
    while i < parts.len()
        invariant
            views == parts@.map_values(|s: String| s@),
            i <= parts.len(),
            out@ == join(views.subrange(0, i as int), sep@),
        decreases parts.len() - i,
    {
        assert(views.subrange(0, i + 1).drop_last() =~= views.subrange(0, i as int));
        if i > 0 {
            out.append(sep);
        }
        out.append(parts[i].as_str());
        i = i + 1;
    }
    assert(views.subrange(0, parts.len() as int) =~= views);
    out
}

} // verus!
