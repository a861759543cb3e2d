//! Sequences without repeats: keeping the first occurrence of each value.
use vstd::prelude::*;

verus! {

/// The values of `s` in order of first occurrence, each once.
pub open spec fn dedup<A>(s: Seq<A>) -> Seq<A>
    decreases s.len(),
{
    if s.len() == 0 {
        Seq::empty()
    } else {
        let d = dedup(s.drop_last());
        if d.contains(s.last()) {
            d
        } else {
            d.push(s.last())
        }
    }
}

/// `dedup` keeps exactly the values of the sequence.
pub proof fn lemma_dedup_contains<A>(s: Seq<A>, x: A)
    ensures
        dedup(s).contains(x) <==> s.contains(x),
    decreases s.len(),
{
    if s.len() > 0 {
        lemma_dedup_contains(s.drop_last(), x);
        let d = dedup(s.drop_last());
        if s.drop_last().contains(x) {
            let i = choose|i: int| 0 <= i < s.drop_last().len() && s.drop_last()[i] == x;
            assert(s[i] == x);
        }
        if s.contains(x) {
            let i = choose|i: int| 0 <= i < s.len() && s[i] == x;
            if i < s.len() - 1 {
                assert(s.drop_last()[i] == x);
            }
        }
        if !d.contains(s.last()) {
            assert(d.push(s.last())[d.len() as int] == s.last());
            if d.contains(x) {
                let i = choose|i: int| 0 <= i < d.len() && d[i] == x;
                assert(d.push(s.last())[i] == x);
            }
        }
    }
}

/// `dedup` never repeats a value.
pub proof fn lemma_dedup_no_duplicates<A>(s: Seq<A>)
    ensures
        dedup(s).no_duplicates(),
    decreases s.len(),
{
    if s.len() > 0 {
        lemma_dedup_no_duplicates(s.drop_last());
    }
}

/// Appending a value that is already present leaves `dedup` unchanged; a
/// new value is appended.
pub proof fn lemma_dedup_push<A>(s: Seq<A>, x: A)
    ensures
        s.contains(x) ==> dedup(s.push(x)) == dedup(s),
        !s.contains(x) ==> dedup(s.push(x)) == dedup(s).push(x),
{
    lemma_dedup_contains(s, x);
    assert(s.push(x).drop_last() =~= s);
}

/// Position of the first occurrence of `x` in `s`, or -1.
pub open spec fn first_index<A>(s: Seq<A>, x: A) -> int
    decreases s.len(),
{
    if s.len() == 0 {
        -1
    } else {
        let i = first_index(s.drop_last(), x);
        if i >= 0 {
            i
        } else if s.last() == x {
            s.len() - 1
        } else {
            -1
        }
    }
}

/// `first_index` finds the first occurrence, when there is one.
pub proof fn lemma_first_index<A>(s: Seq<A>, x: A)
    ensures
        s.contains(x) ==> 0 <= first_index(s, x) < s.len() && s[first_index(s, x)] == x
            && forall|j: int| 0 <= j < first_index(s, x) ==> s[j] != x,
        !s.contains(x) ==> first_index(s, x) == -1,
    decreases s.len(),
{
    if s.len() > 0 {
        lemma_first_index(s.drop_last(), x);
        if s.drop_last().contains(x) {
            let i = choose|i: int| 0 <= i < s.drop_last().len() && s.drop_last()[i] == x;
            assert(s[i] == x);
        }
        if s.contains(x) {
            let i = choose|i: int| 0 <= i < s.len() && s[i] == x;
            if i < s.len() - 1 {
                assert(s.drop_last()[i] == x);
            }
            assert forall|j: int| 0 <= j < first_index(s, x) implies s[j] != x by {
                assert(s[j] == s.drop_last()[j]);
                if !s.drop_last().contains(x) {
                    assert(s.drop_last()[j] != x);
                }
            }
        }
    }
}

/// Moving the element at `m` of `b` to the end of `a` keeps the values of
/// `a + b` and keeps them free of repeats.
pub proof fn lemma_move_element<A>(a: Seq<A>, b: Seq<A>, m: int)
    requires
        0 <= m < b.len(),
    ensures
        (a + b).no_duplicates() ==> (a.push(b[m]) + b.remove(m)).no_duplicates(),
        forall|x: A| (a.push(b[m]) + b.remove(m)).contains(x) <==> (a + b).contains(x),
        (a.push(b[m]) + b.remove(m)).len() == (a + b).len(),
{
    let old_s = a + b;
    let new_s = a.push(b[m]) + b.remove(m);
    let n: int = a.len() as int;
    // Position in the old sequence of each position of the new one.
    let src = |p: int|
        if p < n {
            p
        } else if p == n {
            n + m
        } else if p - n - 1 < m {
            p - 1
        } else {
            p
        };
    assert forall|p: int| 0 <= p < new_s.len() implies new_s[p] == old_s[src(p)] && 0 <= src(p)
        < old_s.len() by {
        if p < n {
        } else if p == n {
        } else if p - n - 1 < m {
            assert(new_s[p] == b.remove(m)[p - n - 1]);
        } else {
            assert(new_s[p] == b.remove(m)[p - n - 1]);
        }
    }
    if old_s.no_duplicates() {
        assert forall|p: int, q: int|
            0 <= p < new_s.len() && 0 <= q < new_s.len() && p != q implies new_s[p]
            != new_s[q] by {
            assert(src(p) != src(q));
        }
    }
    assert forall|x: A| new_s.contains(x) <==> old_s.contains(x) by {
        if new_s.contains(x) {
            let p = choose|p: int| 0 <= p < new_s.len() && new_s[p] == x;
            assert(old_s[src(p)] == x);
        }
        if old_s.contains(x) {
            let q = choose|q: int| 0 <= q < old_s.len() && old_s[q] == x;
            let p = if q < n {
                q
            } else if q == n + m {
                n
            } else if q - n < m {
                q + 1
            } else {
                q
            };
            assert(new_s[p] == x);
        }
    }
}

} // verus!
