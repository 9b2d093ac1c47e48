use vstd::prelude::*;

verus! {

/// `s` with every occurrence of `x` taken out, the other elements kept in order.
pub open spec fn without<T>(s: Seq<T>, x: T) -> Seq<T>
    decreases s.len(),
{
    if s.len() == 0 {
        s
    } else {
        let rest = without(s.drop_last(), x);
        if s.last() == x {
            rest
        } else {
            rest.push(s.last())
        }
    }
}

/// What a list holds after one element is appended.
pub proof fn lemma_push_contains<T>(s: Seq<T>, v: T, y: T)
    ensures
        s.push(v).contains(y) <==> (s.contains(y) || v == y),
{
    if s.contains(y) {
        let i = choose|i: int| 0 <= i < s.len() && s[i] == y;
        assert(s.push(v)[i] == y);
    }
    if v == y {
        assert(s.push(v)[s.len() as int] == y);
    }
    if s.push(v).contains(y) && v != y {
        let i = choose|i: int| 0 <= i < s.push(v).len() && s.push(v)[i] == y;
        assert(s[i] == y);
    }
}

/// An element stays exactly when it was there and differs from `x`.
pub proof fn lemma_without_contains<T>(s: Seq<T>, x: T, y: T)
    ensures
        without(s, x).contains(y) <==> (s.contains(y) && y != x),
    decreases s.len(),
{
    if s.len() > 0 {
        let d = s.drop_last();
        let w = without(d, x);
        lemma_without_contains(d, x, y);
        assert(s =~= d.push(s.last()));
        lemma_push_contains(d, s.last(), y);
        if s.last() != x {
            assert(without(s, x) == w.push(s.last()));
            lemma_push_contains(w, s.last(), y);
        } else {
            assert(without(s, x) == w);
        }
    }
}

/// Taking out an element keeps a list free of repeats.
pub proof fn lemma_without_no_duplicates<T>(s: Seq<T>, x: T)
    requires
        s.no_duplicates(),
    ensures
        without(s, x).no_duplicates(),
    decreases s.len(),
{
    if s.len() > 0 {
        let d = s.drop_last();
        assert(d.no_duplicates()) by {
            assert forall|i: int, j: int| 0 <= i < d.len() && 0 <= j < d.len() && i != j implies d[i]
                != d[j] by {
                assert(s[i] == d[i] && s[j] == d[j]);
            }
        }
        lemma_without_no_duplicates(d, x);
        if s.last() != x {
            lemma_without_contains(d, x, s.last());
            assert(!d.contains(s.last())) by {
                if d.contains(s.last()) {
                    let i = choose|i: int| 0 <= i < d.len() && d[i] == s.last();
                    assert(s[i] == s[s.len() - 1]);
                }
            }
        }
    }
}

/// Taking out an element that is not there changes nothing.
pub proof fn lemma_without_absent<T>(s: Seq<T>, x: T)
    requires
        !s.contains(x),
    ensures
        without(s, x) == s,
    decreases s.len(),
{
    if s.len() > 0 {
        let d = s.drop_last();
        assert(!d.contains(x)) by {
            if d.contains(x) {
                let i = choose|i: int| 0 <= i < d.len() && d[i] == x;
                assert(s[i] == x);
            }
        }
        lemma_without_absent(d, x);
        assert(s.last() != x);
        assert(s =~= d.push(s.last()));
    }
}

/// Appending an element that is not there keeps a list free of repeats.
pub proof fn lemma_push_no_duplicates<T>(s: Seq<T>, x: T)
    requires
        s.no_duplicates(),
        !s.contains(x),
    ensures
        s.push(x).no_duplicates(),
{
    assert forall|i: int, j: int| 0 <= i < s.len() + 1 && 0 <= j < s.len() + 1 && i != j implies s.push(
        x,
    )[i] != s.push(x)[j] by {
        if i == s.len() {
            assert(s[j] == s.push(x)[j]);
        } else if j == s.len() {
            assert(s[i] == s.push(x)[i]);
        }
    }
}

/// Whether `h` stands in `s` at exactly one position.
pub open spec fn listed_once(s: Seq<u64>, h: u64) -> bool {
    exists|i: int|
        0 <= i < s.len() && s[i] == h && (forall|j: int| 0 <= j < s.len() && s[j] == h ==> j == i)
}

/// A list without repeats that holds `h` holds it exactly once.
pub proof fn lemma_listed_once(s: Seq<u64>, h: u64)
    requires
        s.no_duplicates(),
        s.contains(h),
    ensures
        listed_once(s, h),
{
    let i = choose|i: int| 0 <= i < s.len() && s[i] == h;
    assert(forall|j: int| 0 <= j < s.len() && s[j] == h ==> j == i);
}

/// Step of a left-to-right scan that builds `without`.
pub proof fn lemma_without_take<T>(s: Seq<T>, x: T, i: int)
    requires
        0 <= i < s.len(),
    ensures
        without(s.take(i + 1), x) == if s[i] == x {
            without(s.take(i), x)
        } else {
            without(s.take(i), x).push(s[i])
        },
{
    assert(s.take(i + 1).drop_last() =~= s.take(i));
}

/// A copy of `v` without the handle `h`.
pub fn without_id(v: &Vec<u64>, h: u64) -> (r: Vec<u64>)
    ensures
        r@ == without(v@, h),
{
    let mut r: Vec<u64> = Vec::new();
    let mut i: usize = 0;
    while i < v.len()
        invariant
            i <= v.len(),
            r@ == without(v@.take(i as int), h),
        decreases v.len() - i,
    {
        proof {
            lemma_without_take(v@, h, i as int);
        }
        if v[i] != h {
            r.push(v[i]);
        }
        i += 1;
    }
    assert(v@.take(v.len() as int) =~= v@);
    r
}

/// Whether `h` occurs in `v`.
pub fn contains_id(v: &Vec<u64>, h: u64) -> (r: bool)
    ensures
        r == v@.contains(h),
{
    let mut i: usize = 0;
    while i < v.len()
        invariant
            i <= v.len(),
            forall|j: int| 0 <= j < i ==> v@[j] != h,
        decreases v.len() - i,
    {
        if v[i] == h {
            return true;
        }
        i += 1;
    }
    false
}

} // verus!
