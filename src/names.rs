use vstd::prelude::*;

verus! {

/// The first position at which `n` occurs in `names`, if any.
pub open spec fn first_index(names: Seq<Seq<char>>, n: Seq<char>) -> Option<int> {
    if exists|i: int| 0 <= i < names.len() && names[i] == n {
        Some(
            choose|i: int|
                0 <= i < names.len() && names[i] == n && forall|j: int|
                    0 <= j < i ==> names[j] != n,
        )
    } else {
        None
    }
}

/// Whether `n` occurs in `names`.
pub open spec fn has_name(names: Seq<Seq<char>>, n: Seq<char>) -> bool {
    exists|i: int| 0 <= i < names.len() && names[i] == n
}

/// A position that holds `n` and is preceded by no other `n` is the first one.
pub proof fn lemma_first_index_is(names: Seq<Seq<char>>, n: Seq<char>, i: int)
    requires
        0 <= i < names.len(),
        names[i] == n,
        forall|j: int| 0 <= j < i ==> names[j] != n,
    ensures
        first_index(names, n) == Some(i),
{
    let w = choose|k: int|
        0 <= k < names.len() && names[k] == n && forall|j: int| 0 <= j < k ==> names[j] != n;
    assert(0 <= w < names.len() && names[w] == n && forall|j: int| 0 <= j < w ==> names[j] != n);
    if w < i {
        assert(names[w] != n);
    } else if i < w {
        assert(names[i] != n);
    }
}

/// Where `n` is absent, it has no first position.
pub proof fn lemma_first_index_none(names: Seq<Seq<char>>, n: Seq<char>)
    requires
        forall|j: int| 0 <= j < names.len() ==> names[j] != n,
    ensures
        first_index(names, n) == None::<int>,
        !has_name(names, n),
{
}

/// A first position, when it exists, is in range and holds `n`.
pub proof fn lemma_first_index_some(names: Seq<Seq<char>>, n: Seq<char>)
    requires
        has_name(names, n),
    ensures
        first_index(names, n) is Some,
        0 <= first_index(names, n).unwrap() < names.len(),
        names[first_index(names, n).unwrap()] == n,
        forall|j: int| 0 <= j < first_index(names, n).unwrap() ==> names[j] != n,
{
    let i = choose|i: int| 0 <= i < names.len() && names[i] == n;
    lemma_first_index_below(names, n, i);
}

proof fn lemma_first_index_below(names: Seq<Seq<char>>, n: Seq<char>, k: int)
    requires
        0 <= k < names.len(),
        names[k] == n,
    ensures
        first_index(names, n) is Some,
        0 <= first_index(names, n).unwrap() < names.len(),
        names[first_index(names, n).unwrap()] == n,
        forall|j: int| 0 <= j < first_index(names, n).unwrap() ==> names[j] != n,
    decreases k,
{
    if exists|j: int| 0 <= j < k && names[j] == n {
        let j = choose|j: int| 0 <= j < k && names[j] == n;
        lemma_first_index_below(names, n, j);
    } else {
        lemma_first_index_is(names, n, k);
    }
}

/// Appending a name other than `n` keeps the first position of `n`.
pub proof fn lemma_first_index_push(names: Seq<Seq<char>>, x: Seq<char>, n: Seq<char>)
    requires
        x != n,
    ensures
        first_index(names.push(x), n) == first_index(names, n),
        has_name(names.push(x), n) == has_name(names, n),
{
    let pushed = names.push(x);
    if has_name(names, n) {
        lemma_first_index_some(names, n);
        let i = first_index(names, n).unwrap();
        lemma_first_index_is(pushed, n, i);
        assert(pushed[i] == n);
    } else {
        assert forall|j: int| 0 <= j < pushed.len() implies pushed[j] != n by {
            if j < names.len() {
                assert(pushed[j] == names[j]);
            }
        }
        lemma_first_index_none(pushed, n);
    }
}

/// Appending a name that is absent makes the new last position its first one.
pub proof fn lemma_first_index_push_new(names: Seq<Seq<char>>, x: Seq<char>)
    requires
        !has_name(names, x),
    ensures
        first_index(names.push(x), x) == Some(names.len() as int),
        has_name(names.push(x), x),
{
    let pushed = names.push(x);
    assert forall|j: int| 0 <= j < names.len() implies pushed[j] != x by {
        assert(pushed[j] == names[j]);
    }
    lemma_first_index_is(pushed, x, names.len() as int);
    assert(pushed[names.len() as int] == x);
}

/// Appending to names that hold `n` keeps its first position.
pub proof fn lemma_first_index_push_present(names: Seq<Seq<char>>, x: Seq<char>, n: Seq<char>)
    requires
        has_name(names, n),
    ensures
        first_index(names.push(x), n) == first_index(names, n),
        has_name(names.push(x), n),
{
    lemma_first_index_some(names, n);
    let i = first_index(names, n).unwrap();
    let pushed = names.push(x);
    assert(pushed[i] == n);
    lemma_first_index_is(pushed, n, i);
}

/// In a concatenation, the first position of a name of the front part is
/// its first position there.
pub proof fn lemma_first_index_prefix(a: Seq<Seq<char>>, b: Seq<Seq<char>>, n: Seq<char>)
    requires
        has_name(a, n),
    ensures
        first_index(a + b, n) == first_index(a, n),
        has_name(a + b, n),
{
    lemma_first_index_some(a, n);
    let i = first_index(a, n).unwrap();
    assert((a + b)[i] == n);
    lemma_first_index_is(a + b, n, i);
}

/// In a concatenation whose front part lacks a name, its first position is
/// the one in the back part, shifted.
pub proof fn lemma_first_index_suffix(a: Seq<Seq<char>>, b: Seq<Seq<char>>, n: Seq<char>)
    requires
        !has_name(a, n),
    ensures
        has_name(a + b, n) == has_name(b, n),
        has_name(b, n) ==> first_index(a + b, n) == Some(a.len() + first_index(b, n).unwrap()),
{
    let ab = a + b;
    if has_name(b, n) {
        lemma_first_index_some(b, n);
        let i = first_index(b, n).unwrap();
        assert(ab[a.len() + i] == n);
        assert forall|j: int| 0 <= j < a.len() + i implies ab[j] != n by {
            if j < a.len() {
                assert(ab[j] == a[j]);
            } else {
                assert(ab[j] == b[j - a.len()]);
            }
        }
        lemma_first_index_is(ab, n, a.len() + i);
    } else {
        assert forall|j: int| 0 <= j < ab.len() implies ab[j] != n by {
            if j < a.len() {
                assert(ab[j] == a[j]);
            } else {
                assert(ab[j] == b[j - a.len()]);
            }
        }
        lemma_first_index_none(ab, n);
    }
}

} // verus!
