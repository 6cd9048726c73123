//! Small collection helpers.
use vstd::prelude::*;
use std::collections::HashMap;
use std::hash::Hash;

use crate::action::lists_once;

verus! {

broadcast use vstd::std_specs::hash::group_hash_axioms;

/// The keys of a hash map, each once, in the map's iteration order.
pub fn keys_of<K: Copy + Eq + Hash, V>(m: &HashMap<K, V>) -> (r: Vec<K>)
    requires
        vstd::std_specs::hash::obeys_key_model::<K>(),
    ensures
        lists_once(r@, m@.dom()),
{
    let mut v: Vec<K> = Vec::new();
    for k in it: m.keys()
        invariant
            it.seq().unref().to_set() == m@.dom(),
            it.seq().no_duplicates(),
            it.seq().len() == m@.dom().len(),
            v@ == it.seq().unref().take(it.index()),
    {
        v.push(*k);
    }
    assert(v@.len() == m@.dom().len());
    assert forall|x: K| v@.to_set().contains(x) implies m@.dom().contains(x) by {
        let j = choose|j: int| 0 <= j < v@.len() && v@[j] == x;
        assert(v@[j] == x);
    }
    proof {
        v@.unique_seq_to_set();
        vstd::set_lib::lemma_subset_equality(v@.to_set(), m@.dom());
    }
    v
}

/// Holds of every value but `x`.
pub open spec fn differs_from(x: u32) -> spec_fn(u32) -> bool {
    |y: u32| y != x
}

/// `s` without any occurrence of `x`, the rest in order.
pub fn without(s: &Vec<u32>, x: u32) -> (r: Vec<u32>)
    ensures
        r@ == s@.filter(differs_from(x)),
{
    let mut r: Vec<u32> = Vec::new();
    let n = s.len();
    let ghost p = differs_from(x);
    let mut i: usize = 0;
    while i < n
        invariant
            n == s@.len(),
            i <= n,
            p == differs_from(x),
            r@ == s@.take(i as int).filter(p),
        decreases n - i,
    {
        proof {
            assert(s@.take(i + 1) =~= s@.take(i as int).push(s@[i as int]));
            s@.take(i as int).lemma_filter_push(s@[i as int], p);
        }
        if s[i] != x {
            r.push(s[i]);
        }
        i = i + 1;
    }
    assert(s@.take(n as int) =~= s@);
    r
}

/// The first position of `x` in `s`.
pub open spec fn is_first_index(s: Seq<u32>, x: u32, i: int) -> bool {
    0 <= i < s.len() && s[i] == x && forall|j: int| 0 <= j < i ==> s[j] != x
}

/// The first position of `x` in `s`, where it occurs.
pub open spec fn first_index(s: Seq<u32>, x: u32) -> int {
    choose|i: int| is_first_index(s, x, i)
}

pub proof fn lemma_first_index_unique(s: Seq<u32>, x: u32, i: int)
    requires
        is_first_index(s, x, i),
    ensures
        first_index(s, x) == i,
{
    let k = first_index(s, x);
    assert(is_first_index(s, x, k));
    if k < i {
        assert(s[k] != x);
    } else if k > i {
        assert(s[i] != x);
    }
}

/// Finds the first position of `x` in `s`.
pub fn position(s: &Vec<u32>, x: u32) -> (r: usize)
    requires
        s@.contains(x),
    ensures
        is_first_index(s@, x, r as int),
        r as int == first_index(s@, x),
{
    let n = s.len();
    let mut i: usize = 0;
    while i < n
        invariant
            n == s@.len(),
            i <= n,
            s@.contains(x),
            forall|j: int| 0 <= j < i ==> s@[j] != x,
        decreases n - i,
    {
        if s[i] == x {
            proof {
                lemma_first_index_unique(s@, x, i as int);
            }
            return i;
        }
        i = i + 1;
    }
    proof {
        let j = choose|j: int| 0 <= j < s@.len() && s@[j] == x;
        assert(s@[j] != x);
    }
    0
}

/// In a sequence without repeats, the position of an element is its first
/// position.
pub proof fn lemma_index_no_dup(s: Seq<u32>, i: int)
    requires
        s.no_duplicates(),
        0 <= i < s.len(),
    ensures
        first_index(s, s[i]) == i,
{
    lemma_first_index_unique(s, s[i], i);
}

/// Dropping an element that does not occur leaves a sequence as it is.
pub proof fn lemma_filter_absent(s: Seq<u32>, x: u32)
    requires
        !s.contains(x),
    ensures
        s.filter(differs_from(x)) == s,
    decreases s.len(),
{
    reveal(Seq::filter);
    if s.len() > 0 {
        assert(!s.drop_last().contains(x)) by {
            if s.drop_last().contains(x) {
                let i = choose|i: int| 0 <= i < s.drop_last().len() && s.drop_last()[i] == x;
                assert(s[i] == x);
            }
        }
        lemma_filter_absent(s.drop_last(), x);
        assert(s.last() != x);
        assert(s.drop_last().push(s.last()) =~= s);
    }
}

/// Whether `x` occurs in `s`.
pub fn contains_id(s: &Vec<u32>, x: u32) -> (r: bool)
    ensures
        r == s@.contains(x),
{
    let n = s.len();
    let mut i: usize = 0;
    while i < n
        invariant
            n == s@.len(),
            i <= n,
            forall|j: int| 0 <= j < i ==> s@[j] != x,
        decreases n - i,
    {
        if s[i] == x {
            return true;
        }
        i = i + 1;
    }
    false
}

/// Dropping every occurrence of `x` drops `x` from the set of elements.
pub proof fn lemma_without_to_set(s: Seq<u32>, x: u32)
    ensures
        s.filter(differs_from(x)).to_set() == s.to_set().remove(x),
{
    let p = differs_from(x);
    let f = s.filter(p);
    assert forall|y: u32| #[trigger] f.to_set().contains(y) <==> s.to_set().remove(x).contains(y) by {
        if f.contains(y) {
            let i = choose|i: int| 0 <= i < f.len() && f[i] == y;
            s.lemma_filter_pred(p, i);
            s.lemma_filter_contains_rev(p, y);
        }
        if s.contains(y) && y != x {
            let i = choose|i: int| 0 <= i < s.len() && s[i] == y;
            s.lemma_filter_contains(p, i);
        }
    }
    assert(f.to_set() =~= s.to_set().remove(x));
}

/// Exchanging two elements keeps the set of elements.
pub proof fn lemma_swap_to_set(s: Seq<u32>, a: int, b: int)
    requires
        0 <= a < s.len(),
        0 <= b < s.len(),
    ensures
        s.update(a, s[b]).update(b, s[a]).to_set() == s.to_set(),
{
    let t = s.update(a, s[b]).update(b, s[a]);
    assert forall|y: u32| #[trigger] t.to_set().contains(y) <==> s.to_set().contains(y) by {
        if t.contains(y) {
            let i = choose|i: int| 0 <= i < t.len() && t[i] == y;
            if i == b {
                assert(s[a] == y);
            } else if i == a {
                assert(s[b] == y);
            } else {
                assert(s[i] == y);
            }
        }
        if s.contains(y) {
            let i = choose|i: int| 0 <= i < s.len() && s[i] == y;
            if i == a {
                assert(t[b] == y);
            } else if i == b {
                assert(t[a] == y);
            } else {
                assert(t[i] == y);
            }
        }
    }
    assert(t.to_set() =~= s.to_set());
}

/// `x` is the least element of `s` above `a`.
pub open spec fn is_least_above(s: Set<u16>, a: int, x: u16) -> bool {
    &&& s.contains(x)
    &&& x > a
    &&& forall|y: u16| #[trigger] s.contains(y) && y > a ==> x <= y
}

/// The least element of `s` above `a`, if there is one.
pub open spec fn least_above(s: Set<u16>, a: int) -> Option<u16> {
    if exists|x: u16| is_least_above(s, a, x) {
        Some(choose|x: u16| is_least_above(s, a, x))
    } else {
        None
    }
}

/// `x` is the greatest element of `s` below `a`.
pub open spec fn is_greatest_below(s: Set<u16>, a: int, x: u16) -> bool {
    &&& s.contains(x)
    &&& x < a
    &&& forall|y: u16| #[trigger] s.contains(y) && y < a ==> y <= x
}

/// The greatest element of `s` below `a`, if there is one.
pub open spec fn greatest_below(s: Set<u16>, a: int) -> Option<u16> {
    if exists|x: u16| is_greatest_below(s, a, x) {
        Some(choose|x: u16| is_greatest_below(s, a, x))
    } else {
        None
    }
}

/// A set of numbers with an element above `a` has a least one.
pub proof fn lemma_least_above_exists(s: Set<u16>, a: int, y: u16)
    requires
        s.contains(y),
        y > a,
    ensures
        least_above(s, a) is Some,
    decreases y - a,
{
    if exists|z: u16| s.contains(z) && a < z < y {
        let z = choose|z: u16| s.contains(z) && a < z < y;
        lemma_least_above_exists(s, a, z);
    } else {
        assert(is_least_above(s, a, y));
    }
}

/// A set of numbers with an element below `a` has a greatest one.
pub proof fn lemma_greatest_below_exists(s: Set<u16>, a: int, y: u16)
    requires
        s.contains(y),
        y < a,
    ensures
        greatest_below(s, a) is Some,
    decreases a - y,
{
    if exists|z: u16| s.contains(z) && y < z < a {
        let z = choose|z: u16| s.contains(z) && y < z < a;
        lemma_greatest_below_exists(s, a, z);
    } else {
        assert(is_greatest_below(s, a, y));
    }
}

/// The least element above `a` is the one that has that property.
pub proof fn lemma_least_above_is(s: Set<u16>, a: int, x: u16)
    requires
        is_least_above(s, a, x),
    ensures
        least_above(s, a) == Some(x),
{
    let y = choose|y: u16| is_least_above(s, a, y);
    assert(x <= y && y <= x);
}

/// The greatest element below `a` is the one that has that property.
pub proof fn lemma_greatest_below_is(s: Set<u16>, a: int, x: u16)
    requires
        is_greatest_below(s, a, x),
    ensures
        greatest_below(s, a) == Some(x),
{
    let y = choose|y: u16| is_greatest_below(s, a, y);
    assert(x <= y && y <= x);
}

/// Finds the least listed element above `a`.
pub fn least_above_in(ks: &Vec<u16>, a: i32) -> (r: Option<u16>)
    ensures
        r == least_above(ks@.to_set(), a as int),
{
    let n = ks.len();
    let mut best: Option<u16> = None;
    let mut i: usize = 0;
    while i < n
        invariant
            n == ks@.len(),
            i <= n,
            match best {
                Some(x) => {
                    &&& exists|j: int| 0 <= j < i && ks@[j] == x
                    &&& x > a
                    &&& forall|j: int| 0 <= j < i && ks@[j] > a ==> x <= ks@[j]
                },
                None => forall|j: int| 0 <= j < i ==> ks@[j] <= a,
            },
        decreases n - i,
    {
        let k = ks[i];
        if (k as i32) > a {
            match best {
                Some(x) => {
                    if k < x {
                        best = Some(k);
                    }
                },
                None => {
                    best = Some(k);
                },
            }
        }
        i = i + 1;
    }
    let ghost s = ks@.to_set();
    match best {
        Some(x) => {
            assert(is_least_above(s, a as int, x)) by {
                assert forall|y: u16| #[trigger] s.contains(y) && y > a implies x <= y by {
                    let j = choose|j: int| 0 <= j < n && ks@[j] == y;
                }
                let j = choose|j: int| 0 <= j < n && ks@[j] == x;
                assert(s.contains(ks@[j]));
            }
            let ghost c = choose|c: u16| is_least_above(s, a as int, c);
            assert(c <= x && x <= c);
        },
        None => {
            assert forall|x: u16| !is_least_above(s, a as int, x) by {
                if s.contains(x) {
                    let j = choose|j: int| 0 <= j < n && ks@[j] == x;
                }
            }
        },
    }
    best
}

/// Finds the greatest listed element below `a`.
pub fn greatest_below_in(ks: &Vec<u16>, a: i32) -> (r: Option<u16>)
    ensures
        r == greatest_below(ks@.to_set(), a as int),
{
    let n = ks.len();
    let mut best: Option<u16> = None;
    let mut i: usize = 0;
    while i < n
        invariant
            n == ks@.len(),
            i <= n,
            match best {
                Some(x) => {
                    &&& exists|j: int| 0 <= j < i && ks@[j] == x
                    &&& x < a
                    &&& forall|j: int| 0 <= j < i && ks@[j] < a ==> ks@[j] <= x
                },
                None => forall|j: int| 0 <= j < i ==> ks@[j] >= a,
            },
        decreases n - i,
    {
        let k = ks[i];
        if (k as i32) < a {
            match best {
                Some(x) => {
                    if k > x {
                        best = Some(k);
                    }
                },
                None => {
                    best = Some(k);
                },
            }
        }
        i = i + 1;
    }
    let ghost s = ks@.to_set();
    match best {
        Some(x) => {
            assert(is_greatest_below(s, a as int, x)) by {
                assert forall|y: u16| #[trigger] s.contains(y) && y < a implies y <= x by {
                    let j = choose|j: int| 0 <= j < n && ks@[j] == y;
                }
                let j = choose|j: int| 0 <= j < n && ks@[j] == x;
                assert(s.contains(ks@[j]));
            }
            let ghost c = choose|c: u16| is_greatest_below(s, a as int, c);
            assert(c <= x && x <= c);
        },
        None => {
            assert forall|x: u16| !is_greatest_below(s, a as int, x) by {
                if s.contains(x) {
                    let j = choose|j: int| 0 <= j < n && ks@[j] == x;
                }
            }
        },
    }
    best
}

} // verus!
