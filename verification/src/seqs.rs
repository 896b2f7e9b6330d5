//! Facts about sequences that the index operations rest on: the first
//! element with a property, the largest id, and filtering.
use vstd::prelude::*;

verus! {

/// The position of the first element of `s` with property `p`.
pub open spec fn find_first<A>(s: Seq<A>, p: spec_fn(A) -> bool) -> Option<int>
    decreases s.len(),
{
    if s.len() == 0 {
        None
    } else if p(s[0]) {
        Some(0)
    } else {
        match find_first(s.drop_first(), p) {
            Some(i) => Some(i + 1),
            None => None,
        }
    }
}

/// Whether some element of `s` has property `p`.
pub open spec fn any<A>(s: Seq<A>, p: spec_fn(A) -> bool) -> bool {
    exists|i: int| 0 <= i < s.len() && p(#[trigger] s[i])
}

pub proof fn lemma_find_first<A>(s: Seq<A>, p: spec_fn(A) -> bool)
    ensures
        find_first(s, p) matches Some(i) ==> 0 <= i < s.len() && p(s[i]) && forall|j: int|
            0 <= j < i ==> !p(#[trigger] s[j]),
        find_first(s, p) is None ==> forall|j: int| 0 <= j < s.len() ==> !p(#[trigger] s[j]),
        find_first(s, p) is Some <==> any(s, p),
    decreases s.len(),
{
    if s.len() > 0 && !p(s[0]) {
        lemma_find_first(s.drop_first(), p);
        assert forall|j: int| 0 < j < s.len() implies s[j] == s.drop_first()[j - 1] by {}
        if let Some(i) = find_first(s, p) {
            assert forall|j: int| 0 <= j < i implies !p(#[trigger] s[j]) by {
                if j > 0 {
                    assert(s[j] == s.drop_first()[j - 1]);
                }
            }
        } else {
            assert forall|j: int| 0 <= j < s.len() implies !p(#[trigger] s[j]) by {
                if j > 0 {
                    assert(s[j] == s.drop_first()[j - 1]);
                }
            }
        }
        if any(s, p) {
            let j = choose|j: int| 0 <= j < s.len() && p(#[trigger] s[j]);
            if j > 0 {
                assert(p(s.drop_first()[j - 1]));
            }
        }
    }
}

/// A position with the property and none before it is the first one.
pub proof fn lemma_find_first_at<A>(s: Seq<A>, p: spec_fn(A) -> bool, i: int)
    requires
        0 <= i < s.len(),
        p(s[i]),
        forall|j: int| 0 <= j < i ==> !p(#[trigger] s[j]),
    ensures
        find_first(s, p) == Some(i),
    decreases i,
{
    if i > 0 {
        assert forall|j: int| 0 <= j < i - 1 implies !p(#[trigger] s.drop_first()[j]) by {
            assert(s.drop_first()[j] == s[j + 1]);
        }
        lemma_find_first_at(s.drop_first(), p, i - 1);
    }
}

/// With no element with the property there is no first one.
pub proof fn lemma_find_first_none<A>(s: Seq<A>, p: spec_fn(A) -> bool)
    requires
        forall|j: int| 0 <= j < s.len() ==> !p(#[trigger] s[j]),
    ensures
        find_first(s, p) is None,
{
    lemma_find_first(s, p);
}

/// The largest of some numbers, 0 for none.
pub open spec fn max_of(s: Seq<u32>) -> nat
    decreases s.len(),
{
    if s.len() == 0 {
        0
    } else {
        let m = max_of(s.drop_last());
        if s.last() > m {
            s.last() as nat
        } else {
            m
        }
    }
}

pub proof fn lemma_max_of(s: Seq<u32>)
    ensures
        forall|i: int| 0 <= i < s.len() ==> #[trigger] s[i] <= max_of(s),
        s.len() > 0 ==> s.contains(max_of(s) as u32) && max_of(s) <= u32::MAX,
        s.len() == 0 ==> max_of(s) == 0,
    decreases s.len(),
{
    if s.len() > 0 {
        lemma_max_of(s.drop_last());
        assert forall|i: int| 0 <= i < s.len() implies #[trigger] s[i] <= max_of(s) by {
            if i < s.len() - 1 {
                assert(s[i] == s.drop_last()[i]);
            }
        }
        if s.last() <= max_of(s.drop_last()) && s.len() == 1 {
            assert(s[0] == s.last());
        } else if s.last() <= max_of(s.drop_last()) {
            let j = choose|j: int| 0 <= j < s.drop_last().len() && s.drop_last()[j] == max_of(s.drop_last()) as u32;
            assert(s[j] == s.drop_last()[j]);
        } else {
            assert(s[s.len() - 1] == s.last());
        }
    }
}

/// The largest number of a list, 0 for none.
pub fn max_u32(v: &Vec<u32>) -> (m: u32)
    ensures
        m == max_of(v@),
{
    let mut m: u32 = 0;
    let mut i: usize = 0;
    while i < v.len()
        invariant
            i <= v.len(),
            m == max_of(v@.take(i as int)),
        decreases v.len() - i,
    {
        assert(v@.take(i + 1).drop_last() =~= v@.take(i as int));
        if v[i] > m {
            m = v[i];
        }
        i += 1;
    }
    assert(v@.take(v@.len() as int) =~= v@);
    m
}

/// `s` with `x` added at the end unless it is already there.
pub open spec fn with_id(s: Seq<u32>, x: u32) -> Seq<u32> {
    if s.contains(x) {
        s
    } else {
        s.push(x)
    }
}

/// The elements of `s` other than `x`.
pub open spec fn without(s: Seq<u32>, x: u32) -> Seq<u32> {
    s.filter(other_than(x))
}

/// The property of being other than `x`.
pub open spec fn other_than(x: u32) -> spec_fn(u32) -> bool {
    |y: u32| y != x
}

/// The elements of `v` other than `x`.
pub fn remove_all(v: &Vec<u32>, x: u32) -> (r: Vec<u32>)
    ensures
        r@ == without(v@, x),
{
    let mut r: Vec<u32> = Vec::new();
    let mut i: usize = 0;
    while i < v.len()
        invariant
            i <= v.len(),
            r@ == without(v@.take(i as int), x),
        decreases v.len() - i,
    {
        assert(v@.take(i + 1).drop_last() =~= v@.take(i as int));
        reveal_with_fuel(Seq::<_>::filter, 1);
        if v[i] != x {
            r.push(v[i]);
        }
        i += 1;
    }
    assert(v@.take(v@.len() as int) =~= v@);
    r
}

/// Whether `x` is in `v`.
pub fn contains_u32(v: &Vec<u32>, x: u32) -> (r: bool)
    ensures
        r == v@.contains(x),
{
    let mut i: usize = 0;
    while i < v.len()
        invariant
            i <= v.len(),
            forall|j: int| 0 <= j < i ==> v@[j] != x,
        decreases v.len() - i,
    {
        if v[i] == x {
            return true;
        }
        i += 1;
    }
    false
}

/// `x` no longer occurs once it is filtered out, and the rest keep their order.
pub proof fn lemma_without(s: Seq<u32>, x: u32)
    ensures
        !without(s, x).contains(x),
        forall|y: u32| y != x ==> (s.contains(y) <==> #[trigger] without(s, x).contains(y)),
{
    let p = other_than(x);
    assert forall|y: u32| y != x implies (s.contains(y) <==> #[trigger] without(s, x).contains(y)) by {
        if s.contains(y) {
            let i = choose|i: int| 0 <= i < s.len() && s[i] == y;
            s.lemma_filter_contains(p, i);
        }
        if without(s, x).contains(y) {
            s.lemma_filter_contains_rev(p, y);
        }
    }
    if without(s, x).contains(x) {
        let i = choose|i: int| 0 <= i < without(s, x).len() && without(s, x)[i] == x;
        s.lemma_filter_pred(p, i);
    }
}

/// `p` is the first position of its key in `keys`.
pub open spec fn first_of_key(keys: Seq<u32>, p: int) -> bool {
    0 <= p < keys.len() && forall|q: int| 0 <= q < p ==> keys[q] != keys[p]
}

/// `ps` lists, ordered by key, the first position of each key of `keys`.
pub open spec fn first_positions(keys: Seq<u32>, ps: Seq<usize>) -> bool {
    &&& forall|j: int| 0 <= j < ps.len() ==> first_of_key(keys, #[trigger] ps[j] as int)
    &&& forall|i: int, j: int| 0 <= i < j < ps.len() ==> keys[#[trigger] ps[i] as int] < keys[#[trigger] ps[j] as int]
    &&& covers(keys, ps, keys.len() as int)
}

/// Every key among the first `n` is the key of some listed position.
pub open spec fn covers(keys: Seq<u32>, ps: Seq<usize>, n: int) -> bool {
    forall|k: int| 0 <= k < n ==> exists|j: int| 0 <= j < ps.len() && keys[#[trigger] ps[j] as int] == #[trigger] keys[k]
}

/// `res` holds, ordered by key, the first element of `src` with each key.
pub open spec fn keyed_table<A>(res: Seq<A>, src: Seq<A>, key: spec_fn(A) -> u32) -> bool {
    exists|ps: Seq<usize>| first_positions(src.map_values(key), ps) && #[trigger] ps.len() == res.len()
        && forall|j: int| 0 <= j < ps.len() ==> res[j] == src[#[trigger] ps[j] as int]
}

/// The first position of each key, ordered by key.
pub fn first_positions_by_key(keys: &Vec<u32>) -> (ps: Vec<usize>)
    ensures
        first_positions(keys@, ps@),
{
    let mut ps: Vec<usize> = Vec::new();
    let mut k: usize = 0;
    while k < keys.len()
        invariant
            k <= keys.len(),
            forall|j: int| 0 <= j < ps@.len() ==> first_of_key(keys@, #[trigger] ps@[j] as int) && ps@[j] < k,
            forall|i: int, j: int| 0 <= i < j < ps@.len() ==> keys@[#[trigger] ps@[i] as int] < keys@[#[trigger] ps@[j] as int],
            covers(keys@, ps@, k as int),
        decreases keys.len() - k,
    {
        let x = keys[k];
        let mut j: usize = 0;
        while j < ps.len() && keys[ps[j]] < x
            invariant
                j <= ps@.len(),
                forall|jj: int| 0 <= jj < ps@.len() ==> #[trigger] ps@[jj] < k,
                k < keys@.len(),
                x == keys@[k as int],
                forall|i: int| 0 <= i < j ==> keys@[#[trigger] ps@[i] as int] < x,
            decreases ps.len() - j,
        {
            j += 1;
        }
        if j < ps.len() && keys[ps[j]] == x {
            proof {
                assert forall|m: int| 0 <= m < k + 1 implies exists|jj: int| 0 <= jj < ps@.len() && keys@[#[trigger] ps@[jj] as int] == #[trigger] keys@[m] by {
                    if m == k {
                        assert(keys@[ps@[j as int] as int] == keys@[m]);
                    }
                }
                assert(covers(keys@, ps@, k + 1));
            }
        } else {
            proof {
                assert forall|q: int| 0 <= q < k implies keys@[q] != x by {
                    if keys@[q] == x {
                        let jj = choose|jj: int| 0 <= jj < ps@.len() && keys@[#[trigger] ps@[jj] as int] == #[trigger] keys@[q];
                        if jj < j {
                            assert(keys@[ps@[jj] as int] < x);
                        } else if jj > j {
                            assert(keys@[ps@[j as int] as int] < keys@[ps@[jj] as int]);
                            assert(keys@[ps@[j as int] as int] >= x);
                        }
                    }
                }
            }
            let ghost old_ps = ps@;
            ps.insert(j, k);
            proof {
                old_ps.insert_ensures(j as int, k);
                assert forall|jj: int| 0 <= jj < ps@.len() implies first_of_key(keys@, #[trigger] ps@[jj] as int) && ps@[jj] < k + 1 by {
                    if jj < j {
                        assert(ps@[jj] == old_ps[jj]);
                    } else if jj > j {
                        assert(ps@[jj] == old_ps[jj - 1]);
                    }
                }
                assert forall|a: int, b: int| 0 <= a < b < ps@.len() implies keys@[#[trigger] ps@[a] as int] < keys@[#[trigger] ps@[b] as int] by {
                    if b < j {
                        assert(ps@[a] == old_ps[a] && ps@[b] == old_ps[b]);
                    } else if b == j {
                        assert(ps@[a] == old_ps[a]);
                    } else if a < j {
                        assert(ps@[a] == old_ps[a] && ps@[b] == old_ps[b - 1]);
                        if (j as int) < old_ps.len() {
                            assert(keys@[old_ps[j as int] as int] >= x);
                            if b - 1 > j {
                                assert(keys@[old_ps[j as int] as int] < keys@[old_ps[b - 1] as int]);
                            }
                        }
                    } else if a == j {
                        assert(ps@[b] == old_ps[b - 1]);
                        assert(keys@[old_ps[j as int] as int] >= x);
                        assert(keys@[old_ps[j as int] as int] != x);
                        if b - 1 > j {
                            assert(keys@[old_ps[j as int] as int] < keys@[old_ps[b - 1] as int]);
                        }
                    } else {
                        assert(ps@[a] == old_ps[a - 1] && ps@[b] == old_ps[b - 1]);
                    }
                }
                assert forall|m: int| 0 <= m < k + 1 implies exists|jj: int| 0 <= jj < ps@.len() && keys@[#[trigger] ps@[jj] as int] == #[trigger] keys@[m] by {
                    if m == k {
                        assert(keys@[ps@[j as int] as int] == keys@[m]);
                    } else {
                        assert(covers(keys@, old_ps, k as int));
                        let jj = choose|jj: int| 0 <= jj < old_ps.len() && keys@[#[trigger] old_ps[jj] as int] == #[trigger] keys@[m];
                        if jj < j {
                            assert(ps@[jj] == old_ps[jj]);
                        } else {
                            assert(ps@[jj + 1] == old_ps[jj]);
                        }
                    }
                }
            }
        }
        k += 1;
    }
    ps
}

} // verus!
