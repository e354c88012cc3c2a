//! One-to-one pairings between the positions of two collections of equal size.
//!
//! A relation between positions is given as `rel(i, j)`: item `i` of the first
//! collection may be paired with item `j` of the second.

use vstd::prelude::*;
use vstd::set_lib::*;

verus! {

/// `p` sends distinct positions to distinct positions below `n`.
pub open spec fn is_injection(p: Seq<int>, n: int) -> bool {
    &&& forall|i: int| 0 <= i < p.len() ==> 0 <= #[trigger] p[i] < n
    &&& forall|i: int, j: int| 0 <= i < j < p.len() ==> #[trigger] p[i] != #[trigger] p[j]
}

/// `p` pairs every position below `n` with one of its own, no two with the same,
/// and each pair is in `rel`.
pub open spec fn is_pairing(n: int, rel: spec_fn(int, int) -> bool, p: Seq<int>) -> bool {
    &&& p.len() == n
    &&& is_injection(p, n)
    &&& forall|i: int| 0 <= i < n ==> rel(i, #[trigger] p[i])
}

/// Some one-to-one pairing of the positions below `n` lies within `rel`.
pub open spec fn pairs_up(n: int, rel: spec_fn(int, int) -> bool) -> bool {
    exists|p: Seq<int>| is_pairing(n, rel, p)
}

/// Items related to a common item are related to the same items.
pub open spec fn difunctional(n: int, rel: spec_fn(int, int) -> bool) -> bool {
    forall|i: int, k: int, j: int, l: int|
        0 <= i < n && 0 <= k < n && 0 <= j < n && 0 <= l < n && #[trigger] rel(i, j) && #[trigger] rel(
            k,
            l,
        ) && rel(i, l) ==> rel(k, j)
}

/// The identity pairs up a relation that holds on the diagonal.
pub proof fn lemma_identity_pairs_up(n: int, rel: spec_fn(int, int) -> bool)
    requires
        0 <= n,
        forall|i: int| 0 <= i < n ==> #[trigger] rel(i, i),
    ensures
        pairs_up(n, rel),
{
    let p = Seq::new(n as nat, |i: int| i);
    assert(is_pairing(n, rel, p));
}

/// An injection of the positions below its length into themselves reaches each of them.
pub proof fn lemma_preimage(p: Seq<int>, j: int) -> (i: int)
    requires
        is_injection(p, p.len() as int),
        0 <= j < p.len(),
    ensures
        0 <= i < p.len(),
        p[i] == j,
{
    let n = p.len() as int;
    assert(p.no_duplicates());
    p.unique_seq_to_set();
    let image = p.to_set();
    let all = set_int_range(0, n);
    lemma_int_range(0, n);
    assert(image.subset_of(all)) by {
        assert forall|x: int| image.contains(x) implies all.contains(x) by {
            assert(p.contains(x));
            let k = choose|k: int| 0 <= k < p.len() && p[k] == x;
            assert(0 <= p[k] < n);
        }
    }
    lemma_len_subset(image, all);
    lemma_subset_equality(image, all);
    assert(all.contains(j));
    assert(image.contains(j));
    assert(p.contains(j));
    choose|i: int| 0 <= i < p.len() && p[i] == j
}

/// A pairing can be rearranged to agree with any partial pairing `g` of the
/// first positions, where the relation is difunctional.
pub proof fn lemma_extend(n: int, rel: spec_fn(int, int) -> bool, m: Seq<int>, g: Seq<int>) -> (r: Seq<int>)
    requires
        is_pairing(n, rel, m),
        difunctional(n, rel),
        g.len() <= n,
        is_injection(g, n),
        forall|i: int| 0 <= i < g.len() ==> rel(i, #[trigger] g[i]),
    ensures
        is_pairing(n, rel, r),
        forall|i: int| 0 <= i < g.len() ==> r[i] == g[i],
    decreases g.len(),
{
    if g.len() == 0 {
        m
    } else {
        let k = g.len() - 1;
        let m1 = lemma_extend(n, rel, m, g.drop_last());
        assert(forall|i: int| 0 <= i < k ==> m1[i] == g.drop_last()[i]);
        assert(forall|i: int| 0 <= i < k ==> m1[i] == g[i]);
        if m1[k] == g[k] {
            m1
        } else {
            let j = g[k];
            let j0 = m1[k];
            let t = lemma_preimage(m1, j);
            assert(t != k);
            if t < k {
                assert(m1[t] == g[t]);
                assert(g[t] != g[k]);
            }
            assert(t > k);
            assert(rel(k, j));
            assert(rel(k, j0));
            assert(rel(t, j));
            assert(rel(t, j0));
            let m2 = m1.update(k, j).update(t, j0);
            assert forall|a: int, b: int| 0 <= a < b < m2.len() implies m2[a] != m2[b] by {
                assert(m1[a] != m1[b]);
                assert(m1[a] != m1[k] || a == k);
                assert(m1[a] != m1[t] || a == t);
                assert(m1[b] != m1[k] || b == k);
                assert(m1[b] != m1[t] || b == t);
            }
            assert forall|i: int| 0 <= i < n implies rel(i, #[trigger] m2[i]) by {
                if i != k && i != t {
                    assert(m2[i] == m1[i]);
                }
            }
            assert(is_pairing(n, rel, m2));
            m2
        }
    }
}

/// No pairing exists where a partial pairing `g` cannot go on: every position
/// that position `g.len()` is related to is already taken by `g`.
pub proof fn lemma_stuck(n: int, rel: spec_fn(int, int) -> bool, g: Seq<int>, owner: Seq<int>)
    requires
        difunctional(n, rel),
        g.len() < n,
        owner.len() == n,
        is_injection(g, n),
        forall|i: int| 0 <= i < g.len() ==> rel(i, #[trigger] g[i]),
        forall|j: int|
            0 <= j < n ==> (0 <= #[trigger] owner[j] < g.len() && g[owner[j]] == j) || !rel(
                g.len() as int,
                j,
            ),
    ensures
        !pairs_up(n, rel),
{
    if pairs_up(n, rel) {
        let m = choose|m: Seq<int>| is_pairing(n, rel, m);
        let r = lemma_extend(n, rel, m, g);
        let k = g.len() as int;
        let j = r[k];
        assert(rel(k, j));
        let o = owner[j];
        assert(0 <= o < k && g[o] == j);
        assert(r[o] == g[o]);
        assert(r[o] != r[k]);
    }
}

/// Composes three pairings: from the second collection back to the first along
/// `p`, on along `q`, after `r`. The result is `s`, and `w` names for each
/// position the position of the first collection that it went through.
pub proof fn lemma_compose(n: int, p: Seq<int>, q: Seq<int>, r: Seq<int>) -> (sw: (Seq<int>, Seq<int>))
    requires
        p.len() == n,
        q.len() == n,
        r.len() == n,
        is_injection(p, n),
        is_injection(q, n),
        is_injection(r, n),
    ensures
        sw.0.len() == n,
        sw.1.len() == n,
        is_injection(sw.0, n),
        forall|k: int|
            0 <= k < n ==> 0 <= #[trigger] sw.1[k] < n && p[sw.1[k]] == r[k] && sw.0[k] == q[sw.1[k]],
{
    let back = Seq::new(n as nat, |j: int| choose|i: int| 0 <= i < n && p[i] == j);
    assert forall|j: int| 0 <= j < n implies 0 <= #[trigger] back[j] < n && p[back[j]] == j by {
        let i = lemma_preimage(p, j);
    }
    let w = Seq::new(n as nat, |k: int| back[r[k]]);
    let s = Seq::new(n as nat, |k: int| q[back[r[k]]]);
    assert forall|k: int| 0 <= k < n implies 0 <= #[trigger] w[k] < n && p[w[k]] == r[k] && s[k]
        == q[w[k]] by {
        assert(0 <= r[k] < n);
        assert(0 <= back[r[k]] < n);
    }
    assert forall|k: int| 0 <= k < n implies 0 <= #[trigger] s[k] < n by {
        assert(0 <= w[k] < n);
    }
    assert forall|a: int, b: int| 0 <= a < b < n implies #[trigger] s[a] != #[trigger] s[b] by {
        assert(r[a] != r[b]);
        assert(p[w[a]] == r[a] && p[w[b]] == r[b]);
        assert(w[a] != w[b]);
        assert(q[w[a]] != q[w[b]]);
    }
    (s, w)
}

/// Carries pairings over: where `ab`, `cd` and `ad` pair up, and a pair of `ab`
/// and a pair of `cd` that a pair of `ad` links give a pair of `cb`, `cb` pairs up.
pub proof fn lemma_pairs_up_transfer(
    n: int,
    ab: spec_fn(int, int) -> bool,
    cd: spec_fn(int, int) -> bool,
    ad: spec_fn(int, int) -> bool,
    cb: spec_fn(int, int) -> bool,
)
    requires
        pairs_up(n, ab),
        pairs_up(n, cd),
        pairs_up(n, ad),
        forall|i: int, j: int, k: int, l: int|
            0 <= i < n && 0 <= j < n && 0 <= k < n && 0 <= l < n && #[trigger] ab(i, j) && #[trigger] cd(
                k,
                l,
            ) && ad(i, l) ==> cb(k, j),
    ensures
        pairs_up(n, cb),
{
    let q = choose|q: Seq<int>| is_pairing(n, ab, q);
    let r = choose|r: Seq<int>| is_pairing(n, cd, r);
    let p = choose|p: Seq<int>| is_pairing(n, ad, p);
    let (s, w) = lemma_compose(n, p, q, r);
    assert forall|k: int| 0 <= k < n implies cb(k, #[trigger] s[k]) by {
        let i = w[k];
        assert(ab(i, q[i]));
        assert(cd(k, r[k]));
        assert(ad(i, p[i]));
    }
    assert(is_pairing(n, cb, s));
}

} // verus!

verus! {

/// Looks for a one-to-one pairing of the positions below `n` within the
/// relation that `related` decides, taking for each position in turn the first
/// free position related to it.
///
/// `sound` says whether `related` decides `rel` and `rel` is difunctional; the
/// search is then exact.
pub fn find_pairing<C: Fn(usize, usize) -> bool>(
    n: usize,
    related: &C,
    Ghost(rel): Ghost<spec_fn(int, int) -> bool>,
    Ghost(sound): Ghost<bool>,
) -> (r: bool)
    requires
        forall|i: usize, j: usize| i < n && j < n ==> #[trigger] call_requires(*related, (i, j)),
        sound ==> forall|i: usize, j: usize, b: bool|
            i < n && j < n && #[trigger] call_ensures(*related, (i, j), b) ==> b == rel(i as int, j as int),
        sound ==> difunctional(n as int, rel),
    ensures
        sound ==> r == pairs_up(n as int, rel),
{
    let mut taken: Vec<bool> = Vec::new();
    let mut t: usize = 0;
    while t < n
        invariant
            t <= n,
            taken.len() == t,
            forall|j: int| 0 <= j < t ==> !#[trigger] taken[j],
        decreases n - t,
    {
        taken.push(false);
        t = t + 1;
    }
    let ghost mut g: Seq<int> = Seq::empty();
    let ghost mut owner: Seq<int> = Seq::new(n as nat, |j: int| 0);
    let mut i: usize = 0;
    while i < n
        invariant
            i <= n,
            taken.len() == n,
            g.len() == i,
            owner.len() == n,
            is_injection(g, n as int),
            sound ==> forall|k: int| 0 <= k < i ==> rel(k, #[trigger] g[k]),
            forall|j: int| 0 <= j < n && #[trigger] taken[j] ==> 0 <= owner[j] < i && g[owner[j]] == j,
            forall|k: int| 0 <= k < i ==> taken[#[trigger] g[k]],
            forall|i: usize, j: usize| i < n && j < n ==> #[trigger] call_requires(*related, (i, j)),
            sound ==> forall|i: usize, j: usize, b: bool|
                i < n && j < n && #[trigger] call_ensures(*related, (i, j), b) ==> b == rel(
                    i as int,
                    j as int,
                ),
            sound ==> difunctional(n as int, rel),
        decreases n - i,
    {
        let mut j: usize = 0;
        let mut found = false;
        while j < n && !found
            invariant
                i < n,
                j <= n,
                taken.len() == n,
                sound && !found ==> forall|l: int| 0 <= l < j ==> #[trigger] taken[l] || !rel(i as int, l),
                found ==> 0 < j && !taken[j - 1],
                sound && found ==> rel(i as int, j - 1),
                forall|i: usize, j: usize| i < n && j < n ==> #[trigger] call_requires(*related, (i, j)),
                sound ==> forall|i: usize, j: usize, b: bool|
                    i < n && j < n && #[trigger] call_ensures(*related, (i, j), b) ==> b == rel(
                        i as int,
                        j as int,
                    ),
            decreases n - j,
        {
            if !taken[j] && related(i, j) {
                found = true;
            }
            j = j + 1;
        }
        if !found {
            proof {
                if sound {
                    assert forall|l: int| 0 <= l < n implies (0 <= #[trigger] owner[l] < g.len()
                        && g[owner[l]] == l) || !rel(i as int, l) by {
                        if taken[l] {
                        }
                    }
                    lemma_stuck(n as int, rel, g, owner);
                }
            }
            return false;
        }
        let ghost old_g = g;
        taken.set(j - 1, true);
        proof {
            g = g.push((j - 1) as int);
            owner = owner.update((j - 1) as int, i as int);
            assert forall|a: int, b: int| 0 <= a < b < g.len() implies #[trigger] g[a] != #[trigger] g[b] by {
                if b == i {
                    assert(taken[old_g[a]]);
                }
            }
        }
        i = i + 1;
    }
    proof {
        if sound {
            assert(is_pairing(n as int, rel, g));
        }
    }
    true
}

} // verus!
