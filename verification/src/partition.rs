//! Static partitioning of a catalog into packs, one pack per worker.

use vstd::prelude::*;

verus! {

/// The number of workers that a limit of `max_n` allows: a limit of zero is read as one.
pub open spec fn effective_workers(max_n: nat) -> nat {
    if max_n == 0 {
        1
    } else {
        max_n
    }
}

/// `n / d` rounded up, for `d > 0`.
pub open spec fn ceil_div(n: nat, d: nat) -> nat
    recommends
        d > 0,
{
    if (n as int) % (d as int) == 0 {
        ((n as int) / (d as int)) as nat
    } else {
        ((n as int) / (d as int) + 1) as nat
    }
}

/// The most items that a pack holds when `n` items are split among at most `max_n` workers.
pub open spec fn pack_capacity(n: nat, max_n: nat) -> nat {
    ceil_div(n, effective_workers(max_n))
}

/// The number of packs that `n` items are split into.
pub open spec fn pack_count(n: nat, max_n: nat) -> nat {
    if n == 0 {
        0
    } else {
        ceil_div(n, pack_capacity(n, max_n))
    }
}

/// The `i`-th run of `m` consecutive items of `catalog`; the last run ends with the catalog.
pub open spec fn pack_at<T>(catalog: Seq<T>, m: nat, i: int) -> Seq<T> {
    let end = if i * m + m <= catalog.len() {
        i * m + m
    } else {
        catalog.len() as int
    };
    catalog.subrange(i * m, end)
}

/// The packs that `catalog` is split into for at most `max_n` workers, in order.
pub open spec fn packs_of<T>(catalog: Seq<T>, max_n: nat) -> Seq<Seq<T>> {
    Seq::new(
        pack_count(catalog.len(), max_n),
        |i: int| pack_at(catalog, pack_capacity(catalog.len(), max_n), i),
    )
}

/// The contents of a list of packs.
pub open spec fn packs_view<T>(packs: Seq<Vec<T>>) -> Seq<Seq<T>> {
    Seq::new(packs.len(), |i: int| packs[i]@)
}

/// `ceil_div(n, d)` is the least `c` with `c * d >= n`.
pub proof fn lemma_ceil_div_is_least_cover(n: nat, d: nat)
    requires
        d > 0,
    ensures
        ceil_div(n, d) * d >= n,
        n > 0 ==> (ceil_div(n, d) - 1) * d < n,
        n > 0 ==> 1 <= ceil_div(n, d) <= n,
        n == 0 ==> ceil_div(n, d) == 0,
{
    let q = (n as int) / (d as int);
    let r = (n as int) % (d as int);
    vstd::arithmetic::div_mod::lemma_fundamental_div_mod(n as int, d as int);
    vstd::arithmetic::div_mod::lemma_mod_bound(n as int, d as int);
    assert(q >= 0 && d * q + d == (q + 1) * d && d * q == q * d && (q - 1) * d == q * d - d && (d
        >= 1 ==> q * d >= q)) by (nonlinear_arith)
        requires
            n == d * q + r,
            0 <= r < d,
    ;
}

/// With `m = ceil_div(n, w)` items to a pack, `n` items fill at most `w` packs.
pub proof fn lemma_pack_count_within_workers(n: nat, max_n: nat)
    ensures
        pack_count(n, max_n) <= effective_workers(max_n),
        max_n > 0 ==> pack_count(n, max_n) <= max_n,
{
    if n > 0 {
        let w = effective_workers(max_n);
        let m = pack_capacity(n, max_n);
        let c = pack_count(n, max_n);
        lemma_ceil_div_is_least_cover(n, w);
        lemma_ceil_div_is_least_cover(n, m);
        assert(c - 1 < w) by (nonlinear_arith)
            requires
                (c - 1) * m < n,
                n <= m * w,
                m > 0,
        ;
    }
}

/// The first `k` runs of `m` items, joined in order, are the first `k * m` items of the
/// catalog, or all of it where it ends before that.
proof fn lemma_leading_packs<T>(catalog: Seq<T>, m: nat, k: nat)
    requires
        m > 0,
        k <= ceil_div(catalog.len(), m),
    ensures
        Seq::new(k, |i: int| pack_at(catalog, m, i)).flatten() == catalog.take(
            if k * m <= catalog.len() {
                (k * m) as int
            } else {
                catalog.len() as int
            },
        ),
    decreases k,
{
    let packs = Seq::new(k, |i: int| pack_at(catalog, m, i));
    if k == 0 {
        assert(packs.flatten() =~= catalog.take(0));
    } else {
        let j = (k - 1) as nat;
        let before = Seq::new(j, |i: int| pack_at(catalog, m, i));
        lemma_leading_packs(catalog, m, j);
        lemma_ceil_div_is_least_cover(catalog.len(), m);
        assert(j * m < catalog.len() && k * m == j * m + m) by (nonlinear_arith)
            requires
                j == k - 1,
                j <= ceil_div(catalog.len(), m) - 1,
                (ceil_div(catalog.len(), m) - 1) * m < catalog.len(),
                m > 0,
        ;
        assert(packs =~= before.push(pack_at(catalog, m, j as int)));
        before.lemma_flatten_push(pack_at(catalog, m, j as int));
        assert(packs.flatten() =~= catalog.take(
            if k * m <= catalog.len() {
                (k * m) as int
            } else {
                catalog.len() as int
            },
        ));
    }
}

/// Partition completeness: joined in order, the packs are the catalog itself, so every item
/// stands in exactly one pack and none is lost or repeated; no pack is empty, none holds
/// more than `pack_capacity` items, and there are at most as many packs as workers.
pub proof fn lemma_packs_cover_catalog<T>(catalog: Seq<T>, max_n: nat)
    ensures
        packs_of(catalog, max_n).flatten() == catalog,
        packs_of(catalog, max_n).flatten().to_multiset() == catalog.to_multiset(),
        packs_of(catalog, max_n).len() <= effective_workers(max_n),
        max_n > 0 ==> packs_of(catalog, max_n).len() <= max_n,
        forall|i: int|
            0 <= i < packs_of(catalog, max_n).len() ==> 0 < (#[trigger] packs_of(
                catalog,
                max_n,
            )[i]).len() <= pack_capacity(catalog.len(), max_n),
{
    let n = catalog.len();
    let m = pack_capacity(n, max_n);
    let c = pack_count(n, max_n);
    lemma_pack_count_within_workers(n, max_n);
    if n == 0 {
        assert(packs_of(catalog, max_n).flatten() =~= catalog);
    } else {
        lemma_ceil_div_is_least_cover(n, effective_workers(max_n));
        lemma_ceil_div_is_least_cover(n, m);
        lemma_leading_packs(catalog, m, c);
        assert(catalog.take(n as int) =~= catalog);
        assert forall|i: int| 0 <= i < c implies 0 < (#[trigger] packs_of(catalog, max_n)[i]).len()
            <= m by {
            assert(i * m < n) by (nonlinear_arith)
                requires
                    0 <= i <= c - 1,
                    (c - 1) * m < n,
                    m > 0,
            ;
        }
    }
}

/// Determinism: what the partitioner gives depends on the catalog and the worker limit
/// alone, so two partitionings of one catalog under one limit are the same packs.
pub proof fn lemma_partition_is_deterministic<T>(
    first: Seq<Vec<T>>,
    second: Seq<Vec<T>>,
    catalog: Seq<T>,
    max_n: nat,
)
    requires
        packs_view(first) == packs_of(catalog, max_n),
        packs_view(second) == packs_of(catalog, max_n),
    ensures
        packs_view(first) == packs_view(second),
        first.len() == second.len(),
        forall|i: int| 0 <= i < first.len() ==> (#[trigger] first[i])@ == second[i]@,
{
    assert(packs_view(first).len() == first.len());
    assert(packs_view(second).len() == second.len());
    assert forall|i: int| 0 <= i < first.len() implies (#[trigger] first[i])@ == second[i]@ by {
        assert(packs_view(first)[i] == first[i]@);
        assert(packs_view(second)[i] == second[i]@);
    }
}

/// Where the packs are cut depends on the number of items and the worker limit alone:
/// two catalogs of one size are cut at the same places.
pub proof fn lemma_pack_sizes_follow_count<T>(a: Seq<T>, b: Seq<T>, max_n: nat)
    requires
        a.len() == b.len(),
    ensures
        packs_of(a, max_n).len() == packs_of(b, max_n).len(),
        forall|i: int|
            0 <= i < packs_of(a, max_n).len() ==> (#[trigger] packs_of(a, max_n)[i]).len()
                == packs_of(b, max_n)[i].len(),
{
    let n = a.len();
    let m = pack_capacity(n, max_n);
    let c = pack_count(n, max_n);
    if n > 0 {
        lemma_ceil_div_is_least_cover(n, effective_workers(max_n));
        lemma_ceil_div_is_least_cover(n, m);
        assert forall|i: int| 0 <= i < c implies (#[trigger] packs_of(a, max_n)[i]).len()
            == packs_of(b, max_n)[i].len() by {
            assert(i * m < n) by (nonlinear_arith)
                requires
                    0 <= i <= c - 1,
                    (c - 1) * m < n,
                    m > 0,
            ;
        }
    }
}

/// Splits `items` into consecutive packs of `pack_capacity` items each, the last one
/// possibly shorter, for at most `max_n` workers (a limit of zero is read as one).
/// An empty catalog gives no pack. Joined in order, the packs are the catalog again: every
/// item stands in exactly one pack. No pack is empty, and there are no more packs than
/// workers.
pub fn split_in_packs<T>(items: Vec<T>, max_n: usize) -> (packs: Vec<Vec<T>>) where T: Clone
    ensures
        packs_view(packs@) == packs_of(items@, max_n as nat),
        packs_view(packs@).flatten() == items@,
        packs@.len() <= effective_workers(max_n as nat),
        max_n > 0 ==> packs@.len() <= max_n,
        forall|i: int|
            0 <= i < packs@.len() ==> 0 < (#[trigger] packs@[i])@.len() <= pack_capacity(
                items@.len(),
                max_n as nat,
            ),
{
    let ghost catalog = items@;
    let n: usize = items.len();
    let mut packs: Vec<Vec<T>> = Vec::new();
    if n == 0 {
        proof {
            assert(packs_view(packs@) =~= packs_of(catalog, max_n as nat));
            lemma_packs_cover_catalog(catalog, max_n as nat);
        }
        return packs;
    }
    let workers: usize = if max_n == 0 {
        1
    } else {
        max_n
    };
    proof {
        lemma_ceil_div_is_least_cover(n as nat, workers as nat);
    }
    let m: usize = if n % workers == 0 {
        n / workers
    } else {
        n / workers + 1
    };
    let mut current: Vec<T> = Vec::new();
    for item in it: items
        invariant
            it.seq() == catalog,
            n == catalog.len(),
            1 <= m <= n,
            m == pack_capacity(n as nat, max_n as nat),
            packs@.len() * m + current@.len() == it.index(),
            current@.len() < m,
            forall|j: int|
                0 <= j < packs@.len() ==> (#[trigger] packs@[j])@ == catalog.subrange(
                    j * m,
                    j * m + m,
                ),
            forall|j: int| 0 <= j < packs@.len() ==> (#[trigger] packs@[j])@.len() == m,
            current@ == catalog.subrange(packs@.len() * m, it.index()),
    {
        let ghost k = it.index();
        let ghost p = packs@.len() as int;
        assert(item == catalog[k]);
        current.push(item);
        assert(current@ =~= catalog.subrange(p * m, k + 1));
        if current.len() == m {
            assert((p + 1) * m == p * m + m) by (nonlinear_arith);
            packs.push(current);
            current = Vec::new();
            assert(current@ =~= catalog.subrange((p + 1) * m, k + 1));
        }
    }
    proof {
        let p = packs@.len() as int;
        let c = current@.len() as int;
        assert((p + 1) * m == p * m + m) by (nonlinear_arith);
        vstd::arithmetic::div_mod::lemma_fundamental_div_mod_converse(n as int, m as int, p, c);
    }
    let ghost full = packs@.len() as int;
    if current.len() > 0 {
        packs.push(current);
    }
    proof {
        assert forall|j: int| 0 <= j < packs@.len() implies packs_view(packs@)[j] == pack_at(
            catalog,
            m as nat,
            j,
        ) by {
            if j < full {
                assert(j * m + m <= full * m) by (nonlinear_arith)
                    requires
                        0 <= j < full,
                        m > 0,
                ;
            }
        }
        assert(packs_view(packs@) =~= packs_of(catalog, max_n as nat));
        lemma_packs_cover_catalog(catalog, max_n as nat);
    }
    packs
}

} // verus!
