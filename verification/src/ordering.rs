//! The order in which source files are packed: lexicographic by path, files with
//! equal paths in the order given.
use vstd::prelude::*;
use crate::text::lex_lt;

verus! {

/// Tests whether `a` comes strictly before `b` in lexicographic order.
pub fn lex_less(a: &Vec<char>, b: &Vec<char>) -> (r: bool)
    ensures
        r == lex_lt(a@, b@),
{
    let mut i: usize = 0;
    assert(a@.skip(0) == a@ && b@.skip(0) == b@);
    loop
        invariant
            i <= a@.len(),
            i <= b@.len(),
            lex_lt(a@, b@) == lex_lt(a@.skip(i as int), b@.skip(i as int)),
        decreases a@.len() - i,
    {
        if i >= b.len() {
            return false;
        }
        if i >= a.len() {
            return true;
        }
        proof {
            assert(a@.skip(i as int)[0] == a@[i as int]);
            assert(b@.skip(i as int)[0] == b@[i as int]);
            assert(a@.skip(i as int).drop_first() == a@.skip(i + 1));
            assert(b@.skip(i as int).drop_first() == b@.skip(i + 1));
        }
        if a[i] != b[i] {
            return (a[i] as u32) < (b[i] as u32);
        }
        i = i + 1;
    }
}

/// `sorted` with the index `x` put in front of the last run of indices whose paths
/// come strictly after the path of `x`.
pub open spec fn insert_index(paths: Seq<Seq<char>>, sorted: Seq<int>, x: int) -> Seq<int>
    decreases sorted.len(),
{
    if sorted.len() == 0 {
        seq![x]
    } else if !lex_lt(paths[x], paths[sorted.last()]) {
        sorted.push(x)
    } else {
        insert_index(paths, sorted.drop_last(), x).push(sorted.last())
    }
}

/// The first `n` indices in the order of their paths; indices with equal paths keep
/// their order.
pub open spec fn sorted_indices(paths: Seq<Seq<char>>, n: nat) -> Seq<int>
    decreases n,
{
    if n == 0 {
        Seq::empty()
    } else {
        insert_index(paths, sorted_indices(paths, (n - 1) as nat), n - 1)
    }
}

/// Inserting `x` puts it at the position `p` behind which every path comes strictly
/// after the path of `x`, and before which the nearest does not.
proof fn lemma_insert_at(paths: Seq<Seq<char>>, sorted: Seq<int>, x: int, p: int)
    requires
        0 <= p <= sorted.len(),
        forall|j: int| p <= j < sorted.len() ==> lex_lt(paths[x], paths[#[trigger] sorted[j]]),
        p > 0 ==> !lex_lt(paths[x], paths[sorted[p - 1]]),
    ensures
        insert_index(paths, sorted, x) == sorted.insert(p, x),
    decreases sorted.len(),
{
    if sorted.len() == 0 {
        assert(sorted.insert(0, x) =~= seq![x]);
    } else if p == sorted.len() {
        assert(sorted.insert(p, x) =~= sorted.push(x));
    } else {
        let rest = sorted.drop_last();
        assert(lex_lt(paths[x], paths[sorted[sorted.len() - 1]]));
        assert forall|j: int| p <= j < rest.len() implies lex_lt(
            paths[x],
            paths[#[trigger] rest[j]],
        ) by {
            assert(rest[j] == sorted[j]);
        }
        lemma_insert_at(paths, rest, x, p);
        assert(rest.insert(p, x).push(sorted.last()) =~= sorted.insert(p, x));
    }
}

/// Lexicographic order is irreflexive.
pub proof fn lemma_lex_irreflexive(a: Seq<char>)
    ensures
        !lex_lt(a, a),
    decreases a.len(),
{
    if a.len() > 0 {
        lemma_lex_irreflexive(a.drop_first());
    }
}

/// Lexicographic order is transitive.
pub proof fn lemma_lex_transitive(a: Seq<char>, b: Seq<char>, c: Seq<char>)
    requires
        lex_lt(a, b),
        lex_lt(b, c),
    ensures
        lex_lt(a, c),
    decreases a.len(),
{
    if a.len() > 0 && a[0] == b[0] && b[0] == c[0] {
        lemma_lex_transitive(a.drop_first(), b.drop_first(), c.drop_first());
    }
}

/// Of two different sequences one comes before the other.
pub proof fn lemma_lex_total(a: Seq<char>, b: Seq<char>)
    ensures
        lex_lt(a, b) || lex_lt(b, a) || a == b,
    decreases a.len(),
{
    if a.len() > 0 && b.len() > 0 && a[0] == b[0] {
        lemma_lex_total(a.drop_first(), b.drop_first());
        if a.drop_first() == b.drop_first() {
            assert(a =~= seq![a[0]] + a.drop_first());
            assert(b =~= seq![b[0]] + b.drop_first());
        }
    } else if a.len() == 0 && b.len() == 0 {
        assert(a =~= b);
    } else if a.len() > 0 && b.len() > 0 {
        vstd::utf8::char_u32_cast(a[0], a[0] as u32);
        vstd::utf8::char_u32_cast(b[0], b[0] as u32);
    }
}

/// What an order of the first `n` indices must be: every index once, paths never
/// decreasing, equal paths in the order of their indices.
pub open spec fn is_path_order(paths: Seq<Seq<char>>, order: Seq<int>, n: nat) -> bool {
    &&& order.len() == n
    &&& forall|i: int| 0 <= i < order.len() ==> 0 <= #[trigger] order[i] < n
    &&& forall|i: int, j: int|
        0 <= i < j < order.len() ==> #[trigger] order[i] != #[trigger] order[j]
    &&& forall|i: int, j: int|
        0 <= i < j < order.len() ==> !lex_lt(paths[#[trigger] order[j]], paths[#[trigger] order[i]])
    &&& forall|i: int, j: int|
        0 <= i < j < order.len() && paths[#[trigger] order[i]] == paths[#[trigger] order[j]]
            ==> order[i] < order[j]
    &&& forall|k: int| 0 <= k < n ==> #[trigger] order.contains(k)
}

/// The order that `sorted_indices` gives is a path order.
pub proof fn lemma_sorted_indices_order(paths: Seq<Seq<char>>, n: nat)
    requires
        n <= paths.len(),
    ensures
        is_path_order(paths, sorted_indices(paths, n), n),
    decreases n,
{
    if n > 0 {
        let m = (n - 1) as nat;
        let x: int = n - 1;
        lemma_sorted_indices_order(paths, m);
        let prev = sorted_indices(paths, m);
        let p = insert_position(paths, prev, x);
        lemma_insert_position(paths, prev, x);
        lemma_insert_at(paths, prev, x, p);
        let order = prev.insert(p, x);
        assert(order == sorted_indices(paths, n));
        assert forall|k: int| 0 <= k < n implies #[trigger] order.contains(k) by {
            if k == x {
                assert(order[p] == k);
            } else {
                assert(prev.contains(k));
                let i = choose|i: int| 0 <= i < prev.len() && prev[i] == k;
                if i < p {
                    assert(order[i] == k);
                } else {
                    assert(order[i + 1] == k);
                }
            }
        }
        assert forall|i: int| 0 <= i < order.len() implies 0 <= #[trigger] order[i] < n by {
            if i < p {
                assert(order[i] == prev[i]);
            } else if i > p {
                assert(order[i] == prev[i - 1]);
            }
        }
        assert forall|i: int, j: int| 0 <= i < j < order.len() implies #[trigger] order[i]
            != #[trigger] order[j] && !lex_lt(paths[order[j]], paths[order[i]]) && (paths[order[i]]
            == paths[order[j]] ==> order[i] < order[j]) by {
            let oi = if i < p {
                i
            } else {
                i - 1
            };
            let oj = if j < p {
                j
            } else {
                j - 1
            };
            if i != p && j != p {
                assert(order[i] == prev[oi] && order[j] == prev[oj]);
            } else if i == p {
                assert(order[j] == prev[oj]);
                assert(lex_lt(paths[x], paths[prev[oj]]));
                lemma_lex_irreflexive(paths[x]);
                if lex_lt(paths[prev[oj]], paths[x]) {
                    lemma_lex_transitive(paths[x], paths[prev[oj]], paths[x]);
                }
            } else {
                assert(order[i] == prev[oi]);
                assert(!lex_lt(paths[x], paths[prev[p - 1]]));
                if oi < p - 1 {
                    assert(!lex_lt(paths[prev[p - 1]], paths[prev[oi]]));
                    if lex_lt(paths[x], paths[prev[oi]]) {
                        lemma_lex_total(paths[prev[p - 1]], paths[x]);
                        if lex_lt(paths[prev[p - 1]], paths[x]) {
                            lemma_lex_transitive(paths[prev[p - 1]], paths[x], paths[prev[oi]]);
                        }
                    }
                }
            }
        }
    }
}

/// The position at which `insert_index` puts `x`.
pub open spec fn insert_position(paths: Seq<Seq<char>>, sorted: Seq<int>, x: int) -> int
    decreases sorted.len(),
{
    if sorted.len() == 0 || !lex_lt(paths[x], paths[sorted.last()]) {
        sorted.len() as int
    } else {
        insert_position(paths, sorted.drop_last(), x)
    }
}

proof fn lemma_insert_position(paths: Seq<Seq<char>>, sorted: Seq<int>, x: int)
    ensures
        0 <= insert_position(paths, sorted, x) <= sorted.len(),
        forall|j: int|
            insert_position(paths, sorted, x) <= j < sorted.len() ==> lex_lt(
                paths[x],
                paths[#[trigger] sorted[j]],
            ),
        insert_position(paths, sorted, x) > 0 ==> !lex_lt(
            paths[x],
            paths[sorted[insert_position(paths, sorted, x) - 1]],
        ),
    decreases sorted.len(),
{
    if sorted.len() > 0 && lex_lt(paths[x], paths[sorted.last()]) {
        let rest = sorted.drop_last();
        lemma_insert_position(paths, rest, x);
        let p = insert_position(paths, rest, x);
        assert forall|j: int| p <= j < sorted.len() implies lex_lt(
            paths[x],
            paths[#[trigger] sorted[j]],
        ) by {
            if j < rest.len() {
                assert(rest[j] == sorted[j]);
            }
        }
        if p > 0 {
            assert(rest[p - 1] == sorted[p - 1]);
        }
    }
}

/// The paths as sequences of characters.
pub open spec fn path_views(paths: Seq<Vec<char>>) -> Seq<Seq<char>> {
    Seq::new(paths.len(), |i: int| paths[i]@)
}

/// The indices as mathematical integers.
pub open spec fn index_views(order: Seq<usize>) -> Seq<int> {
    Seq::new(order.len(), |i: int| order[i] as int)
}

/// Orders the indices of `paths` by path; indices with equal paths keep their order.
pub fn path_order(paths: &Vec<Vec<char>>) -> (order: Vec<usize>)
    ensures
        index_views(order@) == sorted_indices(path_views(paths@), paths@.len()),
        is_path_order(path_views(paths@), index_views(order@), paths@.len()),
        order@.len() == paths@.len(),
        forall|i: int| 0 <= i < order@.len() ==> #[trigger] order@[i] < paths@.len(),
{
    let ghost pv = path_views(paths@);
    let mut order: Vec<usize> = Vec::new();
    let mut k: usize = 0;
    assert(index_views(order@) =~= sorted_indices(pv, 0));
    while k < paths.len()
        invariant
            k <= paths@.len(),
            pv == path_views(paths@),
            order@.len() == k,
            index_views(order@) == sorted_indices(pv, k as nat),
            forall|i: int| 0 <= i < order@.len() ==> #[trigger] order@[i] < k,
        decreases paths.len() - k,
    {
        let ghost prev = index_views(order@);
        let mut p: usize = order.len();
        while p > 0 && lex_less(&paths[k], &paths[order[p - 1]])
            invariant
                p <= order@.len(),
                k < paths@.len(),
                pv == path_views(paths@),
                prev == index_views(order@),
                order@.len() == k,
                forall|i: int| 0 <= i < order@.len() ==> #[trigger] order@[i] < k,
                forall|j: int|
                    p <= j < prev.len() ==> lex_lt(pv[k as int], pv[#[trigger] prev[j]]),
            decreases p,
        {
            proof {
                assert(prev[p - 1] == order@[p - 1] as int);
                assert(pv[prev[p - 1]] == paths@[order@[p - 1] as int]@);
            }
            p = p - 1;
        }
        proof {
            if p > 0 {
                assert(prev[p - 1] == order@[p - 1] as int);
                assert(pv[prev[p - 1]] == paths@[order@[p - 1] as int]@);
            }
            lemma_insert_at(pv, prev, k as int, p as int);
        }
        order.insert(p, k);
        proof {
            assert(index_views(order@) =~= prev.insert(p as int, k as int));
        }
        k = k + 1;
    }
    proof {
        lemma_sorted_indices_order(pv, paths@.len());
    }
    order
}

} // verus!
