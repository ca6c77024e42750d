//! The order in which candidates are tried, and stable sorting by it.

use vstd::prelude::*;

use crate::text;

verus! {

/// What a candidate is ranked by.
pub struct RankKey {
    /// Smaller comes first.
    pub reset: i64,
    /// Greater comes first.
    pub used: i64,
    /// Greater comes first.
    pub score: i32,
    /// What comes first in the order of texts comes first.
    pub id: String,
}

/// What a candidate is ranked by, as mathematics sees it.
pub struct RankKeyView {
    pub reset: int,
    pub used: int,
    pub score: int,
    pub id: Seq<char>,
}

impl RankKey {
    pub open spec fn view(&self) -> RankKeyView {
        RankKeyView {
            reset: self.reset as int,
            used: self.used as int,
            score: self.score as int,
            id: self.id@,
        }
    }
}

/// `a` ranks before `b`: it resets sooner, else has used more, else scores higher, else has the
/// lesser id.
pub open spec fn key_before(a: RankKeyView, b: RankKeyView) -> bool {
    if a.reset != b.reset {
        a.reset < b.reset
    } else if a.used != b.used {
        a.used > b.used
    } else if a.score != b.score {
        a.score > b.score
    } else {
        text::text_before(a.id, b.id)
    }
}

fn comes_before(a: &RankKey, b: &RankKey) -> (r: bool)
    ensures
        r == key_before(a@, b@),
{
    if a.reset != b.reset {
        a.reset < b.reset
    } else if a.used != b.used {
        a.used > b.used
    } else if a.score != b.score {
        a.score > b.score
    } else {
        text::comes_before(a.id.as_str(), b.id.as_str())
    }
}

/// A key does not rank before itself.
pub proof fn key_before_irreflexive(a: RankKeyView)
    ensures
        !key_before(a, a),
{
    text::text_before_irreflexive(a.id);
}

/// Ranking is transitive.
pub proof fn key_before_transitive(a: RankKeyView, b: RankKeyView, c: RankKeyView)
    requires
        key_before(a, b),
        key_before(b, c),
    ensures
        key_before(a, c),
{
    if a.reset == b.reset && b.reset == c.reset && a.used == b.used && b.used == c.used && a.score
        == b.score && b.score == c.score {
        text::text_before_transitive(a.id, b.id, c.id);
    }
}

/// Of two keys one ranks before the other, or they are equal.
pub proof fn key_before_total(a: RankKeyView, b: RankKeyView)
    ensures
        key_before(a, b) || key_before(b, a) || a == b,
{
    text::text_before_total(a.id, b.id);
}

/// The keys as mathematics sees them.
pub open spec fn key_views(keys: Seq<RankKey>) -> Seq<RankKeyView> {
    keys.map_values(|k: RankKey| k@)
}

/// Position `i` comes before position `j` in a stable sort: its key ranks before, or the keys are
/// equal and it stands before.
pub open spec fn precedes(keys: Seq<RankKeyView>, i: int, j: int) -> bool {
    key_before(keys[i], keys[j]) || (keys[i] == keys[j] && i < j)
}

/// `order` lists each of the first `n` positions of `keys` once, in the order of a stable sort by the
/// keys.
pub open spec fn orders_first(keys: Seq<RankKeyView>, order: Seq<usize>, n: int) -> bool {
    &&& order.len() == n
    &&& forall|i: int| 0 <= i < order.len() ==> #[trigger] order[i] < n
    &&& forall|k: usize| k < n ==> #[trigger] order.contains(k)
    &&& forall|i: int, j: int|
        0 <= i < j < order.len() ==> precedes(
            keys,
            #[trigger] order[i] as int,
            #[trigger] order[j] as int,
        )
}

/// `order` lists each position of `keys` once, in the order of a stable sort by the keys.
pub open spec fn is_stable_order(keys: Seq<RankKeyView>, order: Seq<usize>) -> bool {
    orders_first(keys, order, keys.len() as int)
}

/// `precedes` is transitive.
pub proof fn precedes_transitive(keys: Seq<RankKeyView>, i: int, j: int, k: int)
    requires
        precedes(keys, i, j),
        precedes(keys, j, k),
    ensures
        precedes(keys, i, k),
{
    if key_before(keys[i], keys[j]) && key_before(keys[j], keys[k]) {
        key_before_transitive(keys[i], keys[j], keys[k]);
    }
}

/// There is one stable order of given keys.
pub proof fn stable_order_is_unique(keys: Seq<RankKeyView>, a: Seq<usize>, b: Seq<usize>)
    requires
        is_stable_order(keys, a),
        is_stable_order(keys, b),
    ensures
        a == b,
{
    lemma_same_prefix(keys, a, b, a.len() as int);
    assert(a.take(a.len() as int) == a);
    assert(b.take(a.len() as int) == b);
}

/// The order of a stable sort by the keys.
pub open spec fn sorted(keys: Seq<RankKeyView>) -> Seq<usize> {
    choose|order: Seq<usize>| is_stable_order(keys, order)
}

/// What is a stable order of given keys is the order of a stable sort by them.
pub proof fn stable_order_is_sorted(keys: Seq<RankKeyView>, order: Seq<usize>)
    requires
        is_stable_order(keys, order),
    ensures
        order == sorted(keys),
        is_stable_order(keys, sorted(keys)),
{
    stable_order_is_unique(keys, order, sorted(keys));
}

proof fn lemma_same_prefix(keys: Seq<RankKeyView>, a: Seq<usize>, b: Seq<usize>, n: int)
    requires
        is_stable_order(keys, a),
        is_stable_order(keys, b),
        0 <= n <= a.len(),
    ensures
        a.take(n) == b.take(n),
    decreases n,
{
    if n > 0 {
        lemma_same_prefix(keys, a, b, n - 1);
        let m = n - 1;
        assert forall|i: int| 0 <= i < m implies a[i] == b[i] by {
            assert(a.take(m)[i] == b.take(m)[i]);
        }
        if a[m] != b[m] {
            lemma_not_later(keys, a, b, m);
            lemma_not_later(keys, b, a, m);
            precedes_transitive(keys, a[m] as int, b[m] as int, a[m] as int);
            key_before_irreflexive(keys[a[m] as int]);
        }
        assert(a.take(n) =~= a.take(m).push(a[m]));
        assert(b.take(n) =~= b.take(m).push(b[m]));
    }
}

proof fn lemma_not_later(keys: Seq<RankKeyView>, a: Seq<usize>, b: Seq<usize>, m: int)
    requires
        is_stable_order(keys, a),
        is_stable_order(keys, b),
        0 <= m < a.len(),
        forall|i: int| 0 <= i < m ==> a[i] == b[i],
        a[m] != b[m],
    ensures
        precedes(keys, b[m] as int, a[m] as int),
{
    assert(b.contains(a[m]));
    let j = choose|j: int| 0 <= j < b.len() && b[j] == a[m];
    if j < m {
        assert(a[j] == a[m]);
        assert(precedes(keys, a[j] as int, a[m] as int));
        key_before_irreflexive(keys[a[m] as int]);
    }
}

/// One more position takes its place in an order before the first that it precedes.
proof fn lemma_insert(keys: Seq<RankKeyView>, before: Seq<usize>, n: usize, p: int)
    requires
        orders_first(keys, before, n as int),
        n < keys.len(),
        0 <= p <= before.len(),
        forall|q: int| 0 <= q < p ==> !key_before(keys[n as int], keys[#[trigger] before[q] as int]),
        p < before.len() ==> key_before(keys[n as int], keys[before[p] as int]),
    ensures
        orders_first(keys, before.insert(p, n), n + 1),
{
    let order = before.insert(p, n);
    assert forall|i: int, j: int| 0 <= i < j < order.len() implies precedes(
        keys,
        #[trigger] order[i] as int,
        #[trigger] order[j] as int,
    ) by {
        let x = if i < p {
            i
        } else {
            i - 1
        };
        let y = if j < p {
            j
        } else {
            j - 1
        };
        if j == p {
            assert(order[i] == before[i]);
            key_before_total(keys[n as int], keys[before[i] as int]);
        } else if i == p {
            assert(order[j] == before[y]);
            if y > p {
                assert(precedes(keys, before[p] as int, before[y] as int));
                assert(precedes(keys, n as int, before[p] as int));
                precedes_transitive(keys, n as int, before[p] as int, before[y] as int);
            }
        } else {
            assert(order[i] == before[x]);
            assert(order[j] == before[y]);
            assert(precedes(keys, before[x] as int, before[y] as int));
        }
    }
    assert forall|k: usize| k < n + 1 implies #[trigger] order.contains(k) by {
        if k == n {
            assert(order[p] == n);
        } else {
            assert(before.contains(k));
            let i = choose|i: int| 0 <= i < before.len() && before[i] == k;
            if i < p {
                assert(order[i] == k);
            } else {
                assert(order[i + 1] == k);
            }
        }
    }
}

proof fn lemma_place(keys: Seq<RankKeyView>, order: Seq<usize>, n: int, from: int) -> (p: int)
    requires
        0 <= from <= order.len(),
        forall|q: int| 0 <= q < from ==> !key_before(keys[n], keys[#[trigger] order[q] as int]),
    ensures
        0 <= p <= order.len(),
        forall|q: int| 0 <= q < p ==> !key_before(keys[n], keys[#[trigger] order[q] as int]),
        p < order.len() ==> key_before(keys[n], keys[order[p] as int]),
    decreases order.len() - from,
{
    if from == order.len() || key_before(keys[n], keys[order[from] as int]) {
        from
    } else {
        lemma_place(keys, order, n, from + 1)
    }
}

proof fn lemma_order(keys: Seq<RankKeyView>, n: nat) -> (order: Seq<usize>)
    requires
        n <= keys.len() <= usize::MAX,
    ensures
        orders_first(keys, order, n as int),
    decreases n,
{
    if n == 0 {
        Seq::empty()
    } else {
        let m = (n - 1) as usize;
        let before = lemma_order(keys, (n - 1) as nat);
        let p = lemma_place(keys, before, m as int, 0);
        lemma_insert(keys, before, m, p);
        before.insert(p, m)
    }
}

/// There is an order of a stable sort by given keys.
pub proof fn stable_order_exists(keys: Seq<RankKeyView>)
    requires
        keys.len() <= usize::MAX,
    ensures
        is_stable_order(keys, sorted(keys)),
{
    let order = lemma_order(keys, keys.len());
    stable_order_is_sorted(keys, order);
}

/// The positions of `keys` in the order of a stable sort.
pub fn stable_order(keys: &Vec<RankKey>) -> (order: Vec<usize>)
    ensures
        is_stable_order(key_views(keys@), order@),
        order@ == sorted(key_views(keys@)),
{
    let ghost views = key_views(keys@);
    let mut order: Vec<usize> = Vec::new();
    for n in 0..keys.len()
        invariant
            views == key_views(keys@),
            orders_first(views, order@, n as int),
    {
        let mut p: usize = 0;
        while p < order.len() && !comes_before(&keys[n], &keys[order[p]])
            invariant
                views == key_views(keys@),
                n < keys@.len(),
                p <= order@.len(),
                orders_first(views, order@, n as int),
                forall|q: int|
                    0 <= q < p ==> !key_before(views[n as int], views[#[trigger] order@[q] as int]),
            ensures
                p < order@.len() ==> key_before(views[n as int], views[order@[p as int] as int]),
            decreases order@.len() - p,
        {
            p += 1;
        }
        proof {
            lemma_insert(views, order@, n, p as int);
        }
        order.insert(p, n);
    }
    proof {
        stable_order_is_sorted(views, order@);
    }
    order
}

/// The keys of a sort by texts alone.
pub open spec fn text_keys(texts: Seq<Seq<char>>) -> Seq<RankKeyView> {
    texts.map_values(|t: Seq<char>| RankKeyView { reset: 0, used: 0, score: 0, id: t })
}

/// The positions of the texts in the order of a stable sort.
pub fn text_order(strings: &Vec<String>) -> (order: Vec<usize>)
    ensures
        is_stable_order(text_keys(text::texts(strings@)), order@),
        order@ == sorted(text_keys(text::texts(strings@))),
{
    let mut keys: Vec<RankKey> = Vec::new();
    for k in 0..strings.len()
        invariant
            keys@.len() == k,
            forall|j: int|
                0 <= j < k ==> (#[trigger] keys@[j])@ == text_keys(text::texts(strings@))[j],
    {
        keys.push(RankKey { reset: 0, used: 0, score: 0, id: strings[k].clone() });
    }
    assert(key_views(keys@) =~= text_keys(text::texts(strings@)));
    stable_order(&keys)
}

/// Keys that are equal keep their order when they are sorted.
pub proof fn law_equal_keys_keep_their_order(keys: Seq<RankKeyView>, a: int, b: int)
    requires
        keys.len() <= usize::MAX,
        0 <= a < b < keys.len(),
        keys[sorted(keys)[a] as int] == keys[sorted(keys)[b] as int],
    ensures
        sorted(keys)[a] < sorted(keys)[b],
{
    let order = sorted(keys);
    stable_order_exists(keys);
    assert(precedes(keys, order[a] as int, order[b] as int));
    key_before_irreflexive(keys[order[a] as int]);
}

} // verus!
