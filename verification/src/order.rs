//! The order of texts, and sorting by keys that keeps equal keys in place.

use crate::text::chars_of;
use vstd::prelude::*;

verus! {

/// `a` comes before `b` in the order of texts: by the first character in which
/// they differ, and a text before the longer ones that begin with it.
pub open spec fn text_before(a: Seq<char>, b: Seq<char>) -> bool
    decreases a.len(),
{
    if b.len() == 0 {
        false
    } else if a.len() == 0 {
        true
    } else if a[0] != b[0] {
        (a[0] as int) < (b[0] as int)
    } else {
        text_before(a.drop_first(), b.drop_first())
    }
}

/// No text comes before itself.
pub proof fn text_order_is_irreflexive(a: Seq<char>)
    ensures
        !text_before(a, a),
    decreases a.len(),
{
    if a.len() > 0 {
        text_order_is_irreflexive(a.drop_first());
    }
}

/// The order of texts is transitive.
pub proof fn text_order_is_transitive(a: Seq<char>, b: Seq<char>, c: Seq<char>)
    requires
        text_before(a, b),
        text_before(b, c),
    ensures
        text_before(a, c),
    decreases a.len(),
{
    if a.len() > 0 && a[0] == b[0] && b[0] == c[0] {
        text_order_is_transitive(a.drop_first(), b.drop_first(), c.drop_first());
    }
}

/// Two texts that begin alike go by the first characters in which they differ, and
/// by nothing behind them; a text goes before all that begin with it.
pub proof fn texts_go_by_their_first_difference(
    front: Seq<char>,
    x: char,
    a: Seq<char>,
    y: char,
    b: Seq<char>,
)
    ensures
        x != y ==> (text_before(front + seq![x] + a, front + seq![y] + b) <==> x < y),
        text_before(front, front + seq![x] + a),
        !text_before(front + seq![x] + a, front),
    decreases front.len(),
{
    let first = front + seq![x] + a;
    let second = front + seq![y] + b;
    if front.len() > 0 {
        let rest = front.drop_first();
        texts_go_by_their_first_difference(rest, x, a, y, b);
        assert(first.drop_first() =~= rest + seq![x] + a);
        assert(second.drop_first() =~= rest + seq![y] + b);
        assert(first[0] == front[0] && second[0] == front[0]);
    } else {
        assert(first[0] == x && second[0] == y);
    }
}

/// Of two texts that differ, one comes before the other.
pub proof fn text_order_is_total(a: Seq<char>, b: Seq<char>)
    ensures
        text_before(a, b) || a == b || text_before(b, a),
    decreases a.len(),
{
    if a.len() > 0 && b.len() > 0 && a[0] == b[0] {
        text_order_is_total(a.drop_first(), b.drop_first());
        if a.drop_first() == b.drop_first() {
            assert(a =~= seq![a[0]] + a.drop_first());
            assert(b =~= seq![b[0]] + b.drop_first());
        }
    } else if a.len() == 0 && b.len() == 0 {
        assert(a =~= b);
    }
}

/// Says whether `a` comes before `b` in the order of texts.
pub fn comes_before(a: &str, b: &str) -> (r: bool)
    ensures
        r == text_before(a@, b@),
{
    let x = chars_of(a);
    let y = chars_of(b);
    let mut i: usize = 0;
    assert(x@.skip(0) =~= x@);
    assert(y@.skip(0) =~= y@);
    while i < x.len() && i < y.len() && x[i] == y[i]
        invariant
            i <= x@.len(),
            i <= y@.len(),
            text_before(x@, y@) == text_before(x@.skip(i as int), y@.skip(i as int)),
        decreases x@.len() - i,
    {
        assert(x@.skip(i as int).drop_first() =~= x@.skip(i + 1));
        assert(y@.skip(i as int).drop_first() =~= y@.skip(i + 1));
        i = i + 1;
    }
    if i == y.len() {
        false
    } else if i == x.len() {
        true
    } else {
        assert(x@.skip(i as int)[0] == x@[i as int]);
        assert(y@.skip(i as int)[0] == y@[i as int]);
        x[i] < y[i]
    }
}

/// What an item is sorted by: first its rank, then two texts.
pub struct SortKey {
    pub rank: u8,
    pub primary: String,
    pub secondary: String,
}

/// A sort key with its texts as sequences.
pub struct KeyView {
    pub rank: u8,
    pub primary: Seq<char>,
    pub secondary: Seq<char>,
}

impl View for SortKey {
    type V = KeyView;

    open spec fn view(&self) -> KeyView {
        KeyView { rank: self.rank, primary: self.primary@, secondary: self.secondary@ }
    }
}

impl DeepView for SortKey {
    type V = KeyView;

    open spec fn deep_view(&self) -> KeyView {
        self.view()
    }
}

/// The key `a` sorts before the key `b`.
pub open spec fn key_before(a: KeyView, b: KeyView) -> bool {
    ||| a.rank < b.rank
    ||| a.rank == b.rank && text_before(a.primary, b.primary)
    ||| a.rank == b.rank && a.primary == b.primary && text_before(a.secondary, b.secondary)
}

/// Item `i` goes before item `j`: by their keys, and in the order in which they
/// stand where the keys are equal.
pub open spec fn goes_before(keys: Seq<KeyView>, i: int, j: int) -> bool {
    ||| key_before(keys[i], keys[j])
    ||| keys[i] == keys[j] && i < j
}

/// `order` lists places of `keys` between `lo` and `hi`, each before the next
/// ones.
pub open spec fn runs_in_order(keys: Seq<KeyView>, order: Seq<usize>, lo: int, hi: int) -> bool {
    &&& forall|k: int| 0 <= k < order.len() ==> lo <= #[trigger] order[k] < hi
    &&& forall|k: int, m: int|
        #![trigger order[k], order[m]]
        0 <= k < m < order.len() ==> goes_before(keys, order[k] as int, order[m] as int)
}

/// `order` is the sorted order of all places of `keys`, with equal keys in the
/// order in which they stand.
pub open spec fn is_sorted_order(keys: Seq<KeyView>, order: Seq<usize>) -> bool {
    &&& order.len() == keys.len()
    &&& runs_in_order(keys, order, 0, keys.len() as int)
}

proof fn lemma_key_total(a: KeyView, b: KeyView)
    ensures
        key_before(a, b) || a == b || key_before(b, a),
{
    text_order_is_total(a.primary, b.primary);
    text_order_is_total(a.secondary, b.secondary);
}

proof fn lemma_key_transitive(a: KeyView, b: KeyView, c: KeyView)
    requires
        key_before(a, b),
        key_before(b, c),
    ensures
        key_before(a, c),
{
    if a.rank == b.rank && b.rank == c.rank {
        if text_before(a.primary, b.primary) && text_before(b.primary, c.primary) {
            text_order_is_transitive(a.primary, b.primary, c.primary);
        } else if a.primary == b.primary && b.primary == c.primary {
            text_order_is_transitive(a.secondary, b.secondary, c.secondary);
        }
    }
}

proof fn lemma_goes_transitive(keys: Seq<KeyView>, i: int, j: int, k: int)
    requires
        goes_before(keys, i, j),
        goes_before(keys, j, k),
    ensures
        goes_before(keys, i, k),
{
    if key_before(keys[i], keys[j]) && key_before(keys[j], keys[k]) {
        lemma_key_transitive(keys[i], keys[j], keys[k]);
    }
}

proof fn lemma_goes_irreflexive(keys: Seq<KeyView>, i: int)
    ensures
        !goes_before(keys, i, i),
{
    text_order_is_irreflexive(keys[i].primary);
    text_order_is_irreflexive(keys[i].secondary);
}

/// A sorted order leaves no item out and lists none twice.
pub proof fn sorted_order_keeps_every_item(keys: Seq<KeyView>, order: Seq<usize>)
    requires
        is_sorted_order(keys, order),
    ensures
        order.no_duplicates(),
        forall|i: usize| i < keys.len() ==> #[trigger] order.contains(i),
{
    assert forall|k: int, m: int| 0 <= k < order.len() && 0 <= m < order.len() && k != m implies
        order[k] != order[m] by {
        if order[k] == order[m] {
            lemma_goes_irreflexive(keys, order[k] as int);
        }
    }
    let places = order.map_values(|i: usize| i as int);
    assert(places.no_duplicates());
    places.unique_seq_to_set();
    let all = vstd::set_lib::set_int_range(0, keys.len() as int);
    vstd::set_lib::lemma_int_range(0, keys.len() as int);
    assert(places.to_set().subset_of(all));
    vstd::set_lib::lemma_subset_equality(places.to_set(), all);
    assert forall|i: usize| i < keys.len() implies #[trigger] order.contains(i) by {
        assert(all.contains(i as int));
        assert(places.contains(i as int));
        let k = choose|k: int| 0 <= k < places.len() && places[k] == i as int;
        assert(order[k] == i);
    }
}

/// There is only one sorted order.
pub proof fn sorted_order_is_unique(keys: Seq<KeyView>, a: Seq<usize>, b: Seq<usize>)
    requires
        is_sorted_order(keys, a),
        is_sorted_order(keys, b),
    ensures
        a == b,
{
    lemma_orders_agree(keys, a, b, keys.len() as int);
    assert(a =~= b);
}

proof fn lemma_orders_agree(keys: Seq<KeyView>, a: Seq<usize>, b: Seq<usize>, n: int)
    requires
        is_sorted_order(keys, a),
        is_sorted_order(keys, b),
        0 <= n <= keys.len(),
    ensures
        forall|k: int| 0 <= k < n ==> a[k] == b[k],
    decreases n,
{
    if n > 0 {
        lemma_orders_agree(keys, a, b, n - 1);
        let k = n - 1;
        if a[k] != b[k] {
            sorted_order_keeps_every_item(keys, a);
            sorted_order_keeps_every_item(keys, b);
            assert(b.contains(a[k]) && a.contains(b[k]));
            let in_b = choose|m: int| 0 <= m < b.len() && b[m] == a[k];
            let in_a = choose|m: int| 0 <= m < a.len() && a[m] == b[k];
            if in_b < k {
                assert(a[in_b] == b[in_b]);
            }
            if in_a < k {
                assert(a[in_a] == b[in_a]);
            }
            lemma_goes_transitive(keys, a[k] as int, b[k] as int, a[k] as int);
            lemma_goes_irreflexive(keys, a[k] as int);
        }
    }
}

/// The items in the sorted order of their keys.
pub open spec fn sorted_items<T>(keys: Seq<KeyView>, items: Seq<T>) -> Seq<T> {
    let order = choose|order: Seq<usize>| is_sorted_order(keys, order);
    order.map_values(|i: usize| items[i as int])
}

/// Any sorted order of the keys gives the sorted items.
pub proof fn lemma_sorted_items<T>(keys: Seq<KeyView>, items: Seq<T>, order: Seq<usize>)
    requires
        is_sorted_order(keys, order),
    ensures
        sorted_items(keys, items) == order.map_values(|i: usize| items[i as int]),
{
    let picked = choose|order: Seq<usize>| is_sorted_order(keys, order);
    sorted_order_is_unique(keys, picked, order);
}

/// The first place of `order` from `from` on whose key sorts behind `key`.
spec fn place_for(keys: Seq<KeyView>, order: Seq<usize>, key: KeyView, from: int) -> int
    decreases order.len() - from,
{
    if from >= order.len() || key_before(key, keys[order[from] as int]) {
        from
    } else {
        place_for(keys, order, key, from + 1)
    }
}

proof fn lemma_place_for(keys: Seq<KeyView>, order: Seq<usize>, key: KeyView, from: int)
    requires
        0 <= from <= order.len(),
    ensures
        from <= place_for(keys, order, key, from) <= order.len(),
        forall|k: int|
            from <= k < place_for(keys, order, key, from) ==> !key_before(
                key,
                keys[#[trigger] order[k] as int],
            ),
        place_for(keys, order, key, from) < order.len() ==> key_before(
            key,
            keys[order[place_for(keys, order, key, from)] as int],
        ),
    decreases order.len() - from,
{
    if from < order.len() && !key_before(key, keys[order[from] as int]) {
        lemma_place_for(keys, order, key, from + 1);
    }
}

/// Keys that fit in memory have a sorted order.
pub proof fn sorted_order_exists(keys: Seq<KeyView>) -> (order: Seq<usize>)
    requires
        keys.len() <= usize::MAX,
    ensures
        is_sorted_order(keys, order),
    decreases keys.len(),
{
    if keys.len() == 0 {
        seq![]
    } else {
        let n = keys.len() - 1;
        let front = keys.drop_last();
        let before = sorted_order_exists(front);
        let at = place_for(keys, before, keys[n], 0);
        lemma_place_for(keys, before, keys[n], 0);
        let order = before.insert(at, n as usize);
        assert forall|k: int| 0 <= k < before.len() implies #[trigger] front[before[k] as int]
            == keys[before[k] as int] by {}
        assert forall|k: int, m: int|
            #![trigger before[k], before[m]]
            0 <= k < m < before.len() implies goes_before(
            keys,
            before[k] as int,
            before[m] as int,
        ) by {
            assert(goes_before(front, before[k] as int, before[m] as int));
        }
        assert forall|k: int| 0 <= k < at implies goes_before(
            keys,
            #[trigger] before[k] as int,
            n,
        ) by {
            lemma_key_total(keys[n], keys[before[k] as int]);
        }
        assert forall|k: int| at <= k < before.len() implies goes_before(
            keys,
            n,
            #[trigger] before[k] as int,
        ) by {
            if k > at {
                assert(goes_before(keys, before[at] as int, before[k] as int));
                if keys[before[at] as int] != keys[before[k] as int] {
                    lemma_key_transitive(
                        keys[n],
                        keys[before[at] as int],
                        keys[before[k] as int],
                    );
                }
            }
        }
        assert forall|k: int, m: int|
            #![trigger order[k], order[m]]
            0 <= k < m < order.len() implies goes_before(
            keys,
            order[k] as int,
            order[m] as int,
        ) by {
            let i = if k > at {
                k - 1
            } else {
                k
            };
            let j = if m > at {
                m - 1
            } else {
                m
            };
            if k == at {
                assert(order[k] == n && order[m] == before[j]);
            } else if m == at {
                assert(order[m] == n && order[k] == before[i]);
            } else {
                assert(order[k] == before[i] && order[m] == before[j]);
            }
        }
        assert forall|k: int| 0 <= k < order.len() implies 0 <= #[trigger] order[k]
            < keys.len() by {
            if k < at {
                assert(order[k] == before[k]);
            } else if k > at {
                assert(order[k] == before[k - 1]);
            }
        }
        order
    }
}

/// Sorting lists each item once, in an order of places that is sorted.
pub proof fn sorting_keeps_every_item<T>(keys: Seq<KeyView>, items: Seq<T>) -> (order: Seq<usize>)
    requires
        keys.len() == items.len(),
        keys.len() <= usize::MAX,
    ensures
        is_sorted_order(keys, order),
        order.no_duplicates(),
        forall|i: usize| i < items.len() ==> #[trigger] order.contains(i),
        sorted_items(keys, items).len() == items.len(),
        forall|k: int|
            0 <= k < items.len() ==> #[trigger] sorted_items(keys, items)[k]
                == items[order[k] as int],
{
    let order = sorted_order_exists(keys);
    sorted_order_keeps_every_item(keys, order);
    lemma_sorted_items(keys, items, order);
    order
}

/// Says whether the key `a` sorts before the key `b`.
fn key_less(a: &SortKey, b: &SortKey) -> (r: bool)
    ensures
        r == key_before(a@, b@),
{
    if a.rank != b.rank {
        a.rank < b.rank
    } else if comes_before(a.primary.as_str(), b.primary.as_str()) {
        true
    } else if comes_before(b.primary.as_str(), a.primary.as_str()) {
        proof {
            text_order_is_irreflexive(a.primary@);
        }
        false
    } else {
        proof {
            text_order_is_total(a.primary@, b.primary@);
        }
        comes_before(a.secondary.as_str(), b.secondary.as_str())
    }
}

/// The places of two runs in one run.
fn merge_runs(
    keys: &Vec<SortKey>,
    left: Vec<usize>,
    right: Vec<usize>,
    Ghost(lo): Ghost<int>,
    Ghost(mid): Ghost<int>,
    Ghost(hi): Ghost<int>,
) -> (r: Vec<usize>)
    requires
        0 <= lo <= mid <= hi <= keys@.len(),
        runs_in_order(keys.deep_view(), left@, lo, mid),
        runs_in_order(keys.deep_view(), right@, mid, hi),
    ensures
        r@.len() == left@.len() + right@.len(),
        runs_in_order(keys.deep_view(), r@, lo, hi),
{
    let ghost ks = keys.deep_view();
    let mut out: Vec<usize> = Vec::new();
    let mut i: usize = 0;
    let mut j: usize = 0;
    while i < left.len() || j < right.len()
        invariant
            ks == keys.deep_view(),
            0 <= lo <= mid <= hi <= keys@.len(),
            runs_in_order(ks, left@, lo, mid),
            runs_in_order(ks, right@, mid, hi),
            i <= left@.len(),
            j <= right@.len(),
            out@.len() == i + j,
            runs_in_order(ks, out@, lo, hi),
            forall|k: int, m: int|
                #![trigger out@[k], left@[m]]
                0 <= k < out@.len() && i <= m < left@.len() ==> goes_before(
                    ks,
                    out@[k] as int,
                    left@[m] as int,
                ),
            forall|k: int, m: int|
                #![trigger out@[k], right@[m]]
                0 <= k < out@.len() && j <= m < right@.len() ==> goes_before(
                    ks,
                    out@[k] as int,
                    right@[m] as int,
                ),
        decreases left@.len() - i + right@.len() - j,
    {
        let take_right = if i == left.len() {
            true
        } else if j == right.len() {
            false
        } else {
            key_less(&keys[right[j]], &keys[left[i]])
        };
        let ghost before = out@;
        if take_right {
            let next: usize = right[j];
            out.push(next);
            proof {
                if i < left@.len() {
                    assert(goes_before(ks, next as int, left@[i as int] as int));
                }
                assert forall|k: int, m: int|
                    #![trigger out@[k], left@[m]]
                    0 <= k < out@.len() && i <= m < left@.len() implies goes_before(
                    ks,
                    out@[k] as int,
                    left@[m] as int,
                ) by {
                    if k == before.len() && m > i {
                        lemma_goes_transitive(
                            ks,
                            next as int,
                            left@[i as int] as int,
                            left@[m] as int,
                        );
                    }
                }
            }
            j = j + 1;
        } else {
            let next: usize = left[i];
            out.push(next);
            proof {
                if j < right@.len() {
                    lemma_key_total(ks[next as int], ks[right@[j as int] as int]);
                    assert(goes_before(ks, next as int, right@[j as int] as int));
                }
                assert forall|k: int, m: int|
                    #![trigger out@[k], right@[m]]
                    0 <= k < out@.len() && j <= m < right@.len() implies goes_before(
                    ks,
                    out@[k] as int,
                    right@[m] as int,
                ) by {
                    if k == before.len() && m > j {
                        lemma_goes_transitive(
                            ks,
                            next as int,
                            right@[j as int] as int,
                            right@[m] as int,
                        );
                    }
                }
            }
            i = i + 1;
        }
    }
    out
}

/// The places from `lo` up to `hi`, sorted by their keys.
fn sort_range(keys: &Vec<SortKey>, lo: usize, hi: usize) -> (r: Vec<usize>)
    requires
        lo <= hi <= keys@.len(),
    ensures
        r@.len() == hi - lo,
        runs_in_order(keys.deep_view(), r@, lo as int, hi as int),
    decreases hi - lo,
{
    if hi - lo <= 1 {
        let mut out: Vec<usize> = Vec::new();
        if lo < hi {
            out.push(lo);
        }
        return out;
    }
    let mid: usize = lo + (hi - lo) / 2;
    let left = sort_range(keys, lo, mid);
    let right = sort_range(keys, mid, hi);
    merge_runs(keys, left, right, Ghost(lo as int), Ghost(mid as int), Ghost(hi as int))
}

/// The places of `keys` in sorted order, equal keys in the order in which they
/// stand.
pub fn sorted_order(keys: &Vec<SortKey>) -> (r: Vec<usize>)
    ensures
        is_sorted_order(keys.deep_view(), r@),
{
    sort_range(keys, 0, keys.len())
}

} // verus!
