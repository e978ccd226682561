//! Stable sorting by a key: text compared character by character, or an optional
//! instant with `None` first (the orders of `String` and `Option<DateTime>`).

use vstd::prelude::*;

verus! {

/// A sort key.
#[derive(Clone, Debug, PartialEq, Eq)]
pub enum SortKey {
    Text(Vec<char>),
    Instant(Option<i128>),
}

/// A sort key as a spec value.
pub ghost enum KeyView {
    Text(Seq<char>),
    Instant(Option<i128>),
}

impl View for SortKey {
    type V = KeyView;

    open spec fn view(&self) -> KeyView {
        match self {
            SortKey::Text(v) => KeyView::Text(v@),
            SortKey::Instant(t) => KeyView::Instant(*t),
        }
    }
}

/// Lexicographic order of character sequences (the order of `str`, as UTF-8 keeps the
/// order of code points).
pub open spec fn text_lt(a: Seq<char>, b: Seq<char>) -> bool
    decreases a.len(),
{
    if a.len() == 0 {
        b.len() > 0
    } else if b.len() == 0 {
        false
    } else if a[0] != b[0] {
        (a[0] as int) < (b[0] as int)
    } else {
        text_lt(a.drop_first(), b.drop_first())
    }
}

/// The order of optional instants: `None` before every instant.
pub open spec fn instant_lt(a: Option<i128>, b: Option<i128>) -> bool {
    match (a, b) {
        (None, Some(_)) => true,
        (Some(x), Some(y)) => x < y,
        _ => false,
    }
}

/// Whether `a` sorts before `b`.
pub open spec fn key_lt(a: KeyView, b: KeyView) -> bool {
    match (a, b) {
        (KeyView::Text(x), KeyView::Text(y)) => text_lt(x, y),
        (KeyView::Instant(x), KeyView::Instant(y)) => instant_lt(x, y),
        _ => false,
    }
}

/// Whether two keys are of one kind.
pub open spec fn same_kind(a: KeyView, b: KeyView) -> bool {
    (a is Text && b is Text) || (a is Instant && b is Instant)
}

/// Whether `a` sorts before `b`, in descending order when `descending`.
pub open spec fn ordered_lt(a: KeyView, b: KeyView, descending: bool) -> bool {
    if descending {
        key_lt(b, a)
    } else {
        key_lt(a, b)
    }
}

/// `p` is a permutation of `0..n`.
pub open spec fn is_permutation(p: Seq<int>, n: int) -> bool {
    &&& p.len() == n
    &&& forall|k: int| 0 <= k < n ==> 0 <= #[trigger] p[k] < n
    &&& forall|k: int, l: int| 0 <= k < l < n ==> #[trigger] p[k] != #[trigger] p[l]
}

/// A permutation of `0..n` takes every value.
pub proof fn lemma_permutation_onto(p: Seq<int>, n: int, j: int)
    requires
        is_permutation(p, n),
        0 <= j < n,
    ensures
        exists|k: int| 0 <= k < n && p[k] == j,
{
    let img = Set::new(|q: int| exists|k: int| 0 <= k < n && p[k] == q);
    let dom = Set::new(|q: int| 0 <= q < n);
    if !img.contains(j) {
        // The n distinct values lie in 0..n without j: too few places.
        let vals = Seq::new(n as nat, |k: int| p[k]);
        assert(vals.no_duplicates()) by {
            assert forall|a: int, b: int| 0 <= a < vals.len() && 0 <= b < vals.len() && a != b implies vals[a] != vals[b] by {
                if a < b {
                    assert(p[a] != p[b]);
                } else {
                    assert(p[b] != p[a]);
                }
            }
        }
        let target = dom.remove(j);
        assert(vals.to_set().subset_of(target));
        vals.unique_seq_to_set();
        vstd::set_lib::lemma_int_range(0, n);
        assert(dom =~= vstd::set_lib::set_int_range(0, n));
        vstd::set_lib::lemma_len_subset(vals.to_set(), target);
    }
}

/// `new` holds the elements of `old` in the order `p`, sorted by `key`, elements with
/// equal keys in their original order.
pub open spec fn sorted_by_as<T>(
    old_items: Seq<T>,
    new_items: Seq<T>,
    key: spec_fn(T) -> KeyView,
    descending: bool,
    p: Seq<int>,
) -> bool {
    &&& is_permutation(p, old_items.len() as int)
    &&& new_items.len() == old_items.len()
    &&& forall|k: int| 0 <= k < new_items.len() ==> #[trigger] new_items[k] == old_items[p[k]]
    &&& forall|k: int, l: int|
        0 <= k < l < new_items.len() ==> !ordered_lt(
            key(#[trigger] new_items[l]),
            key(#[trigger] new_items[k]),
            descending,
        )
    &&& forall|k: int, l: int|
        0 <= k < l < new_items.len() && key(#[trigger] new_items[k]) == key(#[trigger] new_items[l])
            ==> p[k] < p[l]
}

/// Whether `new` is `old` sorted stably by `key`: ascending, or descending when
/// `descending`, with elements of equal keys in their original order.
pub open spec fn sorted_by<T>(old_items: Seq<T>, new_items: Seq<T>, key: spec_fn(T) -> KeyView, descending: bool) -> bool {
    exists|p: Seq<int>| sorted_by_as(old_items, new_items, key, descending, p)
}

/// The keys of all elements are of one kind.
pub open spec fn uniform<T>(items: Seq<T>, key: spec_fn(T) -> KeyView) -> bool {
    forall|k: int, l: int|
        0 <= k < items.len() && 0 <= l < items.len() ==> same_kind(key(#[trigger] items[k]), key(#[trigger] items[l]))
}

pub proof fn lemma_text_lt_irreflexive(a: Seq<char>)
    ensures
        !text_lt(a, a),
    decreases a.len(),
{
    if a.len() > 0 {
        lemma_text_lt_irreflexive(a.drop_first());
    }
}

pub proof fn lemma_text_lt_asymmetric(a: Seq<char>, b: Seq<char>)
    ensures
        text_lt(a, b) ==> !text_lt(b, a),
    decreases a.len(),
{
    if a.len() > 0 && b.len() > 0 && a[0] == b[0] {
        lemma_text_lt_asymmetric(a.drop_first(), b.drop_first());
    }
}

pub proof fn lemma_text_lt_transitive(a: Seq<char>, b: Seq<char>, c: Seq<char>)
    ensures
        text_lt(a, b) && text_lt(b, c) ==> text_lt(a, c),
    decreases a.len(),
{
    if a.len() > 0 && b.len() > 0 && c.len() > 0 {
        lemma_text_lt_transitive(a.drop_first(), b.drop_first(), c.drop_first());
    }
}

pub proof fn lemma_text_lt_total(a: Seq<char>, b: Seq<char>)
    ensures
        text_lt(a, b) || text_lt(b, a) || a == b,
    decreases a.len(),
{
    if a.len() == 0 {
        if b.len() == 0 {
            assert(a =~= b);
        }
    } else if b.len() > 0 {
        if a[0] == b[0] {
            lemma_text_lt_total(a.drop_first(), b.drop_first());
            if a.drop_first() == b.drop_first() {
                assert(a =~= seq![a[0]] + a.drop_first());
                assert(b =~= seq![b[0]] + b.drop_first());
            }
        } else {
            assert((a[0] as int) != (b[0] as int));
        }
    }
}

/// Texts in strictly ascending order.
pub open spec fn strictly_ascending(x: Seq<Seq<char>>) -> bool {
    forall|k: int, l: int| 0 <= k < l < x.len() ==> text_lt(#[trigger] x[k], #[trigger] x[l])
}

proof fn lemma_ascending_prefix(x: Seq<Seq<char>>, y: Seq<Seq<char>>, n: int)
    requires
        strictly_ascending(x),
        strictly_ascending(y),
        forall|k: int| 0 <= k < x.len() ==> y.contains(#[trigger] x[k]),
        forall|k: int| 0 <= k < y.len() ==> x.contains(#[trigger] y[k]),
        0 <= n <= x.len(),
        n <= y.len(),
    ensures
        forall|j: int| 0 <= j < n ==> x[j] == y[j],
    decreases n,
{
    if n > 0 {
        lemma_ascending_prefix(x, y, n - 1);
        let i = n - 1;
        assert(y.contains(x[i]));
        let m = choose|m: int| 0 <= m < y.len() && y[m] == x[i];
        lemma_text_lt_irreflexive(x[i]);
        if m < i {
            assert(x[m] == y[m]);
            assert(text_lt(x[m], x[i]));
        } else if m > i {
            assert(x.contains(y[i]));
            let q = choose|q: int| 0 <= q < x.len() && x[q] == y[i];
            lemma_text_lt_irreflexive(y[i]);
            if q < i {
                assert(x[q] == y[q]);
                assert(text_lt(y[q], y[i]));
            } else if q == i {
                assert(text_lt(y[i], y[m]));
            } else {
                assert(text_lt(x[i], x[q]));
                assert(text_lt(y[i], y[m]));
                lemma_text_lt_transitive(x[i], y[i], x[i]);
            }
        }
    }
}

/// Two strictly ascending sequences of texts that hold the same texts are equal.
pub proof fn lemma_ascending_same_texts_equal(x: Seq<Seq<char>>, y: Seq<Seq<char>>)
    requires
        strictly_ascending(x),
        strictly_ascending(y),
        forall|k: int| 0 <= k < x.len() ==> y.contains(#[trigger] x[k]),
        forall|k: int| 0 <= k < y.len() ==> x.contains(#[trigger] y[k]),
    ensures
        x == y,
{
    let n = if x.len() < y.len() {
        x.len() as int
    } else {
        y.len() as int
    };
    lemma_ascending_prefix(x, y, n);
    if x.len() < y.len() {
        assert(x.contains(y[n]));
        let j = choose|j: int| 0 <= j < x.len() && x[j] == y[n];
        assert(x[j] == y[j]);
        assert(text_lt(y[j], y[n]));
        lemma_text_lt_irreflexive(y[n]);
    } else if y.len() < x.len() {
        assert(y.contains(x[n]));
        let j = choose|j: int| 0 <= j < y.len() && y[j] == x[n];
        assert(x[j] == y[j]);
        assert(text_lt(x[j], x[n]));
        lemma_text_lt_irreflexive(x[n]);
    }
    assert(x =~= y);
}

/// Keys of one kind compare as a strict total order.
proof fn lemma_key_order(a: KeyView, b: KeyView, c: KeyView)
    requires
        same_kind(a, b),
        same_kind(b, c),
    ensures
        !key_lt(a, a),
        key_lt(a, b) ==> !key_lt(b, a),
        key_lt(a, b) && key_lt(b, c) ==> key_lt(a, c),
        key_lt(a, b) || key_lt(b, a) || a == b,
{
    match (a, b, c) {
        (KeyView::Text(x), KeyView::Text(y), KeyView::Text(z)) => {
            lemma_text_lt_irreflexive(x);
            lemma_text_lt_asymmetric(x, y);
            lemma_text_lt_transitive(x, y, z);
            lemma_text_lt_total(x, y);
        },
        _ => {},
    }
}

proof fn lemma_ordered(a: KeyView, b: KeyView, c: KeyView, descending: bool)
    requires
        same_kind(a, b),
        same_kind(b, c),
    ensures
        !ordered_lt(a, a, descending),
        ordered_lt(a, b, descending) ==> !ordered_lt(b, a, descending),
        ordered_lt(a, b, descending) && ordered_lt(b, c, descending) ==> ordered_lt(a, c, descending),
        ordered_lt(a, b, descending) || ordered_lt(b, a, descending) || a == b,
{
    lemma_key_order(a, b, c);
    lemma_key_order(c, b, a);
    lemma_key_order(b, a, c);
}

/// Whether `a` sorts before `b`.
pub fn key_less(a: &SortKey, b: &SortKey) -> (r: bool)
    ensures
        r == key_lt(a@, b@),
{
    match (a, b) {
        (SortKey::Text(x), SortKey::Text(y)) => text_less(x, y),
        (SortKey::Instant(x), SortKey::Instant(y)) => match (x, y) {
            (None, Some(_)) => true,
            (Some(p), Some(q)) => *p < *q,
            _ => false,
        },
        _ => false,
    }
}

proof fn lemma_text_lt_skip(a: Seq<char>, b: Seq<char>, i: int)
    requires
        0 <= i <= a.len(),
        i <= b.len(),
        forall|k: int| 0 <= k < i ==> a[k] == b[k],
    ensures
        text_lt(a, b) == text_lt(a.skip(i), b.skip(i)),
    decreases i,
{
    if i > 0 {
        assert(a.drop_first().skip(i - 1) =~= a.skip(i));
        assert(b.drop_first().skip(i - 1) =~= b.skip(i));
        lemma_text_lt_skip(a.drop_first(), b.drop_first(), i - 1);
    } else {
        assert(a.skip(0) =~= a);
        assert(b.skip(0) =~= b);
    }
}

fn text_less(a: &Vec<char>, b: &Vec<char>) -> (r: bool)
    ensures
        r == text_lt(a@, b@),
{
    let mut i: usize = 0;
    while i < a.len() && i < b.len() && a[i] == b[i]
        invariant
            i <= a@.len(),
            i <= b@.len(),
            forall|k: int| 0 <= k < i ==> a@[k] == b@[k],
        decreases a@.len() - i,
    {
        i = i + 1;
    }
    proof {
        lemma_text_lt_skip(a@, b@, i as int);
    }
    if i == a.len() {
        i < b.len()
    } else if i == b.len() {
        false
    } else {
        a[i] < b[i]
    }
}

fn ordered_less(a: &SortKey, b: &SortKey, descending: bool) -> (r: bool)
    ensures
        r == ordered_lt(a@, b@, descending),
{
    if descending {
        key_less(b, a)
    } else {
        key_less(a, b)
    }
}

/// Swaps the elements at `j - 1` and `j`.
fn swap_adjacent<T>(v: &mut Vec<T>, j: usize)
    requires
        0 < j < old(v)@.len(),
    ensures
        final(v)@ == old(v)@.update(j - 1, old(v)@[j as int]).update(j as int, old(v)@[j - 1]),
{
    let x = v.remove(j);
    v.insert(j - 1, x);
    assert(v@ =~= old(v)@.update(j - 1, old(v)@[j as int]).update(j as int, old(v)@[j - 1]));
}

/// Whether the element at `k` belongs before the element at `l` in a stable sort, `p`
/// giving their original positions.
spec fn in_order(keys: Seq<KeyView>, p: Seq<int>, descending: bool, k: int, l: int) -> bool {
    ordered_lt(keys[k], keys[l], descending) || (keys[k] == keys[l] && p[k] < p[l])
}

spec fn key_views(keys: Seq<SortKey>) -> Seq<KeyView> {
    keys.map_values(|k: SortKey| k@)
}

/// Sorts `items` stably by `key`, whose values `keys` holds, one for each item and all
/// of one kind: ascending, or descending when `descending`; items with equal keys keep
/// their order.
pub(crate) fn stable_sort_by_keys<T>(
    items: &mut Vec<T>,
    keys: &mut Vec<SortKey>,
    descending: bool,
    Ghost(key): Ghost<spec_fn(T) -> KeyView>,
)
    requires
        old(items)@.len() == old(keys)@.len(),
        forall|k: int| 0 <= k < old(keys)@.len() ==> #[trigger] old(keys)@[k]@ == key(old(items)@[k]),
        uniform(old(items)@, key),
    ensures
        sorted_by(old(items)@, final(items)@, key, descending),
{
    let n = items.len();
    let ghost oi = items@;
    let ghost mut p: Seq<int> = Seq::new(n as nat, |k: int| k);
    let mut i: usize = 0;
    while i < n
        invariant
            n == items@.len(),
            n == keys@.len(),
            oi.len() == n,
            uniform(oi, key),
            is_permutation(p, n as int),
            forall|k: int| 0 <= k < n ==> #[trigger] items@[k] == oi[p[k]],
            forall|k: int| 0 <= k < n ==> #[trigger] keys@[k]@ == key(items@[k]),
            i <= n,
            forall|k: int| i <= k < n ==> #[trigger] p[k] == k,
            forall|k: int| 0 <= k < i ==> #[trigger] p[k] < i,
            forall|k: int, l: int| 0 <= k < l < i ==> in_order(key_views(keys@), p, descending, k, l),
        decreases n - i,
    {
        let mut j = i;
        while j > 0 && ordered_less(&keys[j], &keys[j - 1], descending)
            invariant
                n == items@.len(),
                n == keys@.len(),
                oi.len() == n,
                uniform(oi, key),
                is_permutation(p, n as int),
                forall|k: int| 0 <= k < n ==> #[trigger] items@[k] == oi[p[k]],
                forall|k: int| 0 <= k < n ==> #[trigger] keys@[k]@ == key(items@[k]),
                i < n,
                j <= i,
                p[j as int] == i,
                forall|k: int| i < k < n ==> #[trigger] p[k] == k,
                forall|k: int| 0 <= k <= i && k != j ==> #[trigger] p[k] < i,
                forall|k: int, l: int|
                    0 <= k < l <= i && k != j && l != j ==> in_order(key_views(keys@), p, descending, k, l),
                forall|l: int| j < l <= i ==> ordered_lt(keys@[j as int]@, #[trigger] keys@[l]@, descending),
            decreases j,
        {
            let ghost old_keys = keys@;
            let ghost old_p = p;
            swap_adjacent(items, j);
            swap_adjacent(keys, j);
            proof {
                p = p.update(j - 1, old_p[j as int]).update(j as int, old_p[j - 1]);
                assert forall|k: int, l: int| 0 <= k < l < n implies #[trigger] p[k] != #[trigger] p[l] by {
                    assert(old_p[k] != old_p[l] || k == l);
                    if k == j - 1 && l == j {
                        assert(old_p[j - 1] != old_p[j as int]);
                    } else if k == j - 1 {
                        assert(old_p[j as int] != old_p[l]);
                    } else if l == j - 1 {
                        assert(old_p[k] != old_p[j as int]);
                    } else if k == j {
                        assert(old_p[j - 1] != old_p[l]);
                    } else if l == j {
                        assert(old_p[k] != old_p[j - 1]);
                    }
                }
                assert forall|k: int, l: int|
                    0 <= k < l <= i && k != j - 1 && l != j - 1 implies in_order(
                    key_views(keys@),
                    p,
                    descending,
                    k,
                    l,
                ) by {
                    if l == j {
                        assert(in_order(key_views(old_keys), old_p, descending, k, j - 1));
                    } else if k == j {
                        assert(in_order(key_views(old_keys), old_p, descending, j - 1, l));
                    } else {
                        assert(in_order(key_views(old_keys), old_p, descending, k, l));
                    }
                }
                assert forall|l: int| j - 1 < l <= i implies ordered_lt(
                    keys@[j - 1]@,
                    #[trigger] keys@[l]@,
                    descending,
                ) by {
                    if l > j {
                        assert(ordered_lt(old_keys[j as int]@, old_keys[l]@, descending));
                    }
                }
            }
            j = j - 1;
        }
        proof {
            let jj = j as int;
            let kv = key_views(keys@);
            assert forall|k: int, l: int| 0 <= k < l <= i implies in_order(kv, p, descending, k, l) by {
                if l == jj {
                    // Everything before the inserted key sorts before it, or equals it and
                    // came earlier.
                    assert(same_kind(kv[k], kv[jj - 1])) by {
                        assert(same_kind(key(oi[p[k]]), key(oi[p[jj - 1]])));
                    }
                    assert(same_kind(kv[jj - 1], kv[jj])) by {
                        assert(same_kind(key(oi[p[jj - 1]]), key(oi[p[jj]])));
                    }
                    assert(same_kind(kv[k], kv[jj])) by {
                        assert(same_kind(key(oi[p[k]]), key(oi[p[jj]])));
                    }
                    lemma_ordered(kv[k], kv[jj - 1], kv[jj], descending);
                    lemma_ordered(kv[jj], kv[jj - 1], kv[k], descending);
                    lemma_ordered(kv[jj - 1], kv[jj], kv[jj], descending);
                    lemma_ordered(kv[k], kv[jj], kv[jj], descending);
                    if k < jj - 1 {
                        assert(in_order(kv, p, descending, k, jj - 1));
                    }
                    assert(p[k] < i);
                } else if k == jj {
                    assert(ordered_lt(kv[jj], kv[l], descending));
                }
            }
            assert forall|k: int| 0 <= k < i + 1 implies #[trigger] p[k] < i + 1 by {
                if k != jj {
                    assert(p[k] < i);
                }
            }
        }
        i = i + 1;
    }
    proof {
        let kv = key_views(keys@);
        assert forall|k: int, l: int| 0 <= k < l < n implies !ordered_lt(
            key(#[trigger] items@[l]),
            key(#[trigger] items@[k]),
            descending,
        ) by {
            assert(in_order(kv, p, descending, k, l));
            assert(same_kind(kv[k], kv[l])) by {
                assert(same_kind(key(oi[p[k]]), key(oi[p[l]])));
            }
            lemma_ordered(kv[k], kv[l], kv[l], descending);
        }
        assert forall|k: int, l: int|
            0 <= k < l < n && key(#[trigger] items@[k]) == key(#[trigger] items@[l]) implies p[k] < p[l] by {
            assert(in_order(kv, p, descending, k, l));
            assert(same_kind(kv[k], kv[l])) by {
                assert(same_kind(key(oi[p[k]]), key(oi[p[l]])));
            }
            lemma_ordered(kv[k], kv[l], kv[l], descending);
        }
        assert(sorted_by_as(oi, items@, key, descending, p));
    }
}

} // verus!
