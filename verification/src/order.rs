//! The order in which names are sorted.

use crate::text::to_chars;
use vstd::prelude::*;

verus! {

/// Whether `a` comes strictly before `b` in lexicographic order, character by character.
pub open spec fn precedes(a: Seq<char>, b: Seq<char>) -> bool
    decreases a.len(),
{
    if b.len() == 0 {
        false
    } else if a.len() == 0 {
        true
    } else if a[0] != b[0] {
        a[0] < b[0]
    } else {
        precedes(a.drop_first(), b.drop_first())
    }
}

/// The characters of each name.
pub open spec fn names(ids: Seq<String>) -> Seq<Seq<char>> {
    ids.map_values(|id: String| id@)
}

/// Whether place `p` comes before place `q` once `ids` are sorted: by the names that stand
/// there, and by the places where the names are equal.
pub open spec fn sorted_before(ids: Seq<Seq<char>>, p: int, q: int) -> bool {
    precedes(ids[p], ids[q]) || (ids[p] == ids[q] && p < q)
}

/// Whether `order` lists each place of `ids` once, sorted by the names that stand there and
/// with equal names in the order in which they stand.
pub open spec fn is_sorted_order(ids: Seq<Seq<char>>, order: Seq<usize>) -> bool {
    &&& order.len() == ids.len()
    &&& forall|i: int| 0 <= i < order.len() ==> #[trigger] order[i] < ids.len()
    &&& forall|p: usize| p < ids.len() ==> #[trigger] order.contains(p)
    &&& forall|i: int, j: int|
        0 <= i < j < order.len() ==> sorted_before(
            ids,
            #[trigger] order[i] as int,
            #[trigger] order[j] as int,
        )
}

/// No name comes before itself.
pub proof fn lemma_precedes_irreflexive(a: Seq<char>)
    ensures
        !precedes(a, a),
    decreases a.len(),
{
    if a.len() > 0 {
        lemma_precedes_irreflexive(a.drop_first());
    }
}

/// The order of names is transitive.
pub proof fn lemma_precedes_transitive(a: Seq<char>, b: Seq<char>, c: Seq<char>)
    requires
        precedes(a, b),
        precedes(b, c),
    ensures
        precedes(a, c),
    decreases a.len(),
{
    if a.len() > 0 && a[0] == b[0] && b[0] == c[0] {
        lemma_precedes_transitive(a.drop_first(), b.drop_first(), c.drop_first());
    }
}

/// Of two different names one comes before the other.
pub proof fn lemma_precedes_total(a: Seq<char>, b: Seq<char>)
    ensures
        a == b || precedes(a, b) || precedes(b, a),
    decreases a.len(),
{
    if a.len() == 0 || b.len() == 0 {
        if a.len() == b.len() {
            assert(a =~= b);
        }
    } else if a[0] == b[0] {
        lemma_precedes_total(a.drop_first(), b.drop_first());
        if a.drop_first() == b.drop_first() {
            assert(a =~= seq![a[0]] + a.drop_first());
            assert(b =~= seq![b[0]] + b.drop_first());
        }
    }
}

proof fn lemma_sorted_before_transitive(ids: Seq<Seq<char>>, p: int, q: int, r: int)
    requires
        sorted_before(ids, p, q),
        sorted_before(ids, q, r),
    ensures
        sorted_before(ids, p, r),
{
    if precedes(ids[p], ids[q]) && precedes(ids[q], ids[r]) {
        lemma_precedes_transitive(ids[p], ids[q], ids[r]);
    }
}

/// Whether `a` comes strictly before `b`.
pub fn text_precedes(a: &str, b: &str) -> (before: bool)
    ensures
        before == precedes(a@, b@),
{
    let a_chars: Vec<char> = to_chars(a);
    let b_chars: Vec<char> = to_chars(b);
    let mut i: usize = 0;
    assert(a@.skip(0) =~= a@);
    assert(b@.skip(0) =~= b@);
    while i < a_chars.len() && i < b_chars.len()
        invariant
            a_chars@ == a@,
            b_chars@ == b@,
            i <= a@.len(),
            i <= b@.len(),
            precedes(a@, b@) == precedes(a@.skip(i as int), b@.skip(i as int)),
        decreases a_chars.len() - i,
    {
        let x: char = a_chars[i];
        let y: char = b_chars[i];
        if x != y {
            return x < y;
        }
        assert(a@.skip(i as int).drop_first() =~= a@.skip(i + 1));
        assert(b@.skip(i as int).drop_first() =~= b@.skip(i + 1));
        i = i + 1;
    }
    i < b_chars.len()
}

/// A place where `id` stands among `ids`.
pub fn place_of(ids: &Vec<String>, id: &String) -> (place: Option<usize>)
    ensures
        match place {
            Some(i) => i < ids@.len() && ids@[i as int]@ == id@ && names(ids@).contains(id@),
            None => !names(ids@).contains(id@),
        },
{
    let mut i: usize = 0;
    while i < ids.len()
        invariant
            i <= ids.len(),
            forall|j: int| 0 <= j < i ==> names(ids@)[j] != id@,
        decreases ids.len() - i,
    {
        if ids[i] == *id {
            assert(names(ids@)[i as int] == id@);
            return Some(i);
        }
        i = i + 1;
    }
    None
}

/// Sorts the places of `ids` by the names that stand there; equal names stay in their order.
pub fn sorted_order(ids: &Vec<String>) -> (order: Vec<usize>)
    ensures
        is_sorted_order(names(ids@), order@),
{
    let ghost all = names(ids@);
    let mut order: Vec<usize> = Vec::new();
    let mut k: usize = 0;
    while k < ids.len()
        invariant
            all == names(ids@),
            k <= ids.len(),
            order.len() == k,
            forall|i: int| 0 <= i < k ==> #[trigger] order@[i] < k,
            forall|p: usize| p < k ==> #[trigger] order@.contains(p),
            forall|i: int, j: int|
                0 <= i < j < k ==> sorted_before(
                    all,
                    #[trigger] order@[i] as int,
                    #[trigger] order@[j] as int,
                ),
        decreases ids.len() - k,
    {
        let ghost before = order@;
        let mut place: usize = k;
        let mut searching: bool = true;
        while place > 0 && searching
            invariant
                all == names(ids@),
                k < ids.len(),
                order.len() == k,
                place <= k,
                order@ == before,
                forall|i: int| 0 <= i < k ==> #[trigger] order@[i] < k,
                forall|i: int| place <= i < k ==> precedes(all[k as int], all[#[trigger] order@[i] as int]),
                !searching ==> place > 0 && !precedes(all[k as int], all[order@[place - 1] as int]),
            decreases place + (if searching { 1int } else { 0int }),
        {
            let other: usize = order[place - 1];
            if text_precedes(ids[k].as_str(), ids[other].as_str()) {
                place = place - 1;
            } else {
                searching = false;
            }
        }
        order.insert(place, k);
        proof {
            if place > 0 {
                lemma_precedes_total(all[k as int], all[before[place - 1] as int]);
            }
            assert forall|i: int| 0 <= i < place implies sorted_before(
                all,
                #[trigger] before[i] as int,
                k as int,
            ) by {
                assert(sorted_before(all, before[place - 1] as int, k as int));
                if i < place - 1 {
                    lemma_sorted_before_transitive(
                        all,
                        before[i] as int,
                        before[place - 1] as int,
                        k as int,
                    );
                }
            }
            assert forall|i: int, j: int| 0 <= i < j < k + 1 implies sorted_before(
                all,
                #[trigger] order@[i] as int,
                #[trigger] order@[j] as int,
            ) by {
                let x = if i < place { before[i] } else { before[i - 1] };
                let y = if j < place { before[j] } else { before[j - 1] };
            }
            assert forall|p: usize| p < k + 1 implies #[trigger] order@.contains(p) by {
                if p == k {
                    assert(order@[place as int] == k);
                } else {
                    assert(before.contains(p));
                    let i = choose|i: int| 0 <= i < before.len() && before[i] == p;
                    if i < place {
                        assert(order@[i] == p);
                    } else {
                        assert(order@[i + 1] == p);
                    }
                }
            }
        }
        k = k + 1;
    }
    order
}

/// The names that stand at the given places.
pub open spec fn in_order(ids: Seq<Seq<char>>, order: Seq<usize>) -> Seq<Seq<char>> {
    order.map_values(|p: usize| ids[p as int])
}

/// A list that is put in another order holds each name as often as before.
proof fn lemma_order_keeps_names(ids: Seq<Seq<char>>, order: Seq<usize>)
    requires
        ids.len() <= usize::MAX,
        order.len() == ids.len(),
        order.no_duplicates(),
        forall|i: int| 0 <= i < order.len() ==> #[trigger] order[i] < ids.len(),
        forall|p: usize| p < ids.len() ==> #[trigger] order.contains(p),
    ensures
        in_order(ids, order).to_multiset() == ids.to_multiset(),
    decreases ids.len(),
{
    broadcast use vstd::multiset::group_multiset_axioms;

    let sorted = in_order(ids, order);
    if ids.len() == 0 {
        assert(sorted =~= ids);
    } else {
        let last = (ids.len() - 1) as usize;
        assert(order.contains(last));
        let k = choose|k: int| 0 <= k < order.len() && order[k] == last;
        let fewer = ids.drop_last();
        let rest = order.remove(k);
        assert forall|p: usize| p < fewer.len() implies #[trigger] rest.contains(p) by {
            assert(order.contains(p));
            let m = choose|m: int| 0 <= m < order.len() && order[m] == p;
            if m < k {
                assert(rest[m] == p);
            } else {
                assert(rest[m - 1] == p);
            }
        }
        lemma_order_keeps_names(fewer, rest);
        assert(in_order(fewer, rest) =~= sorted.remove(k));
        assert(fewer.push(ids.last()) =~= ids);
        sorted.to_multiset_ensures();
        fewer.to_multiset_ensures();
        assert(sorted[k] == ids.last());
        assert(sorted.contains(ids.last()));
        assert(sorted.to_multiset() =~= sorted.to_multiset().remove(ids.last()).insert(
            ids.last(),
        ));
    }
}

/// Lists that hold each name equally often hold the same name at each place once they are sorted.
pub proof fn lemma_sorted_names_agree(
    a: Seq<Seq<char>>,
    a_order: Seq<usize>,
    b: Seq<Seq<char>>,
    b_order: Seq<usize>,
)
    requires
        a.to_multiset() == b.to_multiset(),
        a.len() <= usize::MAX,
        is_sorted_order(a, a_order),
        is_sorted_order(b, b_order),
    ensures
        a.len() == b.len(),
        in_order(a, a_order) == in_order(b, b_order),
{
    let leq = |x: Seq<char>, y: Seq<char>| x == y || precedes(x, y);
    a.to_multiset_ensures();
    b.to_multiset_ensures();
    lemma_sorted_order_lists_once(a, a_order);
    lemma_sorted_order_lists_once(b, b_order);
    lemma_order_keeps_names(a, a_order);
    lemma_order_keeps_names(b, b_order);
    assert(vstd::relations::total_ordering(leq)) by {
        assert forall|x: Seq<char>, y: Seq<char>| #[trigger] leq(x, y) && #[trigger] leq(
            y,
            x,
        ) implies x == y by {
            if x != y {
                lemma_precedes_transitive(x, y, x);
                lemma_precedes_irreflexive(x);
            }
        }
        assert forall|x: Seq<char>, y: Seq<char>, z: Seq<char>| #[trigger] leq(x, y) && #[trigger] leq(
            y,
            z,
        ) implies leq(x, z) by {
            if x != y && y != z {
                lemma_precedes_transitive(x, y, z);
            }
        }
        assert forall|x: Seq<char>, y: Seq<char>| #[trigger] leq(x, y) || #[trigger] leq(y, x) by {
            lemma_precedes_total(x, y);
        }
    }
    let x = in_order(a, a_order);
    let y = in_order(b, b_order);
    assert(vstd::relations::sorted_by(x, leq)) by {
        assert forall|i: int, j: int| 0 <= i < j < x.len() implies #[trigger] leq(x[i], x[j]) by {
            assert(sorted_before(a, a_order[i] as int, a_order[j] as int));
        }
    }
    assert(vstd::relations::sorted_by(y, leq)) by {
        assert forall|i: int, j: int| 0 <= i < j < y.len() implies #[trigger] leq(y[i], y[j]) by {
            assert(sorted_before(b, b_order[i] as int, b_order[j] as int));
        }
    }
    vstd::seq_lib::lemma_sorted_unique(x, y, leq);
}

proof fn lemma_sorted_order_lists_once(ids: Seq<Seq<char>>, order: Seq<usize>)
    requires
        is_sorted_order(ids, order),
    ensures
        order.no_duplicates(),
{
    assert forall|i: int, j: int| 0 <= i < order.len() && 0 <= j < order.len() && i
        != j implies order[i] != order[j] by {
        let first = if i < j { i } else { j };
        let second = if i < j { j } else { i };
        assert(sorted_before(ids, order[first] as int, order[second] as int));
        if order[i] == order[j] {
            lemma_precedes_irreflexive(ids[order[i] as int]);
        }
    }
}

} // verus!
