//! What holds of the history across its operations.

use vstd::prelude::*;

use crate::common::ItemModel;
use crate::history::{
    added, first_index, lemma_added_valid, lemma_first_index, lemma_first_index_found,
    lemma_promoted_valid, promoted, valid_history,
};

verus! {

/// The `n` most recent entries of `t` (all of them when there are fewer).
pub open spec fn newest(t: Seq<ItemModel>, n: nat) -> Seq<ItemModel> {
    if t.len() > n {
        t.take(n as int)
    } else {
        t
    }
}

/// Whether an entry differs from `x`.
pub open spec fn differs_from(x: ItemModel) -> spec_fn(ItemModel) -> bool {
    |y: ItemModel| y != x
}

/// The entries of `s` other than `x`, in their order.
pub open spec fn without(s: Seq<ItemModel>, x: ItemModel) -> Seq<ItemModel> {
    s.filter(differs_from(x))
}

/// Keeping every element keeps the sequence.
proof fn lemma_filter_keeps_all(s: Seq<ItemModel>, p: spec_fn(ItemModel) -> bool)
    requires
        forall|i: int| 0 <= i < s.len() ==> p(s[i]),
    ensures
        s.filter(p) == s,
    decreases s.len(),
{
    reveal(Seq::filter);
    if s.len() > 0 {
        lemma_filter_keeps_all(s.drop_last(), p);
        assert(s.drop_last().push(s.last()) =~= s);
    }
}

/// Removing the only occurrence of `x` is filtering `x` out.
proof fn lemma_without_unique(s: Seq<ItemModel>, x: ItemModel, i: int)
    requires
        0 <= i < s.len(),
        s[i] == x,
        s.no_duplicates(),
    ensures
        without(s, x) == s.remove(i),
{
    let p = differs_from(x);
    let a = s.take(i);
    let b = seq![x];
    let c = s.skip(i + 1);
    assert(s =~= a + b + c);
    Seq::filter_distributes_over_add(a + b, c, p);
    Seq::filter_distributes_over_add(a, b, p);
    lemma_filter_keeps_all(a, p);
    lemma_filter_keeps_all(c, p);
    reveal_with_fuel(Seq::filter, 2);
    assert(b.filter(p) =~= Seq::<ItemModel>::empty());
    assert(s.remove(i) =~= a + c);
    assert(a.filter(p) + b.filter(p) + c.filter(p) =~= a + c);
}

/// The history after copying `x` holds, most recent first, `x` and then the
/// entries other than `x` in their former order, cut down to the limit: the
/// history is the list of the most recently copied distinct items.
pub proof fn lemma_added_is_most_recent_first(s: Seq<ItemModel>, limit: nat, x: ItemModel)
    requires
        valid_history(s, limit),
    ensures
        added(s, limit, x) == newest(seq![x] + without(s, x), limit),
{
    if s.contains(x) {
        lemma_first_index_found(s, x);
        let i = first_index(s, x);
        lemma_without_unique(s, x, i);
        assert(newest(seq![x] + without(s, x), limit) =~= promoted(s, i));
    } else {
        lemma_filter_keeps_all(s, differs_from(x));
        let t = seq![x] + s;
        if t.len() > limit {
            assert(t.drop_last() =~= t.take(limit as int));
        }
    }
}

/// After copying `x`, `x` is the newest entry of the history (when the
/// history keeps any entry at all).
pub proof fn lemma_added_is_newest(s: Seq<ItemModel>, limit: nat, x: ItemModel)
    requires
        limit > 0 || s.contains(x),
    ensures
        added(s, limit, x).len() > 0,
        added(s, limit, x)[0] == x,
        added(s, limit, x).contains(x),
{
    if s.contains(x) {
        lemma_first_index_found(s, x);
    }
    assert(added(s, limit, x)[0] == x);
}

/// Copying the same item twice in a row leaves the history as copying it once.
pub proof fn lemma_add_idempotent(s: Seq<ItemModel>, limit: nat, x: ItemModel)
    ensures
        added(added(s, limit, x), limit, x) == added(s, limit, x),
{
    let r = added(s, limit, x);
    if s.contains(x) {
        lemma_added_is_newest(s, limit, x);
    }
    if r.len() > 0 {
        assert(r[0] == x);
        lemma_first_index(r, x, 0);
        assert(promoted(r, 0) =~= r);
    } else {
        assert(r =~= Seq::<ItemModel>::empty());
        assert(added(r, limit, x) =~= Seq::<ItemModel>::empty());
    }
}

/// Copying an item that is already in the history only reorders it: the same
/// entries stay, as many as before.
pub proof fn lemma_add_present_keeps_entries(s: Seq<ItemModel>, limit: nat, x: ItemModel)
    requires
        s.contains(x),
    ensures
        added(s, limit, x).len() == s.len(),
        added(s, limit, x).to_multiset() == s.to_multiset(),
{
    lemma_first_index_found(s, x);
    lemma_promote_rearranges(s, first_index(s, x));
}

/// Copying a new item into a full history drops exactly the oldest entry.
pub proof fn lemma_add_new_evicts_oldest(s: Seq<ItemModel>, limit: nat, x: ItemModel)
    requires
        !s.contains(x),
        s.len() == limit,
        limit > 0,
    ensures
        added(s, limit, x) == seq![x] + s.drop_last(),
{
    assert((seq![x] + s).drop_last() =~= seq![x] + s.drop_last());
}

/// Copying a new item into a history that is not full keeps every entry
/// behind the new one.
pub proof fn lemma_add_new_below_limit(s: Seq<ItemModel>, limit: nat, x: ItemModel)
    requires
        !s.contains(x),
        s.len() < limit,
    ensures
        added(s, limit, x) == seq![x] + s,
{
}

/// Every entry after copying `x` is `x` or was there before.
pub proof fn lemma_add_brings_only_x(s: Seq<ItemModel>, limit: nat, x: ItemModel, y: ItemModel)
    requires
        added(s, limit, x).contains(y),
    ensures
        y == x || s.contains(y),
{
    let r = added(s, limit, x);
    let k = choose|k: int| 0 <= k < r.len() && r[k] == y;
    if s.contains(x) {
        lemma_first_index_found(s, x);
        let i = first_index(s, x);
        if k > 0 {
            let j = if k - 1 < i {
                k - 1
            } else {
                k
            };
            assert(r[k] == s[j]);
        }
    } else if k > 0 {
        assert(r[k] == s[k - 1]);
    }
}

/// Moving an entry to the front rearranges the history: the same entries, as
/// many as before, the moved one first and the others in their order.
pub proof fn lemma_promote_rearranges(s: Seq<ItemModel>, pos: int)
    requires
        0 <= pos < s.len(),
    ensures
        promoted(s, pos).len() == s.len(),
        promoted(s, pos)[0] == s[pos],
        promoted(s, pos).drop_first() == s.remove(pos),
        promoted(s, pos).to_multiset() == s.to_multiset(),
{
    let p = promoted(s, pos);
    assert(p.drop_first() =~= s.remove(pos));
    let r = s.remove(pos);
    let a = s[pos];
    assert(p =~= r.insert(0, a));
    vstd::seq_lib::to_multiset_insert(r, 0, a);
    vstd::seq_lib::to_multiset_remove(s, pos);
    vstd::seq_lib::to_multiset_contains(s, a);
    assert(s.to_multiset().remove(a).insert(a) =~= s.to_multiset()) by {
        broadcast use vstd::multiset::group_multiset_axioms;

    }
    assert(p.to_multiset() =~= s.to_multiset());
}

/// Every operation keeps a valid history valid.
pub proof fn lemma_operations_keep_valid(
    s: Seq<ItemModel>,
    limit: nat,
    x: ItemModel,
    pos: int,
)
    requires
        valid_history(s, limit),
        0 <= pos < s.len(),
    ensures
        valid_history(added(s, limit, x), limit),
        valid_history(promoted(s, pos), limit),
        valid_history(Seq::<ItemModel>::empty(), limit),
{
    lemma_added_valid(s, limit, x);
    lemma_promoted_valid(s, limit, pos);
}

} // verus!
