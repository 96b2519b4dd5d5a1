//! The clipboard history: items newest first, each stored once, at most a
//! fixed number of them.

use std::collections::VecDeque;
use vstd::prelude::*;
use vstd::string::StringExecFns;

use crate::common::{ClipboardItem, ItemModel};
use crate::text::{decimal, push_char, push_decimal};

verus! {

/// The values of a sequence of items.
pub open spec fn models(items: Seq<ClipboardItem>) -> Seq<ItemModel> {
    items.map_values(|c: ClipboardItem| c@)
}

/// The index of the first occurrence of `x` in `s` (meaningful when `s` holds `x`).
pub open spec fn first_index(s: Seq<ItemModel>, x: ItemModel) -> int {
    choose|i: int| 0 <= i < s.len() && s[i] == x && forall|j: int| 0 <= j < i ==> s[j] != x
}

/// `s` with the entry at `pos` moved to the front, the others keeping their order.
pub open spec fn promoted(s: Seq<ItemModel>, pos: int) -> Seq<ItemModel> {
    seq![s[pos]] + s.remove(pos)
}

/// The history `s`, limited to `limit` entries, after `x` was copied: an entry
/// equal to `x` is moved to the front; otherwise `x` is put in front and, if
/// that makes one entry too many, the oldest entry is dropped.
pub open spec fn added(s: Seq<ItemModel>, limit: nat, x: ItemModel) -> Seq<ItemModel> {
    if s.contains(x) {
        promoted(s, first_index(s, x))
    } else if s.len() + 1 > limit {
        (seq![x] + s).drop_last()
    } else {
        seq![x] + s
    }
}

/// A history that holds at most `limit` entries, no two of them equal.
pub open spec fn valid_history(s: Seq<ItemModel>, limit: nat) -> bool {
    &&& s.len() <= limit
    &&& s.no_duplicates()
}

/// The history of copied items, most recent first.
pub struct ClipboardHistory {
    history: VecDeque<ClipboardItem>,
    max_size: usize,
}

impl View for ClipboardHistory {
    type V = Seq<ItemModel>;

    closed spec fn view(&self) -> Seq<ItemModel> {
        models(self.history@)
    }
}

/// The position of the first item of `s` equal to `x`.
pub proof fn lemma_first_index(s: Seq<ItemModel>, x: ItemModel, i: int)
    requires
        0 <= i < s.len(),
        s[i] == x,
        forall|j: int| 0 <= j < i ==> s[j] != x,
    ensures
        s.contains(x),
        first_index(s, x) == i,
{
    let k = first_index(s, x);
    assert(0 <= k < s.len() && s[k] == x && forall|j: int| 0 <= j < k ==> s[j] != x);
    if k < i {
        assert(s[k] != x);
    }
    if k > i {
        assert(s[i] != x);
    }
}

impl ClipboardHistory {
    /// The most entries the history keeps.
    pub closed spec fn limit(&self) -> nat {
        self.max_size as nat
    }

    /// The history holds at most `limit()` entries, no two equal.
    pub open spec fn wf(&self) -> bool {
        valid_history(self@, self.limit())
    }

    /// An empty history that keeps at most `max_size` entries.
    pub fn new(max_size: usize) -> (r: Self)
        ensures
            r@ == Seq::<ItemModel>::empty(),
            r.limit() == max_size,
            r.wf(),
    {
        let r = ClipboardHistory { history: VecDeque::with_capacity(max_size), max_size };
        assert(r@ =~= Seq::<ItemModel>::empty());
        r
    }

    /// Records a copied item: an equal entry is moved to the front; otherwise
    /// the item goes in front and the oldest entry is dropped if one too many.
    pub fn add(&mut self, item: ClipboardItem)
        ensures
            final(self)@ == added(old(self)@, old(self).limit(), item@),
            final(self).limit() == old(self).limit(),
            old(self).wf() ==> final(self).wf(),
    {
        let n = self.history.len();
        let mut i: usize = 0;
        while i < n
            invariant
                n == self.history@.len(),
                self.history@ == old(self).history@,
                self.max_size == old(self).max_size,
                i <= n,
                forall|j: int| 0 <= j < i ==> self@[j] != item@,
            decreases n - i,
        {
            if self.history[i].same_as(&item) {
                proof {
                    lemma_first_index(self@, item@, i as int);
                }
                self.promote(i);
                proof {
                    lemma_promoted_valid(old(self)@, old(self).limit(), i as int);
                }
                return;
            }
            i = i + 1;
        }
        assert(!self@.contains(item@));
        self.history.push_front(item);
        assert(self@ =~= seq![item@] + old(self)@);
        if self.history.len() > self.max_size {
            self.history.pop_back();
            assert(self@ =~= (seq![item@] + old(self)@).drop_last());
        }
        proof {
            lemma_added_valid(old(self)@, old(self).limit(), item@);
        }
    }

    /// Moves the entry at `pos` to the front; the others keep their order.
    pub fn promote(&mut self, pos: usize)
        requires
            pos < old(self)@.len(),
        ensures
            final(self)@ == promoted(old(self)@, pos as int),
            final(self).limit() == old(self).limit(),
            old(self).wf() ==> final(self).wf(),
    {
        let promoted_item = self.history.remove(pos).unwrap();
        self.history.push_front(promoted_item);
        assert(self@ =~= promoted(old(self)@, pos as int));
        proof {
            lemma_promoted_valid(old(self)@, old(self).limit(), pos as int);
        }
    }

    /// The entries, most recent first.
    pub fn get_items(&self) -> (r: &VecDeque<ClipboardItem>)
        ensures
            models(r@) == self@,
    {
        &self.history
    }

    /// Removes every entry.
    pub fn clear(&mut self)
        ensures
            final(self)@ == Seq::<ItemModel>::empty(),
            final(self).limit() == old(self).limit(),
            final(self).wf(),
    {
        self.history.clear();
        assert(self@ =~= Seq::<ItemModel>::empty());
    }
}

/// The limit of the history that the picker shows when no snapshot of the
/// running history could be had.
pub const FALLBACK_LIMIT: usize = 25;

/// The history that the picker shows: the snapshot it received, or an empty
/// history of `FALLBACK_LIMIT` entries when there is none.
pub fn history_or_empty(snapshot: Option<ClipboardHistory>) -> (r: ClipboardHistory)
    ensures
        match snapshot {
            Some(h) => r@ == h@ && r.limit() == h.limit(),
            None => r@ == Seq::<ItemModel>::empty() && r.limit() == FALLBACK_LIMIT,
        },
{
    match snapshot {
        Some(h) => h,
        None => ClipboardHistory::new(FALLBACK_LIMIT),
    }
}

/// How an entry is shown in the history table: text as it is, an image as its size.
pub open spec fn table_entry(m: ItemModel) -> Seq<char> {
    match m {
        ItemModel::Text(s) => s,
        ItemModel::Image { width, height, .. } => "Image ("@ + decimal(width as nat) + ", "@
            + decimal(height as nat) + ")"@,
    }
}

/// The row of the history table for the entry `m` at position `pos`.
pub open spec fn table_row(pos: nat, m: ItemModel) -> Seq<char> {
    "\r\n"@ + decimal(pos) + "       | "@ + table_entry(m) + "     "@
}

/// The rows of the history table for the entries `s`, in order.
pub open spec fn table_rows(s: Seq<ItemModel>) -> Seq<char>
    decreases s.len(),
{
    if s.len() == 0 {
        seq![]
    } else {
        table_rows(s.drop_last()) + table_row((s.len() - 1) as nat, s.last())
    }
}

/// The history table: a header, a rule, then one row per entry.
pub open spec fn history_table(s: Seq<ItemModel>) -> Seq<char> {
    "POS     | ITEM     "@ + "\r\n---------------"@ + table_rows(s)
}

/// The table has one row per entry: the table of an empty history is the
/// header and the rule alone, and one more entry adds exactly its row, with
/// its position, at the end.
pub proof fn lemma_table_one_row_per_entry(s: Seq<ItemModel>, m: ItemModel)
    ensures
        history_table(Seq::<ItemModel>::empty()) == "POS     | ITEM     "@ + "\r\n---------------"@,
        history_table(s.push(m)) == history_table(s) + table_row(s.len(), m),
{
    assert(table_rows(Seq::<ItemModel>::empty()) =~= Seq::<char>::empty());
    assert(history_table(Seq::<ItemModel>::empty()) =~= "POS     | ITEM     "@
        + "\r\n---------------"@);
    assert(s.push(m).drop_last() =~= s);
    assert(history_table(s.push(m)) =~= history_table(s) + table_row(s.len(), m));
}

impl ClipboardHistory {
    /// The history as a table of positions and entries.
    pub fn to_display_string(&self) -> (r: String)
        ensures
            r@ == history_table(self@),
    {
        let mut out = String::from_str("POS     | ITEM     ");
        out.append("\r\n---------------");
        let n = self.history.len();
        let mut i: usize = 0;
        while i < n
            invariant
                n == self.history@.len(),
                i <= n,
                out@ == "POS     | ITEM     "@ + "\r\n---------------"@ + table_rows(
                    self@.take(i as int),
                ),
            decreases n - i,
        {
            let ghost before = out@;
            out.append("\r\n");
            push_decimal(&mut out, i);
            out.append("       | ");
            match &self.history[i] {
                ClipboardItem::Image { width, height, .. } => {
                    out.append("Image (");
                    push_decimal(&mut out, *width);
                    out.append(", ");
                    push_decimal(&mut out, *height);
                    out.append(")");
                },
                ClipboardItem::Text(string) => {
                    out.append(string.as_str());
                },
            }
            out.append("     ");
            proof {
                let m = self@[i as int];
                assert(m == self.history@[i as int]@);
                assert(self@.take(i + 1).drop_last() =~= self@.take(i as int));
                assert(self@.take(i + 1).last() == m);
                assert(out@ =~= before + table_row(i as nat, m));
            }
            i = i + 1;
        }
        assert(self@.take(n as int) =~= self@);
        out
    }
}

/// When `s` holds `x`, `first_index` is the position of its first occurrence.
pub proof fn lemma_first_index_found(s: Seq<ItemModel>, x: ItemModel)
    requires
        s.contains(x),
    ensures
        0 <= first_index(s, x) < s.len(),
        s[first_index(s, x)] == x,
        forall|j: int| 0 <= j < first_index(s, x) ==> s[j] != x,
    decreases s.len(),
{
    let i = choose|i: int| 0 <= i < s.len() && s[i] == x;
    if exists|j: int| 0 <= j < i && s[j] == x {
        let j0 = choose|j: int| 0 <= j < i && s[j] == x;
        let t = s.take(i);
        assert(t[j0] == x);
        lemma_first_index_found(t, x);
        let k = first_index(t, x);
        assert(forall|j: int| 0 <= j < k ==> s[j] == t[j]);
        lemma_first_index(s, x, k);
    } else {
        lemma_first_index(s, x, i);
    }
}

/// Moving an entry to the front keeps a valid history valid.
pub proof fn lemma_promoted_valid(s: Seq<ItemModel>, limit: nat, pos: int)
    requires
        0 <= pos < s.len(),
    ensures
        promoted(s, pos).len() == s.len(),
        valid_history(s, limit) ==> valid_history(promoted(s, pos), limit),
{
    let p = promoted(s, pos);
    assert(p.len() == s.len());
    if valid_history(s, limit) {
        // p[0] == s[pos]; p[k] == s[k - 1] for 1 <= k <= pos; p[k] == s[k] for k > pos
        assert forall|a: int, b: int| 0 <= a < p.len() && 0 <= b < p.len() && a != b implies p[a]
            != p[b] by {
            let ia = if a == 0 {
                pos
            } else if a <= pos {
                a - 1
            } else {
                a
            };
            let ib = if b == 0 {
                pos
            } else if b <= pos {
                b - 1
            } else {
                b
            };
            assert(p[a] == s[ia]);
            assert(p[b] == s[ib]);
        }
    }
}

/// Recording an item keeps a valid history valid.
pub proof fn lemma_added_valid(s: Seq<ItemModel>, limit: nat, x: ItemModel)
    ensures
        valid_history(s, limit) ==> valid_history(added(s, limit, x), limit),
{
    if valid_history(s, limit) {
        if s.contains(x) {
            lemma_first_index_found(s, x);
            lemma_promoted_valid(s, limit, first_index(s, x));
        } else {
            let t = seq![x] + s;
            assert(t.no_duplicates()) by {
                assert forall|a: int, b: int| 0 <= a < t.len() && 0 <= b < t.len() && a != b implies t[a]
                    != t[b] by {
                    if a == 0 {
                        assert(s[b - 1] == t[b]);
                    } else if b == 0 {
                        assert(s[a - 1] == t[a]);
                    } else {
                        assert(t[a] == s[a - 1] && t[b] == s[b - 1]);
                    }
                }
            }
            if s.len() + 1 > limit {
                let d = t.drop_last();
                assert forall|a: int, b: int| 0 <= a < d.len() && 0 <= b < d.len() && a != b implies d[a]
                    != d[b] by {
                    assert(d[a] == t[a] && d[b] == t[b]);
                }
            }
        }
    }
}

} // verus!
