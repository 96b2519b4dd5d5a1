//! The decisions of the clipboard watcher. The caller runs the loop: it waits,
//! reads the clipboard, asks the watcher what to do with what it read, and
//! records the item in the shared history when it can lock it.

use vstd::prelude::*;

use crate::common::{ClipboardErr, ClipboardItem, ItemModel};
use crate::history::{added, ClipboardHistory};

verus! {

/// What a read of the clipboard counts as: the item read, or empty text when
/// the clipboard could not be read.
pub open spec fn observed(read: Result<ClipboardItem, ClipboardErr>) -> ItemModel {
    match read {
        Ok(it) => it@,
        Err(_) => ItemModel::Text(Seq::empty()),
    }
}

/// What to do after a read of the clipboard.
pub enum PollAction {
    /// The clipboard still holds the item recorded last: nothing to do.
    Ignore,
    /// The clipboard holds a new item: record it in the history.
    Record(ClipboardItem),
}

/// The state of the clipboard watcher: the item it recorded last.
pub struct Poller {
    last_item: ClipboardItem,
}

/// The item that a read of the clipboard counts as.
fn observed_item(read: Result<ClipboardItem, ClipboardErr>) -> (r: ClipboardItem)
    ensures
        r@ == observed(read),
{
    match read {
        Ok(item) => item,
        Err(_) => {
            let r = ClipboardItem::Text(String::new());
            assert(r@ =~= observed(read));
            r
        },
    }
}

impl Poller {
    /// The item that the watcher counts as already recorded.
    pub closed spec fn last(&self) -> ItemModel {
        self.last_item@
    }

    /// A watcher that starts from what the clipboard held when watching began,
    /// so that this content is not recorded.
    pub fn start(first_read: Result<ClipboardItem, ClipboardErr>) -> (r: Poller)
        ensures
            r.last() == observed(first_read),
    {
        Poller { last_item: observed_item(first_read) }
    }

    /// What to do with a read of the clipboard: record what it counts as,
    /// unless that equals the item recorded last.
    pub fn on_read(&self, read: Result<ClipboardItem, ClipboardErr>) -> (r: PollAction)
        ensures
            observed(read) == self.last() ==> r is Ignore,
            observed(read) != self.last() ==> (r matches PollAction::Record(it) && it@ == observed(
                read,
            )),
    {
        let current = observed_item(read);
        if current.same_as(&self.last_item) {
            PollAction::Ignore
        } else {
            PollAction::Record(current)
        }
    }

    /// Records `item` in the history and remembers it as the item recorded last.
    pub fn record(&mut self, history: &mut ClipboardHistory, item: ClipboardItem)
        ensures
            final(history)@ == added(old(history)@, old(history).limit(), item@),
            final(history).limit() == old(history).limit(),
            old(history).wf() ==> final(history).wf(),
            final(self).last() == item@,
    {
        history.add(item.duplicate());
        self.last_item = item;
    }
}

/// The item recorded last by a watcher that started from `first` and has
/// recorded `recorded` since.
pub open spec fn last_recorded(first: ItemModel, recorded: Seq<ItemModel>) -> ItemModel {
    if recorded.len() == 0 {
        first
    } else {
        recorded.last()
    }
}

/// The items that a watcher started from `first` records over `rounds`, in
/// order. Each round is what its read counts as, and whether the history
/// could be locked in that round: the read is recorded when it differs from
/// the item recorded last and the lock was had.
pub open spec fn recorded_over(first: ItemModel, rounds: Seq<(ItemModel, bool)>) -> Seq<ItemModel>
    decreases rounds.len(),
{
    if rounds.len() == 0 {
        seq![]
    } else {
        let before = recorded_over(first, rounds.drop_last());
        let read = rounds.last().0;
        let locked = rounds.last().1;
        if read != last_recorded(first, before) && locked {
            before.push(read)
        } else {
            before
        }
    }
}

/// One round of the watch loop, as `on_read` and `record` do it: from the
/// state after `rounds`, a read that counts as `read` gives the action that
/// `on_read` promises (`recorded` is the item of `Record`, `None` for
/// `Ignore`), and the item is recorded when the lock is had. The state after
/// the round is the state after `rounds` followed by this round.
pub proof fn lemma_poll_round(
    first: ItemModel,
    rounds: Seq<(ItemModel, bool)>,
    read: ItemModel,
    locked: bool,
    recorded: Option<ItemModel>,
    last_after: ItemModel,
)
    requires
        read == last_recorded(first, recorded_over(first, rounds)) ==> recorded is None,
        read != last_recorded(first, recorded_over(first, rounds)) ==> recorded == Some(read),
        (recorded is Some && locked) ==> last_after == recorded.unwrap(),
        !(recorded is Some && locked) ==> last_after == last_recorded(
            first,
            recorded_over(first, rounds),
        ),
    ensures
        last_after == last_recorded(first, recorded_over(first, rounds.push((read, locked)))),
{
    assert(rounds.push((read, locked)).drop_last() =~= rounds);
}

/// Over any run of the watch loop, the items recorded are reads of rounds in
/// which the lock was had, the first differs from what the clipboard held when
/// watching began, and none equals the item recorded just before it.
pub proof fn lemma_poll_run(first: ItemModel, rounds: Seq<(ItemModel, bool)>)
    ensures
        recorded_over(first, rounds).len() > 0 ==> recorded_over(first, rounds)[0] != first,
        forall|j: int|
            0 <= j < recorded_over(first, rounds).len() - 1 ==> #[trigger] recorded_over(
                first,
                rounds,
            )[j + 1] != recorded_over(first, rounds)[j],
        forall|j: int|
            0 <= j < recorded_over(first, rounds).len() ==> exists|i: int|
                0 <= i < rounds.len() && #[trigger] rounds[i] == (
                    #[trigger] recorded_over(first, rounds)[j],
                    true,
                ),
    decreases rounds.len(),
{
    if rounds.len() > 0 {
        let prev = rounds.drop_last();
        lemma_poll_run(first, prev);
        let before = recorded_over(first, prev);
        let a = recorded_over(first, rounds);
        assert forall|j: int| 0 <= j < a.len() implies exists|i: int|
            0 <= i < rounds.len() && #[trigger] rounds[i] == (#[trigger] a[j], true) by {
            if j < before.len() {
                assert(a[j] == before[j]);
                let i = choose|i: int| 0 <= i < prev.len() && #[trigger] prev[i] == (before[j], true);
                assert(rounds[i] == prev[i]);
            } else {
                let k = rounds.len() - 1;
                assert(rounds[k] == rounds.last());
                assert(rounds[k] == (a[j], true));
            }
        }
        assert forall|j: int| 0 <= j < a.len() - 1 implies #[trigger] a[j + 1] != a[j] by {
            if j + 1 < before.len() {
                assert(a[j + 1] == before[j + 1] && a[j] == before[j]);
            } else {
                assert(a[j] == before.last());
            }
        }
    }
}

/// The state of the text monitor: the clipboard text it saw last.
pub struct TextMonitor {
    previous: String,
}

impl TextMonitor {
    /// The text the monitor saw last.
    pub closed spec fn previous(&self) -> Seq<char> {
        self.previous@
    }

    /// A monitor that starts from the text on the clipboard when it began.
    pub fn start(first: String) -> (r: TextMonitor)
        ensures
            r.previous() == first@,
    {
        TextMonitor { previous: first }
    }

    /// Whether `content` is a change from the text seen last; it becomes the
    /// text seen last.
    pub fn on_text(&mut self, content: String) -> (changed: bool)
        ensures
            changed == (content@ != old(self).previous()),
            final(self).previous() == content@,
    {
        if content != self.previous {
            self.previous = content;
            true
        } else {
            false
        }
    }
}

} // verus!
