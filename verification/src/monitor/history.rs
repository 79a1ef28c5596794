//! The bounded history of monitoring snapshots.
use vstd::prelude::*;

verus! {

/// Snapshots kept in the monitoring history.
pub const HISTORY_LIMIT: usize = 100;

/// Appends `snapshot` to `history`, dropping the oldest entry when that makes the history
/// longer than `HISTORY_LIMIT`: the latest `HISTORY_LIMIT` snapshots are kept, oldest first.
pub fn record_snapshot<T>(history: &mut Vec<T>, snapshot: T)
    requires
        old(history)@.len() < usize::MAX,
    ensures
        final(history)@ == if old(history)@.len() + 1 > HISTORY_LIMIT {
            old(history)@.push(snapshot).drop_first()
        } else {
            old(history)@.push(snapshot)
        },
{
    history.push(snapshot);
    if history.len() > HISTORY_LIMIT {
        history.remove(0);
        assert(history@ =~= old(history)@.push(snapshot).drop_first());
    }
}

/// A history kept by `record_snapshot` never holds more than `HISTORY_LIMIT` snapshots.
pub proof fn lemma_history_bounded<T>(old_history: Seq<T>, snapshot: T)
    requires
        old_history.len() <= HISTORY_LIMIT,
    ensures
        (if old_history.len() + 1 > HISTORY_LIMIT {
            old_history.push(snapshot).drop_first()
        } else {
            old_history.push(snapshot)
        }).len() <= HISTORY_LIMIT,
{
}

} // verus!
