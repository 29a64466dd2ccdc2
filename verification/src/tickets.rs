//! The tickets of a sequence of entries: running totals, the total, and
//! how they change when entries are added, taken out or reordered.

use vstd::prelude::*;
use crate::process::ProcessView;

verus! {

/// The tickets of the first `n` entries, added up in order.
pub open spec fn running_total(entries: Seq<ProcessView>, n: int) -> int
    decreases n,
{
    if n <= 0 {
        0
    } else {
        running_total(entries, n - 1) + entries[n - 1].tickets
    }
}

/// The tickets of all entries, added up.
pub open spec fn ticket_total(entries: Seq<ProcessView>) -> int {
    running_total(entries, entries.len() as int)
}

/// Every entry holds at least one ticket.
pub open spec fn all_positive(entries: Seq<ProcessView>) -> bool {
    forall|i: int| 0 <= i < entries.len() ==> (#[trigger] entries[i]).tickets > 0
}

/// No entry holds a negative number of tickets.
pub open spec fn none_negative(entries: Seq<ProcessView>) -> bool {
    forall|i: int| 0 <= i < entries.len() ==> (#[trigger] entries[i]).tickets >= 0
}

/// Two sequences that agree on their first `n` entries have the same
/// running total there.
pub proof fn lemma_running_total_agrees(a: Seq<ProcessView>, b: Seq<ProcessView>, n: int)
    requires
        0 <= n <= a.len(),
        n <= b.len(),
        forall|j: int| 0 <= j < n ==> a[j] == b[j],
    ensures
        running_total(a, n) == running_total(b, n),
    decreases n,
{
    if n > 0 {
        lemma_running_total_agrees(a, b, n - 1);
    }
}

/// Without negative tickets the running total never falls.
pub proof fn lemma_running_total_monotone(entries: Seq<ProcessView>, m: int, n: int)
    requires
        none_negative(entries),
        0 <= m <= n <= entries.len(),
    ensures
        running_total(entries, m) <= running_total(entries, n),
    decreases n,
{
    if m < n {
        lemma_running_total_monotone(entries, m, n - 1);
    }
}

/// Where every entry holds a ticket, the first `n` entries hold at least
/// `n` of them.
pub proof fn lemma_running_total_grows(entries: Seq<ProcessView>, n: int)
    requires
        all_positive(entries),
        0 <= n <= entries.len(),
    ensures
        running_total(entries, n) >= n,
    decreases n,
{
    if n > 0 {
        lemma_running_total_grows(entries, n - 1);
    }
}

/// Taking entry `k` out lowers every running total behind it by the
/// tickets of that entry.
pub proof fn lemma_running_total_remove(entries: Seq<ProcessView>, k: int, n: int)
    requires
        0 <= k < n <= entries.len(),
    ensures
        running_total(entries, n) == running_total(entries.remove(k), n - 1) + entries[k].tickets,
    decreases n,
{
    let rest = entries.remove(k);
    if n == k + 1 {
        lemma_running_total_agrees(entries, rest, k);
    } else {
        lemma_running_total_remove(entries, k, n - 1);
        assert(rest[n - 2] == entries[n - 1]);
    }
}

/// Appending an entry adds its tickets to the total.
pub proof fn lemma_total_push(entries: Seq<ProcessView>, entry: ProcessView)
    ensures
        ticket_total(entries.push(entry)) == ticket_total(entries) + entry.tickets,
{
    lemma_running_total_agrees(entries, entries.push(entry), entries.len() as int);
}

/// The total does not depend on the order of the entries.
pub proof fn lemma_total_of_reordering(a: Seq<ProcessView>, b: Seq<ProcessView>)
    requires
        a.to_multiset() == b.to_multiset(),
    ensures
        ticket_total(a) == ticket_total(b),
    decreases a.len(),
{
    a.to_multiset_ensures();
    b.to_multiset_ensures();
    if a.len() > 0 {
        let last = a.len() - 1;
        let entry = a[last];
        assert(a.contains(entry));
        assert(a.to_multiset().count(entry) > 0);
        assert(b.to_multiset().count(entry) > 0);
        assert(b.contains(entry));
        let k = choose|k: int| 0 <= k < b.len() && b[k] == entry;
        assert(a.remove(last).to_multiset() == b.remove(k).to_multiset());
        lemma_total_of_reordering(a.remove(last), b.remove(k));
        lemma_running_total_remove(a, last, a.len() as int);
        lemma_running_total_remove(b, k, b.len() as int);
    }
}

} // verus!
