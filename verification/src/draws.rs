//! Which entry a draw selects, and how many draws select each entry.

use vstd::prelude::*;
use vstd::set_lib::{lemma_int_range, set_int_range};
use crate::process::ProcessView;
use crate::tickets::{
    all_positive, lemma_running_total_agrees, lemma_running_total_grows,
    lemma_running_total_monotone, lemma_total_of_reordering, none_negative, running_total,
    ticket_total,
};

verus! {

/// Entry `i` is the one that `draw` selects: it is the first entry, in
/// order, at which the running total exceeds the draw.
pub open spec fn wins(entries: Seq<ProcessView>, draw: int, i: int) -> bool {
    &&& 0 <= i < entries.len()
    &&& running_total(entries, i + 1) > draw
    &&& forall|j: int| 0 <= j < i ==> #[trigger] running_total(entries, j + 1) <= draw
}

/// The draw selects some entry.
pub open spec fn has_winner(entries: Seq<ProcessView>, draw: int) -> bool {
    exists|i: int| wins(entries, draw, i)
}

/// No running total exceeds `draw`.
pub open spec fn no_winner(entries: Seq<ProcessView>, draw: int) -> bool {
    forall|i: int| 0 <= i < entries.len() ==> #[trigger] running_total(entries, i + 1) <= draw
}

/// Some draw from zero up to, but not including, the total selects entry `i`.
pub open spec fn can_win(entries: Seq<ProcessView>, i: int) -> bool {
    exists|draw: int| 0 <= draw < ticket_total(entries) && wins(entries, draw, i)
}

/// The draws from zero up to, but not including, the total that select
/// entry `i`.
pub open spec fn winning_draws(entries: Seq<ProcessView>, i: int) -> Set<int> {
    Set::new(|draw: int| 0 <= draw < ticket_total(entries) && wins(entries, draw, i))
}

/// A draw selects at most one entry.
pub proof fn lemma_winner_unique(entries: Seq<ProcessView>, draw: int, i: int, k: int)
    requires
        wins(entries, draw, i),
        wins(entries, draw, k),
    ensures
        i == k,
{
    if i < k {
        assert(running_total(entries, i + 1) <= draw);
    }
    if k < i {
        assert(running_total(entries, k + 1) <= draw);
    }
}

/// Among the first `n` entries either one is selected by the draw, or none
/// has a running total above it.
proof fn lemma_scan(entries: Seq<ProcessView>, draw: int, n: int)
    requires
        0 <= n <= entries.len(),
    ensures
        (exists|i: int| 0 <= i < n && wins(entries, draw, i)) || (forall|j: int|
            0 <= j < n ==> #[trigger] running_total(entries, j + 1) <= draw),
    decreases n,
{
    if n > 0 {
        lemma_scan(entries, draw, n - 1);
        if exists|i: int| 0 <= i < n - 1 && wins(entries, draw, i) {
            let i = choose|i: int| 0 <= i < n - 1 && wins(entries, draw, i);
            assert(0 <= i < n && wins(entries, draw, i));
        } else if running_total(entries, n) > draw {
            assert(wins(entries, draw, n - 1));
        }
    }
}

/// A draw selects an entry exactly where some running total exceeds it.
pub proof fn lemma_winner_or_none(entries: Seq<ProcessView>, draw: int)
    ensures
        has_winner(entries, draw) <==> !no_winner(entries, draw),
{
    lemma_scan(entries, draw, entries.len() as int);
    if has_winner(entries, draw) {
        let i = choose|i: int| wins(entries, draw, i);
        assert(running_total(entries, i + 1) > draw);
    }
}

/// Every draw below the total of a registry that is not empty selects one
/// of its entries, whatever tickets the entries hold.
pub proof fn lemma_draw_below_total_selects(entries: Seq<ProcessView>, draw: int)
    requires
        entries.len() > 0,
        draw < ticket_total(entries),
    ensures
        has_winner(entries, draw),
{
    lemma_winner_or_none(entries, draw);
    assert(running_total(entries, (entries.len() - 1) + 1) > draw);
}

/// A registry that is not empty and whose entries each hold at least one
/// ticket has a positive total, and every draw from zero up to, but not
/// including, that total selects one of its entries.
pub proof fn lemma_positive_tickets_always_select(entries: Seq<ProcessView>)
    requires
        entries.len() > 0,
        all_positive(entries),
    ensures
        ticket_total(entries) > 0,
        forall|draw: int|
            0 <= draw < ticket_total(entries) ==> #[trigger] has_winner(entries, draw),
{
    lemma_running_total_grows(entries, entries.len() as int);
    assert forall|draw: int| 0 <= draw < ticket_total(entries) implies #[trigger] has_winner(
        entries,
        draw,
    ) by {
        lemma_draw_below_total_selects(entries, draw);
    }
}

/// Without negative tickets, entry `i` is selected by exactly the draws from
/// the running total before it up to, but not including, the running total
/// with it.
pub proof fn lemma_slot(entries: Seq<ProcessView>, draw: int, i: int)
    requires
        none_negative(entries),
        0 <= i < entries.len(),
        0 <= draw,
    ensures
        wins(entries, draw, i) <==> running_total(entries, i) <= draw < running_total(
            entries,
            i + 1,
        ),
{
    if wins(entries, draw, i) {
        if i > 0 {
            assert(running_total(entries, (i - 1) + 1) <= draw);
        }
    }
    if running_total(entries, i) <= draw < running_total(entries, i + 1) {
        assert forall|j: int| 0 <= j < i implies #[trigger] running_total(entries, j + 1)
            <= draw by {
            lemma_running_total_monotone(entries, j + 1, i);
        }
    }
}

/// Without negative tickets, an entry is selected by exactly as many of the
/// draws from zero up to, but not including, the total as it holds tickets:
/// its share of the draws is its share of the tickets.
pub proof fn lemma_share(entries: Seq<ProcessView>, i: int)
    requires
        none_negative(entries),
        0 <= i < entries.len(),
    ensures
        winning_draws(entries, i) == set_int_range(
            running_total(entries, i),
            running_total(entries, i + 1),
        ),
        winning_draws(entries, i).finite(),
        winning_draws(entries, i).len() == entries[i].tickets,
{
    let low = running_total(entries, i);
    let high = running_total(entries, i + 1);
    lemma_running_total_monotone(entries, 0, i);
    lemma_running_total_monotone(entries, i + 1, entries.len() as int);
    assert forall|draw: int|
        winning_draws(entries, i).contains(draw) <==> set_int_range(low, high).contains(
            draw,
        ) by {
        if 0 <= draw {
            lemma_slot(entries, draw, i);
        }
    }
    assert(winning_draws(entries, i) =~= set_int_range(low, high));
    lemma_int_range(low, high);
}

/// The share of an entry does not depend on the order of insertion: in two
/// registries that hold the same entries in any two orders, without
/// negative tickets, the total is the same and an entry is selected by the
/// same number of draws, wherever it stands.
pub proof fn lemma_share_is_order_independent(
    a: Seq<ProcessView>,
    b: Seq<ProcessView>,
    i: int,
    k: int,
)
    requires
        none_negative(a),
        a.to_multiset() == b.to_multiset(),
        0 <= i < a.len(),
        0 <= k < b.len(),
        a[i] == b[k],
    ensures
        ticket_total(a) == ticket_total(b),
        winning_draws(a, i).len() == winning_draws(b, k).len(),
{
    a.to_multiset_ensures();
    b.to_multiset_ensures();
    assert forall|j: int| 0 <= j < b.len() implies (#[trigger] b[j]).tickets >= 0 by {
        assert(b.contains(b[j]));
        assert(b.to_multiset().count(b[j]) > 0);
        assert(a.to_multiset().count(b[j]) > 0);
        assert(a.contains(b[j]));
    }
    lemma_total_of_reordering(a, b);
    lemma_share(a, i);
    lemma_share(b, k);
}

/// The order of insertion decides who wins at a boundary: where two
/// neighbours that each hold a ticket change places, the draw at which the
/// first of them began to win selects the other one instead.
pub proof fn lemma_swap_changes_boundary_winner(entries: Seq<ProcessView>, i: int)
    requires
        none_negative(entries),
        0 <= i,
        i + 1 < entries.len(),
        entries[i].tickets > 0,
        entries[i + 1].tickets > 0,
    ensures
        ({
            let swapped = entries.update(i, entries[i + 1]).update(i + 1, entries[i]);
            let boundary = running_total(entries, i);
            &&& swapped.to_multiset() == entries.to_multiset()
            &&& wins(entries, boundary, i)
            &&& wins(swapped, boundary, i)
            &&& swapped[i] == entries[i + 1]
        }),
{
    let swapped = entries.update(i, entries[i + 1]).update(i + 1, entries[i]);
    let boundary = running_total(entries, i);
    lemma_running_total_monotone(entries, 0, i);
    lemma_slot(entries, boundary, i);
    lemma_running_total_agrees(entries, swapped, i);
    lemma_slot(swapped, boundary, i);
    let first = entries.update(i, entries[i + 1]);
    vstd::seq_lib::to_multiset_update(entries, i, entries[i + 1]);
    vstd::seq_lib::to_multiset_update(first, i + 1, entries[i]);
    entries.to_multiset_ensures();
    assert(swapped.to_multiset() =~= entries.to_multiset());
}

/// In a registry of one entry that holds a ticket, every draw from zero up
/// to, but not including, the total selects that entry.
pub proof fn lemma_single_entry_always_wins(entries: Seq<ProcessView>)
    requires
        entries.len() == 1,
        entries[0].tickets > 0,
    ensures
        forall|draw: int| 0 <= draw < ticket_total(entries) ==> wins(entries, draw, 0),
{
    assert forall|draw: int| 0 <= draw < ticket_total(entries) implies wins(entries, draw, 0) by {
        lemma_slot(entries, draw, 0);
    }
}

} // verus!
