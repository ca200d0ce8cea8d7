//! What holds of the widths and positions that [`super::model`] defines.

use vstd::prelude::*;
use crate::layout::{Layout, Pin, Size};
use crate::layout::model::{
    all_open, elastic_count, final_pins, high_pins_below, is_arrangement, is_open, open_count,
    open_flags, open_weights, pass, passes_to_rest, pin_after, position, positions_fit,
    prefix_sum, remaining, resolved_width, resolved_widths, settled, share, slot_id, slot_ok,
    solve, sum, weight_of, well_configured, widest,
};

verus! {

/// Each number is at most the sum of a prefix that holds it.
pub proof fn lemma_term_within_prefix_sum(s: Seq<nat>, i: int, k: int)
    requires
        0 <= i < k,
    ensures
        s[i] <= prefix_sum(s, k),
    decreases k,
{
    if i < k - 1 {
        lemma_term_within_prefix_sum(s, i, k - 1);
    }
}

/// A prefix that is nowhere above another sums to no more.
pub proof fn lemma_prefix_sum_below(a: Seq<nat>, b: Seq<nat>, k: int)
    requires
        forall|j: int| 0 <= j < k ==> a[j] <= b[j],
    ensures
        prefix_sum(a, k) <= prefix_sum(b, k),
    decreases k,
{
    if k > 0 {
        lemma_prefix_sum_below(a, b, k - 1);
    }
}

/// A prefix that is nowhere above another, and below it at `i`, sums to less.
pub proof fn lemma_prefix_sum_strictly_below(a: Seq<nat>, b: Seq<nat>, k: int, i: int)
    requires
        forall|j: int| 0 <= j < k ==> a[j] <= b[j],
        0 <= i < k,
        a[i] < b[i],
    ensures
        prefix_sum(a, k) < prefix_sum(b, k),
    decreases k,
{
    if i < k - 1 {
        lemma_prefix_sum_strictly_below(a, b, k - 1, i);
    } else {
        lemma_prefix_sum_below(a, b, k - 1);
    }
}

/// `k` numbers that are each at most `cap` sum to at most `k` times `cap`.
pub proof fn lemma_prefix_sum_capped(s: Seq<nat>, k: int, cap: nat)
    requires
        0 <= k,
        forall|j: int| 0 <= j < k ==> s[j] <= cap,
    ensures
        prefix_sum(s, k) <= k * cap,
    decreases k,
{
    if k > 0 {
        lemma_prefix_sum_capped(s, k - 1, cap);
        assert((k - 1) * cap + cap == k * cap) by (nonlinear_arith);
    }
}

/// A pass never opens a slot again.
pub proof fn lemma_pass_keeps_pinned<T: Eq + Copy>(
    total: nat,
    slots: Seq<Layout<T>>,
    pins: Seq<Pin>,
    i: int,
)
    requires
        0 <= i < slots.len(),
        pins.len() == slots.len(),
        !is_open(slots[i], pins[i]),
    ensures
        pin_after(total, slots, pins, i) == pins[i],
{
}

/// A pass that pins anything leaves fewer slots open than it found.
pub proof fn lemma_pass_shrinks_open<T: Eq + Copy>(total: nat, slots: Seq<Layout<T>>, pins: Seq<Pin>)
    requires
        pins.len() == slots.len(),
        !settled(total, slots, pins),
    ensures
        open_count(slots, pass(total, slots, pins)) < open_count(slots, pins),
{
    let next = pass(total, slots, pins);
    let i = choose|i: int| 0 <= i < slots.len() && #[trigger] pin_after(total, slots, pins, i) != pins[i];
    let before = open_flags(slots, pins);
    let after = open_flags(slots, next);
    assert forall|j: int| 0 <= j < slots.len() implies after[j] <= before[j] by {
        if !is_open(slots[j], pins[j]) {
            lemma_pass_keeps_pinned(total, slots, pins, j);
        }
    }
    lemma_prefix_sum_strictly_below(after, before, slots.len() as int, i);
}

/// The passes come to rest in a state from which a pass pins nothing.
pub proof fn lemma_solve_settles<T: Eq + Copy>(total: nat, slots: Seq<Layout<T>>, pins: Seq<Pin>)
    requires
        pins.len() == slots.len(),
    ensures
        solve(total, slots, pins).len() == slots.len(),
        settled(total, slots, solve(total, slots, pins)),
    decreases open_count(slots, pins),
{
    if !settled(total, slots, pins) {
        lemma_pass_shrinks_open(total, slots, pins);
        lemma_solve_settles(total, slots, pass(total, slots, pins));
    }
}

/// Every pass that pins a slot takes at least one slot out of the open
/// ones, so no more passes pin a slot than there are open slots.
pub proof fn lemma_passes_within_open_count<T: Eq + Copy>(
    total: nat,
    slots: Seq<Layout<T>>,
    pins: Seq<Pin>,
)
    requires
        pins.len() == slots.len(),
    ensures
        passes_to_rest(total, slots, pins) <= open_count(slots, pins),
    decreases open_count(slots, pins),
{
    if !settled(total, slots, pins) {
        lemma_pass_shrinks_open(total, slots, pins);
        lemma_passes_within_open_count(total, slots, pass(total, slots, pins));
    }
}

/// The widths are found after no more passes that pin a slot than there are
/// elastic slots, and there are no more elastic slots than slots.
pub proof fn lemma_passes_within_elastic_count<T: Eq + Copy>(total: nat, slots: Seq<Layout<T>>)
    ensures
        passes_to_rest(total, slots, all_open(slots.len())) <= elastic_count(slots) <= slots.len(),
{
    let first = all_open(slots.len());
    lemma_passes_within_open_count(total, slots, first);
    lemma_prefix_sum_capped(open_flags(slots, first), slots.len() as int, 1);
}

/// An open slot is offered no more than is left, and so no more than there
/// is in all.
pub proof fn lemma_share_within_total<T: Eq + Copy>(
    total: nat,
    slots: Seq<Layout<T>>,
    pins: Seq<Pin>,
    i: int,
)
    requires
        pins.len() == slots.len(),
        0 <= i < slots.len(),
        is_open(slots[i], pins[i]),
        slot_ok(slots[i]),
    ensures
        share(total, slots, pins, i) <= remaining(total, slots, pins) <= total,
{
    let weights = open_weights(slots, pins);
    let all = sum(weights);
    let own = weight_of(slots[i]);
    let rest = remaining(total, slots, pins);
    lemma_term_within_prefix_sum(weights, i, slots.len() as int);
    assert(rest / (all / own) <= rest) by (nonlinear_arith)
        requires
            all >= own,
            own > 0,
    ;
}

/// A rigid slot resolves to its own width, whatever the total and the other
/// slots are. An elastic slot resolves to a width between its minimum and
/// its maximum.
pub proof fn lemma_width_within_bounds<T: Eq + Copy>(total: nat, slots: Seq<Layout<T>>, i: int)
    requires
        0 <= i < slots.len(),
        slot_ok(slots[i]),
    ensures
        match slots[i] {
            Layout::Fixed { width, .. } => resolved_width(total, slots, i) == width,
            Layout::Auto { min_width, max_width, .. } => min_width <= resolved_width(
                total,
                slots,
                i,
            ) <= max_width,
        },
{
    lemma_solve_settles(total, slots, all_open(slots.len()));
    let pins = final_pins(total, slots);
    assert(pin_after(total, slots, pins, i) == pins[i]);
}

/// The first slot starts at offset zero, and every other slot where the one
/// before it ends.
pub proof fn lemma_positions_chain<T: Eq + Copy>(total: nat, slots: Seq<Layout<T>>, i: int)
    requires
        0 <= i < slots.len(),
    ensures
        position(total, slots, 0) == 0,
        position(total, slots, i + 1) == position(total, slots, i) + resolved_width(
            total,
            slots,
            i,
        ),
{
}

/// What holds of the widths and offsets that slots with consistent rules
/// resolve to, whatever the total is and however large they become: a rigid
/// slot has its own width, an elastic slot a width between its minimum and
/// its maximum, the first slot starts at zero and every other slot where the
/// one before it ends.
pub proof fn lemma_resolution_keeps_laws<T: Eq + Copy>(total: nat, slots: Seq<Layout<T>>)
    requires
        well_configured(slots),
    ensures
        resolved_widths(total, slots).len() == slots.len(),
        forall|i: int|
            0 <= i < slots.len() ==> (match slots[i] {
                Layout::Fixed { width, .. } => #[trigger] resolved_width(total, slots, i) == width,
                Layout::Auto { min_width, max_width, .. } => min_width <= resolved_width(
                    total,
                    slots,
                    i,
                ) <= max_width,
            }),
        forall|i: int|
            0 <= i < slots.len() ==> #[trigger] position(total, slots, i) == (if i == 0 {
                0
            } else {
                position(total, slots, i - 1) + resolved_width(total, slots, i - 1)
            }),
{
    assert forall|i: int| 0 <= i < slots.len() implies (match slots[i] {
        Layout::Fixed { width, .. } => #[trigger] resolved_width(total, slots, i) == width,
        Layout::Auto { min_width, max_width, .. } => min_width <= resolved_width(total, slots, i)
            <= max_width,
    }) by {
        lemma_width_within_bounds(total, slots, i);
    }
    assert forall|i: int| 0 <= i < slots.len() implies #[trigger] position(total, slots, i) == (if i
        == 0 {
        0
    } else {
        position(total, slots, i - 1) + resolved_width(total, slots, i - 1)
    }) by {
        if i > 0 {
            lemma_positions_chain(total, slots, i - 1);
        }
    }
}

/// The sizes that the slots resolve to name the slots in the order in which
/// the slots were given.
pub proof fn lemma_arrangement_keeps_order<T: Eq + Copy>(
    sizes: Seq<Size<T>>,
    total: nat,
    slots: Seq<Layout<T>>,
)
    requires
        is_arrangement(sizes, total, slots),
    ensures
        sizes.map_values(|size: Size<T>| size.id) == slots.map_values(
            |slot: Layout<T>| slot_id(slot),
        ),
{
    assert(sizes.map_values(|size: Size<T>| size.id) =~= slots.map_values(
        |slot: Layout<T>| slot_id(slot),
    ));
}

/// What holds of every list of sizes that the slots resolve to: the sizes
/// come in the order of the slots, each slot starts where the one before it
/// ends and the first at zero, a rigid slot has its own width, and an elastic
/// slot a width between its minimum and its maximum.
pub proof fn lemma_arrangement_keeps_laws<T: Eq + Copy>(
    sizes: Seq<Size<T>>,
    total: nat,
    slots: Seq<Layout<T>>,
)
    requires
        well_configured(slots),
        is_arrangement(sizes, total, slots),
    ensures
        sizes.len() == slots.len(),
        forall|i: int| 0 <= i < sizes.len() ==> (#[trigger] sizes[i]).id == slot_id(slots[i]),
        forall|i: int|
            0 <= i < sizes.len() ==> (#[trigger] sizes[i]).pos == (if i == 0 {
                0
            } else {
                sizes[i - 1].pos + sizes[i - 1].width
            }),
        forall|i: int|
            0 <= i < sizes.len() ==> (match slots[i] {
                Layout::Fixed { width, .. } => (#[trigger] sizes[i]).width == width,
                Layout::Auto { min_width, max_width, .. } => min_width <= sizes[i].width
                    <= max_width,
            }),
{
    assert forall|i: int| 0 <= i < sizes.len() implies (#[trigger] sizes[i]).pos == (if i == 0 {
        0
    } else {
        sizes[i - 1].pos + sizes[i - 1].width
    }) by {
        if i == 0 {
            lemma_positions_chain(total, slots, 0);
        } else {
            lemma_positions_chain(total, slots, i - 1);
        }
    }
    assert forall|i: int| 0 <= i < sizes.len() implies (match slots[i] {
        Layout::Fixed { width, .. } => (#[trigger] sizes[i]).width == width,
        Layout::Auto { min_width, max_width, .. } => min_width <= sizes[i].width <= max_width,
    }) by {
        lemma_width_within_bounds(total, slots, i);
    }
}

/// A slot is pinned to its maximum only where the total is above that
/// maximum: the passes keep it so from the first state to the last.
pub proof fn lemma_solve_keeps_high_pins_below<T: Eq + Copy>(
    total: nat,
    slots: Seq<Layout<T>>,
    pins: Seq<Pin>,
)
    requires
        pins.len() == slots.len(),
        well_configured(slots),
        high_pins_below(total, slots, pins),
    ensures
        high_pins_below(total, slots, solve(total, slots, pins)),
    decreases open_count(slots, pins),
{
    if !settled(total, slots, pins) {
        let next = pass(total, slots, pins);
        assert forall|i: int| 0 <= i < slots.len() && #[trigger] next[i]
            == Pin::High implies (match slots[i] {
            Layout::Fixed { .. } => true,
            Layout::Auto { max_width, .. } => max_width < total,
        }) by {
            if is_open(slots[i], pins[i]) {
                lemma_share_within_total(total, slots, pins, i);
            }
        }
        lemma_pass_shrinks_open(total, slots, pins);
        lemma_solve_keeps_high_pins_below(total, slots, next);
    }
}

/// No slot resolves to more than [`widest`] says: an elastic slot is never
/// wider than the total, unless its minimum is.
pub proof fn lemma_width_at_most_widest<T: Eq + Copy>(total: nat, slots: Seq<Layout<T>>, i: int)
    requires
        0 <= i < slots.len(),
        well_configured(slots),
    ensures
        resolved_width(total, slots, i) <= widest(total, slots[i]),
{
    let first = all_open(slots.len());
    let pins = final_pins(total, slots);
    lemma_width_within_bounds(total, slots, i);
    lemma_solve_settles(total, slots, first);
    lemma_solve_keeps_high_pins_below(total, slots, first);
    if is_open(slots[i], pins[i]) {
        lemma_share_within_total(total, slots, pins, i);
    }
}

/// Where no slot can become wider than `cap`, and as many slots of that
/// width can be held in a `usize`, the offset of every slot can be.
pub proof fn lemma_positions_fit_under_cap<T: Eq + Copy>(
    total: nat,
    slots: Seq<Layout<T>>,
    cap: nat,
)
    requires
        well_configured(slots),
        forall|i: int| 0 <= i < slots.len() ==> widest(total, #[trigger] slots[i]) <= cap,
        slots.len() * cap <= usize::MAX,
    ensures
        positions_fit(total, slots),
{
    let widths = resolved_widths(total, slots);
    assert forall|j: int| 0 <= j < slots.len() implies widths[j] <= cap by {
        lemma_width_at_most_widest(total, slots, j);
    }
    assert forall|i: int| 0 <= i < slots.len() implies #[trigger] position(total, slots, i)
        <= usize::MAX by {
        lemma_prefix_sum_capped(widths, i, cap);
        assert(i * cap <= slots.len() * cap) by (nonlinear_arith)
            requires
                0 <= i < slots.len(),
        ;
    }
}

} // verus!
