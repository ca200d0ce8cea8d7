//! The widths and positions that a list of slots resolves to, as mathematics.
//!
//! The widths are found in passes. In each pass every elastic slot that is
//! still open is offered its share of the width that the rigid and the pinned
//! slots leave over. A slot whose share is below its minimum is pinned to the
//! minimum, one whose share is above its maximum to the maximum. Pinned slots
//! take no further part, so the next pass offers the others a different share.
//! When a pass pins nothing, the open slots keep the share they were offered.

use vstd::prelude::*;
use crate::layout::{Layout, Pin, Size, DEFAULT_RATIO};
use crate::layout::laws::lemma_pass_shrinks_open;

verus! {

/// The identifier of a slot.
pub open spec fn slot_id<T: Eq + Copy>(slot: Layout<T>) -> T {
    match slot {
        Layout::Fixed { id, .. } => id,
        Layout::Auto { id, .. } => id,
    }
}

/// The weight by which an elastic slot shares: the one it names, and
/// [`DEFAULT_RATIO`] where it names none.
pub open spec fn weight_of<T: Eq + Copy>(slot: Layout<T>) -> nat {
    match slot {
        Layout::Auto { ratio: Some(r), .. } => r as nat,
        _ => DEFAULT_RATIO as nat,
    }
}

/// Whether a slot's rule is consistent: an elastic slot needs a weight above
/// zero and a minimum that is not above its maximum.
pub open spec fn slot_ok<T: Eq + Copy>(slot: Layout<T>) -> bool {
    match slot {
        Layout::Fixed { .. } => true,
        Layout::Auto { min_width, max_width, .. } => weight_of(slot) > 0 && min_width <= max_width,
    }
}

/// Whether every slot's rule is consistent.
pub open spec fn well_configured<T: Eq + Copy>(slots: Seq<Layout<T>>) -> bool {
    forall|i: int| 0 <= i < slots.len() ==> slot_ok(#[trigger] slots[i])
}

/// Whether two slots share an identifier.
pub open spec fn has_duplicate_ids<T: Eq + Copy>(slots: Seq<Layout<T>>) -> bool {
    exists|i: int, j: int|
        0 <= i < j < slots.len() && slot_id(#[trigger] slots[i]) == slot_id(#[trigger] slots[j])
}

/// The sum of the first `k` numbers of `s`.
pub open spec fn prefix_sum(s: Seq<nat>, k: int) -> nat
    decreases k,
{
    if k <= 0 {
        0
    } else {
        prefix_sum(s, k - 1) + s[k - 1]
    }
}

/// The sum of all numbers of `s`.
pub open spec fn sum(s: Seq<nat>) -> nat {
    prefix_sum(s, s.len() as int)
}

/// Whether slot `slot` still takes a share when it stands at `pin`.
pub open spec fn is_open<T: Eq + Copy>(slot: Layout<T>, pin: Pin) -> bool {
    slot is Auto && pin is Open
}

/// For each slot the width it takes for being rigid: its width, and zero for
/// an elastic slot.
pub open spec fn fixed_widths<T: Eq + Copy>(slots: Seq<Layout<T>>) -> Seq<nat> {
    Seq::new(
        slots.len(),
        |i: int|
            match slots[i] {
                Layout::Fixed { width, .. } => width as nat,
                Layout::Auto { .. } => 0nat,
            },
    )
}

/// For each slot the width it takes for being pinned: the bound it is pinned
/// to, and zero for a rigid or an open slot.
pub open spec fn pinned_widths<T: Eq + Copy>(slots: Seq<Layout<T>>, pins: Seq<Pin>) -> Seq<nat> {
    Seq::new(
        slots.len(),
        |i: int|
            match slots[i] {
                Layout::Fixed { .. } => 0nat,
                Layout::Auto { min_width, max_width, .. } => match pins[i] {
                    Pin::Open => 0nat,
                    Pin::Low => min_width as nat,
                    Pin::High => max_width as nat,
                },
            },
    )
}

/// For each slot the weight with which it shares: its weight while it is
/// open, and zero otherwise.
pub open spec fn open_weights<T: Eq + Copy>(slots: Seq<Layout<T>>, pins: Seq<Pin>) -> Seq<nat> {
    Seq::new(
        slots.len(),
        |i: int|
            if is_open(slots[i], pins[i]) {
                weight_of(slots[i])
            } else {
                0nat
            },
    )
}

/// For each slot one while it is open, and zero otherwise.
pub open spec fn open_flags<T: Eq + Copy>(slots: Seq<Layout<T>>, pins: Seq<Pin>) -> Seq<nat> {
    Seq::new(
        slots.len(),
        |i: int|
            if is_open(slots[i], pins[i]) {
                1nat
            } else {
                0nat
            },
    )
}

/// The number of slots that are still open.
pub open spec fn open_count<T: Eq + Copy>(slots: Seq<Layout<T>>, pins: Seq<Pin>) -> nat {
    sum(open_flags(slots, pins))
}

/// The width that the rigid and the pinned slots leave of `total`; zero where
/// they take more than there is.
pub open spec fn remaining<T: Eq + Copy>(total: nat, slots: Seq<Layout<T>>, pins: Seq<Pin>) -> nat {
    let taken = sum(fixed_widths(slots)) + sum(pinned_widths(slots, pins));
    if taken <= total {
        (total - taken) as nat
    } else {
        0
    }
}

/// The share that the open slot `i` is offered. The weights are divided
/// first, the width after that, and both divisions round down.
pub open spec fn share<T: Eq + Copy>(
    total: nat,
    slots: Seq<Layout<T>>,
    pins: Seq<Pin>,
    i: int,
) -> nat {
    remaining(total, slots, pins) / (sum(open_weights(slots, pins)) / weight_of(slots[i]))
}

/// How slot `i` stands after one pass that started from `pins`.
pub open spec fn pin_after<T: Eq + Copy>(
    total: nat,
    slots: Seq<Layout<T>>,
    pins: Seq<Pin>,
    i: int,
) -> Pin {
    match slots[i] {
        Layout::Fixed { .. } => pins[i],
        Layout::Auto { min_width, max_width, .. } => match pins[i] {
            Pin::Open => {
                let offered = share(total, slots, pins, i);
                if offered < min_width {
                    Pin::Low
                } else if offered > max_width {
                    Pin::High
                } else {
                    Pin::Open
                }
            },
            pinned => pinned,
        },
    }
}

/// How the slots stand after one pass that started from `pins`.
pub open spec fn pass<T: Eq + Copy>(total: nat, slots: Seq<Layout<T>>, pins: Seq<Pin>) -> Seq<Pin> {
    Seq::new(pins.len(), |i: int| pin_after(total, slots, pins, i))
}

/// Whether a pass that starts from `pins` pins nothing.
pub open spec fn settled<T: Eq + Copy>(total: nat, slots: Seq<Layout<T>>, pins: Seq<Pin>) -> bool {
    forall|i: int| 0 <= i < slots.len() ==> #[trigger] pin_after(total, slots, pins, i) == pins[i]
}

/// The state with every one of `n` slots open.
pub open spec fn all_open(n: nat) -> Seq<Pin> {
    Seq::new(n, |i: int| Pin::Open)
}

/// How the slots stand when the passes that start from `pins` have come to
/// rest: the first state among them from which a pass pins nothing.
pub open spec fn solve<T: Eq + Copy>(total: nat, slots: Seq<Layout<T>>, pins: Seq<Pin>) -> Seq<Pin>
    decreases open_count(slots, pins),
    via solve_comes_to_rest::<T>
{
    if pins.len() != slots.len() || settled(total, slots, pins) {
        pins
    } else {
        solve(total, slots, pass(total, slots, pins))
    }
}

#[via_fn]
proof fn solve_comes_to_rest<T: Eq + Copy>(total: nat, slots: Seq<Layout<T>>, pins: Seq<Pin>) {
    if pins.len() == slots.len() && !settled(total, slots, pins) {
        lemma_pass_shrinks_open(total, slots, pins);
    }
}

/// The number of passes that pin a slot, from the state `pins` on.
pub open spec fn passes_to_rest<T: Eq + Copy>(total: nat, slots: Seq<Layout<T>>, pins: Seq<Pin>) -> nat
    decreases open_count(slots, pins),
    via passes_come_to_rest::<T>
{
    if pins.len() != slots.len() || settled(total, slots, pins) {
        0
    } else {
        1 + passes_to_rest(total, slots, pass(total, slots, pins))
    }
}

#[via_fn]
proof fn passes_come_to_rest<T: Eq + Copy>(total: nat, slots: Seq<Layout<T>>, pins: Seq<Pin>) {
    if pins.len() == slots.len() && !settled(total, slots, pins) {
        lemma_pass_shrinks_open(total, slots, pins);
    }
}

/// The number of elastic slots.
pub open spec fn elastic_count<T: Eq + Copy>(slots: Seq<Layout<T>>) -> nat {
    open_count(slots, all_open(slots.len()))
}

/// How the slots stand in the end, when `total` is divided among them.
pub open spec fn final_pins<T: Eq + Copy>(total: nat, slots: Seq<Layout<T>>) -> Seq<Pin> {
    solve(total, slots, all_open(slots.len()))
}

/// The width that slot `i` resolves to: its own width for a rigid slot, the
/// bound it is pinned to for a pinned one, and for a slot that stayed open
/// the share it is offered in the end.
pub open spec fn resolved_width<T: Eq + Copy>(total: nat, slots: Seq<Layout<T>>, i: int) -> nat {
    let pins = final_pins(total, slots);
    match slots[i] {
        Layout::Fixed { width, .. } => width as nat,
        Layout::Auto { min_width, max_width, .. } => match pins[i] {
            Pin::Open => share(total, slots, pins, i),
            Pin::Low => min_width as nat,
            Pin::High => max_width as nat,
        },
    }
}

/// The widths that the slots resolve to, in the order of the slots.
pub open spec fn resolved_widths<T: Eq + Copy>(total: nat, slots: Seq<Layout<T>>) -> Seq<nat> {
    Seq::new(slots.len(), |i: int| resolved_width(total, slots, i))
}

/// The offset at which slot `i` starts: the widths of the slots before it,
/// added up.
pub open spec fn position<T: Eq + Copy>(total: nat, slots: Seq<Layout<T>>, i: int) -> nat {
    prefix_sum(resolved_widths(total, slots), i)
}

/// The most that a slot with a consistent rule can resolve to when `total`
/// is divided: its own width for a rigid slot; for an elastic one the total,
/// or the bound that the total is beyond.
pub open spec fn widest<T: Eq + Copy>(total: nat, slot: Layout<T>) -> nat {
    match slot {
        Layout::Fixed { width, .. } => width as nat,
        Layout::Auto { min_width, max_width, .. } => if total < min_width {
            min_width as nat
        } else if total > max_width {
            max_width as nat
        } else {
            total
        },
    }
}

/// Whether every slot that is pinned to its maximum has a maximum below
/// `total`.
pub open spec fn high_pins_below<T: Eq + Copy>(
    total: nat,
    slots: Seq<Layout<T>>,
    pins: Seq<Pin>,
) -> bool {
    forall|i: int|
        0 <= i < slots.len() && #[trigger] pins[i] == Pin::High ==> (match slots[i] {
            Layout::Fixed { .. } => true,
            Layout::Auto { max_width, .. } => max_width < total,
        })
}

/// Whether the offset of every slot can be held in a `usize`.
pub open spec fn positions_fit<T: Eq + Copy>(total: nat, slots: Seq<Layout<T>>) -> bool {
    forall|i: int| 0 <= i < slots.len() ==> #[trigger] position(total, slots, i) <= usize::MAX
}

/// Whether `sizes` holds, slot by slot and in the order of the slots, the
/// identifier, the resolved width and the offset of each slot.
pub open spec fn is_arrangement<T: Eq + Copy>(
    sizes: Seq<Size<T>>,
    total: nat,
    slots: Seq<Layout<T>>,
) -> bool {
    &&& sizes.len() == slots.len()
    &&& forall|i: int|
        0 <= i < slots.len() ==> {
            &&& (#[trigger] sizes[i]).id == slot_id(slots[i])
            &&& sizes[i].width == resolved_width(total, slots, i)
            &&& sizes[i].pos == position(total, slots, i)
        }
}

} // verus!
