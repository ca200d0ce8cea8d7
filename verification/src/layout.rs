//! Dividing an available width among an ordered list of slots.
//!
//! A slot is either rigid ([`Layout::Fixed`]) or elastic ([`Layout::Auto`]).
//! Elastic slots share what the rigid ones leave over in proportion to their
//! weights, and each stays between its minimum and its maximum width. [`size`]
//! finds the widths and lays the slots out one after another.
//!
//! What the result is, is defined in [`model`]; what holds of it, in [`laws`].

use vstd::prelude::*;
use vstd::laws_eq::obeys_concrete_eq;

use crate::layout::laws::{
    lemma_arrangement_keeps_laws, lemma_pass_shrinks_open, lemma_positions_chain,
    lemma_term_within_prefix_sum,
};
use crate::layout::model::{
    all_open, final_pins, fixed_widths, has_duplicate_ids, is_arrangement, open_count,
    open_weights, pass, pin_after, pinned_widths, position, positions_fit, prefix_sum, remaining,
    resolved_width, settled, share, slot_id, slot_ok, solve, sum, well_configured,
};

pub mod model;
pub mod laws;

verus! {

/// The weight of an elastic slot that names none.
pub const DEFAULT_RATIO: usize = 100;

/// The sizing rule of one slot, with the identifier that the slot is found by.
#[derive(Copy, Clone)]
pub enum Layout<T: Eq + Copy> {
    /// The slot is exactly `width` wide.
    Fixed { id: T, width: usize },
    /// The slot takes a share of the width that is left, weighted by `ratio`
    /// ([`DEFAULT_RATIO`] where it is `None`), and is never narrower than
    /// `min_width` nor wider than `max_width`.
    Auto { id: T, ratio: Option<usize>, min_width: usize, max_width: usize },
}

impl<T: Eq + Copy> Layout<T> {
    /// The identifier of the slot.
    pub fn get_id(&self) -> (id: T)
        ensures
            id == model::slot_id(*self),
    {
        match *self {
            Layout::Fixed { id, .. } => id,
            Layout::Auto { id, .. } => id,
        }
    }

    /// Whether the slot is rigid.
    pub fn is_fixed(&self) -> (b: bool)
        ensures
            b == (*self is Fixed),
    {
        match *self {
            Layout::Fixed { .. } => true,
            Layout::Auto { .. } => false,
        }
    }

    /// Whether the slot is elastic.
    pub fn is_auto(&self) -> (b: bool)
        ensures
            b == (*self is Auto),
    {
        match *self {
            Layout::Fixed { .. } => false,
            Layout::Auto { .. } => true,
        }
    }

    /// The width of a rigid slot; `None` for an elastic one.
    pub fn width(&self) -> (w: Option<usize>)
        ensures
            w == (match *self {
                Layout::Fixed { width, .. } => Some(width),
                Layout::Auto { .. } => None,
            }),
    {
        match *self {
            Layout::Fixed { width, .. } => Some(width),
            _ => None,
        }
    }

    /// The weight that an elastic slot names; `None` where it names none, and
    /// for a rigid slot.
    pub fn ratio(&self) -> (r: Option<usize>)
        ensures
            r == (match *self {
                Layout::Fixed { .. } => None,
                Layout::Auto { ratio, .. } => ratio,
            }),
    {
        match *self {
            Layout::Auto { ratio, .. } => ratio,
            _ => None,
        }
    }
}

/// Where a slot ends up: its width and the offset at which it starts.
pub struct Size<T: Eq + Copy> {
    pub id: T,
    pub width: usize,
    pub pos: usize,
}

impl<T: Eq + Copy> Size<T> {
    /// A slot of the given width that has not been placed yet: it starts at
    /// offset zero.
    pub fn new(id: T, width: usize) -> (s: Self)
        ensures
            s.id == id,
            s.width == width,
            s.pos == 0,
    {
        Size { id, width, pos: 0 }
    }
}

/// Why a list of slots cannot be laid out.
#[derive(Copy, Clone, Debug, PartialEq, Eq, Structural)]
pub enum LayoutError {
    /// Two slots have the same identifier.
    DuplicateId,
    /// An elastic slot has weight zero, or a minimum above its maximum.
    Configuration,
}

/// How an elastic slot stands while the widths are being found.
#[derive(Copy, Clone, Debug, PartialEq, Eq, Structural)]
pub enum Pin {
    /// The slot still takes its share of what is left.
    Open,
    /// The slot's share fell below its minimum: it has its minimum width.
    Low,
    /// The slot's share rose above its maximum: it has its maximum width.
    High,
}

/// Looks for two slots with the same identifier.
fn has_duplicates<T: Eq + Copy>(layout: &Vec<Layout<T>>) -> (found: bool)
    requires
        obeys_concrete_eq::<T>(),
    ensures
        found == has_duplicate_ids(layout@),
{
    let n = layout.len();
    let mut j: usize = 0;
    while j < n
        invariant
            j <= n,
            n == layout@.len(),
            obeys_concrete_eq::<T>(),
            forall|a: int, b: int|
                0 <= a < b < j ==> slot_id(#[trigger] layout@[a]) != slot_id(#[trigger] layout@[b]),
        decreases n - j,
    {
        let id = layout[j].get_id();
        let mut i: usize = 0;
        while i < j
            invariant
                i <= j < n,
                n == layout@.len(),
                obeys_concrete_eq::<T>(),
                id == slot_id(layout@[j as int]),
                forall|a: int| 0 <= a < i ==> slot_id(#[trigger] layout@[a]) != id,
            decreases j - i,
        {
            let same = layout[i].get_id() == id;
            proof {
                reveal(obeys_concrete_eq);
            }
            if same {
                return true;
            }
            i += 1;
        }
        j += 1;
    }
    false
}

/// The weight by which an elastic slot shares.
fn weight_or_default(ratio: Option<usize>) -> (weight: usize)
    ensures
        weight == (match ratio {
            Some(r) => r,
            None => DEFAULT_RATIO,
        }),
{
    match ratio {
        Some(r) => r,
        None => DEFAULT_RATIO,
    }
}

/// Checks the rule of every slot.
fn all_slots_ok<T: Eq + Copy>(layout: &Vec<Layout<T>>) -> (ok: bool)
    ensures
        ok == well_configured(layout@),
{
    let n = layout.len();
    let mut i: usize = 0;
    while i < n
        invariant
            i <= n,
            n == layout@.len(),
            forall|a: int| 0 <= a < i ==> slot_ok(#[trigger] layout@[a]),
        decreases n - i,
    {
        match layout[i] {
            Layout::Fixed { .. } => {},
            Layout::Auto { ratio, min_width, max_width, .. } => {
                if weight_or_default(ratio) == 0 || min_width > max_width {
                    return false;
                }
            },
        }
        i += 1;
    }
    true
}

/// What the rigid and the pinned slots leave of `width`.
fn remaining_width<T: Eq + Copy>(width: usize, layout: &Vec<Layout<T>>, pins: &Vec<Pin>) -> (rest:
    usize)
    requires
        pins@.len() == layout@.len(),
    ensures
        rest == remaining(width as nat, layout@, pins@),
{
    let n = layout.len();
    let ghost fixed = fixed_widths(layout@);
    let ghost pinned = pinned_widths(layout@, pins@);
    let mut rest: usize = width;
    let mut i: usize = 0;
    while i < n
        invariant
            i <= n,
            n == layout@.len(),
            pins@.len() == n,
            fixed == fixed_widths(layout@),
            pinned == pinned_widths(layout@, pins@),
            rest == ({
                let taken = prefix_sum(fixed, i as int) + prefix_sum(pinned, i as int);
                if taken <= width {
                    width - taken
                } else {
                    0
                }
            }),
        decreases n - i,
    {
        let taken: usize = match layout[i] {
            Layout::Fixed { width: w, .. } => w,
            Layout::Auto { min_width, max_width, .. } => match pins[i] {
                Pin::Open => 0,
                Pin::Low => min_width,
                Pin::High => max_width,
            },
        };
        rest = if taken <= rest {
            rest - taken
        } else {
            0
        };
        i += 1;
    }
    rest
}

/// The weights of the open slots, added up.
fn open_weight_sum<T: Eq + Copy>(layout: &Vec<Layout<T>>, pins: &Vec<Pin>) -> (weight: u128)
    requires
        pins@.len() == layout@.len(),
    ensures
        weight == sum(open_weights(layout@, pins@)),
{
    let n = layout.len();
    let ghost weights = open_weights(layout@, pins@);
    let mut weight: u128 = 0;
    let mut i: usize = 0;
    while i < n
        invariant
            i <= n,
            n == layout@.len(),
            pins@.len() == n,
            weights == open_weights(layout@, pins@),
            weight == prefix_sum(weights, i as int),
            weight <= i * 0xffff_ffff_ffff_ffff,
        decreases n - i,
    {
        let w: usize = match layout[i] {
            Layout::Fixed { .. } => 0,
            Layout::Auto { ratio, .. } => match pins[i] {
                Pin::Open => weight_or_default(ratio),
                _ => 0,
            },
        };
        weight = weight + w as u128;
        i += 1;
    }
    weight
}

/// The share of `rest` that falls to a slot of weight `own` when the open
/// slots weigh `weight` together.
fn offered_share(rest: usize, weight: u128, own: usize) -> (offered: usize)
    requires
        0 < own <= weight,
    ensures
        offered == (rest as nat) / ((weight as nat) / (own as nat)),
{
    assert(weight as int / own as int >= 1) by (nonlinear_arith)
        requires
            weight >= own,
            own > 0,
    ;
    let parts: u128 = weight / (own as u128);
    assert(rest as int / parts as int <= rest) by (nonlinear_arith)
        requires
            parts >= 1,
            rest >= 0,
    ;
    let offered: u128 = (rest as u128) / parts;
    offered as usize
}

/// Makes one pass over the slots: offers every open slot its share and pins
/// those whose share is out of bounds. Says whether it pinned any.
fn pin_pass<T: Eq + Copy>(width: usize, layout: &Vec<Layout<T>>, pins: &mut Vec<Pin>) -> (pinned:
    bool)
    requires
        well_configured(layout@),
        old(pins)@.len() == layout@.len(),
    ensures
        final(pins)@ == pass(width as nat, layout@, old(pins)@),
        pinned == !settled(width as nat, layout@, old(pins)@),
{
    let n = layout.len();
    let rest = remaining_width(width, layout, pins);
    let weight = open_weight_sum(layout, pins);
    let ghost before = pins@;
    let ghost total = width as nat;
    let mut pinned = false;
    let mut i: usize = 0;
    while i < n
        invariant
            i <= n,
            n == layout@.len(),
            pins@.len() == n,
            before.len() == n,
            well_configured(layout@),
            total == width as nat,
            rest == remaining(total, layout@, before),
            weight == sum(open_weights(layout@, before)),
            forall|j: int| 0 <= j < i ==> pins@[j] == pin_after(total, layout@, before, j),
            forall|j: int| i <= j < n ==> pins@[j] == before[j],
            pinned <==> exists|j: int|
                0 <= j < i && #[trigger] pin_after(total, layout@, before, j) != before[j],
        decreases n - i,
    {
        match layout[i] {
            Layout::Fixed { .. } => {},
            Layout::Auto { ratio, min_width, max_width, .. } => {
                match pins[i] {
                    Pin::Open => {
                        let w = weight_or_default(ratio);
                        proof {
                            lemma_term_within_prefix_sum(
                                open_weights(layout@, before),
                                i as int,
                                n as int,
                            );
                        }
                        let offered = offered_share(rest, weight, w);
                        if offered < min_width {
                            pins.set(i, Pin::Low);
                            pinned = true;
                        } else if offered > max_width {
                            pins.set(i, Pin::High);
                            pinned = true;
                        }
                    },
                    _ => {},
                }
            },
        }
        i += 1;
    }
    pinned
}

/// Finds how the slots stand in the end: repeats the pass until one pins
/// nothing.
fn settle<T: Eq + Copy>(width: usize, layout: &Vec<Layout<T>>) -> (pins: Vec<Pin>)
    requires
        well_configured(layout@),
    ensures
        pins@ == final_pins(width as nat, layout@),
        pins@.len() == layout@.len(),
{
    let n = layout.len();
    let ghost total = width as nat;
    let mut pins: Vec<Pin> = Vec::new();
    let mut i: usize = 0;
    while i < n
        invariant
            i <= n,
            n == layout@.len(),
            pins@ == all_open(i as nat),
        decreases n - i,
    {
        pins.push(Pin::Open);
        i += 1;
    }
    let mut pinned = true;
    while pinned
        invariant
            n == layout@.len(),
            pins@.len() == n,
            total == width as nat,
            well_configured(layout@),
            solve(total, layout@, pins@) == final_pins(total, layout@),
            !pinned ==> settled(total, layout@, pins@),
        decreases
            open_count(layout@, pins@),
            if pinned { 1int } else { 0int },
    {
        let ghost before = pins@;
        pinned = pin_pass(width, layout, &mut pins);
        proof {
            if pinned {
                lemma_pass_shrinks_open(total, layout@, before);
            } else {
                assert(pins@ =~= before);
            }
        }
    }
    pins
}

/// The width that every slot resolves to, in the order of the slots.
fn resolve<T: Eq + Copy>(width: usize, layout: &Vec<Layout<T>>) -> (widths: Vec<usize>)
    requires
        well_configured(layout@),
    ensures
        widths@.len() == layout@.len(),
        forall|i: int|
            0 <= i < layout@.len() ==> #[trigger] widths@[i] == resolved_width(
                width as nat,
                layout@,
                i,
            ),
{
    let n = layout.len();
    let ghost total = width as nat;
    let pins = settle(width, layout);
    let rest = remaining_width(width, layout, &pins);
    let weight = open_weight_sum(layout, &pins);
    let mut widths: Vec<usize> = Vec::new();
    let mut i: usize = 0;
    while i < n
        invariant
            i <= n,
            n == layout@.len(),
            total == width as nat,
            well_configured(layout@),
            pins@ == final_pins(total, layout@),
            pins@.len() == n,
            rest == remaining(total, layout@, pins@),
            weight == sum(open_weights(layout@, pins@)),
            widths@.len() == i,
            forall|j: int| 0 <= j < i ==> #[trigger] widths@[j] == resolved_width(total, layout@, j),
        decreases n - i,
    {
        let w: usize = match layout[i] {
            Layout::Fixed { width: w, .. } => w,
            Layout::Auto { ratio, min_width, max_width, .. } => match pins[i] {
                Pin::Open => {
                    let own = weight_or_default(ratio);
                    proof {
                        lemma_term_within_prefix_sum(
                            open_weights(layout@, pins@),
                            i as int,
                            n as int,
                        );
                    }
                    offered_share(rest, weight, own)
                },
                Pin::Low => min_width,
                Pin::High => max_width,
            },
        };
        widths.push(w);
        i += 1;
    }
    widths
}

/// Lays the slots out one after another, each with the width that `widths`
/// holds for it. There is no result where an offset is too large for a
/// `usize`.
fn place<T: Eq + Copy>(width: usize, layout: &Vec<Layout<T>>, widths: &Vec<usize>) -> (placed:
    Option<Vec<Size<T>>>)
    requires
        widths@.len() == layout@.len(),
        forall|i: int|
            0 <= i < layout@.len() ==> #[trigger] widths@[i] == resolved_width(
                width as nat,
                layout@,
                i,
            ),
    ensures
        placed is Some <==> positions_fit(width as nat, layout@),
        placed matches Some(sizes) ==> is_arrangement(sizes@, width as nat, layout@),
{
    let n = layout.len();
    let ghost total = width as nat;
    let mut sizes: Vec<Size<T>> = Vec::new();
    let mut pos: usize = 0;
    let mut i: usize = 0;
    while i < n
        invariant
            i <= n,
            n == layout@.len(),
            widths@.len() == n,
            total == width as nat,
            forall|j: int|
                0 <= j < n ==> #[trigger] widths@[j] == resolved_width(total, layout@, j),
            sizes@.len() == i,
            i < n ==> pos == position(total, layout@, i as int),
            forall|j: int| 0 <= j <= i && j < n ==> #[trigger] position(total, layout@, j) <= usize::MAX,
            forall|j: int|
                0 <= j < i ==> {
                    &&& (#[trigger] sizes@[j]).id == slot_id(layout@[j])
                    &&& sizes@[j].width == resolved_width(total, layout@, j)
                    &&& sizes@[j].pos == position(total, layout@, j)
                },
        decreases n - i,
    {
        let w = widths[i];
        let mut slot = Size::new(layout[i].get_id(), w);
        slot.pos = pos;
        sizes.push(slot);
        proof {
            lemma_positions_chain(total, layout@, i as int);
        }
        if i + 1 < n {
            match pos.checked_add(w) {
                Some(next) => {
                    pos = next;
                },
                None => {
                    return None;
                },
            }
        }
        i += 1;
    }
    Some(sizes)
}

/// Divides `width` among the slots of `layout` and lays them out one after
/// another, in the order they are given in.
///
/// Rigid slots get their own width. Elastic slots share what is left in
/// proportion to their weights; a slot whose share is out of its bounds gets
/// the bound instead, and the others then share what that leaves. Widths are
/// never cut to make the slots fit: where the rigid widths and the minimums
/// need more than `width`, the slots reach beyond it.
///
/// Two slots with the same identifier are refused with
/// [`LayoutError::DuplicateId`], before anything else is looked at. An
/// elastic slot with weight zero, or with a minimum above its maximum, is
/// refused with [`LayoutError::Configuration`].
///
/// The offsets are handed out as `usize`, so the offset of every slot has to
/// fit in one. [`checked_size`] asks nothing of the offsets and finds out
/// for itself.
pub fn size<T: Eq + Copy>(width: usize, layout: &Vec<Layout<T>>) -> (res: Result<
    Vec<Size<T>>,
    LayoutError,
>)
    requires
        obeys_concrete_eq::<T>(),
        !has_duplicate_ids(layout@) && well_configured(layout@) ==> positions_fit(
            width as nat,
            layout@,
        ),
    ensures
        has_duplicate_ids(layout@) ==> res == Err::<Vec<Size<T>>, LayoutError>(
            LayoutError::DuplicateId,
        ),
        !has_duplicate_ids(layout@) && !well_configured(layout@) ==> res == Err::<
            Vec<Size<T>>,
            LayoutError,
        >(LayoutError::Configuration),
        !has_duplicate_ids(layout@) && well_configured(layout@) ==> res is Ok,
        res matches Ok(sizes) ==> is_arrangement(sizes@, width as nat, layout@),
        res matches Ok(sizes) ==> sizes@.len() == layout@.len(),
        res matches Ok(sizes) ==> forall|i: int|
            0 <= i < sizes@.len() ==> (#[trigger] sizes@[i]).id == slot_id(layout@[i]),
        res matches Ok(sizes) ==> forall|i: int|
            0 <= i < sizes@.len() ==> (#[trigger] sizes@[i]).pos == (if i == 0 {
                0
            } else {
                sizes@[i - 1].pos + sizes@[i - 1].width
            }),
        res matches Ok(sizes) ==> forall|i: int|
            0 <= i < sizes@.len() ==> (match layout@[i] {
                Layout::Fixed { width: w, .. } => (#[trigger] sizes@[i]).width == w,
                Layout::Auto { min_width, max_width, .. } => min_width <= sizes@[i].width
                    <= max_width,
            }),
{
    if has_duplicates(layout) {
        return Err(LayoutError::DuplicateId);
    }
    if !all_slots_ok(layout) {
        return Err(LayoutError::Configuration);
    }
    let widths = resolve(width, layout);
    let sizes = place(width, layout, &widths).unwrap();
    proof {
        lemma_arrangement_keeps_laws(sizes@, width as nat, layout@);
    }
    Ok(sizes)
}

/// Divides `width` among the slots of `layout` as [`size`] does, for any
/// width and any slots. There is no result where the slots could be laid out
/// but the offset of one of them is too large for a `usize`.
pub fn checked_size<T: Eq + Copy>(width: usize, layout: &Vec<Layout<T>>) -> (res: Option<
    Result<Vec<Size<T>>, LayoutError>,
>)
    requires
        obeys_concrete_eq::<T>(),
    ensures
        res is None <==> !has_duplicate_ids(layout@) && well_configured(layout@) && !positions_fit(
            width as nat,
            layout@,
        ),
        has_duplicate_ids(layout@) ==> res == Some(
            Err::<Vec<Size<T>>, LayoutError>(LayoutError::DuplicateId),
        ),
        !has_duplicate_ids(layout@) && !well_configured(layout@) ==> res == Some(
            Err::<Vec<Size<T>>, LayoutError>(LayoutError::Configuration),
        ),
        !has_duplicate_ids(layout@) && well_configured(layout@) && positions_fit(
            width as nat,
            layout@,
        ) ==> res matches Some(Ok(_)),
        res matches Some(Ok(sizes)) ==> is_arrangement(sizes@, width as nat, layout@),
        res matches Some(Ok(sizes)) ==> sizes@.len() == layout@.len(),
        res matches Some(Ok(sizes)) ==> forall|i: int|
            0 <= i < sizes@.len() ==> (#[trigger] sizes@[i]).id == slot_id(layout@[i]),
        res matches Some(Ok(sizes)) ==> forall|i: int|
            0 <= i < sizes@.len() ==> (#[trigger] sizes@[i]).pos == (if i == 0 {
                0
            } else {
                sizes@[i - 1].pos + sizes@[i - 1].width
            }),
        res matches Some(Ok(sizes)) ==> forall|i: int|
            0 <= i < sizes@.len() ==> (match layout@[i] {
                Layout::Fixed { width: w, .. } => (#[trigger] sizes@[i]).width == w,
                Layout::Auto { min_width, max_width, .. } => min_width <= sizes@[i].width
                    <= max_width,
            }),
{
    if has_duplicates(layout) {
        return Some(Err(LayoutError::DuplicateId));
    }
    if !all_slots_ok(layout) {
        return Some(Err(LayoutError::Configuration));
    }
    let widths = resolve(width, layout);
    match place(width, layout, &widths) {
        Some(sizes) => {
            proof {
                lemma_arrangement_keeps_laws(sizes@, width as nat, layout@);
            }
            Some(Ok(sizes))
        },
        None => None,
    }
}

} // verus!
