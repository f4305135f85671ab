//! The paint order of a chart: the names of the layers to draw, first to last.
//!
//! The codes of the B variants and those of the A roles make two groups, each
//! in the order of the slots. Each group is drawn after its own frames, and
//! the B group before the A group.

use crate::chart::{chart_of, lemma_wf_slots, Chart};
use crate::code::{
    frame_of, layer_code, lemma_code_injective, lemma_code_is_no_frame, lemma_frame_injective,
    lemma_frame_of_code, trouver_cadre,
};
use crate::slot::{lemma_slot_at, lemma_slot_index, Slot, SLOT_COUNT};
use vstd::prelude::*;

verus! {

/// The codes of one group among the first `k` slots: a slot gives its code
/// where its quantity is significant and its role is of the group.
pub open spec fn codes_upto(chart: Chart, variant_b: bool, k: int) -> Seq<Seq<char>>
    decreases k,
{
    if k <= 0 {
        Seq::empty()
    } else {
        let slot = Slot::at(k - 1);
        let quantity = chart.at(slot);
        let before = codes_upto(chart, variant_b, k - 1);
        if quantity.significant && slot.role.is_variant_b() == variant_b {
            before.push(slot.code(quantity.value))
        } else {
            before
        }
    }
}

/// The codes of one group.
pub open spec fn codes(chart: Chart, variant_b: bool) -> Seq<Seq<char>> {
    codes_upto(chart, variant_b, SLOT_COUNT as int)
}

/// The frames of a list of names: the frame of each name that has one, in the
/// order of the names.
pub open spec fn frames(names: Seq<Seq<char>>) -> Seq<Seq<char>>
    decreases names.len(),
{
    if names.len() == 0 {
        Seq::empty()
    } else {
        let before = frames(names.drop_last());
        match frame_of(names.last()) {
            Some(frame) => before.push(frame),
            None => before,
        }
    }
}

/// The paint order: the frames of the B codes, the B codes, the frames of the
/// A codes, the A codes.
pub open spec fn paint_order(chart: Chart) -> Seq<Seq<char>> {
    let a = codes(chart, false);
    let b = codes(chart, true);
    frames(b) + b + frames(a) + a
}

/// The codes of one group of a chart, in the order of the slots.
pub fn group_codes(chart: &Chart, variant_b: bool) -> (out: Vec<String>)
    requires
        chart.wf(),
    ensures
        out.deep_view() == codes(*chart, variant_b),
{
    let mut out: Vec<String> = Vec::new();
    let mut k: usize = 0;
    while k < SLOT_COUNT
        invariant
            k <= SLOT_COUNT,
            chart.wf(),
            out.deep_view() == codes_upto(*chart, variant_b, k as int),
        decreases SLOT_COUNT - k,
    {
        let slot = Slot::nth(k);
        let quantity = chart.get(slot);
        if quantity.significant && slot.role.variant_b() == variant_b {
            out.push(layer_code(slot, quantity.value));
        }
        k = k + 1;
    }
    out
}

/// The frames of a list of names, in the order of the names.
pub fn frame_names(names: &Vec<String>) -> (out: Vec<String>)
    ensures
        out.deep_view() == frames(names.deep_view()),
{
    let mut out: Vec<String> = Vec::new();
    let mut i: usize = 0;
    while i < names.len()
        invariant
            i <= names.len(),
            out.deep_view() == frames(names.deep_view().take(i as int)),
        decreases names.len() - i,
    {
        assert(names.deep_view().take(i as int + 1).drop_last() =~= names.deep_view().take(
            i as int,
        ));
        match trouver_cadre(names[i].as_str()) {
            Some(frame) => {
                out.push(frame);
            },
            None => {},
        }
        i = i + 1;
    }
    assert(names.deep_view().take(names.len() as int) =~= names.deep_view());
    out
}

impl Chart {
    /// The names of the layers that the chart draws, first to last.
    pub fn paint_order(&self) -> (order: Vec<String>)
        requires
            self.wf(),
        ensures
            order.deep_view() == paint_order(*self),
    {
        let mut a = group_codes(self, false);
        let mut b = group_codes(self, true);
        let mut frames_a = frame_names(&a);
        let mut order = frame_names(&b);
        order.append(&mut b);
        order.append(&mut frames_a);
        order.append(&mut a);
        order
    }
}

/// Computes the chart of a birth date and an age and gives the names of the
/// layers to draw, first to last.
pub fn calcl(j: usize, m: usize, a: usize, age: usize) -> (calques: Vec<String>)
    ensures
        calques.deep_view() == paint_order(chart_of(j as nat, m as nat, a as nat, age as nat)),
{
    Chart::new(j, m, a, age).paint_order()
}

/// How often a name stands in a list.
pub open spec fn occurrences(names: Seq<Seq<char>>, name: Seq<char>) -> nat
    decreases names.len(),
{
    if names.len() == 0 {
        0
    } else {
        occurrences(names.drop_last(), name) + if names.last() == name {
            1nat
        } else {
            0nat
        }
    }
}

/// Whether a slot gives its code to a group.
pub open spec fn drawn_in(chart: Chart, variant_b: bool, slot: Slot) -> bool {
    chart.at(slot).significant && slot.role.is_variant_b() == variant_b
}

/// A name pushed to a list occurs once more, every other name as before.
proof fn lemma_occurrences_push(names: Seq<Seq<char>>, last: Seq<char>, name: Seq<char>)
    ensures
        occurrences(names.push(last), name) == occurrences(names, name) + if last == name {
            1nat
        } else {
            0nat
        },
{
    assert(names.push(last).drop_last() =~= names);
}

/// A name occurs in two lists joined as often as in both together.
proof fn lemma_occurrences_add(a: Seq<Seq<char>>, b: Seq<Seq<char>>, name: Seq<char>)
    ensures
        occurrences(a + b, name) == occurrences(a, name) + occurrences(b, name),
    decreases b.len(),
{
    if b.len() > 0 {
        lemma_occurrences_add(a, b.drop_last(), name);
        assert((a + b).drop_last() =~= a + b.drop_last());
    }
}

/// The frames of a list that grew by one name.
proof fn lemma_frames_push(names: Seq<Seq<char>>, last: Seq<char>)
    ensures
        frames(names.push(last)) == match frame_of(last) {
            Some(frame) => frames(names).push(frame),
            None => frames(names),
        },
{
    assert(names.push(last).drop_last() =~= names);
}

/// Among the codes of the first `k` slots, the code of a slot for a value
/// stands once where the slot is among them, belongs to the group and holds
/// that value, and not at all otherwise. No frame stands among codes.
proof fn lemma_codes_occurrences(chart: Chart, variant_b: bool, k: int, slot: Slot, value: u8)
    requires
        chart.wf(),
        0 <= k <= SLOT_COUNT,
        value < 100,
    ensures
        occurrences(codes_upto(chart, variant_b, k), slot.code(value)) == if slot.index() < k
            && drawn_in(chart, variant_b, slot) && chart.at(slot).value == value {
            1nat
        } else {
            0nat
        },
        occurrences(codes_upto(chart, variant_b, k), slot.frame()) == 0,
    decreases k,
{
    if k > 0 {
        let t = Slot::at(k - 1);
        let q = chart.at(t);
        let before = codes_upto(chart, variant_b, k - 1);
        lemma_codes_occurrences(chart, variant_b, k - 1, slot, value);
        lemma_slot_at(k - 1);
        lemma_slot_index(slot);
        lemma_wf_slots(chart, t);
        if drawn_in(chart, variant_b, t) {
            lemma_occurrences_push(before, t.code(q.value), slot.code(value));
            lemma_occurrences_push(before, t.code(q.value), slot.frame());
            lemma_code_is_no_frame(t, q.value, slot);
            if t.code(q.value) == slot.code(value) {
                lemma_code_injective(t, q.value, slot, value);
            }
        }
    }
}

/// Among the frames of the codes of the first `k` slots, the frame of a slot
/// stands once where the slot is among them, belongs to the group and has a
/// frame, and not at all otherwise. No code stands among frames.
proof fn lemma_frames_occurrences(chart: Chart, variant_b: bool, k: int, slot: Slot, value: u8)
    requires
        chart.wf(),
        0 <= k <= SLOT_COUNT,
        value < 100,
    ensures
        occurrences(frames(codes_upto(chart, variant_b, k)), slot.frame()) == if slot.index() < k
            && drawn_in(chart, variant_b, slot) && slot.framed() {
            1nat
        } else {
            0nat
        },
        occurrences(frames(codes_upto(chart, variant_b, k)), slot.code(value)) == 0,
    decreases k,
{
    if k > 0 {
        let t = Slot::at(k - 1);
        let q = chart.at(t);
        let before = codes_upto(chart, variant_b, k - 1);
        lemma_frames_occurrences(chart, variant_b, k - 1, slot, value);
        lemma_slot_at(k - 1);
        lemma_slot_index(slot);
        if drawn_in(chart, variant_b, t) {
            lemma_frames_push(before, t.code(q.value));
            lemma_frame_of_code(t, q.value);
            if t.framed() {
                lemma_occurrences_push(frames(before), t.frame(), slot.frame());
                lemma_occurrences_push(frames(before), t.frame(), slot.code(value));
                lemma_code_is_no_frame(slot, value, t);
                if t.frame() == slot.frame() {
                    lemma_frame_injective(t, slot);
                }
            }
        }
    }
}

/// Every significant quantity is drawn once and no other is drawn at all:
/// the code of a slot for a value stands in the paint order once where the
/// slot's quantity is significant and has that value, and nowhere otherwise;
/// the slot's frame stands there once where the quantity is significant and
/// the slot has a frame, and nowhere otherwise.
pub proof fn lemma_drawn_once(chart: Chart, slot: Slot, value: u8)
    requires
        chart.wf(),
        value < 100,
    ensures
        occurrences(paint_order(chart), slot.code(value)) == if chart.at(slot).significant
            && chart.at(slot).value == value {
            1nat
        } else {
            0nat
        },
        occurrences(paint_order(chart), slot.frame()) == if chart.at(slot).significant
            && slot.framed() {
            1nat
        } else {
            0nat
        },
{
    let a = codes(chart, false);
    let b = codes(chart, true);
    let n = SLOT_COUNT as int;
    lemma_slot_index(slot);
    lemma_codes_occurrences(chart, false, n, slot, value);
    lemma_codes_occurrences(chart, true, n, slot, value);
    lemma_frames_occurrences(chart, false, n, slot, value);
    lemma_frames_occurrences(chart, true, n, slot, value);
    lemma_occurrences_add(frames(b), b, slot.code(value));
    lemma_occurrences_add(frames(b) + b, frames(a), slot.code(value));
    lemma_occurrences_add(frames(b) + b + frames(a), a, slot.code(value));
    lemma_occurrences_add(frames(b), b, slot.frame());
    lemma_occurrences_add(frames(b) + b, frames(a), slot.frame());
    lemma_occurrences_add(frames(b) + b + frames(a), a, slot.frame());
}

/// How many of the first `k` slots hold a significant quantity.
pub open spec fn drawn_upto(chart: Chart, k: int) -> nat
    decreases k,
{
    if k <= 0 {
        0
    } else {
        drawn_upto(chart, k - 1) + if chart.at(Slot::at(k - 1)).significant {
            1nat
        } else {
            0nat
        }
    }
}

/// How many of the first `k` slots hold a significant quantity and have a
/// frame.
pub open spec fn framed_upto(chart: Chart, k: int) -> nat
    decreases k,
{
    if k <= 0 {
        0
    } else {
        framed_upto(chart, k - 1) + if chart.at(Slot::at(k - 1)).significant && Slot::at(
            k - 1,
        ).framed() {
            1nat
        } else {
            0nat
        }
    }
}

/// The two groups hold one code for each significant quantity, and their
/// frames one frame for each of those whose slot has one.
proof fn lemma_group_lengths(chart: Chart, k: int)
    requires
        0 <= k <= SLOT_COUNT,
    ensures
        codes_upto(chart, false, k).len() + codes_upto(chart, true, k).len() == drawn_upto(
            chart,
            k,
        ),
        frames(codes_upto(chart, false, k)).len() + frames(codes_upto(chart, true, k)).len()
            == framed_upto(chart, k),
        framed_upto(chart, k) <= drawn_upto(chart, k) <= k,
    decreases k,
{
    if k > 0 {
        let t = Slot::at(k - 1);
        let q = chart.at(t);
        lemma_group_lengths(chart, k - 1);
        lemma_frame_of_code(t, q.value);
        lemma_frames_push(codes_upto(chart, false, k - 1), t.code(q.value));
        lemma_frames_push(codes_upto(chart, true, k - 1), t.code(q.value));
    }
}

/// The paint order holds one name for each significant quantity and one
/// more for each of those whose slot has a frame: never more than two
/// names for a quantity.
pub proof fn lemma_paint_order_length(chart: Chart)
    ensures
        paint_order(chart).len() == drawn_upto(chart, SLOT_COUNT as int) + framed_upto(
            chart,
            SLOT_COUNT as int,
        ),
        paint_order(chart).len() <= 2 * drawn_upto(chart, SLOT_COUNT as int),
{
    lemma_group_lengths(chart, SLOT_COUNT as int);
}

} // verus!
