//! The chart: every quantity that a birth date and an age give, each with its
//! value and with the flag that says whether it is drawn.
//!
//! Day, month and year give the inner, the intellect and the outer quantity.
//! Sums of these, reduced again, give the two combinations, the synthesis,
//! the compound and the deep personality. The age refines the last three into
//! a drive, an action and a reaction.

use crate::reduction::{lemma_reduced_bounded, reduce_wide, reduced};
use crate::slot::{Family, Phase, Role, Slot};
use vstd::prelude::*;

verus! {

/// A value of the chart, and whether it is significant: a quantity that is
/// not significant is never drawn.
#[derive(Clone, Copy, PartialEq, Eq, Structural, Debug)]
pub struct Quantity {
    pub value: u8,
    pub significant: bool,
}

/// The quantities of one kind in their four roles. A role that the kind does
/// not have holds the absent quantity.
#[derive(Clone, Copy, PartialEq, Eq, Structural, Debug)]
pub struct Roles {
    pub primary_a: Quantity,
    pub primary_b: Quantity,
    pub secondary_a: Quantity,
    pub secondary_b: Quantity,
}

/// A family that is drawn: its own quantities and their three refinements.
#[derive(Clone, Copy, PartialEq, Eq, Structural, Debug)]
pub struct Refined {
    pub base: Roles,
    pub drive: Roles,
    pub action: Roles,
    pub reaction: Roles,
}

/// The whole chart.
#[derive(Clone, Copy, PartialEq, Eq, Structural, Debug)]
pub struct Chart {
    /// From the day.
    pub inner: Roles,
    /// From the month, with the B variants that a day after the 22nd brings.
    pub intellect: Roles,
    /// From the year.
    pub outer: Roles,
    /// Inner and intellect.
    pub inner_combination: Roles,
    /// Outer and intellect.
    pub outer_combination: Roles,
    /// Inner and outer.
    pub synthesis: Refined,
    /// The two combinations.
    pub compound: Refined,
    /// Inner, intellect and outer.
    pub deep: Refined,
}

/// The largest value that a chart holds.
pub const MAX_VALUE: u8 = 22;

/// The quantity of a role that is not there: zero, and never drawn.
pub open spec fn absent() -> Quantity {
    Quantity { value: 0, significant: false }
}

/// The reduction to 22 of a sum, as a value of the chart.
pub open spec fn kept(sum: int) -> u8 {
    reduced(sum as nat, false) as u8
}

/// The reduction to 9 of a value of the chart.
pub open spec fn full(value: u8) -> u8 {
    reduced(value as nat, true) as u8
}

/// A primary quantity read from an input. It is always significant.
pub open spec fn primary(input: nat) -> Quantity {
    Quantity { value: kept(input as int), significant: true }
}

/// The secondary of a primary: its full reduction, significant where that
/// changes the value.
pub open spec fn secondary(of: Quantity) -> Quantity {
    Quantity { value: full(of.value), significant: full(of.value) != of.value }
}

/// A B variant with the given value beside its A counterpart: significant
/// where it is neither zero nor the counterpart's value.
pub open spec fn variant(value: u8, counterpart: Quantity) -> Quantity {
    Quantity { value, significant: value != counterpart.value && value != 0 }
}

/// The month after the one given, the thirteenth being the first again.
pub open spec fn month_after(month: u8) -> int {
    if month + 1 > 12 {
        1
    } else {
        month + 1
    }
}

/// The quantities that the day or the year gives: a primary and its
/// secondary.
pub open spec fn leaf(input: nat) -> Roles {
    let primary_a = primary(input);
    Roles {
        primary_a,
        primary_b: absent(),
        secondary_a: secondary(primary_a),
        secondary_b: absent(),
    }
}

/// The quantities that the month gives. Only a day after the 22nd brings the
/// B variants, which are read from the following month; the secondary B needs
/// a secondary A other than zero as well. Without them the B variants are
/// zero.
pub open spec fn intellect_of(day: nat, month: nat) -> Roles {
    let primary_a = primary(month);
    let secondary_a = secondary(primary_a);
    let shifted = month_after(primary_a.value);
    let primary_b = if day > 22 {
        kept(shifted)
    } else {
        0
    };
    let secondary_b = if day > 22 && secondary_a.value > 0 {
        reduced(shifted as nat, true) as u8
    } else {
        0
    };
    Roles {
        primary_a,
        primary_b: variant(primary_b, primary_a),
        secondary_a,
        secondary_b: variant(secondary_b, secondary_a),
    }
}

/// A leaf joined with the intellect. The primary A is always significant; the
/// primary B is where the intellect's is; a secondary is where one of its two
/// parts is.
pub open spec fn combination(leaf: Roles, intellect: Roles) -> Roles {
    Roles {
        primary_a: Quantity {
            value: kept(leaf.primary_a.value + intellect.primary_a.value),
            significant: true,
        },
        primary_b: Quantity {
            value: kept(leaf.primary_a.value + intellect.primary_b.value),
            significant: intellect.primary_b.significant,
        },
        secondary_a: Quantity {
            value: kept(leaf.secondary_a.value + intellect.secondary_a.value),
            significant: leaf.secondary_a.significant || intellect.secondary_a.significant,
        },
        secondary_b: Quantity {
            value: kept(leaf.secondary_a.value + intellect.secondary_b.value),
            significant: leaf.secondary_a.significant || intellect.secondary_b.significant,
        },
    }
}

/// Inner and outer joined. There are no B variants.
pub open spec fn synthesis_of(inner: Roles, outer: Roles) -> Roles {
    Roles {
        primary_a: Quantity {
            value: kept(inner.primary_a.value + outer.primary_a.value),
            significant: true,
        },
        primary_b: absent(),
        secondary_a: Quantity {
            value: kept(inner.secondary_a.value + outer.secondary_a.value),
            significant: inner.secondary_a.significant || outer.secondary_a.significant,
        },
        secondary_b: absent(),
    }
}

/// The two combinations joined, role by role.
pub open spec fn compound_of(inner_combination: Roles, outer_combination: Roles) -> Roles {
    Roles {
        primary_a: Quantity {
            value: kept(inner_combination.primary_a.value + outer_combination.primary_a.value),
            significant: true,
        },
        primary_b: Quantity {
            value: kept(inner_combination.primary_b.value + outer_combination.primary_b.value),
            significant: inner_combination.primary_b.significant
                || outer_combination.primary_b.significant,
        },
        secondary_a: Quantity {
            value: kept(inner_combination.secondary_a.value + outer_combination.secondary_a.value),
            significant: inner_combination.secondary_a.significant
                || outer_combination.secondary_a.significant,
        },
        secondary_b: Quantity {
            value: kept(inner_combination.secondary_b.value + outer_combination.secondary_b.value),
            significant: inner_combination.secondary_b.significant
                || outer_combination.secondary_b.significant,
        },
    }
}

/// Inner, intellect and outer joined.
pub open spec fn deep_of(inner: Roles, intellect: Roles, outer: Roles) -> Roles {
    Roles {
        primary_a: Quantity {
            value: kept(
                inner.primary_a.value + intellect.primary_a.value + outer.primary_a.value,
            ),
            significant: true,
        },
        primary_b: Quantity {
            value: kept(
                inner.primary_a.value + intellect.primary_b.value + outer.primary_a.value,
            ),
            significant: intellect.primary_b.significant,
        },
        secondary_a: Quantity {
            value: kept(
                inner.secondary_a.value + intellect.secondary_a.value + outer.secondary_a.value,
            ),
            significant: intellect.secondary_a.significant || inner.secondary_a.significant
                || outer.secondary_a.significant,
        },
        secondary_b: Quantity {
            value: kept(
                inner.secondary_a.value + intellect.secondary_b.value + outer.secondary_a.value,
            ),
            significant: intellect.secondary_b.significant || inner.secondary_a.significant
                || outer.secondary_a.significant,
        },
    }
}

/// The drive of the age: the same value for every family.
pub open spec fn drive_value(age: nat) -> u8 {
    kept(age as int + 1)
}

/// A quantity refined by a step: the step added to it, reduced, and as
/// significant as the quantity itself.
pub open spec fn refined_by(of: Quantity, step: u8) -> Quantity {
    Quantity { value: kept(step + of.value), significant: of.significant }
}

/// The drive of a family: the drive's value in the two A roles, as
/// significant as the family's own quantity there.
pub open spec fn drive_of(base: Roles, drive: u8) -> Roles {
    Roles {
        primary_a: Quantity { value: drive, significant: base.primary_a.significant },
        primary_b: absent(),
        secondary_a: Quantity { value: drive, significant: base.secondary_a.significant },
        secondary_b: absent(),
    }
}

/// Each role refined by the step that stands in the same role.
pub open spec fn roles_refined_by(base: Roles, steps: Roles) -> Roles {
    Roles {
        primary_a: refined_by(base.primary_a, steps.primary_a.value),
        primary_b: refined_by(base.primary_b, steps.primary_b.value),
        secondary_a: refined_by(base.secondary_a, steps.secondary_a.value),
        secondary_b: refined_by(base.secondary_b, steps.secondary_b.value),
    }
}

/// The drive in all four roles, as a step.
pub open spec fn all_roles(value: u8) -> Roles {
    let q = Quantity { value, significant: true };
    Roles { primary_a: q, primary_b: q, secondary_a: q, secondary_b: q }
}

/// A family with its refinements: the action is the family refined by the
/// drive, the reaction the family refined by the action.
pub open spec fn refinements(base: Roles, drive: u8) -> Refined {
    let action = roles_refined_by(base, all_roles(drive));
    Refined { base, drive: drive_of(base, drive), action, reaction: roles_refined_by(base, action) }
}

/// The chart of a birth date and an age.
pub open spec fn chart_of(day: nat, month: nat, year: nat, age: nat) -> Chart {
    let inner = leaf(day);
    let intellect = intellect_of(day, month);
    let outer = leaf(year);
    let inner_combination = combination(inner, intellect);
    let outer_combination = combination(outer, intellect);
    let drive = drive_value(age);
    Chart {
        inner,
        intellect,
        outer,
        inner_combination,
        outer_combination,
        synthesis: refinements(synthesis_of(inner, outer), drive),
        compound: refinements(compound_of(inner_combination, outer_combination), drive),
        deep: refinements(deep_of(inner, intellect, outer), drive),
    }
}

impl Roles {
    /// The quantity in a role.
    pub open spec fn in_role(self, role: Role) -> Quantity {
        match role {
            Role::PrimaryA => self.primary_a,
            Role::PrimaryB => self.primary_b,
            Role::SecondaryA => self.secondary_a,
            Role::SecondaryB => self.secondary_b,
        }
    }

    /// Whether no value exceeds 22.
    pub open spec fn bounded(self) -> bool {
        &&& self.primary_a.value <= MAX_VALUE
        &&& self.primary_b.value <= MAX_VALUE
        &&& self.secondary_a.value <= MAX_VALUE
        &&& self.secondary_b.value <= MAX_VALUE
    }

    /// Whether neither B variant is significant.
    pub open spec fn without_b(self) -> bool {
        !self.primary_b.significant && !self.secondary_b.significant
    }

    /// The quantity in a role.
    pub fn get(&self, role: Role) -> (q: Quantity)
        ensures
            q == self.in_role(role),
    {
        match role {
            Role::PrimaryA => self.primary_a,
            Role::PrimaryB => self.primary_b,
            Role::SecondaryA => self.secondary_a,
            Role::SecondaryB => self.secondary_b,
        }
    }
}

impl Refined {
    /// The quantities of a phase.
    pub open spec fn in_phase(self, phase: Phase) -> Roles {
        match phase {
            Phase::Base => self.base,
            Phase::Drive => self.drive,
            Phase::Action => self.action,
            Phase::Reaction => self.reaction,
        }
    }

    /// Whether the family is as every chart has it: no value exceeds 22, and
    /// the drive has no B variant.
    pub open spec fn wf(self) -> bool {
        &&& self.base.bounded()
        &&& self.drive.bounded()
        &&& self.action.bounded()
        &&& self.reaction.bounded()
        &&& self.drive.without_b()
    }

    /// Whether no phase has a B variant.
    pub open spec fn without_b(self) -> bool {
        &&& self.base.without_b()
        &&& self.drive.without_b()
        &&& self.action.without_b()
        &&& self.reaction.without_b()
    }

    /// The quantities of a phase.
    pub fn get(&self, phase: Phase) -> (roles: Roles)
        ensures
            roles == self.in_phase(phase),
    {
        match phase {
            Phase::Base => self.base,
            Phase::Drive => self.drive,
            Phase::Action => self.action,
            Phase::Reaction => self.reaction,
        }
    }
}

impl Chart {
    /// The quantities of a family that is drawn.
    pub open spec fn of_family(self, family: Family) -> Refined {
        match family {
            Family::Deep => self.deep,
            Family::Synthesis => self.synthesis,
            Family::Compound => self.compound,
        }
    }

    /// The quantity in a slot.
    pub open spec fn at(self, slot: Slot) -> Quantity {
        self.of_family(slot.family).in_phase(slot.phase).in_role(slot.role)
    }

    /// What holds of every chart of a date and an age: no value exceeds 22,
    /// no drive has a B variant, and the synthesis has none at all.
    pub open spec fn wf(self) -> bool {
        &&& self.inner.bounded()
        &&& self.intellect.bounded()
        &&& self.outer.bounded()
        &&& self.inner_combination.bounded()
        &&& self.outer_combination.bounded()
        &&& self.synthesis.wf()
        &&& self.compound.wf()
        &&& self.deep.wf()
        &&& self.synthesis.without_b()
    }

    /// Whether significance is handed down as it should be. The primary A
    /// of every kind is significant. Every other quantity that is made of
    /// others is significant exactly where one of its parts, the primaries A
    /// left aside, is significant: a quantity whose parts have all lost
    /// their significance has lost its own.
    pub open spec fn inherits(self) -> bool {
        let (i, n, o) = (self.inner, self.intellect, self.outer);
        let (ci, co) = (self.inner_combination, self.outer_combination);
        let (s, x, d) = (self.synthesis.base, self.compound.base, self.deep.base);
        &&& i.primary_a.significant && n.primary_a.significant && o.primary_a.significant
        &&& ci.primary_a.significant && co.primary_a.significant
        &&& s.primary_a.significant && x.primary_a.significant && d.primary_a.significant
        &&& ci.primary_b.significant == n.primary_b.significant
        &&& ci.secondary_a.significant == (i.secondary_a.significant || n.secondary_a.significant)
        &&& ci.secondary_b.significant == (i.secondary_a.significant || n.secondary_b.significant)
        &&& co.primary_b.significant == n.primary_b.significant
        &&& co.secondary_a.significant == (o.secondary_a.significant || n.secondary_a.significant)
        &&& co.secondary_b.significant == (o.secondary_a.significant || n.secondary_b.significant)
        &&& s.secondary_a.significant == (i.secondary_a.significant || o.secondary_a.significant)
        &&& x.primary_b.significant == (ci.primary_b.significant || co.primary_b.significant)
        &&& x.secondary_a.significant == (ci.secondary_a.significant
            || co.secondary_a.significant)
        &&& x.secondary_b.significant == (ci.secondary_b.significant
            || co.secondary_b.significant)
        &&& d.primary_b.significant == n.primary_b.significant
        &&& d.secondary_a.significant == (i.secondary_a.significant || n.secondary_a.significant
            || o.secondary_a.significant)
        &&& d.secondary_b.significant == (i.secondary_a.significant || n.secondary_b.significant
            || o.secondary_a.significant)
        &&& forall|slot: Slot|
            slot.charted() ==> (#[trigger] self.at(slot)).significant == self.at(
                Slot { family: slot.family, phase: Phase::Base, role: slot.role },
            ).significant
    }

    /// The quantity in a slot.
    pub fn get(&self, slot: Slot) -> (q: Quantity)
        ensures
            q == self.at(slot),
    {
        let family = match slot.family {
            Family::Deep => &self.deep,
            Family::Synthesis => &self.synthesis,
            Family::Compound => &self.compound,
        };
        family.get(slot.phase).get(slot.role)
    }

    /// Computes the chart of a birth date and an age. The date is not held
    /// against a calendar: any day, month and year is taken as it is.
    pub fn new(day: usize, month: usize, year: usize, age: usize) -> (chart: Chart)
        ensures
            chart == chart_of(day as nat, month as nat, year as nat, age as nat),
            chart.wf(),
            chart.inherits(),
    {
        proof {
            lemma_chart_wf(day as nat, month as nat, year as nat, age as nat);
            lemma_significance_inherited(day as nat, month as nat, year as nat, age as nat);
        }
        let inner = leaf_roles(day);
        let intellect = intellect_roles(day, month);
        let outer = leaf_roles(year);
        let inner_combination = combine(&inner, &intellect);
        let outer_combination = combine(&outer, &intellect);
        let drive = reduce_wide(age as u128 + 1, false);
        Chart {
            inner,
            intellect,
            outer,
            inner_combination,
            outer_combination,
            synthesis: refine(synthesize(&inner, &outer), drive),
            compound: refine(compound(&inner_combination, &outer_combination), drive),
            deep: refine(deepen(&inner, &intellect, &outer), drive),
        }
    }
}

/// The reduction to 22 of the sum of two values.
fn keep2(a: u8, b: u8) -> (r: u8)
    ensures
        r == kept(a + b),
{
    reduce_wide(a as u128 + b as u128, false)
}

/// The reduction to 22 of the sum of three values.
fn keep3(a: u8, b: u8, c: u8) -> (r: u8)
    ensures
        r == kept(a + b + c),
{
    reduce_wide(a as u128 + b as u128 + c as u128, false)
}

fn absent_quantity() -> (q: Quantity)
    ensures
        q == absent(),
{
    Quantity { value: 0, significant: false }
}

fn secondary_of(of: Quantity) -> (q: Quantity)
    ensures
        q == secondary(of),
{
    let value = reduce_wide(of.value as u128, true);
    Quantity { value, significant: value != of.value }
}

fn variant_of(value: u8, counterpart: Quantity) -> (q: Quantity)
    ensures
        q == variant(value, counterpart),
{
    Quantity { value, significant: value != counterpart.value && value != 0 }
}

fn leaf_roles(input: usize) -> (roles: Roles)
    ensures
        roles == leaf(input as nat),
{
    let primary_a = Quantity { value: reduce_wide(input as u128, false), significant: true };
    Roles {
        primary_a,
        primary_b: absent_quantity(),
        secondary_a: secondary_of(primary_a),
        secondary_b: absent_quantity(),
    }
}

fn intellect_roles(day: usize, month: usize) -> (roles: Roles)
    ensures
        roles == intellect_of(day as nat, month as nat),
{
    let primary_a = Quantity { value: reduce_wide(month as u128, false), significant: true };
    let secondary_a = secondary_of(primary_a);
    let shifted: u128 = if primary_a.value as u128 + 1 > 12 {
        1
    } else {
        primary_a.value as u128 + 1
    };
    let primary_b = if day > 22 {
        reduce_wide(shifted, false)
    } else {
        0
    };
    let secondary_b = if day > 22 && secondary_a.value > 0 {
        reduce_wide(shifted, true)
    } else {
        0
    };
    Roles {
        primary_a,
        primary_b: variant_of(primary_b, primary_a),
        secondary_a,
        secondary_b: variant_of(secondary_b, secondary_a),
    }
}

fn combine(leaf: &Roles, intellect: &Roles) -> (roles: Roles)
    ensures
        roles == combination(*leaf, *intellect),
{
    Roles {
        primary_a: Quantity {
            value: keep2(leaf.primary_a.value, intellect.primary_a.value),
            significant: true,
        },
        primary_b: Quantity {
            value: keep2(leaf.primary_a.value, intellect.primary_b.value),
            significant: intellect.primary_b.significant,
        },
        secondary_a: Quantity {
            value: keep2(leaf.secondary_a.value, intellect.secondary_a.value),
            significant: leaf.secondary_a.significant || intellect.secondary_a.significant,
        },
        secondary_b: Quantity {
            value: keep2(leaf.secondary_a.value, intellect.secondary_b.value),
            significant: leaf.secondary_a.significant || intellect.secondary_b.significant,
        },
    }
}

fn synthesize(inner: &Roles, outer: &Roles) -> (roles: Roles)
    ensures
        roles == synthesis_of(*inner, *outer),
{
    Roles {
        primary_a: Quantity {
            value: keep2(inner.primary_a.value, outer.primary_a.value),
            significant: true,
        },
        primary_b: absent_quantity(),
        secondary_a: Quantity {
            value: keep2(inner.secondary_a.value, outer.secondary_a.value),
            significant: inner.secondary_a.significant || outer.secondary_a.significant,
        },
        secondary_b: absent_quantity(),
    }
}

fn compound(inner_combination: &Roles, outer_combination: &Roles) -> (roles: Roles)
    ensures
        roles == compound_of(*inner_combination, *outer_combination),
{
    Roles {
        primary_a: Quantity {
            value: keep2(inner_combination.primary_a.value, outer_combination.primary_a.value),
            significant: true,
        },
        primary_b: Quantity {
            value: keep2(inner_combination.primary_b.value, outer_combination.primary_b.value),
            significant: inner_combination.primary_b.significant
                || outer_combination.primary_b.significant,
        },
        secondary_a: Quantity {
            value: keep2(inner_combination.secondary_a.value, outer_combination.secondary_a.value),
            significant: inner_combination.secondary_a.significant
                || outer_combination.secondary_a.significant,
        },
        secondary_b: Quantity {
            value: keep2(inner_combination.secondary_b.value, outer_combination.secondary_b.value),
            significant: inner_combination.secondary_b.significant
                || outer_combination.secondary_b.significant,
        },
    }
}

fn deepen(inner: &Roles, intellect: &Roles, outer: &Roles) -> (roles: Roles)
    ensures
        roles == deep_of(*inner, *intellect, *outer),
{
    Roles {
        primary_a: Quantity {
            value: keep3(inner.primary_a.value, intellect.primary_a.value, outer.primary_a.value),
            significant: true,
        },
        primary_b: Quantity {
            value: keep3(inner.primary_a.value, intellect.primary_b.value, outer.primary_a.value),
            significant: intellect.primary_b.significant,
        },
        secondary_a: Quantity {
            value: keep3(
                inner.secondary_a.value,
                intellect.secondary_a.value,
                outer.secondary_a.value,
            ),
            significant: intellect.secondary_a.significant || inner.secondary_a.significant
                || outer.secondary_a.significant,
        },
        secondary_b: Quantity {
            value: keep3(
                inner.secondary_a.value,
                intellect.secondary_b.value,
                outer.secondary_a.value,
            ),
            significant: intellect.secondary_b.significant || inner.secondary_a.significant
                || outer.secondary_a.significant,
        },
    }
}

fn refine_quantity(of: Quantity, step: u8) -> (q: Quantity)
    ensures
        q == refined_by(of, step),
{
    Quantity { value: keep2(step, of.value), significant: of.significant }
}

fn refine_roles(base: &Roles, steps: &Roles) -> (roles: Roles)
    ensures
        roles == roles_refined_by(*base, *steps),
{
    Roles {
        primary_a: refine_quantity(base.primary_a, steps.primary_a.value),
        primary_b: refine_quantity(base.primary_b, steps.primary_b.value),
        secondary_a: refine_quantity(base.secondary_a, steps.secondary_a.value),
        secondary_b: refine_quantity(base.secondary_b, steps.secondary_b.value),
    }
}

fn refine(base: Roles, drive: u8) -> (family: Refined)
    ensures
        family == refinements(base, drive),
{
    let step = Quantity { value: drive, significant: true };
    let steps = Roles { primary_a: step, primary_b: step, secondary_a: step, secondary_b: step };
    let action = refine_roles(&base, &steps);
    Refined {
        base,
        drive: Roles {
            primary_a: Quantity { value: drive, significant: base.primary_a.significant },
            primary_b: absent_quantity(),
            secondary_a: Quantity { value: drive, significant: base.secondary_a.significant },
            secondary_b: absent_quantity(),
        },
        action,
        reaction: refine_roles(&base, &action),
    }
}

/// A reduction to 22 is at most 22, and a full reduction at most 9.
pub proof fn lemma_value_bounds(sum: int, value: u8)
    ensures
        kept(sum) <= MAX_VALUE,
        kept(sum) == reduced(sum as nat, false),
        full(value) <= 9,
        full(value) == reduced(value as nat, true),
{
    lemma_reduced_bounded(sum as nat, false);
    lemma_reduced_bounded(value as nat, true);
}

/// The quantities of a day or a year stay within bounds.
proof fn lemma_leaf_bounded(input: nat)
    ensures
        leaf(input).bounded(),
{
    let roles = leaf(input);
    lemma_value_bounds(input as int, roles.primary_a.value);
}

/// The quantities of a month stay within bounds.
proof fn lemma_intellect_bounded(day: nat, month: nat)
    ensures
        intellect_of(day, month).bounded(),
{
    let roles = intellect_of(day, month);
    lemma_value_bounds(month as int, roles.primary_a.value);
    lemma_reduced_bounded(month_after(roles.primary_a.value) as nat, true);
}

/// A family and its refinements stay within bounds where the drive does.
proof fn lemma_refinements_wf(base: Roles, drive: u8)
    requires
        drive <= MAX_VALUE,
        base.bounded(),
    ensures
        refinements(base, drive).wf(),
        base.without_b() ==> refinements(base, drive).without_b(),
{
    let family = refinements(base, drive);
    lemma_value_bounds(drive + base.primary_a.value, 0);
    lemma_value_bounds(drive + base.primary_b.value, 0);
    lemma_value_bounds(drive + base.secondary_a.value, 0);
    lemma_value_bounds(drive + base.secondary_b.value, 0);
    lemma_value_bounds(family.action.primary_a.value + base.primary_a.value, 0);
    lemma_value_bounds(family.action.primary_b.value + base.primary_b.value, 0);
    lemma_value_bounds(family.action.secondary_a.value + base.secondary_a.value, 0);
    lemma_value_bounds(family.action.secondary_b.value + base.secondary_b.value, 0);
}

/// Every chart of a date and an age is well formed.
pub proof fn lemma_chart_wf(day: nat, month: nat, year: nat, age: nat)
    ensures
        chart_of(day, month, year, age).wf(),
{
    let chart = chart_of(day, month, year, age);
    lemma_leaf_bounded(day);
    lemma_leaf_bounded(year);
    lemma_intellect_bounded(day, month);
    let (i, n, o) = (chart.inner, chart.intellect, chart.outer);
    let (ci, co) = (chart.inner_combination, chart.outer_combination);
    assert(ci.bounded()) by {
        lemma_value_bounds(i.primary_a.value + n.primary_a.value, 0);
        lemma_value_bounds(i.primary_a.value + n.primary_b.value, 0);
        lemma_value_bounds(i.secondary_a.value + n.secondary_a.value, 0);
        lemma_value_bounds(i.secondary_a.value + n.secondary_b.value, 0);
    }
    assert(co.bounded()) by {
        lemma_value_bounds(o.primary_a.value + n.primary_a.value, 0);
        lemma_value_bounds(o.primary_a.value + n.primary_b.value, 0);
        lemma_value_bounds(o.secondary_a.value + n.secondary_a.value, 0);
        lemma_value_bounds(o.secondary_a.value + n.secondary_b.value, 0);
    }
    let drive = drive_value(age);
    lemma_value_bounds(age as int + 1, 0);
    assert(synthesis_of(i, o).bounded()) by {
        lemma_value_bounds(i.primary_a.value + o.primary_a.value, 0);
        lemma_value_bounds(i.secondary_a.value + o.secondary_a.value, 0);
    }
    assert(compound_of(ci, co).bounded()) by {
        lemma_value_bounds(ci.primary_a.value + co.primary_a.value, 0);
        lemma_value_bounds(ci.primary_b.value + co.primary_b.value, 0);
        lemma_value_bounds(ci.secondary_a.value + co.secondary_a.value, 0);
        lemma_value_bounds(ci.secondary_b.value + co.secondary_b.value, 0);
    }
    assert(deep_of(i, n, o).bounded()) by {
        lemma_value_bounds(i.primary_a.value + n.primary_a.value + o.primary_a.value, 0);
        lemma_value_bounds(i.primary_a.value + n.primary_b.value + o.primary_a.value, 0);
        lemma_value_bounds(i.secondary_a.value + n.secondary_a.value + o.secondary_a.value, 0);
        lemma_value_bounds(i.secondary_a.value + n.secondary_b.value + o.secondary_a.value, 0);
    }
    lemma_refinements_wf(synthesis_of(i, o), drive);
    lemma_refinements_wf(compound_of(ci, co), drive);
    lemma_refinements_wf(deep_of(i, n, o), drive);
}

/// In a well-formed chart no slot holds more than 22, and only a slot that
/// charts have is ever significant.
pub proof fn lemma_wf_slots(chart: Chart, slot: Slot)
    requires
        chart.wf(),
    ensures
        chart.at(slot).value <= MAX_VALUE,
        chart.at(slot).significant ==> slot.charted(),
{
}

/// In every chart of a date and an age significance is handed down: a
/// quantity is significant only where one of its parts is, so that taking
/// the significance from the parts takes it from the whole.
pub proof fn lemma_significance_inherited(day: nat, month: nat, year: nat, age: nat)
    ensures
        chart_of(day, month, year, age).inherits(),
{
}

/// The B variants of the intellect come with a day after the 22nd and with no
/// other. Up to the 22nd both are absent. After it the primary B is always
/// significant, and with it every primary B that the chart draws.
pub proof fn lemma_variant_b(day: nat, month: nat, year: nat, age: nat)
    ensures
        ({
            let chart = chart_of(day, month, year, age);
            &&& day <= 22 ==> chart.intellect.primary_b == absent() && chart.intellect.secondary_b
                == absent()
            &&& chart.intellect.primary_b.significant == (day > 22)
            &&& forall|slot: Slot|
                slot.charted() && slot.role == Role::PrimaryB ==> (#[trigger] chart.at(
                    slot,
                )).significant == (day > 22)
        }),
{
    lemma_value_bounds(month as int, 0);
}

} // verus!
