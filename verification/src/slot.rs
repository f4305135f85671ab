//! The slots of a chart that name a layer, and the text of their layer codes.
//!
//! A slot is a family, a phase and a role. Its layer code is seven characters
//! long: a tag of three letters for family and phase, two letters for the
//! role, and the value in two digits. Its frame is the companion layer that
//! is named after the first five characters alone.

use vstd::prelude::*;

verus! {

/// The three families whose quantities are drawn.
#[derive(Clone, Copy, PartialEq, Eq, Structural, Debug)]
pub enum Family {
    /// The deep personality, `PPR`.
    Deep,
    /// The synthesis, `NEM`.
    Synthesis,
    /// The compound of the two combinations, `PEX`.
    Compound,
}

/// A family's own quantity, or one of its three refinements by age.
#[derive(Clone, Copy, PartialEq, Eq, Structural, Debug)]
pub enum Phase {
    Base,
    Drive,
    Action,
    Reaction,
}

/// Primary or secondary, each in the variants A and B.
#[derive(Clone, Copy, PartialEq, Eq, Structural, Debug)]
pub enum Role {
    PrimaryA,
    PrimaryB,
    SecondaryA,
    SecondaryB,
}

/// One place of the chart that can name a layer.
#[derive(Clone, Copy, PartialEq, Eq, Structural, Debug)]
pub struct Slot {
    pub family: Family,
    pub phase: Phase,
    pub role: Role,
}

/// The number of slots, those that no chart fills included.
pub const SLOT_COUNT: usize = 48;

impl Family {
    /// The three letters of the family.
    pub open spec fn letters(self) -> Seq<char> {
        match self {
            Family::Deep => seq!['P', 'P', 'R'],
            Family::Synthesis => seq!['N', 'E', 'M'],
            Family::Compound => seq!['P', 'E', 'X'],
        }
    }

    /// The place of the family in the order in which they are drawn.
    pub open spec fn index(self) -> int {
        match self {
            Family::Deep => 0,
            Family::Synthesis => 1,
            Family::Compound => 2,
        }
    }

    /// The families in the order in which they are drawn.
    pub open spec fn at(i: int) -> Family {
        if i == 0 {
            Family::Deep
        } else if i == 1 {
            Family::Synthesis
        } else {
            Family::Compound
        }
    }
}

impl Phase {
    /// The letter that a refinement puts before the family; the base has none.
    pub open spec fn letter(self) -> Option<char> {
        match self {
            Phase::Base => None,
            Phase::Drive => Some('P'),
            Phase::Action => Some('A'),
            Phase::Reaction => Some('R'),
        }
    }

    /// The place of the phase in the order in which they are drawn.
    pub open spec fn index(self) -> int {
        match self {
            Phase::Base => 0,
            Phase::Drive => 1,
            Phase::Action => 2,
            Phase::Reaction => 3,
        }
    }

    /// The phases in the order in which they are drawn.
    pub open spec fn at(i: int) -> Phase {
        if i == 0 {
            Phase::Base
        } else if i == 1 {
            Phase::Drive
        } else if i == 2 {
            Phase::Action
        } else {
            Phase::Reaction
        }
    }
}

impl Role {
    /// The two letters of the role.
    pub open spec fn letters(self) -> Seq<char> {
        match self {
            Role::PrimaryA => seq!['P', 'A'],
            Role::PrimaryB => seq!['P', 'B'],
            Role::SecondaryA => seq!['S', 'A'],
            Role::SecondaryB => seq!['S', 'B'],
        }
    }

    /// Whether the role is one of the two B variants.
    pub open spec fn is_variant_b(self) -> bool {
        self == Role::PrimaryB || self == Role::SecondaryB
    }

    /// The place of the role in the order in which they are drawn.
    pub open spec fn index(self) -> int {
        match self {
            Role::PrimaryA => 0,
            Role::PrimaryB => 1,
            Role::SecondaryA => 2,
            Role::SecondaryB => 3,
        }
    }

    /// The roles in the order in which they are drawn.
    pub open spec fn at(i: int) -> Role {
        if i == 0 {
            Role::PrimaryA
        } else if i == 1 {
            Role::PrimaryB
        } else if i == 2 {
            Role::SecondaryA
        } else {
            Role::SecondaryB
        }
    }

    /// Whether the role is one of the two B variants.
    pub fn variant_b(self) -> (b: bool)
        ensures
            b == self.is_variant_b(),
    {
        match self {
            Role::PrimaryA => false,
            Role::PrimaryB => true,
            Role::SecondaryA => false,
            Role::SecondaryB => true,
        }
    }
}

/// The character of a decimal digit.
pub open spec fn digit(d: int) -> char {
    if d == 0 {
        '0'
    } else if d == 1 {
        '1'
    } else if d == 2 {
        '2'
    } else if d == 3 {
        '3'
    } else if d == 4 {
        '4'
    } else if d == 5 {
        '5'
    } else if d == 6 {
        '6'
    } else if d == 7 {
        '7'
    } else if d == 8 {
        '8'
    } else {
        '9'
    }
}

/// A value under one hundred in two digits, with a leading zero where it has
/// only one.
pub open spec fn two_digits(value: int) -> Seq<char> {
    seq![digit(value / 10), digit(value % 10)]
}

/// The tag of three letters for a family and a phase: the family's own for
/// the base, and for a refinement its letter before the family's first two.
pub open spec fn tag_of(family: Family, phase: Phase) -> Seq<char> {
    match phase.letter() {
        None => family.letters(),
        Some(c) => seq![c] + family.letters().take(2),
    }
}

impl Slot {
    /// The slot at place `k` of the drawing order: families first, then
    /// phases, then roles.
    pub open spec fn at(k: int) -> Slot {
        Slot { family: Family::at(k / 16), phase: Phase::at(k / 4 % 4), role: Role::at(k % 4) }
    }

    /// The place of the slot in the drawing order.
    pub open spec fn index(self) -> int {
        16 * self.family.index() + 4 * self.phase.index() + self.role.index()
    }

    /// The tag of three letters for the slot's family and phase.
    pub open spec fn tag(self) -> Seq<char> {
        tag_of(self.family, self.phase)
    }

    /// The five letters that a code of this slot begins with.
    pub open spec fn prefix(self) -> Seq<char> {
        self.tag() + self.role.letters()
    }

    /// The layer code of this slot for a value under one hundred.
    pub open spec fn code(self, value: u8) -> Seq<char> {
        self.prefix() + two_digits(value as int)
    }

    /// The name of the frame that goes with the codes of this slot.
    pub open spec fn frame(self) -> Seq<char> {
        self.prefix() + seq!['-', 'R']
    }

    /// Whether a chart has a quantity in this slot. The B variants exist in
    /// the deep personality and in the compound only, and the drive has none.
    pub open spec fn charted(self) -> bool {
        self.role.is_variant_b() ==> self.family != Family::Synthesis && self.phase != Phase::Drive
    }

    /// Whether the codes of this slot have a frame. Every charted slot has
    /// one but the secondary drive of the deep personality, which is drawn
    /// bare.
    pub open spec fn framed(self) -> bool {
        self.charted() && !(self.family == Family::Deep && self.phase == Phase::Drive && self.role
            == Role::SecondaryA)
    }

    /// The slot at place `k` of the drawing order.
    pub fn nth(k: usize) -> (slot: Slot)
        requires
            k < SLOT_COUNT,
        ensures
            slot == Slot::at(k as int),
    {
        let family = if k / 16 == 0 {
            Family::Deep
        } else if k / 16 == 1 {
            Family::Synthesis
        } else {
            Family::Compound
        };
        let phase = if k / 4 % 4 == 0 {
            Phase::Base
        } else if k / 4 % 4 == 1 {
            Phase::Drive
        } else if k / 4 % 4 == 2 {
            Phase::Action
        } else {
            Phase::Reaction
        };
        let role = if k % 4 == 0 {
            Role::PrimaryA
        } else if k % 4 == 1 {
            Role::PrimaryB
        } else if k % 4 == 2 {
            Role::SecondaryA
        } else {
            Role::SecondaryB
        };
        Slot { family, phase, role }
    }

    /// Whether a chart has a quantity in this slot.
    pub fn is_charted(self) -> (b: bool)
        ensures
            b == self.charted(),
    {
        !self.role.variant_b() || (self.family != Family::Synthesis && self.phase != Phase::Drive)
    }

    /// Whether the codes of this slot have a frame.
    pub fn is_framed(self) -> (b: bool)
        ensures
            b == self.framed(),
    {
        self.is_charted() && !(self.family == Family::Deep && self.phase == Phase::Drive
            && self.role == Role::SecondaryA)
    }
}

/// Every slot has its place in the drawing order, and stands there.
pub proof fn lemma_slot_index(slot: Slot)
    ensures
        0 <= slot.index() < SLOT_COUNT,
        Slot::at(slot.index()) == slot,
{
}

/// Every place of the drawing order holds the slot of that place.
pub proof fn lemma_slot_at(k: int)
    requires
        0 <= k < SLOT_COUNT,
    ensures
        Slot::at(k).index() == k,
{
}

} // verus!
