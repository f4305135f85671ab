//! Layer codes and frame names as text.

use crate::slot::{digit, tag_of, Family, Phase, Role, Slot};
use vstd::prelude::*;
use vstd::string::*;

verus! {

/// `String::push`, which appends one character to the end of the string.
pub assume_specification[ String::push ](text: &mut String, c: char)
    ensures
        final(text)@ == old(text)@.push(c),
;

/// The frame that goes with a layer name: the name's first five letters
/// followed by `-R`, where those letters are the prefix of a framed slot.
/// Whatever follows the five letters plays no part.
pub open spec fn frame_of(name: Seq<char>) -> Option<Seq<char>> {
    if exists|slot: Slot| slot.framed() && #[trigger] slot.prefix().is_prefix_of(name) {
        Some(name.take(5) + seq!['-', 'R'])
    } else {
        None
    }
}

/// The five letters of a prefix, one by one.
pub proof fn lemma_prefix_letters(slot: Slot)
    ensures
        slot.prefix().len() == 5,
        slot.tag().len() == 3,
        slot.prefix()[0] == slot.tag()[0],
        slot.prefix()[1] == slot.tag()[1],
        slot.prefix()[2] == slot.tag()[2],
        slot.prefix()[3] == slot.role.letters()[0],
        slot.prefix()[4] == slot.role.letters()[1],
        slot.phase == Phase::Base ==> slot.tag() == slot.family.letters(),
        slot.phase != Phase::Base ==> slot.tag()[0] == slot.phase.letter()->0 && slot.tag()[1]
            == slot.family.letters()[0] && slot.tag()[2] == slot.family.letters()[1],
{
}

/// Two slots with the same five letters are the same slot.
pub proof fn lemma_prefix_injective(a: Slot, b: Slot)
    requires
        a.prefix() == b.prefix(),
    ensures
        a == b,
{
    lemma_prefix_letters(a);
    lemma_prefix_letters(b);
}

/// A code is seven characters long: the prefix, and the value in two digits.
pub proof fn lemma_code_letters(slot: Slot, value: u8)
    ensures
        slot.code(value).len() == 7,
        slot.code(value).take(5) == slot.prefix(),
        slot.code(value)[5] == digit(value as int / 10),
        slot.code(value)[6] == digit(value as int % 10),
        slot.frame().len() == 7,
        slot.frame().take(5) == slot.prefix(),
        slot.frame()[5] == '-',
        slot.frame()[6] == 'R',
{
}

/// Two codes are the same only for the same slot and, under one hundred,
/// the same value.
pub proof fn lemma_code_injective(a: Slot, v: u8, b: Slot, w: u8)
    requires
        v < 100,
        w < 100,
        a.code(v) == b.code(w),
    ensures
        a == b,
        v == w,
{
    lemma_code_letters(a, v);
    lemma_code_letters(b, w);
    lemma_prefix_injective(a, b);
}

/// Two frames are the same only for the same slot.
pub proof fn lemma_frame_injective(a: Slot, b: Slot)
    requires
        a.frame() == b.frame(),
    ensures
        a == b,
{
    lemma_code_letters(a, 0);
    lemma_code_letters(b, 0);
    lemma_prefix_injective(a, b);
}

/// No code is a frame: where the code has a digit, the frame has a hyphen.
pub proof fn lemma_code_is_no_frame(a: Slot, v: u8, b: Slot)
    requires
        v < 100,
    ensures
        a.code(v) != b.frame(),
{
    lemma_code_letters(a, v);
    lemma_code_letters(b, 0);
}

/// The frame of a code is the frame of its slot, where the slot has one.
pub proof fn lemma_frame_of_code(slot: Slot, value: u8)
    ensures
        frame_of(slot.code(value)) == if slot.framed() {
            Some(slot.frame())
        } else {
            None
        },
{
    let code = slot.code(value);
    assert(slot.prefix().is_prefix_of(code));
    if !slot.framed() {
        assert forall|other: Slot| other.framed() implies !(#[trigger] other.prefix().is_prefix_of(
            code,
        )) by {
            if other.prefix().is_prefix_of(code) {
                lemma_prefix_injective(other, slot);
            }
        }
    }
}

impl Family {
    /// One of the three letters of the family.
    pub fn letter(self, i: usize) -> (c: char)
        requires
            i < 3,
        ensures
            c == self.letters()[i as int],
    {
        match self {
            Family::Deep => if i == 2 {
                'R'
            } else {
                'P'
            },
            Family::Synthesis => if i == 0 {
                'N'
            } else if i == 1 {
                'E'
            } else {
                'M'
            },
            Family::Compound => if i == 0 {
                'P'
            } else if i == 1 {
                'E'
            } else {
                'X'
            },
        }
    }
}

/// The character of a decimal digit.
pub fn digit_char(d: u8) -> (c: char)
    requires
        d < 10,
    ensures
        c == digit(d as int),
{
    if d == 0 {
        '0'
    } else if d == 1 {
        '1'
    } else if d == 2 {
        '2'
    } else if d == 3 {
        '3'
    } else if d == 4 {
        '4'
    } else if d == 5 {
        '5'
    } else if d == 6 {
        '6'
    } else if d == 7 {
        '7'
    } else if d == 8 {
        '8'
    } else {
        '9'
    }
}

/// Appends the five letters of a slot's prefix.
fn push_prefix(text: &mut String, slot: Slot)
    ensures
        final(text)@ == old(text)@ + slot.prefix(),
{
    let family = slot.family;
    match slot.phase {
        Phase::Base => {
            text.push(family.letter(0));
            text.push(family.letter(1));
            text.push(family.letter(2));
        },
        Phase::Drive => {
            text.push('P');
            text.push(family.letter(0));
            text.push(family.letter(1));
        },
        Phase::Action => {
            text.push('A');
            text.push(family.letter(0));
            text.push(family.letter(1));
        },
        Phase::Reaction => {
            text.push('R');
            text.push(family.letter(0));
            text.push(family.letter(1));
        },
    }
    match slot.role {
        Role::PrimaryA => {
            text.push('P');
            text.push('A');
        },
        Role::PrimaryB => {
            text.push('P');
            text.push('B');
        },
        Role::SecondaryA => {
            text.push('S');
            text.push('A');
        },
        Role::SecondaryB => {
            text.push('S');
            text.push('B');
        },
    }
}

/// The layer code of a slot for a value under one hundred: the prefix and the
/// value in two digits.
pub fn layer_code(slot: Slot, value: u8) -> (code: String)
    requires
        value < 100,
    ensures
        code@ == slot.code(value),
{
    let mut code = String::new();
    push_prefix(&mut code, slot);
    code.push(digit_char(value / 10));
    code.push(digit_char(value % 10));
    code
}

/// The frame name of a slot.
pub fn frame_name(slot: Slot) -> (name: String)
    ensures
        name@ == slot.frame(),
{
    let mut name = String::new();
    push_prefix(&mut name, slot);
    name.push('-');
    name.push('R');
    name
}

/// Reads a family and a phase from the three letters of a tag.
fn parse_tag(c0: char, c1: char, c2: char) -> (r: Option<(Family, Phase)>)
    ensures
        match r {
            Some((family, phase)) => tag_of(family, phase) == seq![c0, c1, c2],
            None => forall|family: Family, phase: Phase|
                #[trigger] tag_of(family, phase) != seq![c0, c1, c2],
        },
{
    let r = if c0 == 'P' && c1 == 'P' && c2 == 'R' {
        Some((Family::Deep, Phase::Base))
    } else if c0 == 'N' && c1 == 'E' && c2 == 'M' {
        Some((Family::Synthesis, Phase::Base))
    } else if c0 == 'P' && c1 == 'E' && c2 == 'X' {
        Some((Family::Compound, Phase::Base))
    } else {
        let phase = if c0 == 'P' {
            Some(Phase::Drive)
        } else if c0 == 'A' {
            Some(Phase::Action)
        } else if c0 == 'R' {
            Some(Phase::Reaction)
        } else {
            None
        };
        let family = if c1 == 'P' && c2 == 'P' {
            Some(Family::Deep)
        } else if c1 == 'N' && c2 == 'E' {
            Some(Family::Synthesis)
        } else if c1 == 'P' && c2 == 'E' {
            Some(Family::Compound)
        } else {
            None
        };
        match (family, phase) {
            (Some(family), Some(phase)) => Some((family, phase)),
            _ => None,
        }
    };
    r
}

/// Reads a role from its two letters.
fn parse_role(c3: char, c4: char) -> (r: Option<Role>)
    ensures
        match r {
            Some(role) => role.letters() == seq![c3, c4],
            None => forall|role: Role| #[trigger] role.letters() != seq![c3, c4],
        },
{
    let r = if c3 == 'P' && c4 == 'A' {
        Some(Role::PrimaryA)
    } else if c3 == 'P' && c4 == 'B' {
        Some(Role::PrimaryB)
    } else if c3 == 'S' && c4 == 'A' {
        Some(Role::SecondaryA)
    } else if c3 == 'S' && c4 == 'B' {
        Some(Role::SecondaryB)
    } else {
        None
    };
    r
}

/// Finds the frame that goes with a layer name: `Some` of the name's first
/// five letters followed by `-R` where they are the prefix of a framed slot,
/// `None` for every other name.
pub fn trouver_cadre(claque: &str) -> (cadre: Option<String>)
    ensures
        cadre.deep_view() == frame_of(claque@),
{
    if claque.unicode_len() < 5 {
        return None;
    }
    let c0 = claque.get_char(0);
    let c1 = claque.get_char(1);
    let c2 = claque.get_char(2);
    let c3 = claque.get_char(3);
    let c4 = claque.get_char(4);
    let tag = parse_tag(c0, c1, c2);
    let role = parse_role(c3, c4);
    let found = match (tag, role) {
        (Some((family, phase)), Some(role)) => {
            let slot = Slot { family, phase, role };
            if slot.is_framed() {
                Some(slot)
            } else {
                None
            }
        },
        _ => None,
    };
    proof {
        let head = claque@.take(5);
        assert forall|slot: Slot| #[trigger]
            slot.prefix().is_prefix_of(claque@) implies slot.tag() == seq![c0, c1, c2]
            && slot.role.letters() == seq![c3, c4] by {
            assert(slot.tag() =~= head.take(3));
            assert(slot.role.letters() =~= head.skip(3));
        }
        if let Some(slot) = found {
            assert(slot.prefix().is_prefix_of(claque@));
        }
    }
    match found {
        Some(slot) => Some(frame_name(slot)),
        None => None,
    }
}

} // verus!
