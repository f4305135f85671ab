use cycles_numerologie_du_tarot::chart::{Chart, Quantity, Roles};
use cycles_numerologie_du_tarot::slot::{Family, Phase, Role, Slot, SLOT_COUNT};

fn q(value: u8, significant: bool) -> Quantity {
    Quantity { value, significant }
}

fn roles(pa: Quantity, pb: Quantity, sa: Quantity, sb: Quantity) -> Roles {
    Roles { primary_a: pa, primary_b: pb, secondary_a: sa, secondary_b: sb }
}

const ABSENT: Quantity = Quantity { value: 0, significant: false };

#[test]
fn leaves_of_june_1946() {
    let chart = Chart::new(14, 6, 1946, 79);
    assert_eq!(chart.inner, roles(q(14, true), ABSENT, q(5, true), ABSENT));
    assert_eq!(chart.intellect, roles(q(6, true), ABSENT, q(6, false), ABSENT));
    assert_eq!(chart.outer, roles(q(20, true), ABSENT, q(2, true), ABSENT));
}

#[test]
fn combinations_of_june_1946() {
    let chart = Chart::new(14, 6, 1946, 79);
    assert_eq!(
        chart.inner_combination,
        roles(q(20, true), q(14, false), q(11, true), q(5, true))
    );
    assert_eq!(
        chart.outer_combination,
        roles(q(8, true), q(20, false), q(8, true), q(2, true))
    );
}

#[test]
fn families_of_june_1946() {
    let chart = Chart::new(14, 6, 1946, 79);
    assert_eq!(chart.synthesis.base, roles(q(7, true), ABSENT, q(7, true), ABSENT));
    assert_eq!(
        chart.compound.base,
        roles(q(10, true), q(7, false), q(19, true), q(7, true))
    );
    assert_eq!(chart.deep.base, roles(q(4, true), q(7, false), q(13, true), q(7, true)));
}

#[test]
fn refinements_of_june_1946() {
    let chart = Chart::new(14, 6, 1946, 79);
    // The drive of 79 years is the reduction of 80.
    assert_eq!(chart.deep.drive, roles(q(8, true), ABSENT, q(8, true), ABSENT));
    // Action: drive and base; reaction: action and base.
    assert_eq!(chart.deep.action.primary_a, q(12, true));
    assert_eq!(chart.deep.reaction.primary_a, q(16, true));
    assert_eq!(chart.deep.action.secondary_a, q(21, true));
    assert_eq!(chart.deep.reaction.secondary_a, q(7, true));
    assert_eq!(chart.deep.action.secondary_b, q(15, true));
    assert_eq!(chart.deep.reaction.secondary_b, q(22, true));
    assert_eq!(chart.deep.action.primary_b, q(15, false));
    assert_eq!(chart.synthesis.action.primary_a, q(15, true));
    assert_eq!(chart.synthesis.reaction.primary_a, q(22, true));
    assert_eq!(chart.compound.action.primary_a, q(18, true));
    assert_eq!(chart.compound.reaction.primary_a, q(10, true));
    assert_eq!(chart.compound.action.secondary_a, q(9, true));
    assert_eq!(chart.compound.reaction.secondary_a, q(10, true));
}

#[test]
fn the_month_after_the_twelfth_is_the_first() {
    let chart = Chart::new(30, 12, 1986, 39);
    assert_eq!(chart.intellect, roles(q(12, true), q(1, true), q(3, true), q(1, true)));
    let chart = Chart::new(25, 11, 1986, 39);
    assert_eq!(chart.intellect, roles(q(11, true), q(12, true), q(2, true), q(3, true)));
    // A month that reduces to 19 has the secondary 1, which the first month repeats.
    let chart = Chart::new(29, 19, 1999, 21);
    assert_eq!(chart.intellect, roles(q(19, true), q(1, true), q(1, true), q(1, false)));
}

#[test]
fn a_zero_month_has_no_secondary_b() {
    let chart = Chart::new(23, 0, 5, 8);
    assert_eq!(chart.intellect, roles(q(0, true), q(1, true), q(0, false), ABSENT));
}

#[test]
fn no_calendar_is_consulted() {
    let chart = Chart::new(31, 2, 0, 0);
    assert_eq!(chart.inner.primary_a, q(4, true));
    let chart = Chart::new(99, 99, 99, 99);
    assert_eq!(chart.inner.primary_a, q(18, true));
    assert_eq!(chart.inner.secondary_a, q(9, true));
    assert_eq!(chart.deep.drive.primary_a, q(1, true));
}

#[test]
fn the_largest_age_has_a_drive() {
    let chart = Chart::new(1, 1, 1, usize::MAX);
    let drive = chart.deep.drive.primary_a.value;
    assert!(drive >= 1 && drive <= 22);
    assert_eq!(chart.synthesis.drive.primary_a.value, drive);
    assert_eq!(chart.compound.drive.primary_a.value, drive);
}

#[test]
fn the_b_variants_come_after_the_22nd() {
    let before = Chart::new(22, 6, 1946, 79);
    let after = Chart::new(23, 6, 1946, 79);
    assert_eq!(before.intellect.primary_b, ABSENT);
    assert_eq!(before.intellect.secondary_b, ABSENT);
    assert_eq!(after.intellect.primary_b, q(7, true));
    assert_eq!(after.intellect.secondary_b, q(7, true));
    for family in [Family::Deep, Family::Compound] {
        for phase in [Phase::Base, Phase::Action, Phase::Reaction] {
            let slot = Slot { family, phase, role: Role::PrimaryB };
            assert!(!before.get(slot).significant);
            assert!(after.get(slot).significant);
        }
    }
    assert!(!before.inner_combination.primary_b.significant);
    assert!(!before.outer_combination.primary_b.significant);
    assert!(after.inner_combination.primary_b.significant);
    assert!(after.outer_combination.primary_b.significant);
    assert_eq!(after.deep.base.primary_b.value, 5);
    assert_eq!(after.compound.base.primary_b.value, 21);
}

#[test]
fn primary_b_is_significant_exactly_after_the_22nd() {
    for day in 0..40usize {
        for month in 0..30usize {
            let chart = Chart::new(day, month, 1975, 40);
            assert_eq!(chart.intellect.primary_b.significant, day > 22);
            assert_eq!(chart.deep.base.primary_b.significant, day > 22);
            assert_eq!(chart.compound.reaction.primary_b.significant, day > 22);
        }
    }
}

#[test]
fn a_whole_without_significant_parts_is_not_significant() {
    // Nothing but the primaries is significant on 3.5.2.
    let plain = Chart::new(3, 5, 2, 0);
    assert!(!plain.inner.secondary_a.significant);
    assert!(!plain.intellect.secondary_a.significant);
    assert!(!plain.outer.secondary_a.significant);
    assert!(!plain.deep.base.secondary_a.significant);
    assert!(!plain.synthesis.base.secondary_a.significant);
    assert!(!plain.compound.base.secondary_b.significant);
    // The 14th gives the inner secondary its significance, and the wholes theirs.
    let marked = Chart::new(14, 5, 2, 0);
    assert!(marked.inner.secondary_a.significant);
    assert!(!marked.intellect.secondary_a.significant);
    assert!(!marked.outer.secondary_a.significant);
    assert!(marked.inner_combination.secondary_a.significant);
    assert!(!marked.outer_combination.secondary_a.significant);
    assert!(marked.deep.base.secondary_a.significant);
    assert!(marked.synthesis.base.secondary_a.significant);
    assert!(marked.compound.base.secondary_a.significant);
    assert!(marked.deep.reaction.secondary_b.significant);
}

#[test]
fn significance_is_handed_down() {
    for day in [0usize, 1, 9, 11, 14, 19, 22, 23, 29, 31] {
        for month in [0usize, 1, 6, 9, 10, 11, 12, 19, 22, 23] {
            for year in [0usize, 7, 1946, 1999, 2000] {
                let c = Chart::new(day, month, year, 33);
                let (i, n, o) = (c.inner, c.intellect, c.outer);
                assert_eq!(c.inner_combination.primary_b.significant, n.primary_b.significant);
                assert_eq!(
                    c.outer_combination.secondary_b.significant,
                    o.secondary_a.significant || n.secondary_b.significant
                );
                assert_eq!(
                    c.synthesis.base.secondary_a.significant,
                    i.secondary_a.significant || o.secondary_a.significant
                );
                assert_eq!(
                    c.deep.base.secondary_a.significant,
                    i.secondary_a.significant
                        || n.secondary_a.significant
                        || o.secondary_a.significant
                );
                assert_eq!(
                    c.compound.base.secondary_b.significant,
                    c.inner_combination.secondary_b.significant
                        || c.outer_combination.secondary_b.significant
                );
                for k in 0..SLOT_COUNT {
                    let slot = Slot::nth(k);
                    let base = Slot { family: slot.family, phase: Phase::Base, role: slot.role };
                    if slot.is_charted() {
                        assert_eq!(c.get(slot).significant, c.get(base).significant);
                    } else {
                        assert!(!c.get(slot).significant);
                    }
                    assert!(c.get(slot).value <= 22);
                }
            }
        }
    }
}

#[test]
fn slots_are_read_from_their_family() {
    let chart = Chart::new(23, 6, 1946, 79);
    let slot = Slot { family: Family::Compound, phase: Phase::Action, role: Role::SecondaryB };
    assert_eq!(chart.get(slot), chart.compound.action.secondary_b);
    assert_eq!(chart.compound.get(Phase::Action), chart.compound.action);
    assert_eq!(chart.compound.action.get(Role::SecondaryB), q(11, true));
    let slot = Slot { family: Family::Synthesis, phase: Phase::Base, role: Role::PrimaryA };
    assert_eq!(chart.get(slot), q(7, true));
}
