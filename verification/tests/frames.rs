use cycles_numerologie_du_tarot::code::{frame_name, layer_code};
use cycles_numerologie_du_tarot::slot::{Slot, SLOT_COUNT};
use cycles_numerologie_du_tarot::trouver_cadre;

#[test]
fn a_code_has_the_frame_of_its_prefix() {
    assert_eq!(trouver_cadre("PPRPA07"), Some("PPRPA-R".to_string()));
    assert_eq!(trouver_cadre("RPESB22"), Some("RPESB-R".to_string()));
    assert_eq!(trouver_cadre("NEMSA03"), Some("NEMSA-R".to_string()));
}

#[test]
fn the_value_plays_no_part() {
    assert_eq!(trouver_cadre("APEPB00"), trouver_cadre("APEPB21"));
    assert_eq!(trouver_cadre("PNESA"), Some("PNESA-R".to_string()));
    assert_eq!(trouver_cadre("PNESA-anything"), Some("PNESA-R".to_string()));
}

#[test]
fn the_secondary_drive_of_the_deep_personality_is_bare() {
    assert_eq!(trouver_cadre("PPPSA08"), None);
    assert_eq!(trouver_cadre("PPPPA08"), Some("PPPPA-R".to_string()));
    assert_eq!(trouver_cadre("PPESA08"), Some("PPESA-R".to_string()));
}

#[test]
fn every_charted_prefix_but_one_has_a_frame() {
    let framed = "PPRPA PPRPB PPRSA PPRSB PPPPA APPPA APPPB APPSA APPSB RPPPA RPPPB RPPSA \
                  RPPSB NEMPA NEMSA PNEPA PNESA ANEPA ANESA RNEPA RNESA PEXPA PEXPB PEXSA \
                  PEXSB PPEPA PPESA APEPA APEPB APESA APESB RPEPA RPEPB RPESA RPESB";
    assert_eq!(framed.split_whitespace().count(), 35);
    for prefix in framed.split_whitespace() {
        let code = format!("{}13", prefix);
        assert_eq!(trouver_cadre(&code), Some(format!("{}-R", prefix)));
    }
}

#[test]
fn slots_that_no_chart_has_are_not_framed() {
    for name in ["NEMPB01", "NEMSB01", "PNEPB01", "ANESB01", "PPPPB01", "PPPSB01", "PPEPB01", "PPESB01"] {
        assert_eq!(trouver_cadre(name), None);
    }
}

#[test]
fn other_names_have_no_frame() {
    for name in ["", "P", "PPRP", "pprpa07", "XPRPA07", "PPRXA07", "PPRPX07", "PPRPA-R", "Calque 1", "PÉXPA01"] {
        let expected = if name == "PPRPA-R" { Some("PPRPA-R".to_string()) } else { None };
        assert_eq!(trouver_cadre(name), expected);
    }
}

#[test]
fn a_code_has_a_frame_exactly_where_its_slot_has_one() {
    for k in 0..SLOT_COUNT {
        let slot = Slot::nth(k);
        for value in [0u8, 9, 10, 22, 99] {
            let expected = if slot.is_framed() { Some(frame_name(slot)) } else { None };
            assert_eq!(trouver_cadre(&layer_code(slot, value)), expected);
        }
    }
}
