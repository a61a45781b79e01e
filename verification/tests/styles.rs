//! Style table and name tests.

use itggen::sm::{params_str, parse_ssc_charts};
use itggen::{Foot, GeneratorParameters, Style};
use itggen::angle::{PI_U, PI_2_U};

#[test]
fn style_names_parse_back() {
    let all = [
        (Style::ItgSingles, "itg-singles"),
        (Style::ItgDoubles, "itg-doubles"),
        (Style::ItgTriples, "itg-triples"),
        (Style::PumpSingles, "pump-singles"),
        (Style::PumpDoubles, "pump-doubles"),
        (Style::PumpTriples, "pump-triples"),
        (Style::PumpHalfDoubles, "pump-halfdoubles"),
        (Style::PumpDoublesBrackets, "pump-doubles-brackets"),
        (Style::PumpMiddleFour, "pump-middlefour"),
        (Style::HorizonSingles, "horizon-singles"),
        (Style::HorizonDoubles, "horizon-doubles"),
        (Style::HorizonTriples, "horizon-triples"),
        (Style::Quads, "quads"),
        (Style::StupidQuads, "stupid-quads"),
    ];
    for (style, name) in all {
        assert_eq!(Style::parse(name.as_bytes()).unwrap(), style);
    }
    let err = Style::parse(b"dance-single").unwrap_err();
    assert_eq!(err.0, b"dance-single".to_vec());
    assert_eq!(
        err.message(),
        b"could not parse style 'dance-single'".to_vec()
    );
}

#[test]
fn style_tables_are_coherent() {
    let all = [
        Style::ItgSingles,
        Style::ItgDoubles,
        Style::ItgTriples,
        Style::PumpSingles,
        Style::PumpDoubles,
        Style::PumpTriples,
        Style::PumpHalfDoubles,
        Style::PumpDoublesBrackets,
        Style::PumpMiddleFour,
        Style::HorizonSingles,
        Style::HorizonDoubles,
        Style::HorizonTriples,
        Style::Quads,
        Style::StupidQuads,
    ];
    for style in all {
        let n = style.num_cols();
        for col in 0..n {
            let c = style.coord(col);
            assert!(0 <= c.x && c.x <= style.max_x_coord());
            assert!(0 <= c.y && c.y <= style.max_y_coord());
            for sm_col in style.sm_cols_for_col(col) {
                assert!(0 <= sm_col && sm_col < n);
            }
        }
        for foot in [Foot::Left, Foot::Right] {
            let init = style.init_col(foot);
            assert!(0 <= init && init < n);
        }
        assert_eq!(style.center_x(), style.max_x_coord() / 2);
        assert_eq!(style.bar_coord().x, style.center_x());
        assert_eq!(style.bar_coord().y, -5);
    }
    assert_eq!(Style::ItgSingles.coord(0).x, 0);
    assert_eq!(Style::ItgSingles.coord(0).y, 10);
    assert_eq!(Style::PumpDoubles.coord(0).y, 2);
    assert_eq!(Style::StupidQuads.coord(1).y, 48);
}

#[test]
fn params_marker() {
    let mut p = GeneratorParameters::default();
    p.disallow_footswitch = true;
    assert_eq!(params_str(&p), b"".to_vec());
    p.disallow_footswitch = false;
    assert_eq!(params_str(&p), b"F".to_vec());
    p.preserve_input_repetitions = Some(0);
    assert_eq!(params_str(&p), b"PF".to_vec());
    p.disallow_footswitch = true;
    p.preserve_input_repetitions = None;
    p.max_angle = Some(PI_2_U);
    assert_eq!(params_str(&p), b"".to_vec());
    p.max_angle = Some(PI_2_U + 1_080_000);
    assert_eq!(params_str(&p), b"C".to_vec());
    p.max_angle = Some(PI_U + 1);
    assert_eq!(params_str(&p), b"C+".to_vec());
}

#[test]
fn parse_ssc_block_fields() {
    let orig = b"#NOTEDATA:;\n#STEPSTYPE:dance-single;\n#DIFFICULTY:Hard;\n#DESCRIPTION:two\nlines;\n#METER:7;\n#NOTES:\n1000\n0100\n;";
    // a two-line DESCRIPTION is rejected
    assert!(parse_ssc_charts(orig).is_err());
    let ok = b"#NOTEDATA:;\n#STEPSTYPE:dance-single;\n#DIFFICULTY:Hard;\n#DESCRIPTION:wow;\n#METER:7;\n#NOTES:\n1000\n0100\n;";
    let charts = parse_ssc_charts(ok).unwrap();
    assert_eq!(charts.len(), 1);
    assert_eq!(charts[0].style, b"dance-single".to_vec());
    assert_eq!(charts[0].difficulty, b"Hard".to_vec());
    assert_eq!(charts[0].description, b"wow".to_vec());
    assert_eq!(charts[0].level, 7);
    assert_eq!(charts[0].notes_lines, vec![b"1000".to_vec(), b"0100".to_vec()]);
}
