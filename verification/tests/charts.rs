//! Chart-text tests: parsing, writing, generation plumbing, and removal
//! of previously generated chart blocks.

use itggen::params::create_params;
use itggen::sm::{
    chart_hash, columns, generate, parse_i32, parse_sm_charts, remove_existing_autogen,
    row_notes, to_lines, SMChart,
};
use itggen::{GeneratorParameters, Style};

fn s(text: &str) -> Vec<u8> {
    text.as_bytes().to_vec()
}

fn gen_str(
    orig: &str,
    from_style: Style,
    to_style: Style,
    params: &GeneratorParameters,
    edit: bool,
    extra: Option<&Vec<u8>>,
    is_ssc: bool,
) -> Result<String, String> {
    match generate(orig.as_bytes(), from_style, to_style, params, edit, extra, is_ssc) {
        Ok(v) => Ok(String::from_utf8(v).unwrap()),
        Err(e) => Err(String::from_utf8(e).unwrap()),
    }
}

#[test]
fn test_generate() {
    let params = {
        let mut p = GeneratorParameters::default();
        p.disallow_footswitch = true;
        p
    };
    {
        let orig = "A\n#NOTES:\n     dance-single:\n     Zaia:\n     Challenge:\n     17:\n     useless:\n0000\n;\n";
        let g = gen_str(orig, Style::ItgSingles, Style::ItgDoubles, &params, false, None, false);
        assert_eq!(g, Ok("#NOTES:\n     dance-double:\n     AYEAG - Zaia:\n     Challenge:\n     17:\n     :\n00000000\n;\n".to_owned()));
    }
    {
        let orig = "A\n#NOTES:\n     dance-single:\n     :\n     Challenge:\n     17:\n     useless:\n0000\n;\n";
        let g = gen_str(orig, Style::ItgSingles, Style::ItgDoubles, &params, false, None, false);
        assert_eq!(g, Ok("#NOTES:\n     dance-double:\n     AYEAG:\n     Challenge:\n     17:\n     :\n00000000\n;\n".to_owned()));
    }
    {
        let orig = "A\n#NOTES:\n     dance-single:\n     Zaia:\n     Challenge:\n     17:\n     useless:\n0000\n;\n";
        let g = gen_str(orig, Style::ItgSingles, Style::ItgDoubles, &params, false,
            Some(&s("foo")), false);
        assert_eq!(g, Ok("#NOTES:\n     dance-double:\n     AYEAG - foo - Zaia:\n     Challenge:\n     17:\n     :\n00000000\n;\n".to_owned()));
    }
    {
        let orig = "A\n#NOTES:\n     dance-single:\n     Zaia:\n     Hard:\n     17:\n     useless:\n0000\n;\n#NOTES:\n     dance-single:\n     Zaia:\n     Challenge:\n     17:\n     useless:\n0000\n;\n";
        let g = gen_str(orig, Style::ItgSingles, Style::ItgDoubles, &params, false, None, false);
        assert_eq!(g, Ok("#NOTES:\n     dance-double:\n     AYEAG - Zaia:\n     Hard:\n     17:\n     :\n00000000\n;\n#NOTES:\n     dance-double:\n     AYEAG - Zaia:\n     Challenge:\n     17:\n     :\n00000000\n;\n".to_owned()));
    }
    {
        let orig = "A\n#NOTES:\n     dance-single:\n     Zaia:\n     Hard:\n     17:\n     useless:\n0000\n;\n#NOTES:\n     dance-single:\n     Zaia:\n     Challenge:\n     17:\n     useless:\n0000\n;\n";
        let g = gen_str(orig, Style::ItgSingles, Style::ItgSingles, &params, false, None, false);
        assert!(g.is_err());
    }
    {
        let orig = "A\n#NOTES:\n     dance-single:\n     Zaia:\n     Hard:\n     17:\n     useless:\n0000\n;\n#NOTES:\n     dance-single:\n     Zaia:\n     Challenge:\n     17:\n     useless:\n0000\n;\n";
        let g = gen_str(orig, Style::ItgSingles, Style::ItgDoubles, &params, true, None, false);
        assert_eq!(g, Ok("#NOTES:\n     dance-double:\n     AYEAG[H] - Zaia:\n     Edit:\n     17:\n     :\n00000000\n;\n#NOTES:\n     dance-double:\n     AYEAG[C] - Zaia:\n     Edit:\n     17:\n     :\n00000000\n;\n".to_owned()));
    }
    {
        let orig = "A\n#NOTES:\n     dance-single:\n     Zaia:\n     Hard:\n     17:\n     useless:\n0000\n;\n#NOTES:\n     dance-single:\n     Zaia:\n     Challenge:\n     17:\n     useless:\n0000\n;\n";
        let g = gen_str(orig, Style::ItgSingles, Style::ItgSingles, &params, true, None, false);
        assert_eq!(g, Ok("#NOTES:\n     dance-single:\n     AYEAG[H] - Zaia:\n     Edit:\n     17:\n     :\n0000\n;\n#NOTES:\n     dance-single:\n     AYEAG[C] - Zaia:\n     Edit:\n     17:\n     :\n0000\n;\n".to_owned()));
    }
    {
        let orig = "A\n#NOTES:\n     dance-single:\n     Zaia:\n     Challenge;\n     17:\n     useless:\n0000\n;";
        let g = gen_str(orig, Style::ItgSingles, Style::ItgDoubles, &params, false, None, false);
        assert!(g.is_err());
    }
    {
        let orig = "A\n#NOTES:\n     dance-single:\n     Zaia:\n     Challenge:\n     17:\n     useless:\n0000\n;\n#NOTES:\n     dance-double:\n     Zaia:\n     Challenge:\n     17:\n     useless:\n00000000\n;\n";
        let g = gen_str(orig, Style::ItgSingles, Style::ItgDoubles, &params, false, None, false);
        assert!(g.is_err());
    }
    {
        let orig = "A\n#NOTES:\n     dance-single:\n     Zaia:\n     Challenge:\n     17:\n     useless:\n0000\n;\n#NOTES:\n     dance-double:\n     AYEAG - Zaia:\n     Challenge:\n     17:\n     useless:\n00000000\n;\n";
        let g = gen_str(orig, Style::ItgSingles, Style::ItgDoubles, &params, false, None, false);
        assert!(g.is_err());
    }
    {
        let orig = "A\n#NOTES:\n     dance-single:\n     Zaia:\n     Challenge:\n     17:\n     useless:\n0000\n";
        let g = gen_str(orig, Style::ItgSingles, Style::ItgDoubles, &params, false, None, false);
        assert!(g.is_err());
    }
    {
        let orig = "A\n#NOTES:\n     dance-single:\n     Zaia:\n     Challenge:\n     17:\n     useless:\n0000,0070;\n\n";
        let g = gen_str(orig, Style::ItgSingles, Style::ItgDoubles, &params, false, None, false);
        assert!(g.is_err());
    }
    {
        let orig = "A\n#NOTES:\n     dance-single:\n     Zaia:\n     Challenge:\n     17:\n     useless:\n0000\n;\n";
        let g = gen_str(orig, Style::ItgSingles, Style::ItgDoubles,
            &GeneratorParameters::default(), false, None, false);
        assert_eq!(g, Ok("#NOTES:\n     dance-double:\n     AYEAG(F) - Zaia:\n     Challenge:\n     17:\n     :\n00000000\n;\n".to_owned()));
    }
    {
        let params = {
            let mut p = GeneratorParameters::default();
            p.remove_jumps = true;
            p
        };
        let orig = "A\n#NOTES:\n     dance-single:\n     Zaia:\n     Challenge:\n     33:\n     useless:\n0110\n;\n";
        let g = gen_str(orig, Style::ItgSingles, Style::ItgDoubles, &params, false, None, false);
        assert_eq!(g.unwrap().matches('1').count(), 1);
    }
    {
        let params = GeneratorParameters::default();
        let orig = "A\n#NOTES:\n     dance-single:\n     Zaia:\n     Challenge:\n     33:\n     useless:\n0110\n;\n";
        let g = gen_str(orig, Style::ItgSingles, Style::PumpHalfDoubles, &params, false, None, false);
        let res = g.unwrap();
        assert!(res.contains("0000110000"));
        assert!(res.contains("pump-double"));
    }
    {
        let params = GeneratorParameters::default();
        let orig = "A\n#NOTES:\n     dance-single:\n     Zaia:\n     Challenge:\n     33:\n     useless:\n0110\n;\n";
        let g = gen_str(orig, Style::ItgSingles, Style::PumpMiddleFour, &params, false, None, false);
        let res = g.unwrap();
        assert!(res.contains("0000110000"));
        assert!(res.contains("pump-double"));
    }
    {
        let params = GeneratorParameters::default();
        let orig = "A\n#NOTES:\n     dance-single:\n     Zaia:\n     Challenge:\n     33:\n     useless:\n0110\n;\n";
        let g = gen_str(orig, Style::ItgSingles, Style::PumpDoublesBrackets, &params, false, None, false);
        let res = g.unwrap();
        assert!(res.contains("0010110100"));
        assert!(res.contains("pump-double"));
    }
    {
        let params = {
            let mut p = params;
            p.min_difficulty = Some(10);
            p
        };
        let orig = "A\n#NOTES:\n     dance-single:\n     Zaia:\n     Challenge:\n     9:\n     useless:\n0000\n;\nB\n#NOTES:\n     dance-single:\n     Zaia:\n     Challenge:\n     10:\n     useless:\n0000\n;\n";
        let g = gen_str(orig, Style::ItgSingles, Style::ItgDoubles, &params, false, None, false);
        assert_eq!(g, Ok("#NOTES:\n     dance-double:\n     AYEAG - Zaia:\n     Challenge:\n     10:\n     :\n00000000\n;\n".to_owned()));
    }
    {
        let params = {
            let mut p = params;
            p.max_difficulty = Some(9);
            p
        };
        let orig = "A\n#NOTES:\n     dance-single:\n     Zaia:\n     Challenge:\n     9:\n     useless:\n0000\n;\nB\n#NOTES:\n     dance-single:\n     Zaia:\n     Challenge:\n     10:\n     useless:\n0000\n;\n";
        let g = gen_str(orig, Style::ItgSingles, Style::ItgDoubles, &params, false, None, false);
        assert_eq!(g, Ok("#NOTES:\n     dance-double:\n     AYEAG - Zaia:\n     Challenge:\n     9:\n     :\n00000000\n;\n".to_owned()));
    }
    {
        let orig = "A\n#NOTES:\n     dance-single:\n     Zaia:\n     Challenge:\n     9:\n     useless:\n0000\n;\nB\n#NOTES:\n     dance-single:\n     AYEAG...:\n     Challenge:\n     10:\n     useless:\n0000\n;\n";
        let g = gen_str(orig, Style::ItgSingles, Style::ItgDoubles, &params, false, None, false);
        assert_eq!(g, Ok("#NOTES:\n     dance-double:\n     AYEAG - Zaia:\n     Challenge:\n     9:\n     :\n00000000\n;\n".to_owned()));
    }
    {
        let orig = "A\n#NOTEDATA:;\n#STEPSTYPE:dance-single;\n#DIFFICULTY:Challenge;\n#DESCRIPTION:wow;\n#METER:13;\n#NOTES:\n0000\n;";
        let g = gen_str(orig, Style::ItgSingles, Style::ItgDoubles, &params, true, None, true);
        assert_eq!(g, Ok("#NOTEDATA:;\n#STEPSTYPE:dance-double;\n#DESCRIPTION:AYEAG - wow;\n#DIFFICULTY:Edit;\n#METER:13;\n#NOTES:\n00000000\n;\n".to_owned()));
    }
    {
        let orig = "A\n#NOTEDATA:;\n#STEPSTYPE:dance-single;\n#DIFFICULTY:Challenge;\n#DESCRIPTION:wow;\n#METER:13;\n#NOTES:\n0000\n,\n0000\n;";
        let g = gen_str(orig, Style::ItgSingles, Style::ItgDoubles, &params, true, None, true);
        assert_eq!(g, Ok("#NOTEDATA:;\n#STEPSTYPE:dance-double;\n#DESCRIPTION:AYEAG - wow;\n#DIFFICULTY:Edit;\n#METER:13;\n#NOTES:\n00000000\n,\n00000000\n;\n".to_owned()));
    }
    {
        let orig = "A\n#NOTEDATA:;\n#STEPSTYPE:dance-single;\n#DIFFICULTY:Challenge;\n#DESCRIPTION:wow;\n#METER:13;\n#NOTES:\n0000\n;";
        let g = gen_str(orig, Style::ItgSingles, Style::ItgDoubles, &params, false, None, true);
        assert_eq!(g, Ok("#NOTEDATA:;\n#STEPSTYPE:dance-double;\n#DESCRIPTION:AYEAG - wow;\n#DIFFICULTY:Challenge;\n#METER:13;\n#NOTES:\n00000000\n;\n".to_owned()));
    }
    {
        let orig = "A\n#NOTEDATA:;\n#STEPSTYPE:dance-single;\n#DIFFICULTY:Challenge;\n#DESCRIPTION:wow;\n#METER:13;\n#NOTES:\n0000\n;#NOTEDATA:;\n#STEPSTYPE:dance-single;\n#DIFFICULTY:Challenge;\n#DESCRIPTION:wow;\n#METER:13;\n#NOTES:\n0000\n;";
        let g = gen_str(orig, Style::ItgSingles, Style::ItgDoubles, &params, false, None, true);
        assert_eq!(g, Ok("#NOTEDATA:;\n#STEPSTYPE:dance-double;\n#DESCRIPTION:AYEAG - wow;\n#DIFFICULTY:Challenge;\n#METER:13;\n#NOTES:\n00000000\n;\n#NOTEDATA:;\n#STEPSTYPE:dance-double;\n#DESCRIPTION:AYEAG - wow;\n#DIFFICULTY:Challenge;\n#METER:13;\n#NOTES:\n00000000\n;\n".to_owned()));
    }
    {
        let orig = "A\n#NOTEDATA:;\n#STEPSTYPE:dance-single;\n#DIFFICULTY:Challenge;\n#DESCRIPTION:wow;\n#NOTES:\n0000\n;\n#METER:13;\n";
        let g = gen_str(orig, Style::ItgSingles, Style::ItgDoubles, &params, false, None, true);
        assert_eq!(g, Ok("#NOTEDATA:;\n#STEPSTYPE:dance-double;\n#DESCRIPTION:AYEAG - wow;\n#DIFFICULTY:Challenge;\n#METER:13;\n#NOTES:\n00000000\n;\n".to_owned()));
    }
    {
        let orig = "A\n#NOTEDATA:;\n#STEPSTYPE:dance-single;\n#DIFFICULTY:Challenge;\n#DESCRIPTION:;\n#NOTES:\n0000\n;\n#METER:13;\n";
        let g = gen_str(orig, Style::ItgSingles, Style::ItgDoubles, &params, false, None, true);
        assert_eq!(g, Ok("#NOTEDATA:;\n#STEPSTYPE:dance-double;\n#DESCRIPTION:AYEAG;\n#DIFFICULTY:Challenge;\n#METER:13;\n#NOTES:\n00000000\n;\n".to_owned()));
    }
    {
        let orig = "A\n#NOTEDATA:;\n#DIFFICULTY:Challenge;\n#DESCRIPTION:wow;\n#METER:13;\n#NOTES:\n0000\n;";
        let g = gen_str(orig, Style::ItgSingles, Style::ItgDoubles, &params, false, None, true);
        assert_eq!(g, Err("Couldn't parse chart: No STEPSTYPE".to_owned()));
    }
    {
        // two jump rows: the first is the forced initial placements; the
        // second is sampled, so only its shape is pinned down here
        let orig = "A\n#NOTES:\n     dance-single:\n     Zaia:\n     Challenge:\n     17:\n     useless:\n0110\n0110\n;\n";
        let g = gen_str(orig, Style::ItgSingles, Style::ItgDoubles, &params, false, None, false)
            .unwrap();
        let prefix = "#NOTES:\n     dance-double:\n     AYEAG - Zaia:\n     Challenge:\n     17:\n     :\n00011000\n";
        assert!(g.starts_with(prefix));
        let rest = &g[prefix.len()..];
        let row2 = &rest[..8];
        assert_eq!(row2.chars().filter(|c| *c == '1').count(), 2);
        assert!(row2.chars().all(|c| c == '0' || c == '1'));
        assert_eq!(&rest[8..], "\n;\n");
    }
    {
        // repeated runs on the same input agree
        let orig = "A\n#NOTES:\n     dance-single:\n     Zaia:\n     Challenge:\n     17:\n     useless:\n0010\n0110\n0000\n1000\n;\n";
        let g1 = gen_str(orig, Style::ItgSingles, Style::ItgDoubles, &params, false, None, false);
        let g2 = gen_str(orig, Style::ItgSingles, Style::ItgDoubles, &params, false, None, false);
        assert_eq!(g1, g2);
    }
}

#[test]
fn test_remove_existing_autogen() {
    {
        let orig = s("");
        assert_eq!(remove_existing_autogen(&orig, false), orig);
    }
    {
        let orig = s("HIHI");
        assert_eq!(remove_existing_autogen(&orig, false), orig);
    }
    {
        let orig = s("ABC\nDEF\n#NOTES:\nasdf:\nAYEAG - 1:\n;\n");
        assert_eq!(remove_existing_autogen(&orig, false), s("ABC\nDEF\n"));
    }
    {
        let orig = s("ABC\nDEF\n#NOTES:\nasdf:\nAYEAGF:\n;\n");
        assert_eq!(remove_existing_autogen(&orig, false), s("ABC\nDEF\n"));
    }
    {
        let orig = s("ABC\nDEF\n#NOTES:\nasdf:\nAYEAGF:\n;\n");
        assert_eq!(remove_existing_autogen(&orig, true), orig);
    }
    {
        let orig = s("ABC\nDEF\n#NOTES:\nasdf:\nAYEnoAG - 1:\n;\n");
        assert_eq!(remove_existing_autogen(&orig, false), orig);
    }
    {
        let orig = s("ABC\nDEF\n#NOTES:\nasdf:\nAYEAG - 1:\n;\n#NOTES:\nasdf:\nAYEnoAG - 1:\n;");
        assert_eq!(
            remove_existing_autogen(&orig, false),
            s("ABC\nDEF\n#NOTES:\nasdf:\nAYEnoAG - 1:\n;")
        );
    }
    {
        let orig = s("ABC\nDEF\n#NOTES:\nasdf:\nAYEnoAG - 1:\n;\n#NOTES:\nasdf:\nAYEAG - 1:\n;\n");
        assert_eq!(
            remove_existing_autogen(&orig, false),
            s("ABC\nDEF\n#NOTES:\nasdf:\nAYEnoAG - 1:\n;\n")
        );
    }
    {
        let orig = s("ABC\nDEF\n#NOTEDATA:\n#NOTES:;\n#DESCRIPTION:AYEnoAG - 1;\n#NOTEDATA:\n#NOTES:;\n#DESCRIPTION:AYEAG - 1:\n;\n");
        assert_eq!(
            remove_existing_autogen(&orig, true),
            s("ABC\nDEF\n#NOTEDATA:\n#NOTES:;\n#DESCRIPTION:AYEnoAG - 1;\n")
        );
    }
}

#[test]
fn test_params() {
    let mut chart =
        "A\n#NOTES:\n     dance-single:\n     Zaia:\n     Challenge:\n     17:\n     useless:\n"
            .to_owned();
    let mut rng: rand::rngs::StdRng = rand::SeedableRng::from_entropy();
    for _ in 0..500 {
        chart.push_str(match rand::Rng::gen_range(&mut rng, 0..4) {
            0 => "1000",
            1 => "0100",
            2 => "0010",
            3 => "0001",
            _ => panic!(),
        });
        chart.push('\n');
    }
    chart.push(';');
    for to_style in [Style::ItgDoubles, Style::PumpSingles, Style::PumpDoubles] {
        let check_params = |params: GeneratorParameters| {
            assert!(params.check_wf());
            let g = gen_str(&chart, Style::ItgSingles, to_style, &params, false, None, false);
            assert!(g.is_ok());
        };
        for crossovers in 0..=2 {
            for preserve in [false, true] {
                check_params(create_params(
                    None, crossovers, false, false, preserve, true, to_style, None, None,
                ));
            }
        }
        check_params(create_params(
            None, 1, true, false, false, true, to_style, None, None,
        ));
        check_params(create_params(
            None, 0, false, true, false, true, to_style, None, None,
        ));
    }
}

#[test]
fn chart_hash_is_deterministic() {
    let chart = SMChart {
        style: s("dance-single"),
        description: s("x"),
        difficulty: s("Hard"),
        level: 9,
        notes_lines: vec![s("1000"), s("0100")],
    };
    let chart2 = SMChart {
        style: s("other"),
        description: s("y"),
        difficulty: s("Easy"),
        level: 3,
        notes_lines: vec![s("1000"), s("0100")],
    };
    // the hash depends on the note rows alone
    assert_eq!(chart_hash(&chart), chart_hash(&chart2));
    let chart3 = SMChart {
        notes_lines: vec![s("1000"), s("0101")],
        ..chart2
    };
    assert_ne!(chart_hash(&chart), chart_hash(&chart3));
}

#[test]
fn columns_reads_rows() {
    assert_eq!(columns(b"0000", false), Some(vec![]));
    assert_eq!(columns(b"1000", false), Some(vec![0]));
    assert_eq!(columns(b"0110", false), Some(vec![1, 2]));
    assert_eq!(columns(b"1111", false), Some(vec![0, 1]));
    assert_eq!(columns(b"0110", true), Some(vec![1]));
    assert_eq!(columns(b"2M4L", false), Some(vec![0, 2]));
    assert_eq!(columns(b"00x0", false), None);
}

#[test]
fn row_notes_brackets() {
    assert_eq!(row_notes(&[0], Style::ItgSingles), b"1000".to_vec());
    assert_eq!(row_notes(&[1, 2], Style::ItgSingles), b"0110".to_vec());
    assert_eq!(row_notes(&[2], Style::PumpHalfDoubles), b"0000100000".to_vec());
    // a bracket column lights two physical panels
    assert_eq!(row_notes(&[5], Style::PumpDoublesBrackets), b"0001001000".to_vec());
    assert_eq!(row_notes(&[0], Style::PumpDoublesBrackets), b"1010000000".to_vec());
}

#[test]
fn to_lines_cleans() {
    let lines = to_lines(b"  a  \n\nb // comment\n   // only comment\nc");
    let views: Vec<Vec<u8>> = lines;
    assert_eq!(views, vec![s("a"), s("b"), s("c")]);
}

#[test]
fn parse_i32_handles_signs_and_range() {
    assert_eq!(parse_i32(b"17"), Some(17));
    assert_eq!(parse_i32(b"-5"), Some(-5));
    assert_eq!(parse_i32(b"+8"), Some(8));
    assert_eq!(parse_i32(b""), None);
    assert_eq!(parse_i32(b"-"), None);
    assert_eq!(parse_i32(b"12a"), None);
    assert_eq!(parse_i32(b"2147483647"), Some(2147483647));
    assert_eq!(parse_i32(b"2147483648"), None);
    assert_eq!(parse_i32(b"-2147483648"), Some(-2147483648));
    assert_eq!(parse_i32(b"-2147483649"), None);
}

#[test]
fn parse_sm_charts_reads_blocks() {
    let orig = "A\n#NOTES:\n     dance-single:\n     Zaia:\n     Hard:\n     17:\n     useless:\n1000\n0100\n;\n";
    let charts = parse_sm_charts(orig.as_bytes()).unwrap();
    assert_eq!(charts.len(), 1);
    assert_eq!(charts[0].style, s("dance-single"));
    assert_eq!(charts[0].description, s("Zaia"));
    assert_eq!(charts[0].difficulty, s("Hard"));
    assert_eq!(charts[0].level, 17);
    assert_eq!(charts[0].notes_lines, vec![s("1000"), s("0100"), s(";")]);
    assert!(charts[0].is_autogen() == false);
}
