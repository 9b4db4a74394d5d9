use coppercrab::pcb::parser::excellon::{parse_excellon, parse_tool_definition, parse_xy};
use coppercrab::pcb::parser::text::{parse_number, Number};
use coppercrab::pcb::DrillHole;

fn num(s: &str) -> Number {
    parse_number(s).unwrap()
}

fn hole(x: &str, y: &str, diameter: &str) -> DrillHole {
    DrillHole { x: num(x), y: num(y), diameter: num(diameter) }
}

const SAMPLE: &str = "M48\n; comment\nMETRIC,TZ\nT1C0.800\nT2C1.000\n%\nG90\nG05\nT1\nX142.0Y-67.92\nX10Y20\nT2\nX1.5Y2.5\nT0\nM30\n";

#[test]
fn tool_definition() {
    assert_eq!(parse_tool_definition("1C0.800"), Some((1, num("0.800"))));
    assert_eq!(
        parse_tool_definition("12C3"),
        Some((12, Number::Finite { negative: false, digits: vec!['3'], exponent: 0 }))
    );
    assert_eq!(parse_tool_definition("2Cinf"), Some((2, Number::Infinite { negative: false })));
    assert_eq!(parse_tool_definition("1F200C0.8"), None);
    assert_eq!(parse_tool_definition("1"), None);
    assert_eq!(parse_tool_definition("1Cx"), None);
    assert_eq!(parse_tool_definition("C0.8"), None);
}

#[test]
fn hole_position() {
    assert_eq!(
        parse_xy("X142.0Y-67.92"),
        Some((
            Number::Finite { negative: false, digits: vec!['1', '4', '2', '0'], exponent: -1 },
            Number::Finite { negative: true, digits: vec!['6', '7', '9', '2'], exponent: -2 },
        ))
    );
    assert_eq!(parse_xy("X1Y2"), Some((num("1"), num("2"))));
    assert_eq!(parse_xy("XinfY0"), Some((Number::Infinite { negative: false }, num("0"))));
    assert_eq!(parse_xy("X1e13Y-NaN"), Some((num("1e13"), Number::NaN { negative: true })));
    assert_eq!(parse_xy("X1"), None);
    assert_eq!(parse_xy("XY2"), None);
    assert_eq!(parse_xy("X1Y"), None);
}

#[test]
fn sample_file() {
    let layer = parse_excellon(SAMPLE);
    assert_eq!(
        layer.holes,
        vec![
            hole("142.0", "-67.92", "0.800"),
            hole("10", "20", "0.800"),
            hole("1.5", "2.5", "1.000"),
        ]
    );
}

#[test]
fn empty_and_header_only() {
    assert!(parse_excellon("").holes.is_empty());
    assert!(parse_excellon("M48\nT1C0.8\nX1Y1\n").holes.is_empty());
}

#[test]
fn holes_need_a_selected_defined_tool() {
    // No tool selected yet.
    assert!(parse_excellon("T1C0.8\n%\nX1Y1\n").holes.is_empty());
    // Selecting an undefined tool deselects.
    let layer = parse_excellon("T1C0.8\n%\nT1\nX1Y1\nT9\nX2Y2\n");
    assert_eq!(layer.holes, vec![hole("1", "1", "0.8")]);
}

#[test]
fn body_tool_definitions_are_not_read() {
    let layer = parse_excellon("%\nT1C0.8\nT1\nX1Y1\n");
    assert!(layer.holes.is_empty());
}

#[test]
fn lines_are_trimmed_and_crlf_accepted() {
    let layer = parse_excellon("  T1C0.5  \r\n\t%\r\nT1\r\n   X1Y2   \r\n");
    assert_eq!(layer.holes, vec![hole("1", "2", "0.5")]);
}

#[test]
fn end_of_program_stops_reading() {
    let layer = parse_excellon("T1C1\n%\nT1\nX1Y1\nM02\nX2Y2\n");
    assert_eq!(layer.holes, vec![hole("1", "1", "1")]);
    let layer = parse_excellon("T1C1\n%\nT1\nM30\nX2Y2");
    assert!(layer.holes.is_empty());
}

#[test]
fn end_of_program_in_header_is_ignored() {
    let layer = parse_excellon("M30\nT1C1\n%\nT1\nX3Y3");
    assert_eq!(layer.holes, vec![hole("3", "3", "1")]);
}

#[test]
fn redefinition_overwrites_tool() {
    let layer = parse_excellon("T1C1\nT1C2\n%\nT1\nX0Y0\n");
    assert_eq!(layer.holes, vec![hole("0", "0", "2")]);
}

#[test]
fn bad_lines_are_skipped() {
    let layer = parse_excellon("T1C1\nTxC2\n%\nT1\nXaY1\nX1Y1\nTq\nX2Y2\n");
    assert_eq!(
        layer.holes,
        vec![hole("1", "1", "1"), hole("2", "2", "1")]
    );
}

#[test]
fn comment_line_inserted_changes_nothing() {
    let a = parse_excellon("T1C1\n%\nT1\nX1Y1\nX2Y2\n");
    let b = parse_excellon("T1C1\n%\nT1\nX1Y1\n  ; note\nX2Y2\n");
    let c = parse_excellon("T1C1\n%\nT1\nX1Y1\n   \nX2Y2\n");
    assert_eq!(a.holes, b.holes);
    assert_eq!(a.holes, c.holes);
}

#[test]
fn every_hole_uses_a_header_diameter() {
    let layer = parse_excellon(SAMPLE);
    for h in &layer.holes {
        assert!(h.diameter == num("0.800") || h.diameter == num("1.000"));
    }
}

#[test]
fn holes_keep_every_float_value() {
    let layer = parse_excellon("T1C0.8\n%\nT1\nXinfY0\nX1e13Y0\nX-NANY1e-400\nX0.0000001Y2\n");
    assert_eq!(
        layer.holes,
        vec![
            hole("inf", "0", "0.8"),
            hole("1e13", "0", "0.8"),
            hole("-NAN", "1e-400", "0.8"),
            hole("0.0000001", "2", "0.8"),
        ]
    );
}

#[test]
fn infinite_tool_diameter_is_kept() {
    let layer = parse_excellon("T3CInfinity\n%\nT3\nX1Y1\n");
    assert_eq!(layer.holes, vec![hole("1", "1", "inf")]);
}
