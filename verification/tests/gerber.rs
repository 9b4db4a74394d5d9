use std::collections::HashMap;

use coppercrab::pcb::geometry::{Arc, Circle, Point2d, Rectangle, Segment};
use coppercrab::pcb::parser::gerber::{
    aperture_to_primitive, command_notice, coordinate_offset_to_position, coordinate_to_position,
    generate_layer, generate_layer_noting, Notice, parse_extended_command, width_from_aperture, Aperture, Command,
    CoordinateOffset, Coordinates, DCode, ExtendedCode, FunctionCode, GCode, GerberDoc,
    InterpolationMode, MCode, Operation, Unit,
};
use coppercrab::pcb::parser::ParseError;
use coppercrab::pcb::{LayerUnit, PcbLayer, Primitive};

fn at(x: i64, y: i64) -> Option<Coordinates> {
    Some(Coordinates { x: Some(x), y: Some(y) })
}

fn op(o: Operation) -> Command {
    Command::FunctionCode(FunctionCode::DCode(DCode::Operation(o)))
}

fn draw(x: i64, y: i64) -> Command {
    op(Operation::Interpolate(at(x, y), None))
}

fn mv(x: i64, y: i64) -> Command {
    op(Operation::Move(at(x, y)))
}

fn flash(x: i64, y: i64) -> Command {
    op(Operation::Flash(at(x, y)))
}

fn select(id: i32) -> Command {
    Command::FunctionCode(FunctionCode::DCode(DCode::SelectAperture(id)))
}

fn mode(m: InterpolationMode) -> Command {
    Command::FunctionCode(FunctionCode::GCode(GCode::InterpolationMode(m)))
}

fn unit(u: Unit) -> Command {
    Command::ExtendedCode(ExtendedCode::Unit(u))
}

fn p(x: i64, y: i64) -> Point2d {
    Point2d::new(x, y)
}

fn apertures() -> HashMap<i32, Aperture> {
    let mut a = HashMap::new();
    a.insert(10, Aperture::Circle { diameter: 250_000 });
    a.insert(11, Aperture::Rectangle { x: 1_000_000, y: 2_000_000 });
    a.insert(12, Aperture::Obround);
    a
}

fn build(commands: Vec<Command>) -> (Result<(), ParseError>, PcbLayer) {
    let doc = GerberDoc { apertures: apertures(), commands };
    let mut layer = PcbLayer::default();
    let r = generate_layer(&doc, &mut layer);
    (r, layer)
}

#[test]
fn positions_keep_missing_coordinates() {
    let cur = p(5, 6);
    assert_eq!(coordinate_to_position(&None, &cur), p(5, 6));
    assert_eq!(
        coordinate_to_position(&Some(Coordinates { x: Some(1), y: None }), &cur),
        p(1, 6)
    );
    assert_eq!(
        coordinate_offset_to_position(&Some(CoordinateOffset { x: None, y: Some(9) }), &cur),
        p(5, 9)
    );
}

#[test]
fn apertures_to_primitives_and_widths() {
    let pos = p(3, 4);
    assert_eq!(
        aperture_to_primitive(&Aperture::Circle { diameter: 7 }, &pos),
        Some(Primitive::Circle(Circle { center: pos, diameter: 7 }))
    );
    assert_eq!(
        aperture_to_primitive(&Aperture::Rectangle { x: 2, y: 5 }, &pos),
        Some(Primitive::Rectangle(Rectangle { center: pos, width: 2, height: 5 }))
    );
    assert_eq!(aperture_to_primitive(&Aperture::Polygon, &pos), None);
    assert_eq!(width_from_aperture(Some(&Aperture::Circle { diameter: 7 })), 7);
    assert_eq!(width_from_aperture(Some(&Aperture::Rectangle { x: 2, y: 5 })), 5);
    assert_eq!(width_from_aperture(Some(&Aperture::Rectangle { x: 9, y: 5 })), 9);
    assert_eq!(width_from_aperture(Some(&Aperture::Macro)), 0);
    assert_eq!(width_from_aperture(None), 0);
}

#[test]
fn linear_draws_and_moves() {
    let (r, layer) = build(vec![
        select(10),
        mv(0, 0),
        draw(1_000_000, 0),
        draw(1_000_000, 1_000_000),
        mv(5_000_000, 5_000_000),
        draw(6_000_000, 5_000_000),
    ]);
    assert!(r.is_ok());
    assert_eq!(layer.traces.len(), 2);
    assert_eq!(
        layer.traces[0].primitives,
        vec![
            Primitive::Segment(Segment { start: p(0, 0), end: p(1_000_000, 0), width: 250_000 }),
            Primitive::Segment(Segment {
                start: p(1_000_000, 0),
                end: p(1_000_000, 1_000_000),
                width: 250_000
            }),
        ]
    );
    assert_eq!(
        layer.traces[1].primitives,
        vec![Primitive::Segment(Segment {
            start: p(5_000_000, 5_000_000),
            end: p(6_000_000, 5_000_000),
            width: 250_000
        })]
    );
}

#[test]
fn last_trace_is_always_pushed() {
    let (r, layer) = build(vec![]);
    assert!(r.is_ok());
    assert_eq!(layer.traces.len(), 1);
    assert!(layer.traces[0].primitives.is_empty());
    let (_, layer) = build(vec![select(10), draw(1, 1), mv(2, 2)]);
    assert_eq!(layer.traces.len(), 2);
    assert!(layer.traces[1].primitives.is_empty());
}

#[test]
fn moves_without_primitives_close_nothing() {
    let (_, layer) = build(vec![mv(1, 1), mv(2, 2), mv(3, 3)]);
    assert_eq!(layer.traces.len(), 1);
}

#[test]
fn flashes() {
    let (r, layer) = build(vec![
        select(11),
        flash(7, 8),
        select(12),
        flash(9, 9),
        select(99),
        flash(9, 9),
        select(10),
        draw(1, 0),
    ]);
    assert!(r.is_ok());
    assert_eq!(
        layer.traces[0].primitives,
        vec![
            Primitive::Rectangle(Rectangle { center: p(7, 8), width: 1_000_000, height: 2_000_000 }),
            // A flash does not move the head: the draw starts at the origin.
            Primitive::Segment(Segment { start: p(0, 0), end: p(1, 0), width: 250_000 }),
        ]
    );
}

#[test]
fn circular_draws() {
    let (r, layer) = build(vec![
        select(10),
        mode(InterpolationMode::ClockwiseCircular),
        op(Operation::Interpolate(
            at(2, 0),
            Some(CoordinateOffset { x: Some(1), y: Some(0) }),
        )),
        mode(InterpolationMode::CounterclockwiseCircular),
        op(Operation::Interpolate(
            at(4, 0),
            Some(CoordinateOffset { x: Some(3), y: None }),
        )),
        op(Operation::Interpolate(
            at(6, 0),
            Some(CoordinateOffset { x: Some(5), y: Some(1) }),
        )),
    ]);
    assert!(r.is_ok());
    assert_eq!(
        layer.traces[0].primitives,
        vec![
            Primitive::Arc(Arc {
                start: p(0, 0),
                end: p(2, 0),
                center: p(1, 0),
                clockwise: true,
                width: 250_000
            }),
            // The offset without J leaves no primitive but moves the head.
            Primitive::Arc(Arc {
                start: p(4, 0),
                end: p(6, 0),
                center: p(5, 1),
                clockwise: false,
                width: 250_000
            }),
        ]
    );
}

#[test]
fn circular_draw_without_offset_fails() {
    let (r, layer) = build(vec![
        select(10),
        draw(1, 1),
        mv(2, 2),
        mode(InterpolationMode::ClockwiseCircular),
        draw(3, 3),
        draw(4, 4),
    ]);
    match r {
        Err(ParseError::Gerber(msg)) => assert_eq!(
            msg,
            "Offset position is mandatory with (Counter) Clockwise interpolation mode"
        ),
        _ => panic!("expected a Gerber error"),
    }
    // What was closed before the failing command stays in the layer.
    assert_eq!(layer.traces.len(), 1);
}

#[test]
fn unit_comes_from_last_unit_command() {
    let (_, layer) = build(vec![Command::ExtendedCode(ExtendedCode::ImageName)]);
    assert_eq!(layer.unit, LayerUnit::Millimeter);
    let (_, layer) = build(vec![
        unit(Unit::Inches),
        Command::FunctionCode(FunctionCode::GCode(GCode::Unit)),
        unit(Unit::Millimeters),
        Command::FunctionCode(FunctionCode::MCode(MCode::EndOfFile)),
        unit(Unit::Inches),
    ]);
    assert_eq!(layer.unit, LayerUnit::Inch);
}

#[test]
fn extended_commands() {
    let mut layer = PcbLayer::default();
    parse_extended_command(&ExtendedCode::Unit(Unit::Inches), &mut layer);
    assert_eq!(layer.unit, LayerUnit::Inch);
    parse_extended_command(&ExtendedCode::LoadPolarity, &mut layer);
    assert_eq!(layer.unit, LayerUnit::Inch);
    parse_extended_command(&ExtendedCode::Unit(Unit::Millimeters), &mut layer);
    assert_eq!(layer.unit, LayerUnit::Millimeter);
    assert!(layer.traces.is_empty());
}

#[test]
fn primitives_never_exceed_drawing_commands() {
    let cmds = vec![
        select(12),
        flash(1, 1),
        select(10),
        draw(1, 1),
        mv(0, 0),
        draw(2, 2),
    ];
    let draws = 3;
    let (_, layer) = build(cmds);
    let total: usize = layer.traces.iter().map(|t| t.primitives.len()).sum();
    assert!(total <= draws);
    assert_eq!(total, 2);
}

#[test]
fn layer_is_appended_to() {
    let doc = GerberDoc { apertures: apertures(), commands: vec![draw(1, 1)] };
    let mut layer = PcbLayer::default();
    generate_layer(&doc, &mut layer).unwrap();
    generate_layer(&doc, &mut layer).unwrap();
    assert_eq!(layer.traces.len(), 2);
}

fn gcode(g: GCode) -> Command {
    Command::FunctionCode(FunctionCode::GCode(g))
}

fn build_noting(commands: Vec<Command>) -> (Result<(), ParseError>, Vec<Notice>) {
    let doc = GerberDoc { apertures: apertures(), commands };
    let mut layer = PcbLayer::default();
    let mut notices = Vec::new();
    let r = generate_layer_noting(&doc, &mut layer, &mut notices);
    (r, notices)
}

#[test]
fn notices_in_command_order() {
    let (r, notices) = build_noting(vec![
        gcode(GCode::RegionMode),
        Command::ExtendedCode(ExtendedCode::FileAttribute),
        Command::ExtendedCode(ExtendedCode::CoordinateFormat),
        gcode(GCode::Unit),
        gcode(GCode::Comment),
        select(12),
        flash(0, 0),
        draw(1, 1),
        select(10),
        draw(2, 2),
        gcode(GCode::QuadrantMode),
        gcode(GCode::CoordinateMode),
        gcode(GCode::SelectAperture),
    ]);
    assert!(r.is_ok());
    assert_eq!(
        notices,
        vec![
            Notice::UnsupportedGCode(GCode::RegionMode),
            Notice::UnsupportedExtendedCode(ExtendedCode::FileAttribute),
            Notice::DeprecatedGCode(GCode::Unit),
            Notice::UnsupportedAperture(Aperture::Obround),
            Notice::UnsupportedAperture(Aperture::Obround),
            Notice::UnsupportedGCode(GCode::QuadrantMode),
            Notice::DeprecatedGCode(GCode::CoordinateMode),
            Notice::DeprecatedGCode(GCode::SelectAperture),
        ]
    );
}

#[test]
fn notices_stop_at_a_failing_command() {
    let (r, notices) = build_noting(vec![
        Command::ExtendedCode(ExtendedCode::LoadPolarity),
        mode(InterpolationMode::ClockwiseCircular),
        draw(1, 1),
        Command::ExtendedCode(ExtendedCode::ImageName),
    ]);
    assert!(r.is_err());
    assert_eq!(notices, vec![Notice::UnsupportedExtendedCode(ExtendedCode::LoadPolarity)]);
}

#[test]
fn circular_draws_read_the_width_only_with_a_full_offset() {
    let partial = op(Operation::Interpolate(at(1, 1), Some(CoordinateOffset { x: Some(1), y: None })));
    let full = op(Operation::Interpolate(at(2, 2), Some(CoordinateOffset { x: Some(1), y: Some(1) })));
    let (r, notices) = build_noting(vec![
        select(12),
        mode(InterpolationMode::CounterclockwiseCircular),
        partial,
        full,
    ]);
    assert!(r.is_ok());
    assert_eq!(notices, vec![Notice::UnsupportedAperture(Aperture::Obround)]);
}

#[test]
fn single_command_notices() {
    let polygon = Aperture::Polygon;
    assert_eq!(
        command_notice(&flash(0, 0), InterpolationMode::Linear, Some(&polygon)),
        Some(Notice::UnsupportedAperture(Aperture::Polygon))
    );
    assert_eq!(command_notice(&flash(0, 0), InterpolationMode::Linear, None), None);
    let circle = Aperture::Circle { diameter: 1 };
    assert_eq!(command_notice(&draw(0, 0), InterpolationMode::Linear, Some(&circle)), None);
    assert_eq!(command_notice(&unit(Unit::Inches), InterpolationMode::Linear, None), None);
    assert_eq!(
        command_notice(&Command::ExtendedCode(ExtendedCode::ApertureDefinition), InterpolationMode::Linear, None),
        None
    );
    assert_eq!(command_notice(&mv(0, 0), InterpolationMode::Linear, Some(&polygon)), None);
}
