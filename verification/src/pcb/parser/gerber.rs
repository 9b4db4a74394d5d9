//! Turns the command stream of a Gerber file into a layer of traces.
//!
//! Coordinates and aperture sizes are millionths of the file unit, the
//! resolution at which Gerber coordinates are represented.
use vstd::prelude::*;

use crate::pcb::geometry::{Arc, Circle, Point2d, Rectangle, Segment};
use crate::pcb::parser::ParseError;
use crate::pcb::{traces_view, LayerUnit, PcbLayer, PcbTrace, Primitive};

verus! {

/// How a draw command (D01) moves the head.
#[derive(Debug, Clone, Copy, PartialEq, Eq, Structural)]
pub enum InterpolationMode {
    Linear,
    ClockwiseCircular,
    CounterclockwiseCircular,
}

/// Target coordinates of an operation; a missing one keeps its value.
#[derive(Debug, Clone, Copy, PartialEq, Eq, Structural)]
pub struct Coordinates {
    pub x: Option<i64>,
    pub y: Option<i64>,
}

/// The `I`/`J` part of a circular draw.
#[derive(Debug, Clone, Copy, PartialEq, Eq, Structural)]
pub struct CoordinateOffset {
    pub x: Option<i64>,
    pub y: Option<i64>,
}

/// D01 (draw), D02 (move) and D03 (flash).
#[derive(Debug, Clone, Copy, PartialEq, Eq, Structural)]
pub enum Operation {
    Interpolate(Option<Coordinates>, Option<CoordinateOffset>),
    Move(Option<Coordinates>),
    Flash(Option<Coordinates>),
}

/// An aperture definition; only circles and rectangles are drawn.
#[derive(Debug, Clone, Copy, PartialEq, Eq, Structural)]
pub enum Aperture {
    Circle { diameter: i64 },
    Rectangle { x: i64, y: i64 },
    Obround,
    Polygon,
    Macro,
}

/// The unit declared by a `%MO` command.
#[derive(Debug, Clone, Copy, PartialEq, Eq, Structural)]
pub enum Unit {
    Inches,
    Millimeters,
}

/// D codes: operations and aperture selection.
#[derive(Debug, Clone, Copy, PartialEq, Eq, Structural)]
pub enum DCode {
    Operation(Operation),
    SelectAperture(i32),
}

/// G codes; the payloads that the layer builder does not read are left out.
#[derive(Debug, Clone, Copy, PartialEq, Eq, Structural)]
pub enum GCode {
    InterpolationMode(InterpolationMode),
    RegionMode,
    QuadrantMode,
    Comment,
    Unit,
    CoordinateMode,
    SelectAperture,
}

/// M codes.
#[derive(Debug, Clone, Copy, PartialEq, Eq, Structural)]
pub enum MCode {
    EndOfFile,
}

#[derive(Debug, Clone, Copy, PartialEq, Eq, Structural)]
pub enum FunctionCode {
    DCode(DCode),
    GCode(GCode),
    MCode(MCode),
}

/// Extended (`%..%`) commands; the payloads that the layer builder does not
/// read are left out.
#[derive(Debug, Clone, Copy, PartialEq, Eq, Structural)]
pub enum ExtendedCode {
    CoordinateFormat,
    Unit(Unit),
    ApertureDefinition,
    ApertureMacro,
    LoadPolarity,
    LoadMirroring,
    LoadRotation,
    LoadScaling,
    StepAndRepeat,
    ApertureBlock,
    FileAttribute,
    ObjectAttribute,
    ApertureAttribute,
    DeleteAttribute,
    MirrorImage,
    OffsetImage,
    ScaleImage,
    RotateImage,
    ImagePolarity,
    AxisSelect,
    ImageName,
}

/// One command of a Gerber file.
#[derive(Debug, Clone, Copy, PartialEq, Eq, Structural)]
pub enum Command {
    FunctionCode(FunctionCode),
    ExtendedCode(ExtendedCode),
}

/// A parsed Gerber file: its aperture table and its commands in order.
pub struct GerberDoc {
    pub apertures: std::collections::HashMap<i32, Aperture>,
    pub commands: Vec<Command>,
}

/// The message of the error for a circular draw without an offset.
pub open spec fn circular_offset_message() -> Seq<char> {
    "Offset position is mandatory with (Counter) Clockwise interpolation mode"@
}

pub open spec fn spec_coordinate_to_position(coord: Option<Coordinates>, current: Point2d) -> Point2d {
    match coord {
        Some(c) => Point2d {
            x: match c.x {
                Some(x) => x,
                None => current.x,
            },
            y: match c.y {
                Some(y) => y,
                None => current.y,
            },
        },
        None => current,
    }
}

pub open spec fn spec_coordinate_offset_to_position(
    coord: Option<CoordinateOffset>,
    current: Point2d,
) -> Point2d {
    match coord {
        Some(c) => Point2d {
            x: match c.x {
                Some(x) => x,
                None => current.x,
            },
            y: match c.y {
                Some(y) => y,
                None => current.y,
            },
        },
        None => current,
    }
}

/// The primitive a flash of `aperture` at `position` leaves, if it is drawn.
pub open spec fn spec_aperture_to_primitive(aperture: Aperture, position: Point2d) -> Option<
    Primitive,
> {
    match aperture {
        Aperture::Circle { diameter } => Some(
            Primitive::Circle(Circle { center: position, diameter }),
        ),
        Aperture::Rectangle { x, y } => Some(
            Primitive::Rectangle(Rectangle { center: position, width: x, height: y }),
        ),
        _ => None,
    }
}

/// The track width that drawing with `aperture` gives.
pub open spec fn spec_width_from_aperture(aperture: Option<Aperture>) -> i64 {
    match aperture {
        Some(Aperture::Circle { diameter }) => diameter,
        Some(Aperture::Rectangle { x, y }) => if x >= y {
            x
        } else {
            y
        },
        _ => 0,
    }
}

pub open spec fn lookup_aperture(apertures: Map<i32, Aperture>, id: i32) -> Option<Aperture> {
    if apertures.contains_key(id) {
        Some(apertures[id])
    } else {
        None
    }
}

/// The layer unit that a `%MO` unit stands for.
pub open spec fn layer_unit(u: Unit) -> LayerUnit {
    match u {
        Unit::Inches => LayerUnit::Inch,
        Unit::Millimeters => LayerUnit::Millimeter,
    }
}

/// The layer unit after an extended command: a unit command sets it, the
/// others leave it.
pub open spec fn extended_unit(code: ExtendedCode, unit: LayerUnit) -> LayerUnit {
    match code {
        ExtendedCode::Unit(u) => layer_unit(u),
        _ => unit,
    }
}

/// Applies an extended command to `layer`: only the unit command has an
/// effect, on the layer's unit.
pub fn parse_extended_command(cmd: &ExtendedCode, layer: &mut PcbLayer)
    ensures
        final(layer).unit == extended_unit(*cmd, old(layer).unit),
        final(layer).traces@ == old(layer).traces@,
{
    match cmd {
        ExtendedCode::Unit(unit) => {
            layer.unit = match unit {
                Unit::Inches => LayerUnit::Inch,
                Unit::Millimeters => LayerUnit::Millimeter,
            };
        },
        _ => {},
    }
}

/// The state of the layer builder between two commands.
pub struct LayerBuild {
    pub position: Point2d,
    pub aperture: i32,
    pub interpolation: InterpolationMode,
    /// The trace being drawn.
    pub primitives: Seq<Primitive>,
    /// The traces closed so far.
    pub traces: Seq<Seq<Primitive>>,
    pub unit: LayerUnit,
}

pub open spec fn initial_layer_build(unit: LayerUnit, traces: Seq<Seq<Primitive>>) -> LayerBuild {
    LayerBuild {
        position: Point2d { x: 0, y: 0 },
        aperture: 0,
        interpolation: InterpolationMode::Linear,
        primitives: Seq::empty(),
        traces,
        unit,
    }
}

/// The effect of one command; `None` for a circular draw without offset.
pub open spec fn layer_step(st: LayerBuild, cmd: Command, apertures: Map<i32, Aperture>) -> Option<
    LayerBuild,
> {
    match cmd {
        Command::FunctionCode(FunctionCode::DCode(DCode::Operation(Operation::Interpolate(coords, offset)))) => {
            let target = spec_coordinate_to_position(coords, st.position);
            let center = spec_coordinate_offset_to_position(offset, st.position);
            let width = spec_width_from_aperture(lookup_aperture(apertures, st.aperture));
            match st.interpolation {
                InterpolationMode::Linear => Some(
                    LayerBuild {
                        primitives: st.primitives.push(
                            Primitive::Segment(Segment { start: st.position, end: target, width }),
                        ),
                        position: target,
                        ..st
                    },
                ),
                _ => match offset {
                    None => None,
                    Some(o) => if o.x is None || o.y is None {
                        Some(LayerBuild { position: target, ..st })
                    } else {
                        Some(
                            LayerBuild {
                                primitives: st.primitives.push(
                                    Primitive::Arc(
                                        Arc {
                                            start: st.position,
                                            end: target,
                                            center,
                                            clockwise: st.interpolation
                                                == InterpolationMode::ClockwiseCircular,
                                            width,
                                        },
                                    ),
                                ),
                                position: target,
                                ..st
                            },
                        )
                    },
                },
            }
        },
        Command::FunctionCode(FunctionCode::DCode(DCode::Operation(Operation::Move(coords)))) => {
            let target = spec_coordinate_to_position(coords, st.position);
            if st.primitives.len() > 0 {
                Some(
                    LayerBuild {
                        position: target,
                        traces: st.traces.push(st.primitives),
                        primitives: Seq::empty(),
                        ..st
                    },
                )
            } else {
                Some(LayerBuild { position: target, ..st })
            }
        },
        Command::FunctionCode(FunctionCode::DCode(DCode::Operation(Operation::Flash(coords)))) => {
            let at = spec_coordinate_to_position(coords, st.position);
            match lookup_aperture(apertures, st.aperture) {
                Some(a) => match spec_aperture_to_primitive(a, at) {
                    Some(p) => Some(LayerBuild { primitives: st.primitives.push(p), ..st }),
                    None => Some(st),
                },
                None => Some(st),
            }
        },
        Command::FunctionCode(FunctionCode::DCode(DCode::SelectAperture(id))) => Some(
            LayerBuild { aperture: id, ..st },
        ),
        Command::FunctionCode(FunctionCode::GCode(GCode::InterpolationMode(m))) => Some(
            LayerBuild { interpolation: m, ..st },
        ),
        Command::FunctionCode(_) => Some(st),
        Command::ExtendedCode(code) => Some(LayerBuild { unit: extended_unit(code, st.unit), ..st }),
    }
}

/// Runs the commands from `st`: `Ok` with the final state, or `Err` with the
/// state in which the failing command was met.
pub open spec fn layer_run(st: LayerBuild, cmds: Seq<Command>, apertures: Map<i32, Aperture>) -> Result<
    LayerBuild,
    LayerBuild,
>
    decreases cmds.len(),
{
    if cmds.len() == 0 {
        Ok(st)
    } else {
        match layer_step(st, cmds[0], apertures) {
            Some(next) => layer_run(next, cmds.drop_first(), apertures),
            None => Err(st),
        }
    }
}

/// A warning that building a layer gives for a command it cannot follow.
#[derive(Debug, Clone, Copy, PartialEq, Eq, Structural)]
pub enum Notice {
    /// Region or quadrant mode: not supported, ignored.
    UnsupportedGCode(GCode),
    /// A deprecated G code (unit, coordinate mode, aperture selection),
    /// ignored.
    DeprecatedGCode(GCode),
    /// An extended command other than the format, unit and aperture
    /// definitions: not supported, ignored.
    UnsupportedExtendedCode(ExtendedCode),
    /// An obround, polygon or macro aperture drawn or flashed: not
    /// supported; a draw gets width 0, a flash leaves nothing.
    UnsupportedAperture(Aperture),
}

/// The warning for drawing or flashing with `aperture`, if it is of a kind
/// that is not supported.
pub open spec fn aperture_notice(aperture: Option<Aperture>) -> Option<Notice> {
    match aperture {
        Some(a) => if a is Obround || a is Polygon || a is Macro {
            Some(Notice::UnsupportedAperture(a))
        } else {
            None
        },
        None => None,
    }
}

/// The warning a command gives, from the interpolation mode and the
/// selected aperture in force when it is met. A draw reads its aperture's
/// width in linear mode, and in a circular mode when the offset has both
/// coordinates.
pub open spec fn notice_for(cmd: Command, interpolation: InterpolationMode, aperture: Option<
    Aperture,
>) -> Option<Notice> {
    match cmd {
        Command::FunctionCode(FunctionCode::DCode(DCode::Operation(Operation::Interpolate(_, offset)))) => {
            let reads_width = match interpolation {
                InterpolationMode::Linear => true,
                _ => offset matches Some(o) && o.x is Some && o.y is Some,
            };
            if reads_width {
                aperture_notice(aperture)
            } else {
                None
            }
        },
        Command::FunctionCode(FunctionCode::DCode(DCode::Operation(Operation::Flash(_)))) => aperture_notice(aperture),
        Command::FunctionCode(FunctionCode::GCode(g)) => match g {
            GCode::RegionMode | GCode::QuadrantMode => Some(Notice::UnsupportedGCode(g)),
            GCode::Unit | GCode::CoordinateMode | GCode::SelectAperture => Some(
                Notice::DeprecatedGCode(g),
            ),
            _ => None,
        },
        Command::ExtendedCode(code) => match code {
            ExtendedCode::CoordinateFormat | ExtendedCode::Unit(_)
            | ExtendedCode::ApertureDefinition => None,
            _ => Some(Notice::UnsupportedExtendedCode(code)),
        },
        _ => None,
    }
}

pub open spec fn notice_seq(n: Option<Notice>) -> Seq<Notice> {
    match n {
        Some(n) => seq![n],
        None => Seq::empty(),
    }
}

/// The warnings of a run, in command order, up to a failing command.
pub open spec fn run_notices(st: LayerBuild, cmds: Seq<Command>, apertures: Map<i32, Aperture>) -> Seq<
    Notice,
>
    decreases cmds.len(),
{
    if cmds.len() == 0 {
        Seq::empty()
    } else {
        match layer_step(st, cmds[0], apertures) {
            Some(next) => notice_seq(
                notice_for(cmds[0], st.interpolation, lookup_aperture(apertures, st.aperture)),
            ) + run_notices(next, cmds.drop_first(), apertures),
            None => Seq::empty(),
        }
    }
}

/// The warning `cmd` gives (see `notice_for`).
pub fn command_notice(cmd: &Command, interpolation: InterpolationMode, aperture: Option<&Aperture>) -> (r:
    Option<Notice>)
    ensures
        r == notice_for(
            *cmd,
            interpolation,
            match aperture {
                Some(a) => Some(*a),
                None => None,
            },
        ),
{
    let ap = match aperture {
        Some(a) => match a {
            Aperture::Obround | Aperture::Polygon | Aperture::Macro => Some(
                Notice::UnsupportedAperture(*a),
            ),
            _ => None,
        },
        None => None,
    };
    match cmd {
        Command::FunctionCode(
            FunctionCode::DCode(DCode::Operation(Operation::Interpolate(_, offset))),
        ) => {
            let reads_width = match interpolation {
                InterpolationMode::Linear => true,
                _ => match offset {
                    Some(o) => o.x.is_some() && o.y.is_some(),
                    None => false,
                },
            };
            if reads_width {
                ap
            } else {
                None
            }
        },
        Command::FunctionCode(FunctionCode::DCode(DCode::Operation(Operation::Flash(_)))) => ap,
        Command::FunctionCode(FunctionCode::GCode(g)) => match g {
            GCode::RegionMode | GCode::QuadrantMode => Some(Notice::UnsupportedGCode(*g)),
            GCode::Unit | GCode::CoordinateMode | GCode::SelectAperture => Some(
                Notice::DeprecatedGCode(*g),
            ),
            _ => None,
        },
        Command::ExtendedCode(code) => match code {
            ExtendedCode::CoordinateFormat | ExtendedCode::Unit(_)
            | ExtendedCode::ApertureDefinition => None,
            _ => Some(Notice::UnsupportedExtendedCode(*code)),
        },
        _ => None,
    }
}

/// The position an operation's coordinates lead to from `current`.
pub fn coordinate_to_position(coord: &Option<Coordinates>, current_position: &Point2d) -> (p: Point2d)
    ensures
        p == spec_coordinate_to_position(*coord, *current_position),
{
    let mut result = *current_position;
    if let Some(c) = coord {
        if let Some(x) = c.x {
            result.x = x;
        }
        if let Some(y) = c.y {
            result.y = y;
        }
    }
    result
}

/// The arc center an offset gives from `current`.
pub fn coordinate_offset_to_position(coord: &Option<CoordinateOffset>, current_position: &Point2d) -> (p:
    Point2d)
    ensures
        p == spec_coordinate_offset_to_position(*coord, *current_position),
{
    let mut result = *current_position;
    if let Some(c) = coord {
        if let Some(x) = c.x {
            result.x = x;
        }
        if let Some(y) = c.y {
            result.y = y;
        }
    }
    result
}

/// The primitive that flashing `aperture` at `position` leaves.
pub fn aperture_to_primitive(aperture: &Aperture, position: &Point2d) -> (p: Option<Primitive>)
    ensures
        p == spec_aperture_to_primitive(*aperture, *position),
{
    match aperture {
        Aperture::Circle { diameter } => Some(
            Primitive::Circle(Circle { center: *position, diameter: *diameter }),
        ),
        Aperture::Rectangle { x, y } => Some(
            Primitive::Rectangle(Rectangle { center: *position, width: *x, height: *y }),
        ),
        Aperture::Obround => None,
        Aperture::Polygon => None,
        Aperture::Macro => None,
    }
}

/// The width of a track drawn with `aperture` (0 without one).
pub fn width_from_aperture(aperture: Option<&Aperture>) -> (w: i64)
    ensures
        w == spec_width_from_aperture(
            match aperture {
                Some(a) => Some(*a),
                None => None,
            },
        ),
{
    match aperture {
        Some(Aperture::Circle { diameter }) => *diameter,
        Some(Aperture::Rectangle { x, y }) => if *x >= *y {
            *x
        } else {
            *y
        },
        _ => 0,
    }
}

} // verus!

verus! {

/// Closes `primitives` as a new trace of `layer`.
fn push_trace(layer: &mut PcbLayer, primitives: Vec<Primitive>)
    ensures
        final(layer).unit == old(layer).unit,
        traces_view(final(layer).traces@) == traces_view(old(layer).traces@).push(primitives@),
{
    let ghost old_traces = layer.traces@;
    layer.traces.push(PcbTrace { primitives });
    assert(traces_view(layer.traces@) =~= traces_view(old_traces).push(primitives@));
}

/// `generate_layer`, which also appends to `notices` the warnings of the
/// commands it follows, in order (up to a failing command).
pub fn generate_layer_noting(
    gerber_doc: &GerberDoc,
    layer: &mut PcbLayer,
    notices: &mut Vec<Notice>,
) -> (r: Result<(), ParseError>)
    ensures
        final(notices)@ == old(notices)@ + run_notices(
            initial_layer_build(old(layer).unit, traces_view(old(layer).traces@)),
            gerber_doc.commands@,
            gerber_doc.apertures@,
        ),
        match layer_run(
            initial_layer_build(old(layer).unit, traces_view(old(layer).traces@)),
            gerber_doc.commands@,
            gerber_doc.apertures@,
        ) {
            Ok(st) => r is Ok && final(layer)@ == (st.unit, st.traces.push(st.primitives)),
            Err(st) => {
                &&& match r {
                    Err(ParseError::Gerber(msg)) => msg@ == circular_offset_message(),
                    _ => false,
                }
                &&& final(layer)@ == (st.unit, st.traces)
            },
        },
{
    let ghost cmds = gerber_doc.commands@;
    let ghost aps = gerber_doc.apertures@;
    let ghost start = initial_layer_build(layer.unit, traces_view(layer.traces@));
    let ghost notes0 = notices@;
    let mut position = Point2d { x: 0, y: 0 };
    let mut aperture: i32 = 0;
    let mut primitives: Vec<Primitive> = Vec::new();
    let mut interpolation = InterpolationMode::Linear;
    let n = gerber_doc.commands.len();
    let mut i: usize = 0;
    assert(cmds.skip(0) =~= cmds);
    while i < n
        invariant
            n == cmds.len(),
            cmds == gerber_doc.commands@,
            aps == gerber_doc.apertures@,
            start == initial_layer_build(old(layer).unit, traces_view(old(layer).traces@)),
            i <= n,
            layer_run(start, cmds, aps) == layer_run(
                LayerBuild {
                    position,
                    aperture,
                    interpolation,
                    primitives: primitives@,
                    traces: traces_view(layer.traces@),
                    unit: layer.unit,
                },
                cmds.skip(i as int),
                aps,
            ),
            notes0 == old(notices)@,
            notes0 + run_notices(start, cmds, aps) == notices@ + run_notices(
                LayerBuild {
                    position,
                    aperture,
                    interpolation,
                    primitives: primitives@,
                    traces: traces_view(layer.traces@),
                    unit: layer.unit,
                },
                cmds.skip(i as int),
                aps,
            ),
        decreases n - i,
    {
        let ghost st = LayerBuild {
            position,
            aperture,
            interpolation,
            primitives: primitives@,
            traces: traces_view(layer.traces@),
            unit: layer.unit,
        };
        assert(cmds.skip(i as int).drop_first() =~= cmds.skip(i + 1));
        assert(cmds.skip(i as int)[0] == cmds[i as int]);
        let ghost expected = layer_step(st, cmds[i as int], aps);
        let notice = command_notice(
            &gerber_doc.commands[i],
            interpolation,
            gerber_doc.apertures.get(&aperture),
        );
        let ghost notes_before = notices@;
        proof {
            if expected is Some {
                assert(run_notices(st, cmds.skip(i as int), aps) == notice_seq(notice)
                    + run_notices(expected->Some_0, cmds.skip(i + 1), aps));
            }
        }
        match notice {
            Some(n) => {
                notices.push(n);
            },
            None => {},
        }
        assert(notices@ =~= notes_before + notice_seq(notice));
        match &gerber_doc.commands[i] {
            Command::FunctionCode(
                FunctionCode::DCode(
                    DCode::Operation(Operation::Interpolate(coordinates, coordinate_offset)),
                ),
            ) => {
                let target = coordinate_to_position(coordinates, &position);
                let offset = coordinate_offset_to_position(coordinate_offset, &position);
                match interpolation {
                    InterpolationMode::Linear => {
                        let width = width_from_aperture(gerber_doc.apertures.get(&aperture));
                        primitives.push(
                            Primitive::Segment(Segment { start: position, end: target, width }),
                        );
                    },
                    _ => {
                        match coordinate_offset {
                            Some(coord) => {
                                if coord.x.is_none() || coord.y.is_none() {
                                } else {
                                    let width = width_from_aperture(
                                        gerber_doc.apertures.get(&aperture),
                                    );
                                    primitives.push(
                                        Primitive::Arc(
                                            Arc {
                                                start: position,
                                                end: target,
                                                center: offset,
                                                clockwise: match interpolation {
                                                    InterpolationMode::ClockwiseCircular => true,
                                                    _ => false,
                                                },
                                                width,
                                            },
                                        ),
                                    );
                                }
                            },
                            None => {
                                let msg = <String as StringExecFns>::from_str(
                                    "Offset position is mandatory with (Counter) Clockwise interpolation mode",
                                );
                                assert(expected is None);
                                assert(layer_run(st, cmds.skip(i as int), aps) == Err::<
                                    LayerBuild,
                                    LayerBuild,
                                >(st));
                                assert(notice is None);
                                assert(notices@ =~= notes0 + run_notices(start, cmds, aps));
                                return Err(ParseError::Gerber(msg));
                            },
                        }
                    },
                }
                position = target;
            },
            Command::FunctionCode(
                FunctionCode::DCode(DCode::Operation(Operation::Move(coordinates))),
            ) => {
                position = coordinate_to_position(coordinates, &position);
                if primitives.len() > 0 {
                    push_trace(layer, primitives);
                    primitives = Vec::new();
                }
            },
            Command::FunctionCode(
                FunctionCode::DCode(DCode::Operation(Operation::Flash(coordinates))),
            ) => {
                let flash_pos = coordinate_to_position(coordinates, &position);
                if let Some(a) = gerber_doc.apertures.get(&aperture) {
                    if let Some(p) = aperture_to_primitive(a, &flash_pos) {
                        primitives.push(p);
                    }
                }
            },
            Command::FunctionCode(FunctionCode::DCode(DCode::SelectAperture(id))) => {
                aperture = *id;
            },
            Command::FunctionCode(FunctionCode::GCode(GCode::InterpolationMode(mode))) => {
                interpolation = *mode;
            },
            Command::FunctionCode(_) => {},
            Command::ExtendedCode(extended_code) => {
                parse_extended_command(extended_code, layer);
            },
        }
        i = i + 1;
    }
    assert(notices@ =~= notes0 + run_notices(start, cmds, aps));
    push_trace(layer, primitives);
    Ok(())
}

/// Adds the traces that the commands of `gerber_doc` draw to `layer`, and
/// takes its unit from the file. Fails on a circular draw without an
/// offset; `layer` then holds what was built before that command.
pub fn generate_layer(gerber_doc: &GerberDoc, layer: &mut PcbLayer) -> (r: Result<(), ParseError>)
    ensures
        match layer_run(
            initial_layer_build(old(layer).unit, traces_view(old(layer).traces@)),
            gerber_doc.commands@,
            gerber_doc.apertures@,
        ) {
            Ok(st) => r is Ok && final(layer)@ == (st.unit, st.traces.push(st.primitives)),
            Err(st) => {
                &&& match r {
                    Err(ParseError::Gerber(msg)) => msg@ == circular_offset_message(),
                    _ => false,
                }
                &&& final(layer)@ == (st.unit, st.traces)
            },
        },
{
    let mut notices: Vec<Notice> = Vec::new();
    generate_layer_noting(gerber_doc, layer, &mut notices)
}

} // verus!

verus! {

/// The result of either outcome of a run.
pub open spec fn run_state(r: Result<LayerBuild, LayerBuild>) -> LayerBuild {
    match r {
        Ok(st) => st,
        Err(st) => st,
    }
}

/// Commands are read in order: running `a + b` is running `a`, then `b`
/// from where `a` left off (unless `a` failed).
pub proof fn law_layer_run_concat(
    st: LayerBuild,
    a: Seq<Command>,
    b: Seq<Command>,
    apertures: Map<i32, Aperture>,
)
    ensures
        layer_run(st, a + b, apertures) == match layer_run(st, a, apertures) {
            Ok(mid) => layer_run(mid, b, apertures),
            Err(at) => Err(at),
        },
    decreases a.len(),
{
    if a.len() > 0 {
        assert((a + b)[0] == a[0]);
        assert((a + b).drop_first() =~= a.drop_first() + b);
        if let Some(next) = layer_step(st, a[0], apertures) {
            law_layer_run_concat(next, a.drop_first(), b, apertures);
        }
    } else {
        assert(a + b =~= b);
    }
}

proof fn lemma_closed_traces_nonempty(st: LayerBuild, cmds: Seq<Command>, apertures: Map<i32, Aperture>)
    requires
        forall|i: int| 0 <= i < st.traces.len() ==> (#[trigger] st.traces[i]).len() > 0,
    ensures
        forall|i: int|
            0 <= i < run_state(layer_run(st, cmds, apertures)).traces.len() ==> (
            #[trigger] run_state(layer_run(st, cmds, apertures)).traces[i]).len() > 0,
    decreases cmds.len(),
{
    if cmds.len() > 0 {
        if let Some(next) = layer_step(st, cmds[0], apertures) {
            assert forall|i: int| 0 <= i < next.traces.len() implies (
            #[trigger] next.traces[i]).len() > 0 by {
                if i < st.traces.len() {
                    assert(next.traces[i] == st.traces[i]);
                }
            }
            lemma_closed_traces_nonempty(next, cmds.drop_first(), apertures);
        }
    }
}

/// A move closes a trace only when it has primitives: built from an empty
/// layer, every trace that a move closed is non-empty (only the trace that
/// is open at the end of the file may be empty).
pub proof fn law_closed_traces_nonempty(
    unit: LayerUnit,
    cmds: Seq<Command>,
    apertures: Map<i32, Aperture>,
)
    ensures
        forall|i: int|
            0 <= i < run_state(
                layer_run(initial_layer_build(unit, Seq::empty()), cmds, apertures),
            ).traces.len() ==> (#[trigger] run_state(
                layer_run(initial_layer_build(unit, Seq::empty()), cmds, apertures),
            ).traces[i]).len() > 0,
{
    lemma_closed_traces_nonempty(initial_layer_build(unit, Seq::empty()), cmds, apertures);
}

/// Number of commands that can leave a primitive (draws and flashes).
pub open spec fn drawing_commands(cmds: Seq<Command>) -> nat
    decreases cmds.len(),
{
    if cmds.len() == 0 {
        0
    } else {
        let here: nat = match cmds[0] {
            Command::FunctionCode(
                FunctionCode::DCode(DCode::Operation(Operation::Interpolate(_, _))),
            ) => 1,
            Command::FunctionCode(FunctionCode::DCode(DCode::Operation(Operation::Flash(_)))) => 1,
            _ => 0,
        };
        here + drawing_commands(cmds.drop_first())
    }
}

/// Number of primitives in closed traces.
pub open spec fn primitives_in(traces: Seq<Seq<Primitive>>) -> nat
    decreases traces.len(),
{
    if traces.len() == 0 {
        0
    } else {
        primitives_in(traces.drop_last()) + traces.last().len()
    }
}

pub open spec fn build_size(st: LayerBuild) -> nat {
    primitives_in(st.traces) + st.primitives.len()
}

proof fn lemma_primitive_count(st: LayerBuild, cmds: Seq<Command>, apertures: Map<i32, Aperture>)
    ensures
        build_size(run_state(layer_run(st, cmds, apertures))) <= build_size(st) + drawing_commands(
            cmds,
        ),
    decreases cmds.len(),
{
    if cmds.len() > 0 {
        if let Some(next) = layer_step(st, cmds[0], apertures) {
            if next.traces != st.traces {
                assert(next.traces.drop_last() =~= st.traces);
            }
            lemma_primitive_count(next, cmds.drop_first(), apertures);
        }
    }
}

/// Each command leaves at most one primitive, and only draws and flashes
/// leave any: from an empty layer, the layer holds at most as many
/// primitives as the file has draw and flash commands.
pub proof fn law_primitive_count(
    unit: LayerUnit,
    cmds: Seq<Command>,
    apertures: Map<i32, Aperture>,
)
    ensures
        build_size(run_state(layer_run(initial_layer_build(unit, Seq::empty()), cmds, apertures)))
            <= drawing_commands(cmds),
{
    lemma_primitive_count(initial_layer_build(unit, Seq::empty()), cmds, apertures);
}

/// The unit after the commands: that of the last unit command, if any.
pub open spec fn unit_after(unit: LayerUnit, cmds: Seq<Command>) -> LayerUnit
    decreases cmds.len(),
{
    if cmds.len() == 0 {
        unit
    } else {
        unit_after(
            match cmds[0] {
                Command::ExtendedCode(ExtendedCode::Unit(u)) => layer_unit(u),
                _ => unit,
            },
            cmds.drop_first(),
        )
    }
}

/// The layer's unit is set by the last unit command of the file and by
/// nothing else.
pub proof fn law_unit_from_last_unit_command(
    st: LayerBuild,
    cmds: Seq<Command>,
    apertures: Map<i32, Aperture>,
)
    ensures
        layer_run(st, cmds, apertures) matches Ok(end) ==> end.unit == unit_after(st.unit, cmds),
    decreases cmds.len(),
{
    if cmds.len() > 0 {
        if let Some(next) = layer_step(st, cmds[0], apertures) {
            law_unit_from_last_unit_command(next, cmds.drop_first(), apertures);
        }
    }
}

} // verus!

verus! {

/// The point that operation coordinates name from `current`: each given
/// coordinate, and the current one for each omitted coordinate.
pub open spec fn named_point(coords: Option<Coordinates>, current: Point2d) -> Point2d {
    match coords {
        None => current,
        Some(c) => Point2d {
            x: if c.x is Some {
                c.x->Some_0
            } else {
                current.x
            },
            y: if c.y is Some {
                c.y->Some_0
            } else {
                current.y
            },
        },
    }
}

/// A flash leaves the selected circle or rectangle centred on the named
/// point (omitted coordinates taken from the head's position), does not move
/// the head, and changes nothing else.
pub proof fn law_flash_at_named_point(
    st: LayerBuild,
    coords: Option<Coordinates>,
    apertures: Map<i32, Aperture>,
)
    ensures
        ({
            let cmd = Command::FunctionCode(
                FunctionCode::DCode(DCode::Operation(Operation::Flash(coords))),
            );
            let at = named_point(coords, st.position);
            &&& apertures.contains_key(st.aperture) && apertures[st.aperture] is Circle
                ==> layer_step(st, cmd, apertures) == Some(
                LayerBuild {
                    primitives: st.primitives.push(
                        Primitive::Circle(
                            Circle { center: at, diameter: apertures[st.aperture]->diameter },
                        ),
                    ),
                    ..st
                },
            )
            &&& apertures.contains_key(st.aperture) && apertures[st.aperture] is Rectangle
                ==> layer_step(st, cmd, apertures) == Some(
                LayerBuild {
                    primitives: st.primitives.push(
                        Primitive::Rectangle(
                            Rectangle {
                                center: at,
                                width: apertures[st.aperture]->x,
                                height: apertures[st.aperture]->y,
                            },
                        ),
                    ),
                    ..st
                },
            )
            &&& !apertures.contains_key(st.aperture) ==> layer_step(st, cmd, apertures) == Some(st)
        }),
{
}

/// A move takes the head to the named point (omitted coordinates kept) and
/// closes the trace being drawn if it has primitives.
pub proof fn law_move_to_named_point(
    st: LayerBuild,
    coords: Option<Coordinates>,
    apertures: Map<i32, Aperture>,
)
    ensures
        ({
            let cmd = Command::FunctionCode(
                FunctionCode::DCode(DCode::Operation(Operation::Move(coords))),
            );
            let next = layer_step(st, cmd, apertures);
            &&& next is Some
            &&& next->Some_0.position == named_point(coords, st.position)
            &&& next->Some_0.aperture == st.aperture
            &&& st.primitives.len() > 0 ==> next->Some_0.traces == st.traces.push(st.primitives)
                && next->Some_0.primitives.len() == 0
            &&& st.primitives.len() == 0 ==> next->Some_0.traces == st.traces
                && next->Some_0.primitives == st.primitives
        }),
{
}

/// A pad flashed after a move, with its Y omitted, lies in the row of the
/// move: after a move to `(x0, y0)`, a flash at `X = x` with a circle
/// selected leaves a circle centred on `(x, y0)`.
pub proof fn law_flash_after_move_keeps_row(
    st: LayerBuild,
    x0: i64,
    y0: i64,
    x: i64,
    apertures: Map<i32, Aperture>,
)
    requires
        apertures.contains_key(st.aperture),
        apertures[st.aperture] is Circle,
    ensures
        ({
            let mv = Command::FunctionCode(
                FunctionCode::DCode(
                    DCode::Operation(
                        Operation::Move(Some(Coordinates { x: Some(x0), y: Some(y0) })),
                    ),
                ),
            );
            let fl = Command::FunctionCode(
                FunctionCode::DCode(
                    DCode::Operation(Operation::Flash(Some(Coordinates { x: Some(x), y: None }))),
                ),
            );
            let r = layer_run(st, seq![mv, fl], apertures);
            &&& r is Ok
            &&& r->Ok_0.primitives.len() >= 1
            &&& r->Ok_0.primitives.last() == Primitive::Circle(
                Circle {
                    center: Point2d { x, y: y0 },
                    diameter: apertures[st.aperture]->diameter,
                },
            )
        }),
{
    let mv = Command::FunctionCode(
        FunctionCode::DCode(
            DCode::Operation(Operation::Move(Some(Coordinates { x: Some(x0), y: Some(y0) }))),
        ),
    );
    let fl = Command::FunctionCode(
        FunctionCode::DCode(
            DCode::Operation(Operation::Flash(Some(Coordinates { x: Some(x), y: None }))),
        ),
    );
    let cmds = seq![mv, fl];
    assert(cmds.drop_first() =~= seq![fl]);
    assert(cmds.drop_first().drop_first() =~= Seq::<Command>::empty());
    law_move_to_named_point(st, Some(Coordinates { x: Some(x0), y: Some(y0) }), apertures);
    let s1 = layer_step(st, mv, apertures)->Some_0;
    law_flash_at_named_point(s1, Some(Coordinates { x: Some(x), y: None }), apertures);
    reveal_with_fuel(layer_run, 3);
}

/// The width a draw gets from the aperture with number `id`: a circle's
/// diameter, a rectangle's larger side, 0 for other or undefined apertures.
pub open spec fn draw_width(apertures: Map<i32, Aperture>, id: i32) -> i64 {
    if !apertures.contains_key(id) {
        0
    } else if apertures[id] is Circle {
        apertures[id]->diameter
    } else if apertures[id] is Rectangle {
        if apertures[id]->x >= apertures[id]->y {
            apertures[id]->x
        } else {
            apertures[id]->y
        }
    } else {
        0
    }
}

/// A draw goes from the head's position to the named point: in linear mode
/// it leaves a track of the selected aperture's width; in a circular mode
/// it needs an offset (the run fails without one), leaves an arc around
/// the offset's point, clockwise in clockwise mode, when the offset gives
/// both coordinates, and leaves nothing otherwise. The head ends at the
/// named point.
pub proof fn law_draw_step(
    st: LayerBuild,
    coords: Option<Coordinates>,
    offset: Option<CoordinateOffset>,
    apertures: Map<i32, Aperture>,
)
    ensures
        ({
            let cmd = Command::FunctionCode(
                FunctionCode::DCode(DCode::Operation(Operation::Interpolate(coords, offset))),
            );
            let target = named_point(coords, st.position);
            let width = draw_width(apertures, st.aperture);
            let next = layer_step(st, cmd, apertures);
            &&& st.interpolation is Linear ==> next == Some(
                LayerBuild {
                    primitives: st.primitives.push(
                        Primitive::Segment(Segment { start: st.position, end: target, width }),
                    ),
                    position: target,
                    ..st
                },
            )
            &&& !(st.interpolation is Linear) && offset is None ==> next is None
            &&& !(st.interpolation is Linear) && offset is Some && offset->Some_0.x is Some
                && offset->Some_0.y is Some ==> next == Some(
                LayerBuild {
                    primitives: st.primitives.push(
                        Primitive::Arc(
                            Arc {
                                start: st.position,
                                end: target,
                                center: Point2d {
                                    x: offset->Some_0.x->Some_0,
                                    y: offset->Some_0.y->Some_0,
                                },
                                clockwise: st.interpolation is ClockwiseCircular,
                                width,
                            },
                        ),
                    ),
                    position: target,
                    ..st
                },
            )
            &&& !(st.interpolation is Linear) && offset is Some && (offset->Some_0.x is None
                || offset->Some_0.y is None) ==> next == Some(LayerBuild { position: target, ..st })
        }),
{
}

/// Selecting an aperture or an interpolation mode changes only that.
pub proof fn law_select_and_mode_steps(
    st: LayerBuild,
    id: i32,
    m: InterpolationMode,
    apertures: Map<i32, Aperture>,
)
    ensures
        layer_step(st, Command::FunctionCode(FunctionCode::DCode(DCode::SelectAperture(id))), apertures)
            == Some(LayerBuild { aperture: id, ..st }),
        layer_step(
            st,
            Command::FunctionCode(FunctionCode::GCode(GCode::InterpolationMode(m))),
            apertures,
        ) == Some(LayerBuild { interpolation: m, ..st }),
{
}

} // verus!
