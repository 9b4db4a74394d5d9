use vstd::prelude::*;

use crate::pcb::geometry::{Arc, Circle, Rectangle, Segment};
use crate::pcb::parser::text::{Number, NumberValue};

pub mod debug;
pub mod geometry;
pub mod parser;

verus! {

/// One drawable element of a copper layer.
#[derive(Debug, Clone, Copy, PartialEq, Eq, Structural)]
pub enum Primitive {
    Segment(Segment),
    Arc(Arc),
    Circle(Circle),
    Rectangle(Rectangle),
}

/// The length unit a layer's coordinates are expressed in.
#[derive(Debug, Clone, Copy, PartialEq, Eq, Structural)]
pub enum LayerUnit {
    Millimeter,
    Inch,
}

impl Default for LayerUnit {
    fn default() -> (unit: Self)
        ensures
            unit == LayerUnit::Millimeter,
    {
        LayerUnit::Millimeter
    }
}

} // verus!

verus! {

/// A connected run of primitives, as drawn between two moves of the
/// photoplotter head.
#[derive(Debug)]
pub struct PcbTrace {
    pub primitives: Vec<Primitive>,
}

impl View for PcbTrace {
    type V = Seq<Primitive>;

    open spec fn view(&self) -> Seq<Primitive> {
        self.primitives@
    }
}

/// A copper or outline layer read from a Gerber file.
#[derive(Debug)]
pub struct PcbLayer {
    pub unit: LayerUnit,
    pub traces: Vec<PcbTrace>,
}

/// The traces of a layer as sequences of primitives.
pub open spec fn traces_view(traces: Seq<PcbTrace>) -> Seq<Seq<Primitive>> {
    traces.map_values(|t: PcbTrace| t@)
}

impl View for PcbLayer {
    type V = (LayerUnit, Seq<Seq<Primitive>>);

    open spec fn view(&self) -> (LayerUnit, Seq<Seq<Primitive>>) {
        (self.unit, traces_view(self.traces@))
    }
}

impl Default for PcbLayer {
    fn default() -> (layer: Self)
        ensures
            layer@ == (LayerUnit::Millimeter, Seq::<Seq<Primitive>>::empty()),
    {
        let layer = PcbLayer { unit: LayerUnit::Millimeter, traces: Vec::new() };
        assert(traces_view(layer.traces@) =~= Seq::<Seq<Primitive>>::empty());
        layer
    }
}

/// A hole to drill, as the drill file gives it: position and diameter in
/// the file unit.
#[derive(Debug, Clone, PartialEq)]
pub struct DrillHole {
    pub x: Number,
    pub y: Number,
    pub diameter: Number,
}

/// The values of a hole's position and diameter.
pub struct HoleValue {
    pub x: NumberValue,
    pub y: NumberValue,
    pub diameter: NumberValue,
}

impl View for DrillHole {
    type V = HoleValue;

    open spec fn view(&self) -> HoleValue {
        HoleValue { x: self.x@, y: self.y@, diameter: self.diameter@ }
    }
}

/// The values of a sequence of holes.
pub open spec fn holes_view(holes: Seq<DrillHole>) -> Seq<HoleValue> {
    holes.map_values(|h: DrillHole| h@)
}

/// The holes of an Excellon drill file, in file order.
#[derive(Debug, Clone)]
pub struct DrillLayer {
    pub holes: Vec<DrillHole>,
}

impl Default for DrillLayer {
    fn default() -> (layer: Self)
        ensures
            layer.holes@.len() == 0,
    {
        DrillLayer { holes: Vec::new() }
    }
}

} // verus!
