use std::collections::VecDeque;

use coppercrab::locale::{available_locales, get_locale_name};
use coppercrab::logger::{log_message, record_log, LogEntry, MAX_LOG_ENTRIES};
use coppercrab::pcb::debug::bounding_box;
use coppercrab::pcb::geometry::{Arc, Circle, Point2d, Rectangle, Segment};
use coppercrab::pcb::parser::ParseError;
use coppercrab::pcb::{DrillLayer, LayerUnit, PcbLayer, PcbTrace, Primitive};

#[test]
fn locale_names() {
    assert_eq!(get_locale_name("en"), "English");
    assert_eq!(get_locale_name("fr"), "Français");
    assert_eq!(get_locale_name("de"), "---");
    assert_eq!(get_locale_name(""), "---");
    assert_eq!(available_locales().len(), 2);
}

#[test]
fn log_message_format() {
    assert_eq!(log_message("coppercrab::ui", "hello"), "[coppercrab::ui] hello");
}

#[test]
fn foreign_targets_are_not_recorded() {
    let mut buf = VecDeque::new();
    record_log(&mut buf, log::Level::Info, "eframe", "x");
    record_log(&mut buf, log::Level::Info, "copper", "x");
    assert!(buf.is_empty());
    record_log(&mut buf, log::Level::Warn, "coppercrab", "y");
    assert_eq!(buf.len(), 1);
    assert_eq!(buf[0].level, log::Level::Warn);
    assert_eq!(buf[0].message, "[coppercrab] y");
}

#[test]
fn buffer_keeps_latest_entries() {
    let mut buf: VecDeque<LogEntry> = VecDeque::new();
    for i in 0..150 {
        record_log(&mut buf, log::Level::Error, "coppercrab::core", &format!("{}", i));
        assert!(buf.len() <= MAX_LOG_ENTRIES);
    }
    assert_eq!(buf.len(), 100);
    assert_eq!(buf[0].message, "[coppercrab::core] 50");
    assert_eq!(buf[99].message, "[coppercrab::core] 149");
}

#[test]
fn parse_error_text() {
    let e = ParseError::Gerber("bad".to_string());
    assert_eq!(e.to_string(), "Gerber parse error: bad");
    let io = std::io::Error::new(std::io::ErrorKind::NotFound, "missing");
    let e: ParseError = io.into();
    assert!(matches!(e, ParseError::Io(_)));
    assert_eq!(e.to_string(), "IO error: missing");
}

#[test]
fn geometry_and_defaults() {
    let p = Point2d::new(3, -4);
    assert_eq!(p.to_tuple(), (3, -4));
    assert_eq!(LayerUnit::default(), LayerUnit::Millimeter);
    let layer = PcbLayer::default();
    assert_eq!(layer.unit, LayerUnit::Millimeter);
    assert!(layer.traces.is_empty());
    assert!(DrillLayer::default().holes.is_empty());
}

#[test]
fn bounding_box_doubled() {
    let empty = PcbLayer::default();
    assert_eq!(bounding_box(&empty), (i128::MAX, i128::MAX, i128::MIN, i128::MIN));
    let mut layer = PcbLayer::default();
    layer.traces.push(PcbTrace {
        primitives: vec![
            Primitive::Segment(Segment {
                start: Point2d::new(0, 0),
                end: Point2d::new(10, -5),
                width: 3,
            }),
            Primitive::Circle(Circle { center: Point2d::new(20, 20), diameter: 3 }),
        ],
    });
    layer.traces.push(PcbTrace {
        primitives: vec![
            Primitive::Rectangle(Rectangle { center: Point2d::new(-5, 0), width: 4, height: 2 }),
            Primitive::Arc(Arc {
                start: Point2d::new(0, 30),
                end: Point2d::new(1, 1),
                center: Point2d::new(0, 0),
                clockwise: true,
                width: 1,
            }),
        ],
    });
    // x: rectangle reaches 2*(-5) - 4 = -14, circle 2*20 + 3 = 43;
    // y: segment end 2*(-5) = -10, arc start 2*30 = 60.
    assert_eq!(bounding_box(&layer), (-14, -10, 43, 60));
}
