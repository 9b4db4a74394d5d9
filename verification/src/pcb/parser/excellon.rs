//! Excellon drill files: a header that defines tools (`T1C0.800`), a `%`
//! line, then tool selections (`T1`) and hole positions (`X142.0Y-67.92`),
//! until `M30` or `M02`.
use vstd::prelude::*;

use crate::pcb::parser::text::{
    chars_of, find_char, find_in_range, parse_number_range, parse_u32_range, spec_parse_number,
    spec_parse_u32, trim, trim_range, all_digits, digits_value, is_digit, unsigned_digits,
    lemma_find_char_found,
};
use crate::pcb::parser::text::{Number, NumberValue};
use crate::pcb::{holes_view, DrillHole, DrillLayer, HoleValue};

verus! {

/// What a reader knows after some lines of a drill file.
pub struct DrillScan {
    /// Diameters of the tools defined so far, by tool number.
    pub tools: Map<u32, NumberValue>,
    /// Diameter of the selected tool, if a defined tool is selected.
    pub current: Option<NumberValue>,
    pub holes: Seq<HoleValue>,
    pub in_header: bool,
    /// An end-of-program line has been read; later lines are ignored.
    pub finished: bool,
}

pub open spec fn initial_drill_scan() -> DrillScan {
    DrillScan {
        tools: Map::empty(),
        current: None,
        holes: Seq::empty(),
        in_header: true,
        finished: false,
    }
}

/// A tool definition after its `T`: tool number, `C`, diameter.
pub open spec fn spec_parse_tool_definition(s: Seq<char>) -> Option<(u32, NumberValue)> {
    match find_char(s, 'C') {
        Some(c) => match (spec_parse_u32(s.take(c)), spec_parse_number(s.skip(c + 1))) {
            (Some(id), Some(d)) => Some((id, d)),
            _ => None,
        },
        None => None,
    }
}

/// A hole position: one leading character (the `X`), the x decimal, `Y`, the
/// y decimal.
pub open spec fn spec_parse_xy(s: Seq<char>) -> Option<(NumberValue, NumberValue)> {
    match find_char(s, 'Y') {
        Some(y) => if y >= 1 {
            match (spec_parse_number(s.subrange(1, y)), spec_parse_number(s.skip(y + 1))) {
                (Some(a), Some(b)) => Some((a, b)),
                _ => None,
            }
        } else {
            None
        },
        None => None,
    }
}

pub open spec fn is_end_of_program(l: Seq<char>) -> bool {
    l == seq!['M', '3', '0'] || l == seq!['M', '0', '2']
}

/// The effect of one trimmed line.
pub open spec fn drill_line_step(st: DrillScan, l: Seq<char>) -> DrillScan {
    if st.finished || l.len() == 0 || l[0] == ';' {
        st
    } else if l == seq!['%'] {
        DrillScan { in_header: false, ..st }
    } else if st.in_header {
        if l[0] == 'T' {
            match spec_parse_tool_definition(l.drop_first()) {
                Some((id, d)) => DrillScan { tools: st.tools.insert(id, d), ..st },
                None => st,
            }
        } else {
            st
        }
    } else if l[0] == 'T' {
        match spec_parse_u32(l.drop_first()) {
            Some(id) => DrillScan {
                current: if st.tools.contains_key(id) {
                    Some(st.tools[id])
                } else {
                    None
                },
                ..st
            },
            None => st,
        }
    } else if l[0] == 'X' {
        match (st.current, spec_parse_xy(l)) {
            (Some(d), Some((x, y))) => DrillScan {
                holes: st.holes.push(HoleValue { x, y, diameter: d }),
                ..st
            },
            _ => st,
        }
    } else if is_end_of_program(l) {
        DrillScan { finished: true, ..st }
    } else {
        st
    }
}

/// Length of the first line of `text` (up to the first newline).
pub open spec fn line_end(text: Seq<char>) -> nat
    decreases text.len(),
{
    if text.len() == 0 || text[0] == '\n' {
        0
    } else {
        1 + line_end(text.drop_first())
    }
}

/// Reads `text` line by line from state `st`; each line is trimmed first.
pub open spec fn drill_scan(st: DrillScan, text: Seq<char>) -> DrillScan
    decreases text.len(),
{
    let j = line_end(text) as int;
    let next = drill_line_step(st, trim(text.take(j)));
    if j < text.len() {
        drill_scan(next, text.skip(j + 1))
    } else {
        next
    }
}

/// The holes that a drill file with contents `text` describes.
pub open spec fn spec_drill_holes(text: Seq<char>) -> Seq<HoleValue> {
    drill_scan(initial_drill_scan(), text).holes
}

pub proof fn lemma_line_end(s: Seq<char>, j: int)
    requires
        0 <= j <= s.len(),
        forall|k: int| 0 <= k < j ==> s[k] != '\n',
        j == s.len() || s[j] == '\n',
    ensures
        line_end(s) == j,
    decreases j,
{
    if j > 0 {
        lemma_line_end(s.drop_first(), j - 1);
    }
}

pub proof fn lemma_line_end_facts(s: Seq<char>)
    ensures
        line_end(s) <= s.len(),
        forall|k: int| 0 <= k < line_end(s) ==> s[k] != '\n',
        line_end(s) == s.len() || s[line_end(s) as int] == '\n',
    decreases s.len(),
{
    if s.len() > 0 && s[0] != '\n' {
        lemma_line_end_facts(s.drop_first());
        assert forall|k: int| 0 <= k < line_end(s) implies s[k] != '\n' by {
            if k > 0 {
                assert(s[k] == s.drop_first()[k - 1]);
            }
        }
    }
}

/// Once a program end has been read, nothing changes.
pub proof fn lemma_drill_scan_finished(st: DrillScan, text: Seq<char>)
    requires
        st.finished,
    ensures
        drill_scan(st, text) == st,
    decreases text.len(),
{
    let j = line_end(text) as int;
    if j < text.len() {
        lemma_drill_scan_finished(st, text.skip(j + 1));
    }
}

/// The executable reader state.
struct DrillReader {
    tools: std::collections::HashMap<u32, Number>,
    current: Option<Number>,
    holes: Vec<DrillHole>,
    in_header: bool,
    finished: bool,
}

impl DrillReader {
    spec fn scan(&self) -> DrillScan {
        DrillScan {
            tools: self.tools@.map_values(|n: Number| n@),
            current: match self.current {
                Some(n) => Some(n@),
                None => None,
            },
            holes: holes_view(self.holes@),
            in_header: self.in_header,
            finished: self.finished,
        }
    }

    fn new() -> (r: DrillReader)
        ensures
            r.scan() == initial_drill_scan(),
    {
        let r = DrillReader {
            tools: std::collections::HashMap::new(),
            current: None,
            holes: Vec::new(),
            in_header: true,
            finished: false,
        };
        assert(r.scan().tools =~= Map::<u32, NumberValue>::empty());
        assert(r.scan().holes =~= Seq::<HoleValue>::empty());
        r
    }

    /// Applies the trimmed line `s[a..b]`.
    fn read_line(&mut self, s: &Vec<char>, a: usize, b: usize)
        requires
            a <= b <= s.len(),
        ensures
            final(self).scan() == drill_line_step(old(self).scan(), s@.subrange(a as int, b as int)),
    {
        let ghost l = s@.subrange(a as int, b as int);
        if self.finished || a == b || s[a] == ';' {
            return ;
        }
        if b - a == 1 && s[a] == '%' {
            assert(l =~= seq!['%']);
            self.in_header = false;
            return ;
        }
        assert(l != seq!['%']) by {
            if l =~= seq!['%'] {
                assert(l[0] == s@[a as int]);
            }
        }
        assert(l.drop_first() =~= s@.subrange(a + 1, b as int));
        if self.in_header {
            if s[a] == 'T' {
                if let Some((id, d)) = parse_tool_definition_range(s, a + 1, b) {
                    let ghost before = self.tools@;
                    let ghost dv = d@;
                    self.tools.insert(id, d);
                    assert(self.tools@.map_values(|n: Number| n@) =~= before.map_values(
                        |n: Number| n@,
                    ).insert(id, dv));
                }
            }
            return ;
        }
        if s[a] == 'T' {
            if let Some(id) = parse_u32_range(s, a + 1, b) {
                self.current = match self.tools.get(&id) {
                    Some(d) => Some(d.copy()),
                    None => None,
                };
            }
            return ;
        }
        if s[a] == 'X' {
            if let Some(d) = &self.current {
                if let Some((x, y)) = parse_xy_range(s, a, b) {
                    let hole = DrillHole { x, y, diameter: d.copy() };
                    let ghost before = self.holes@;
                    self.holes.push(hole);
                    assert(holes_view(self.holes@) =~= holes_view(before).push(hole@));
                }
            }
            return ;
        }
        let m30 = b - a == 3 && s[a] == 'M' && s[a + 1] == '3' && s[a + 2] == '0';
        let m02 = b - a == 3 && s[a] == 'M' && s[a + 1] == '0' && s[a + 2] == '2';
        assert(is_end_of_program(l) == (m30 || m02)) by {
            if m30 {
                assert(l =~= seq!['M', '3', '0']);
            }
            if m02 {
                assert(l =~= seq!['M', '0', '2']);
            }
            if l == seq!['M', '3', '0'] || l == seq!['M', '0', '2'] {
                assert(l.len() == 3 && l[0] == s@[a as int] && l[1] == s@[a + 1] && l[2] == s@[a
                    + 2]);
            }
        }
        if m30 || m02 {
            self.finished = true;
        }
    }
}

/// Reads the tool definition `s[a..b]` (the text after `T`).
fn parse_tool_definition_range(s: &Vec<char>, a: usize, b: usize) -> (r: Option<(u32, Number)>)
    requires
        a <= b <= s.len(),
    ensures
        match r {
            Some((id, d)) => spec_parse_tool_definition(s@.subrange(a as int, b as int)) == Some(
                (id, d@),
            ),
            None => spec_parse_tool_definition(s@.subrange(a as int, b as int)) is None,
        },
{
    let ghost t = s@.subrange(a as int, b as int);
    match find_in_range(s, a, b, 'C') {
        None => None,
        Some(c) => {
            assert(t.take(c - a) =~= s@.subrange(a as int, c as int));
            assert(t.skip(c - a + 1) =~= s@.subrange(c + 1, b as int));
            let id = parse_u32_range(s, a, c);
            let d = parse_number_range(s, c + 1, b);
            match (id, d) {
                (Some(id), Some(d)) => Some((id, d)),
                _ => None,
            }
        },
    }
}

/// Reads the hole position `s[a..b]`.
fn parse_xy_range(s: &Vec<char>, a: usize, b: usize) -> (r: Option<(Number, Number)>)
    requires
        a <= b <= s.len(),
    ensures
        match r {
            Some((x, y)) => spec_parse_xy(s@.subrange(a as int, b as int)) == Some((x@, y@)),
            None => spec_parse_xy(s@.subrange(a as int, b as int)) is None,
        },
{
    let ghost t = s@.subrange(a as int, b as int);
    match find_in_range(s, a, b, 'Y') {
        None => None,
        Some(y) => {
            if y == a {
                return None;
            }
            assert(t.subrange(1, y - a) =~= s@.subrange(a + 1, y as int));
            assert(t.skip(y - a + 1) =~= s@.subrange(y + 1, b as int));
            let x = parse_number_range(s, a + 1, y);
            let yv = parse_number_range(s, y + 1, b);
            match (x, yv) {
                (Some(x), Some(yv)) => Some((x, yv)),
                _ => None,
            }
        },
    }
}

/// Reads a tool definition such as `1C0.800` (the text after `T`): the tool
/// number and the diameter.
pub fn parse_tool_definition(s: &str) -> (r: Option<(u32, Number)>)
    ensures
        match r {
            Some((id, d)) => spec_parse_tool_definition(s@) == Some((id, d@)),
            None => spec_parse_tool_definition(s@) is None,
        },
{
    let v = chars_of(s);
    assert(v@.subrange(0, v@.len() as int) =~= v@);
    parse_tool_definition_range(&v, 0, v.len())
}

/// Reads a hole position such as `X142.0Y-67.92`. The first
/// character is skipped whatever it is; where the text holds a `Y`, that
/// first character must be a one-byte character other than the `Y`.
pub fn parse_xy(s: &str) -> (r: Option<(Number, Number)>)
    requires
        find_char(s@, 'Y') matches Some(y) ==> y >= 1 && (s@[0] as u32) < 0x80,
    ensures
        match r {
            Some((x, y)) => spec_parse_xy(s@) == Some((x@, y@)),
            None => spec_parse_xy(s@) is None,
        },
{
    let v = chars_of(s);
    assert(v@.subrange(0, v@.len() as int) =~= v@);
    parse_xy_range(&v, 0, v.len())
}

/// Reads the contents of an Excellon drill file.
pub fn parse_excellon(content: &str) -> (layer: DrillLayer)
    ensures
        holes_view(layer.holes@) == spec_drill_holes(content@),
{
    let s = chars_of(content);
    let mut reader = DrillReader::new();
    let mut pos: usize = 0;
    assert(s@.skip(0) =~= s@);
    loop
        invariant_except_break
            pos <= s.len(),
            drill_scan(initial_drill_scan(), s@) == drill_scan(reader.scan(), s@.skip(pos as int)),
        ensures
            reader.scan() == drill_scan(initial_drill_scan(), s@),
        decreases s.len() - pos,
    {
        let ghost rest = s@.skip(pos as int);
        let ghost before = reader.scan();
        let mut e = pos;
        while e < s.len() && s[e] != '\n'
            invariant
                pos <= e <= s.len(),
                forall|k: int| pos <= k < e ==> s@[k] != '\n',
            decreases s.len() - e,
        {
            e = e + 1;
        }
        proof {
            lemma_line_end(rest, e - pos);
            assert(rest.take(e - pos) =~= s@.subrange(pos as int, e as int));
        }
        let (ta, tb) = trim_range(&s, pos, e);
        reader.read_line(&s, ta, tb);
        if e >= s.len() {
            break;
        }
        assert(rest.skip(e - pos + 1) =~= s@.skip(e + 1));
        pos = e + 1;
        if reader.finished {
            proof {
                lemma_drill_scan_finished(reader.scan(), s@.skip(pos as int));
            }
            break;
        }
    }
    DrillLayer { holes: reader.holes }
}

} // verus!

verus! {

/// `d` is the diameter of some defined tool.
pub open spec fn is_tool_diameter(tools: Map<u32, NumberValue>, d: NumberValue) -> bool {
    exists|id: u32| tools.contains_key(id) && tools[id] == d
}

/// What every reachable reader state satisfies.
pub open spec fn drill_scan_wf(st: DrillScan) -> bool {
    &&& st.in_header ==> st.holes.len() == 0 && st.current is None
    &&& st.current matches Some(d) ==> is_tool_diameter(st.tools, d)
    &&& forall|i: int|
        0 <= i < st.holes.len() ==> is_tool_diameter(st.tools, #[trigger] st.holes[i].diameter)
}

proof fn lemma_drill_line_step_wf(st: DrillScan, l: Seq<char>)
    requires
        drill_scan_wf(st),
    ensures
        drill_scan_wf(drill_line_step(st, l)),
{
    let next = drill_line_step(st, l);
    if !st.finished && l.len() > 0 && l[0] != ';' && l != seq!['%'] && !st.in_header {
        if l[0] == 'T' {
            if let Some(id) = spec_parse_u32(l.drop_first()) {
                if st.tools.contains_key(id) {
                    assert(is_tool_diameter(st.tools, st.tools[id]));
                }
            }
        } else if l[0] == 'X' {
            if let (Some(d), Some((x, y))) = (st.current, spec_parse_xy(l)) {
                assert forall|i: int| 0 <= i < next.holes.len() implies is_tool_diameter(
                    next.tools,
                    #[trigger] next.holes[i].diameter,
                ) by {
                    if i < st.holes.len() {
                        assert(next.holes[i] == st.holes[i]);
                    }
                }
            }
        }
    }
}

proof fn lemma_drill_scan_wf(st: DrillScan, text: Seq<char>)
    requires
        drill_scan_wf(st),
    ensures
        drill_scan_wf(drill_scan(st, text)),
    decreases text.len(),
{
    let j = line_end(text) as int;
    lemma_drill_line_step_wf(st, trim(text.take(j)));
    if j < text.len() {
        lemma_drill_scan_wf(drill_line_step(st, trim(text.take(j))), text.skip(j + 1));
    }
}

/// Every hole is drilled with the diameter of a tool that the header of the
/// file defines.
pub proof fn law_holes_use_defined_tools(text: Seq<char>)
    ensures
        forall|i: int|
            0 <= i < spec_drill_holes(text).len() ==> is_tool_diameter(
                drill_scan(initial_drill_scan(), text).tools,
                #[trigger] spec_drill_holes(text)[i].diameter,
            ),
{
    lemma_drill_scan_wf(initial_drill_scan(), text);
}

/// A file is read line by line: reading `a`, a newline, then `b` is reading
/// `a` and then continuing with `b`.
pub proof fn law_drill_scan_lines(st: DrillScan, a: Seq<char>, b: Seq<char>)
    ensures
        drill_scan(st, a + seq!['\n'] + b) == drill_scan(drill_scan(st, a), b),
    decreases a.len(),
{
    let t = a + seq!['\n'] + b;
    let j = line_end(a) as int;
    lemma_line_end_facts(a);
    assert forall|k: int| 0 <= k <= j implies t[k] == (if k < a.len() {
        a[k]
    } else {
        '\n'
    }) by {}
    lemma_line_end(t, j);
    if j < a.len() {
        assert(t.take(j) =~= a.take(j));
        assert(t.skip(j + 1) =~= a.skip(j + 1) + seq!['\n'] + b);
        law_drill_scan_lines(drill_line_step(st, trim(a.take(j))), a.skip(j + 1), b);
    } else {
        assert(t.take(j) =~= a.take(j));
        assert(t.skip(j + 1) =~= b);
    }
}

/// Lines after the end of the program do not change the holes.
pub proof fn law_end_of_program_ends_reading(a: Seq<char>, b: Seq<char>)
    requires
        drill_scan(initial_drill_scan(), a).finished,
    ensures
        spec_drill_holes(a + seq!['\n'] + b) == spec_drill_holes(a),
{
    law_drill_scan_lines(initial_drill_scan(), a, b);
    lemma_drill_scan_finished(drill_scan(initial_drill_scan(), a), b);
}

/// A blank line or a `;` comment line, inserted between two lines, changes
/// nothing.
pub proof fn law_comment_lines_ignored(a: Seq<char>, c: Seq<char>, b: Seq<char>)
    requires
        forall|k: int| 0 <= k < c.len() ==> c[k] != '\n',
        trim(c).len() == 0 || trim(c)[0] == ';',
    ensures
        spec_drill_holes(a + seq!['\n'] + c + seq!['\n'] + b) == spec_drill_holes(
            a + seq!['\n'] + b,
        ),
{
    let st = drill_scan(initial_drill_scan(), a);
    assert(a + seq!['\n'] + c + seq!['\n'] + b =~= a + seq!['\n'] + (c + seq!['\n'] + b));
    law_drill_scan_lines(initial_drill_scan(), a, c + seq!['\n'] + b);
    law_drill_scan_lines(st, c, b);
    law_drill_scan_lines(initial_drill_scan(), a, b);
    lemma_line_end(c, c.len() as int);
    assert(c.take(c.len() as int) =~= c);
}

} // verus!

verus! {

proof fn lemma_unsigned_digits_plain(n: Seq<char>)
    requires
        all_digits(n),
        n.len() > 0,
        digits_value(n) <= u32::MAX,
    ensures
        spec_parse_u32(n) == Some(digits_value(n) as u32),
{
    assert(is_digit(n[0]));
    assert(unsigned_digits(n) == n);
}

/// A header line `T<n>C<d>` (tool number `n` in digits, diameter `d`)
/// defines tool `n` with diameter `d`, replacing an earlier definition.
pub proof fn law_header_defines_tool(st: DrillScan, n: Seq<char>, d: Seq<char>)
    requires
        !st.finished,
        st.in_header,
        all_digits(n),
        n.len() > 0,
        digits_value(n) <= u32::MAX,
        (spec_parse_number(d) is Some),
    ensures
        (drill_line_step(st, seq!['T'] + n + seq!['C'] + d) == DrillScan {
            tools: st.tools.insert(digits_value(n) as u32, spec_parse_number(d)->Some_0),
            ..st
        }),
{
    let l = seq!['T'] + n + seq!['C'] + d;
    let rest = n + seq!['C'] + d;
    assert(l.drop_first() =~= rest);
    assert(l[0] == 'T');
    assert(l != seq!['%']) by {
        assert(l[0] != '%');
    }
    assert forall|k: int| 0 <= k < n.len() implies rest[k] != 'C' by {
        assert(rest[k] == n[k]);
        assert(is_digit(n[k]));
    }
    assert(rest[n.len() as int] == 'C');
    lemma_find_char_found(rest, 'C', n.len() as int);
    assert(rest.take(n.len() as int) =~= n);
    assert(rest.skip(n.len() as int + 1) =~= d);
    lemma_unsigned_digits_plain(n);
}

/// A body line `T<n>` selects tool `n`: its diameter when the header
/// defined it, no tool otherwise.
pub proof fn law_body_selects_tool(st: DrillScan, n: Seq<char>)
    requires
        !st.finished,
        !st.in_header,
        all_digits(n),
        n.len() > 0,
        digits_value(n) <= u32::MAX,
    ensures
        (drill_line_step(st, seq!['T'] + n) == DrillScan {
            current: if st.tools.contains_key(digits_value(n) as u32) {
                Some(st.tools[digits_value(n) as u32])
            } else {
                None
            },
            ..st
        }),
{
    let l = seq!['T'] + n;
    assert(l.drop_first() =~= n);
    assert(l[0] == 'T');
    assert(l != seq!['%']) by {
        assert(l[0] != '%');
    }
    lemma_unsigned_digits_plain(n);
}

/// A body line `X<x>Y<y>` whose two numbers read adds, with a tool
/// selected, a hole at `(x, y)` with the selected diameter, after the
/// holes already read; without a selected tool it changes nothing.
pub proof fn law_body_adds_hole(st: DrillScan, xs: Seq<char>, ys: Seq<char>)
    requires
        !st.finished,
        !st.in_header,
        forall|k: int| 0 <= k < xs.len() ==> xs[k] != 'Y',
        (spec_parse_number(xs) is Some),
        (spec_parse_number(ys) is Some),
    ensures
        ({
            let next = drill_line_step(st, seq!['X'] + xs + seq!['Y'] + ys);
            &&& st.current is Some ==> next == DrillScan {
                holes: st.holes.push(
                    HoleValue {
                        x: spec_parse_number(xs)->Some_0,
                        y: spec_parse_number(ys)->Some_0,
                        diameter: st.current->Some_0,
                    },
                ),
                ..st
            }
            &&& st.current is None ==> next == st
        }),
{
    let l = seq!['X'] + xs + seq!['Y'] + ys;
    assert(l[0] == 'X');
    assert(l != seq!['%']) by {
        assert(l[0] != '%');
    }
    let y: int = xs.len() as int + 1;
    assert forall|k: int| 0 <= k < y implies l[k] != 'Y' by {
        if k > 0 {
            assert(l[k] == xs[k - 1]);
        }
    }
    assert(l[y] == 'Y');
    lemma_find_char_found(l, 'Y', y);
    assert(l.subrange(1, y) =~= xs);
    assert(l.skip(y + 1) =~= ys);
}

/// The `%` line ends the header; a `;` comment line changes nothing.
pub proof fn law_header_end_and_comments(st: DrillScan, c: Seq<char>)
    requires
        !st.finished,
    ensures
        (drill_line_step(st, seq!['%']) == DrillScan { in_header: false, ..st }),
        drill_line_step(st, seq![';'] + c) == st,
{
    assert((seq![';'] + c)[0] == ';');
}

} // verus!
