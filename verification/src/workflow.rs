//! The decisions of a milling session: which tool a selection names, which
//! toolpaths a generation run builds, and which G-code files an export
//! writes. The toolpath geometry and the G-code text are made elsewhere;
//! these functions say what is to be made, with which tool, and when a run
//! stops.
use vstd::prelude::*;

verus! {

/// A tool picked from the library: its kind and its index in the list of
/// tools of that kind.
#[derive(Debug, Clone, Copy, PartialEq, Eq, Structural)]
pub enum SelectedTool {
    VBit(usize),
    EndMill(usize),
    Drill(usize),
    NoTool,
}

impl Default for SelectedTool {
    fn default() -> (r: Self)
        ensures
            r == SelectedTool::NoTool,
    {
        SelectedTool::NoTool
    }
}

/// How many tools of each kind the library holds.
#[derive(Debug, Clone, Copy, PartialEq, Eq, Structural)]
pub struct ToolCounts {
    pub vbits: usize,
    pub end_mills: usize,
    pub drill_bits: usize,
}

/// The three machining operations of a board.
#[derive(Debug, Clone, Copy, PartialEq, Eq, Structural)]
pub enum Operation {
    Isolation,
    Outline,
    Drilling,
}

/// Whether `tool` names an entry of the library.
pub open spec fn in_library(tool: SelectedTool, counts: ToolCounts) -> bool {
    match tool {
        SelectedTool::VBit(i) => i < counts.vbits,
        SelectedTool::EndMill(i) => i < counts.end_mills,
        SelectedTool::Drill(i) => i < counts.drill_bits,
        SelectedTool::NoTool => false,
    }
}

/// Which kinds of tool an operation works with: isolation with V-bits and
/// end mills, the outline with end mills, drilling with drill bits.
pub open spec fn accepts(op: Operation, tool: SelectedTool) -> bool {
    match op {
        Operation::Isolation => tool is VBit || tool is EndMill,
        Operation::Outline => tool is EndMill,
        Operation::Drilling => tool is Drill,
    }
}

/// The tool whose description labels a selection: the selection itself
/// when it names an entry of the library, `NoTool` (the "pick a tool" label)
/// otherwise.
pub open spec fn named_tool(tool: SelectedTool, counts: ToolCounts) -> SelectedTool {
    if in_library(tool, counts) {
        tool
    } else {
        SelectedTool::NoTool
    }
}

/// The tool that labels the selection `tool` for the operation `op`: a
/// tool of a kind the operation does not work with is shown as `NoTool`.
pub open spec fn named_tool_for(op: Operation, tool: SelectedTool, counts: ToolCounts) -> SelectedTool {
    if accepts(op, tool) {
        named_tool(tool, counts)
    } else {
        SelectedTool::NoTool
    }
}

impl Operation {
    /// Whether this operation works with `tool`.
    pub fn accepts(&self, tool: SelectedTool) -> (r: bool)
        ensures
            r == accepts(*self, tool),
    {
        match self {
            Operation::Isolation => match tool {
                SelectedTool::VBit(_) | SelectedTool::EndMill(_) => true,
                _ => false,
            },
            Operation::Outline => match tool {
                SelectedTool::EndMill(_) => true,
                _ => false,
            },
            Operation::Drilling => match tool {
                SelectedTool::Drill(_) => true,
                _ => false,
            },
        }
    }

    /// The name of the G-code file an export of this operation writes in
    /// the output folder.
    pub fn file_name(&self) -> (name: &'static str)
        ensures
            name@ == match *self {
                Operation::Isolation => "isolation.nc"@,
                Operation::Outline => "outline.nc"@,
                Operation::Drilling => "drill.nc"@,
            },
    {
        match self {
            Operation::Isolation => "isolation.nc",
            Operation::Outline => "outline.nc",
            Operation::Drilling => "drill.nc",
        }
    }
}

/// The tool whose description labels the selection `tool`.
pub fn tool_name(tool: SelectedTool, counts: ToolCounts) -> (r: SelectedTool)
    ensures
        r == named_tool(tool, counts),
{
    let known = match tool {
        SelectedTool::VBit(i) => i < counts.vbits,
        SelectedTool::EndMill(i) => i < counts.end_mills,
        SelectedTool::Drill(i) => i < counts.drill_bits,
        SelectedTool::NoTool => false,
    };
    if known {
        tool
    } else {
        SelectedTool::NoTool
    }
}

/// The tool that labels the isolation tool selection.
pub fn isolation_tool_name(tool: SelectedTool, counts: ToolCounts) -> (r: SelectedTool)
    ensures
        r == named_tool_for(Operation::Isolation, tool, counts),
{
    if Operation::Isolation.accepts(tool) {
        tool_name(tool, counts)
    } else {
        tool_name(SelectedTool::NoTool, counts)
    }
}

/// The tool that labels the outline tool selection.
pub fn outline_tool_name(tool: SelectedTool, counts: ToolCounts) -> (r: SelectedTool)
    ensures
        r == named_tool_for(Operation::Outline, tool, counts),
{
    if Operation::Outline.accepts(tool) {
        tool_name(tool, counts)
    } else {
        tool_name(SelectedTool::NoTool, counts)
    }
}

/// The tool that labels the drill tool selection.
pub fn drill_tool_name(tool: SelectedTool, counts: ToolCounts) -> (r: SelectedTool)
    ensures
        r == named_tool_for(Operation::Drilling, tool, counts),
{
    if Operation::Drilling.accepts(tool) {
        tool_name(tool, counts)
    } else {
        tool_name(SelectedTool::NoTool, counts)
    }
}

/// A numeric setting of the session whose value a step uses. The values
/// themselves are lengths and percentages held by the front end.
#[derive(Debug, Clone, Copy, PartialEq, Eq, Structural)]
pub enum Setting {
    IsolationDepth,
    OutlineDepth,
    DrillDepth,
    /// The overlap of neighbouring passes, in percent; a generator is handed
    /// it divided by 100.
    IsolationOverlap,
}

/// What a generation run does to the toolpaths of one layer.
#[derive(Debug, Clone, Copy, PartialEq, Eq, Structural)]
pub enum LayerStep {
    /// The layer file or the tool is missing: a warning, and the toolpaths
    /// stay as they are.
    Missing,
    /// No generator was built for the layer: the toolpaths stay as they are.
    Unchanged,
    /// The toolpaths are generated anew with this tool, this number of
    /// passes, and the values of the depth and overlap settings named.
    Generate { tool: SelectedTool, passes: u32, depth: Setting, overlap: Setting },
    /// The selection names no library tool the operation works with: an
    /// error, the toolpaths are dropped, and the run stops.
    Refused,
}

/// What a session holds when toolpath generation is asked for.
#[derive(Debug, Clone, Copy, PartialEq, Eq, Structural)]
pub struct GenerationRequest {
    pub has_copper_file: bool,
    pub has_isolation_generator: bool,
    pub isolation_tool: SelectedTool,
    pub isolation_passes: u32,
    pub has_outline_file: bool,
    pub has_outline_generator: bool,
    pub outline_tool: SelectedTool,
    pub counts: ToolCounts,
}

/// What a generation run does: the step of the isolation layer, the step
/// of the outline layer (`None` when the run stopped before it), and
/// whether the "toolpaths need regenerating" flag is cleared at the end.
#[derive(Debug, Clone, Copy, PartialEq, Eq, Structural)]
pub struct GenerationPlan {
    pub isolation: LayerStep,
    pub outline: Option<LayerStep>,
    pub clears_regenerate_flag: bool,
}

/// The step for one layer: toolpaths need the layer file and a selected
/// tool, and are made only where a generator exists, with a library tool of
/// a kind the operation works with. Both layers are cut at the isolation
/// depth with the isolation overlap.
pub open spec fn layer_step(
    op: Operation,
    has_file: bool,
    has_generator: bool,
    tool: SelectedTool,
    passes: u32,
    counts: ToolCounts,
) -> LayerStep {
    if !has_file || tool is NoTool {
        LayerStep::Missing
    } else if !has_generator {
        LayerStep::Unchanged
    } else if accepts(op, tool) && in_library(tool, counts) {
        LayerStep::Generate {
            tool,
            passes,
            depth: Setting::IsolationDepth,
            overlap: Setting::IsolationOverlap,
        }
    } else {
        LayerStep::Refused
    }
}

/// The generation run: the isolation layer with its number of passes, then
/// the outline layer in a single pass; a refused layer ends the run.
pub open spec fn spec_generation_plan(req: GenerationRequest) -> GenerationPlan {
    let iso = layer_step(
        Operation::Isolation,
        req.has_copper_file,
        req.has_isolation_generator,
        req.isolation_tool,
        req.isolation_passes,
        req.counts,
    );
    if iso is Refused {
        GenerationPlan { isolation: iso, outline: None, clears_regenerate_flag: false }
    } else {
        let out = layer_step(
            Operation::Outline,
            req.has_outline_file,
            req.has_outline_generator,
            req.outline_tool,
            1,
            req.counts,
        );
        GenerationPlan {
            isolation: iso,
            outline: Some(out),
            clears_regenerate_flag: !(out is Refused),
        }
    }
}

fn plan_layer(
    op: Operation,
    has_file: bool,
    has_generator: bool,
    tool: SelectedTool,
    passes: u32,
    counts: ToolCounts,
) -> (r: LayerStep)
    ensures
        r == layer_step(op, has_file, has_generator, tool, passes, counts),
{
    if !has_file || tool == SelectedTool::NoTool {
        LayerStep::Missing
    } else if !has_generator {
        LayerStep::Unchanged
    } else if op.accepts(tool) && tool_name(tool, counts) == tool {
        LayerStep::Generate {
            tool,
            passes,
            depth: Setting::IsolationDepth,
            overlap: Setting::IsolationOverlap,
        }
    } else {
        LayerStep::Refused
    }
}

/// Decides what a toolpath generation run does (see `spec_generation_plan`).
pub fn generation_plan(req: &GenerationRequest) -> (plan: GenerationPlan)
    ensures
        plan == spec_generation_plan(*req),
{
    let iso = plan_layer(
        Operation::Isolation,
        req.has_copper_file,
        req.has_isolation_generator,
        req.isolation_tool,
        req.isolation_passes,
        req.counts,
    );
    if iso == LayerStep::Refused {
        return GenerationPlan { isolation: iso, outline: None, clears_regenerate_flag: false };
    }
    let out = plan_layer(
        Operation::Outline,
        req.has_outline_file,
        req.has_outline_generator,
        req.outline_tool,
        1,
        req.counts,
    );
    GenerationPlan {
        isolation: iso,
        outline: Some(out),
        clears_regenerate_flag: out != LayerStep::Refused,
    }
}

/// One G-code file to write: the operation, the tool it is cut with, and
/// the depth setting it is cut to, and whether the retract at the end goes
/// to the finish height (otherwise to the safe height). Drilling also uses
/// the peck step.
#[derive(Debug, Clone, Copy, PartialEq, Eq, Structural)]
pub struct ExportJob {
    pub operation: Operation,
    pub tool: SelectedTool,
    pub depth: Setting,
    pub ends_at_finish_height: bool,
}

/// The depth setting an operation's G-code is cut to.
pub open spec fn export_depth(op: Operation) -> Setting {
    match op {
        Operation::Isolation => Setting::IsolationDepth,
        Operation::Outline => Setting::OutlineDepth,
        Operation::Drilling => Setting::DrillDepth,
    }
}

/// What an export asks of one operation.
#[derive(Debug, Clone, Copy, PartialEq, Eq, Structural)]
pub enum ExportStep {
    /// Not asked for, nothing to export, or no tool selected.
    Skip,
    Write(ExportJob),
    /// The selected tool is of a kind the operation does not work with: an
    /// error, and the export stops.
    Refuse(Operation),
}

/// How an export ends.
#[derive(Debug, Clone, Copy, PartialEq, Eq, Structural)]
pub enum ExportOutcome {
    /// No output folder was chosen: a warning, and nothing is written.
    NoOutputFolder,
    /// Every operation asked for was written.
    Complete,
    /// The export stopped at this operation.
    Refused(Operation),
}

/// What a session holds when an export is asked for.
#[derive(Debug, Clone, Copy, PartialEq, Eq, Structural)]
pub struct ExportRequest {
    pub has_output_folder: bool,
    pub export_isolation: bool,
    pub export_outline: bool,
    pub export_drill: bool,
    pub has_isolation_toolpaths: bool,
    pub has_outline_toolpaths: bool,
    pub has_drill_layer: bool,
    pub isolation_tool: SelectedTool,
    pub outline_tool: SelectedTool,
    pub drill_tool: SelectedTool,
}

/// The files an export writes, in order, and how it ends.
#[derive(Debug, Clone)]
pub struct ExportPlan {
    pub jobs: Vec<ExportJob>,
    pub outcome: ExportOutcome,
}

/// The step of one operation: it is written when asked for, when there is
/// something to export and a tool is selected, and the tool suits the
/// operation. Only a V-bit isolation ends at the finish height.
pub open spec fn export_step(op: Operation, wanted: bool, tool: SelectedTool) -> ExportStep {
    if !wanted || tool is NoTool {
        ExportStep::Skip
    } else if accepts(op, tool) {
        ExportStep::Write(
            ExportJob {
                operation: op,
                tool,
                depth: export_depth(op),
                ends_at_finish_height: op is Isolation && tool is VBit,
            },
        )
    } else {
        ExportStep::Refuse(op)
    }
}

/// The steps of an export, in the order they are taken.
pub open spec fn export_steps(req: ExportRequest) -> Seq<ExportStep> {
    seq![
        export_step(
            Operation::Isolation,
            req.export_isolation && req.has_isolation_toolpaths,
            req.isolation_tool,
        ),
        export_step(
            Operation::Outline,
            req.export_outline && req.has_outline_toolpaths,
            req.outline_tool,
        ),
        export_step(Operation::Drilling, req.export_drill && req.has_drill_layer, req.drill_tool),
    ]
}

/// Takes steps in order: the jobs of the steps up to the first refusal, and
/// the operation refused, if any.
pub open spec fn run_export_steps(steps: Seq<ExportStep>) -> (Seq<ExportJob>, Option<Operation>)
    decreases steps.len(),
{
    if steps.len() == 0 {
        (Seq::empty(), None)
    } else {
        match steps[0] {
            ExportStep::Skip => run_export_steps(steps.drop_first()),
            ExportStep::Write(job) => {
                let (jobs, refused) = run_export_steps(steps.drop_first());
                (seq![job] + jobs, refused)
            },
            ExportStep::Refuse(op) => (Seq::empty(), Some(op)),
        }
    }
}

/// The files an export writes and how it ends.
pub open spec fn spec_export_plan(req: ExportRequest) -> (Seq<ExportJob>, ExportOutcome) {
    if !req.has_output_folder {
        (Seq::empty(), ExportOutcome::NoOutputFolder)
    } else {
        let (jobs, refused) = run_export_steps(export_steps(req));
        (
            jobs,
            match refused {
                Some(op) => ExportOutcome::Refused(op),
                None => ExportOutcome::Complete,
            },
        )
    }
}

fn plan_export_step(op: Operation, wanted: bool, tool: SelectedTool) -> (r: ExportStep)
    ensures
        r == export_step(op, wanted, tool),
{
    if !wanted || tool == SelectedTool::NoTool {
        ExportStep::Skip
    } else if op.accepts(tool) {
        let finish = match (op, tool) {
            (Operation::Isolation, SelectedTool::VBit(_)) => true,
            _ => false,
        };
        let depth = match op {
            Operation::Isolation => Setting::IsolationDepth,
            Operation::Outline => Setting::OutlineDepth,
            Operation::Drilling => Setting::DrillDepth,
        };
        ExportStep::Write(ExportJob { operation: op, tool, depth, ends_at_finish_height: finish })
    } else {
        ExportStep::Refuse(op)
    }
}

proof fn lemma_run_export_steps_skip(steps: Seq<ExportStep>, i: int)
    requires
        0 <= i < steps.len(),
    ensures
        run_export_steps(steps.skip(i)) == match steps[i] {
            ExportStep::Skip => run_export_steps(steps.skip(i + 1)),
            ExportStep::Write(job) => (
                seq![job] + run_export_steps(steps.skip(i + 1)).0,
                run_export_steps(steps.skip(i + 1)).1,
            ),
            ExportStep::Refuse(op) => (Seq::<ExportJob>::empty(), Some(op)),
        },
{
    assert(steps.skip(i).drop_first() =~= steps.skip(i + 1));
    assert(steps.skip(i)[0] == steps[i]);
}

/// Decides which G-code files an export writes (see `spec_export_plan`).
pub fn export_plan(req: &ExportRequest) -> (plan: ExportPlan)
    ensures
        (plan.jobs@, plan.outcome) == spec_export_plan(*req),
{
    let mut jobs: Vec<ExportJob> = Vec::new();
    if !req.has_output_folder {
        return ExportPlan { jobs, outcome: ExportOutcome::NoOutputFolder };
    }
    let steps = [
        plan_export_step(
            Operation::Isolation,
            req.export_isolation && req.has_isolation_toolpaths,
            req.isolation_tool,
        ),
        plan_export_step(
            Operation::Outline,
            req.export_outline && req.has_outline_toolpaths,
            req.outline_tool,
        ),
        plan_export_step(
            Operation::Drilling,
            req.export_drill && req.has_drill_layer,
            req.drill_tool,
        ),
    ];
    let ghost all = export_steps(*req);
    assert(steps@ =~= all);
    assert(all.skip(0) =~= all);
    let mut i: usize = 0;
    while i < 3
        invariant
            i <= 3,
            req.has_output_folder,
            all == export_steps(*req),
            steps@ == all,
            all.len() == 3,
            jobs@ + run_export_steps(all.skip(i as int)).0 == run_export_steps(all).0,
            run_export_steps(all.skip(i as int)).1 == run_export_steps(all).1,
        decreases 3 - i,
    {
        proof {
            lemma_run_export_steps_skip(all, i as int);
        }
        match steps[i] {
            ExportStep::Skip => {},
            ExportStep::Write(job) => {
                assert(jobs@.push(job) + run_export_steps(all.skip(i + 1)).0 =~= jobs@ + (seq![
                    job] + run_export_steps(all.skip(i + 1)).0));
                jobs.push(job);
            },
            ExportStep::Refuse(op) => {
                assert(jobs@ + Seq::<ExportJob>::empty() =~= jobs@);
                return ExportPlan { jobs, outcome: ExportOutcome::Refused(op) };
            },
        }
        i = i + 1;
    }
    assert(all.skip(3).len() == 0);
    assert(jobs@ + Seq::<ExportJob>::empty() =~= jobs@);
    ExportPlan { jobs, outcome: ExportOutcome::Complete }
}

/// The place of an operation in an export: isolation, outline, drilling.
pub open spec fn operation_rank(op: Operation) -> int {
    match op {
        Operation::Isolation => 0,
        Operation::Outline => 1,
        Operation::Drilling => 2,
    }
}

/// The tool a request selects for an operation.
pub open spec fn selected_for(req: ExportRequest, op: Operation) -> SelectedTool {
    match op {
        Operation::Isolation => req.isolation_tool,
        Operation::Outline => req.outline_tool,
        Operation::Drilling => req.drill_tool,
    }
}

proof fn lemma_export_steps_unfold(req: ExportRequest)
    ensures
        ({
            let st = export_steps(req);
            &&& st.len() == 3
            &&& st.drop_first() == seq![st[1], st[2]]
            &&& st.drop_first().drop_first() == seq![st[2]]
            &&& st.drop_first().drop_first().drop_first() == Seq::<ExportStep>::empty()
        }),
{
    let st = export_steps(req);
    assert(st.drop_first() =~= seq![st[1], st[2]]);
    assert(st.drop_first().drop_first() =~= seq![st[2]]);
    assert(st.drop_first().drop_first().drop_first() =~= Seq::<ExportStep>::empty());
}

/// Every file an export writes is cut with the tool selected for its
/// operation, that tool is of a kind the operation works with, and the
/// depth is the operation's own setting.
pub proof fn law_export_jobs_suit_their_operation(req: ExportRequest)
    ensures
        forall|k: int|
            0 <= k < spec_export_plan(req).0.len() ==> {
                let job = #[trigger] spec_export_plan(req).0[k];
                &&& job.tool == selected_for(req, job.operation)
                &&& accepts(job.operation, job.tool)
                &&& job.depth == export_depth(job.operation)
            },
{
    lemma_export_steps_unfold(req);
    reveal_with_fuel(run_export_steps, 4);
}

/// An export writes each operation's file at most once, in the order
/// isolation, outline, drilling.
pub proof fn law_export_jobs_in_order(req: ExportRequest)
    ensures
        forall|i: int, j: int|
            0 <= i < j < spec_export_plan(req).0.len() ==> operation_rank(
                #[trigger] spec_export_plan(req).0[i].operation,
            ) < operation_rank(#[trigger] spec_export_plan(req).0[j].operation),
{
    lemma_export_steps_unfold(req);
    reveal_with_fuel(run_export_steps, 4);
}

/// An export stops at an operation whose selected tool it does not work
/// with: the operations after it are not written, even when asked for.
pub proof fn law_refused_export_stops(req: ExportRequest, op: Operation)
    requires
        spec_export_plan(req).1 == ExportOutcome::Refused(op),
    ensures
        !accepts(op, selected_for(req, op)),
        forall|k: int|
            0 <= k < spec_export_plan(req).0.len() ==> operation_rank(
                #[trigger] spec_export_plan(req).0[k].operation,
            ) < operation_rank(op),
{
    lemma_export_steps_unfold(req);
    reveal_with_fuel(run_export_steps, 4);
}

/// Toolpaths are only generated with a tool of the library whose kind the
/// operation works with; the outline is cut in one pass, and both layers at
/// the isolation depth with the isolation overlap.
pub proof fn law_generation_uses_suitable_library_tools(req: GenerationRequest)
    ensures
        spec_generation_plan(req).isolation matches LayerStep::Generate {
            tool,
            passes,
            depth,
            overlap,
        } ==> tool == req.isolation_tool && in_library(tool, req.counts) && accepts(
            Operation::Isolation,
            tool,
        ) && passes == req.isolation_passes && depth == Setting::IsolationDepth && overlap
            == Setting::IsolationOverlap,
        spec_generation_plan(req).outline matches Some(
            LayerStep::Generate { tool, passes, depth, overlap },
        ) ==> tool == req.outline_tool && in_library(tool, req.counts) && accepts(
            Operation::Outline,
            tool,
        ) && passes == 1 && depth == Setting::IsolationDepth && overlap
            == Setting::IsolationOverlap,
{
}

/// Stores the tool an editor holds: in place of the entry it edits, or at
/// the end of the list for a new tool.
pub fn save_tool<T>(tools: &mut Vec<T>, editing_index: Option<usize>, tool: T)
    requires
        editing_index matches Some(i) ==> i < old(tools).len(),
    ensures
        final(tools)@ == match editing_index {
            Some(i) => old(tools)@.update(i as int, tool),
            None => old(tools)@.push(tool),
        },
{
    match editing_index {
        Some(i) => tools.set(i, tool),
        None => tools.push(tool),
    }
}

/// Removes the tool at `index` from its list; the later tools move up one
/// place.
pub fn delete_tool<T>(tools: &mut Vec<T>, index: usize)
    requires
        index < old(tools).len(),
    ensures
        final(tools)@ == old(tools)@.remove(index as int),
{
    tools.remove(index);
}

/// Whether a request asks for an operation's file and has something to put
/// in it: the export box of the operation is ticked and its toolpaths (or,
/// for drilling, its drill layer) exist.
pub open spec fn export_asked(req: ExportRequest, op: Operation) -> bool {
    match op {
        Operation::Isolation => req.export_isolation && req.has_isolation_toolpaths,
        Operation::Outline => req.export_outline && req.has_outline_toolpaths,
        Operation::Drilling => req.export_drill && req.has_drill_layer,
    }
}

/// An operation's file is written only when its export is asked for, its
/// toolpaths exist and a tool is selected for it; and when an export
/// completes, every such operation whose tool suits it is written.
pub proof fn law_export_writes_exactly_what_is_asked(req: ExportRequest, op: Operation)
    ensures
        forall|k: int|
            0 <= k < spec_export_plan(req).0.len() ==> {
                let job = #[trigger] spec_export_plan(req).0[k];
                &&& req.has_output_folder
                &&& export_asked(req, job.operation)
                &&& !(selected_for(req, job.operation) is NoTool)
            },
        spec_export_plan(req).1 == ExportOutcome::Complete && export_asked(req, op) && !(selected_for(
            req,
            op,
        ) is NoTool) ==> exists|k: int|
            0 <= k < spec_export_plan(req).0.len() && (#[trigger] spec_export_plan(
                req,
            ).0[k]).operation == op,
{
    lemma_export_steps_unfold(req);
    reveal_with_fuel(run_export_steps, 4);
    let jobs = spec_export_plan(req).0;
    if spec_export_plan(req).1 == ExportOutcome::Complete && export_asked(req, op) && !(
    selected_for(req, op) is NoTool) {
        let st = export_steps(req);
        let j0 = if st[0] is Write { 1int } else { 0int };
        let j1 = if st[1] is Write { 1int } else { 0int };
        match op {
            Operation::Isolation => {
                assert(jobs[0].operation == op);
            },
            Operation::Outline => {
                assert(jobs[j0].operation == op);
            },
            Operation::Drilling => {
                assert(jobs[j0 + j1].operation == op);
            },
        }
    }
}

/// A generation run clears the "toolpaths need regenerating" flag exactly
/// when it refuses no layer: a layer that is missing its file or tool, or
/// has no generator, does not keep the flag set. Without an outline file or
/// tool the outline is only reported missing.
pub proof fn law_generation_clears_flag_unless_refused(req: GenerationRequest)
    ensures
        ({
            let plan = spec_generation_plan(req);
            &&& plan.isolation is Refused <==> plan.outline is None
            &&& plan.clears_regenerate_flag <==> (!(plan.isolation is Refused) && !(plan.outline
                == Some(LayerStep::Refused)))
            &&& !(plan.isolation is Refused) && (!req.has_outline_file
                || req.outline_tool is NoTool) ==> plan.outline == Some(LayerStep::Missing)
                && plan.clears_regenerate_flag
            &&& !(plan.isolation is Refused) && req.has_outline_file && !(req.outline_tool is NoTool)
                && !req.has_outline_generator ==> plan.outline == Some(LayerStep::Unchanged)
                && plan.clears_regenerate_flag
        }),
{
}

/// A selection names a library tool exactly when its index is below the
/// number of tools of its kind; each operation's label shows only tools of
/// the kinds it works with.
pub proof fn law_tool_names_need_an_entry(i: usize, counts: ToolCounts)
    ensures
        named_tool(SelectedTool::VBit(i), counts) == (if i < counts.vbits {
            SelectedTool::VBit(i)
        } else {
            SelectedTool::NoTool
        }),
        named_tool(SelectedTool::EndMill(i), counts) == (if i < counts.end_mills {
            SelectedTool::EndMill(i)
        } else {
            SelectedTool::NoTool
        }),
        named_tool(SelectedTool::Drill(i), counts) == (if i < counts.drill_bits {
            SelectedTool::Drill(i)
        } else {
            SelectedTool::NoTool
        }),
        named_tool(SelectedTool::NoTool, counts) == SelectedTool::NoTool,
        named_tool_for(Operation::Isolation, SelectedTool::VBit(i), counts) == named_tool(
            SelectedTool::VBit(i),
            counts,
        ),
        named_tool_for(Operation::Isolation, SelectedTool::EndMill(i), counts) == named_tool(
            SelectedTool::EndMill(i),
            counts,
        ),
        named_tool_for(Operation::Isolation, SelectedTool::Drill(i), counts)
            == SelectedTool::NoTool,
        named_tool_for(Operation::Outline, SelectedTool::EndMill(i), counts) == named_tool(
            SelectedTool::EndMill(i),
            counts,
        ),
        named_tool_for(Operation::Outline, SelectedTool::VBit(i), counts) == SelectedTool::NoTool,
        named_tool_for(Operation::Outline, SelectedTool::Drill(i), counts) == SelectedTool::NoTool,
        named_tool_for(Operation::Drilling, SelectedTool::Drill(i), counts) == named_tool(
            SelectedTool::Drill(i),
            counts,
        ),
        named_tool_for(Operation::Drilling, SelectedTool::VBit(i), counts) == SelectedTool::NoTool,
        named_tool_for(Operation::Drilling, SelectedTool::EndMill(i), counts)
            == SelectedTool::NoTool,
{
}

/// What each layer's step is, from the session alone: missing without its
/// file or a selected tool; unchanged without a generator; generated with a
/// library tool of a suitable kind (for isolation a V-bit or end mill, for
/// the outline an end mill, each index below the count of its kind);
/// refused otherwise.
pub proof fn law_generation_steps_from_session(req: GenerationRequest)
    ensures
        ({
            let plan = spec_generation_plan(req);
            let iso_ok = (req.isolation_tool matches SelectedTool::VBit(i) && i < req.counts.vbits)
                || (req.isolation_tool matches SelectedTool::EndMill(i) && i
                < req.counts.end_mills);
            let out_ok = req.outline_tool matches SelectedTool::EndMill(i) && i
                < req.counts.end_mills;
            &&& (plan.isolation is Missing) <==> (!req.has_copper_file
                || req.isolation_tool is NoTool)
            &&& (plan.isolation is Unchanged) <==> (req.has_copper_file
                && !(req.isolation_tool is NoTool) && !req.has_isolation_generator)
            &&& (plan.isolation is Generate) <==> (req.has_copper_file
                && req.has_isolation_generator && iso_ok)
            &&& plan.isolation is Generate ==> plan.isolation == LayerStep::Generate {
                tool: req.isolation_tool,
                passes: req.isolation_passes,
                depth: Setting::IsolationDepth,
                overlap: Setting::IsolationOverlap,
            }
            &&& plan.outline is Some ==> ((plan.outline->Some_0 is Generate) <==> (
            req.has_outline_file && req.has_outline_generator && out_ok))
            &&& plan.outline matches Some(LayerStep::Generate { tool, passes, depth, overlap })
                ==> tool == req.outline_tool && passes == 1 && depth == Setting::IsolationDepth
                && overlap == Setting::IsolationOverlap
        }),
{
}

/// How each written file is cut: isolation at the isolation depth, the
/// outline at the outline depth, drilling at the drill depth; only a V-bit
/// isolation retracts to the finish height.
pub proof fn law_export_job_settings(req: ExportRequest)
    ensures
        forall|k: int|
            0 <= k < spec_export_plan(req).0.len() ==> {
                let job = #[trigger] spec_export_plan(req).0[k];
                &&& job.operation is Isolation ==> job.depth == Setting::IsolationDepth
                    && job.tool == req.isolation_tool
                &&& job.operation is Outline ==> job.depth == Setting::OutlineDepth
                    && job.tool == req.outline_tool
                &&& job.operation is Drilling ==> job.depth == Setting::DrillDepth
                    && job.tool == req.drill_tool
                &&& job.ends_at_finish_height <==> (job.operation is Isolation && job.tool is VBit)
            },
{
    lemma_export_steps_unfold(req);
    reveal_with_fuel(run_export_steps, 4);
}

} // verus!
