use coppercrab::workflow::{
    delete_tool, drill_tool_name, export_plan, generation_plan, isolation_tool_name, outline_tool_name,
    save_tool, tool_name, ExportJob, ExportOutcome, ExportRequest, GenerationRequest, LayerStep,
    Operation, SelectedTool, Setting, ToolCounts,
};

fn generate(tool: SelectedTool, passes: u32) -> LayerStep {
    LayerStep::Generate {
        tool,
        passes,
        depth: Setting::IsolationDepth,
        overlap: Setting::IsolationOverlap,
    }
}

fn counts() -> ToolCounts {
    ToolCounts { vbits: 2, end_mills: 1, drill_bits: 3 }
}

fn generation(isolation_tool: SelectedTool, outline_tool: SelectedTool) -> GenerationRequest {
    GenerationRequest {
        has_copper_file: true,
        has_isolation_generator: true,
        isolation_tool,
        isolation_passes: 2,
        has_outline_file: true,
        has_outline_generator: true,
        outline_tool,
        counts: counts(),
    }
}

fn export_all(
    isolation_tool: SelectedTool,
    outline_tool: SelectedTool,
    drill_tool: SelectedTool,
) -> ExportRequest {
    ExportRequest {
        has_output_folder: true,
        export_isolation: true,
        export_outline: true,
        export_drill: true,
        has_isolation_toolpaths: true,
        has_outline_toolpaths: true,
        has_drill_layer: true,
        isolation_tool,
        outline_tool,
        drill_tool,
    }
}

#[test]
fn selected_tool_defaults_to_none() {
    assert_eq!(SelectedTool::default(), SelectedTool::NoTool);
}

#[test]
fn tool_names_need_a_library_entry() {
    assert_eq!(tool_name(SelectedTool::VBit(1), counts()), SelectedTool::VBit(1));
    assert_eq!(tool_name(SelectedTool::VBit(2), counts()), SelectedTool::NoTool);
    assert_eq!(tool_name(SelectedTool::EndMill(0), counts()), SelectedTool::EndMill(0));
    assert_eq!(tool_name(SelectedTool::EndMill(1), counts()), SelectedTool::NoTool);
    assert_eq!(tool_name(SelectedTool::Drill(2), counts()), SelectedTool::Drill(2));
    assert_eq!(tool_name(SelectedTool::NoTool, counts()), SelectedTool::NoTool);
}

#[test]
fn operation_names_show_only_suitable_tools() {
    assert_eq!(isolation_tool_name(SelectedTool::VBit(0), counts()), SelectedTool::VBit(0));
    assert_eq!(isolation_tool_name(SelectedTool::EndMill(0), counts()), SelectedTool::EndMill(0));
    assert_eq!(isolation_tool_name(SelectedTool::Drill(0), counts()), SelectedTool::NoTool);
    assert_eq!(outline_tool_name(SelectedTool::EndMill(0), counts()), SelectedTool::EndMill(0));
    assert_eq!(outline_tool_name(SelectedTool::VBit(0), counts()), SelectedTool::NoTool);
    assert_eq!(drill_tool_name(SelectedTool::Drill(1), counts()), SelectedTool::Drill(1));
    assert_eq!(drill_tool_name(SelectedTool::EndMill(0), counts()), SelectedTool::NoTool);
    assert_eq!(drill_tool_name(SelectedTool::Drill(5), counts()), SelectedTool::NoTool);
}

#[test]
fn operations_accept_their_tool_kinds() {
    assert!(Operation::Isolation.accepts(SelectedTool::VBit(3)));
    assert!(Operation::Isolation.accepts(SelectedTool::EndMill(0)));
    assert!(!Operation::Isolation.accepts(SelectedTool::Drill(0)));
    assert!(!Operation::Outline.accepts(SelectedTool::VBit(0)));
    assert!(Operation::Drilling.accepts(SelectedTool::Drill(0)));
    assert!(!Operation::Drilling.accepts(SelectedTool::NoTool));
}

#[test]
fn export_file_names() {
    assert_eq!(Operation::Isolation.file_name(), "isolation.nc");
    assert_eq!(Operation::Outline.file_name(), "outline.nc");
    assert_eq!(Operation::Drilling.file_name(), "drill.nc");
}

#[test]
fn generation_with_suitable_tools() {
    let plan = generation_plan(&generation(SelectedTool::VBit(1), SelectedTool::EndMill(0)));
    assert_eq!(plan.isolation, generate(SelectedTool::VBit(1), 2));
    assert_eq!(plan.outline, Some(generate(SelectedTool::EndMill(0), 1)));
    assert!(plan.clears_regenerate_flag);
}

#[test]
fn generation_refused_isolation_stops_the_run() {
    let plan = generation_plan(&generation(SelectedTool::Drill(0), SelectedTool::EndMill(0)));
    assert_eq!(plan.isolation, LayerStep::Refused);
    assert_eq!(plan.outline, None);
    assert!(!plan.clears_regenerate_flag);

    let plan = generation_plan(&generation(SelectedTool::VBit(7), SelectedTool::EndMill(0)));
    assert_eq!(plan.isolation, LayerStep::Refused);
    assert_eq!(plan.outline, None);
}

#[test]
fn generation_refused_outline_keeps_the_flag() {
    let plan = generation_plan(&generation(SelectedTool::EndMill(0), SelectedTool::VBit(0)));
    assert_eq!(plan.isolation, generate(SelectedTool::EndMill(0), 2));
    assert_eq!(plan.outline, Some(LayerStep::Refused));
    assert!(!plan.clears_regenerate_flag);
}

#[test]
fn generation_missing_inputs_and_generators() {
    let mut req = generation(SelectedTool::NoTool, SelectedTool::EndMill(0));
    req.has_outline_generator = false;
    let plan = generation_plan(&req);
    assert_eq!(plan.isolation, LayerStep::Missing);
    assert_eq!(plan.outline, Some(LayerStep::Unchanged));
    assert!(plan.clears_regenerate_flag);

    let mut req = generation(SelectedTool::Drill(0), SelectedTool::EndMill(0));
    req.has_isolation_generator = false;
    req.has_outline_file = false;
    let plan = generation_plan(&req);
    assert_eq!(plan.isolation, LayerStep::Unchanged);
    assert_eq!(plan.outline, Some(LayerStep::Missing));
}

#[test]
fn export_without_output_folder_writes_nothing() {
    let mut req = export_all(SelectedTool::VBit(0), SelectedTool::EndMill(0), SelectedTool::Drill(0));
    req.has_output_folder = false;
    let plan = export_plan(&req);
    assert!(plan.jobs.is_empty());
    assert_eq!(plan.outcome, ExportOutcome::NoOutputFolder);
}

#[test]
fn export_writes_every_file_in_order() {
    let plan = export_plan(&export_all(
        SelectedTool::VBit(1),
        SelectedTool::EndMill(0),
        SelectedTool::Drill(2),
    ));
    assert_eq!(
        plan.jobs,
        vec![
            ExportJob {
                operation: Operation::Isolation,
                tool: SelectedTool::VBit(1),
                depth: Setting::IsolationDepth,
                ends_at_finish_height: true,
            },
            ExportJob {
                operation: Operation::Outline,
                tool: SelectedTool::EndMill(0),
                depth: Setting::OutlineDepth,
                ends_at_finish_height: false,
            },
            ExportJob {
                operation: Operation::Drilling,
                tool: SelectedTool::Drill(2),
                depth: Setting::DrillDepth,
                ends_at_finish_height: false,
            },
        ]
    );
    assert_eq!(plan.outcome, ExportOutcome::Complete);
}

#[test]
fn export_end_mill_isolation_retracts_to_safe_height() {
    let mut req = export_all(SelectedTool::EndMill(0), SelectedTool::NoTool, SelectedTool::Drill(0));
    req.export_drill = false;
    let plan = export_plan(&req);
    assert_eq!(
        plan.jobs,
        vec![ExportJob {
            operation: Operation::Isolation,
            tool: SelectedTool::EndMill(0),
            depth: Setting::IsolationDepth,
            ends_at_finish_height: false,
        }]
    );
    assert_eq!(plan.outcome, ExportOutcome::Complete);
}

#[test]
fn export_refusal_stops_later_files() {
    let plan = export_plan(&export_all(
        SelectedTool::VBit(0),
        SelectedTool::Drill(0),
        SelectedTool::Drill(0),
    ));
    assert_eq!(plan.jobs.len(), 1);
    assert_eq!(plan.jobs[0].operation, Operation::Isolation);
    assert_eq!(plan.outcome, ExportOutcome::Refused(Operation::Outline));

    let plan = export_plan(&export_all(
        SelectedTool::Drill(0),
        SelectedTool::EndMill(0),
        SelectedTool::Drill(0),
    ));
    assert!(plan.jobs.is_empty());
    assert_eq!(plan.outcome, ExportOutcome::Refused(Operation::Isolation));
}

#[test]
fn export_skips_what_is_missing() {
    let mut req = export_all(SelectedTool::VBit(0), SelectedTool::EndMill(0), SelectedTool::VBit(0));
    req.has_outline_toolpaths = false;
    req.has_drill_layer = false;
    let plan = export_plan(&req);
    assert_eq!(plan.jobs.len(), 1);
    assert_eq!(plan.outcome, ExportOutcome::Complete);
}

#[test]
fn saving_a_tool_edits_or_appends() {
    let mut tools = vec!["a", "b"];
    save_tool(&mut tools, Some(1), "c");
    assert_eq!(tools, vec!["a", "c"]);
    save_tool(&mut tools, None, "d");
    assert_eq!(tools, vec!["a", "c", "d"]);
}

#[test]
fn deleting_a_tool_moves_later_ones_up() {
    let mut tools = vec!["a", "b", "c"];
    delete_tool(&mut tools, 1);
    assert_eq!(tools, vec!["a", "c"]);
    delete_tool(&mut tools, 0);
    assert_eq!(tools, vec!["c"]);
}
