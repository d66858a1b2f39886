use apophy::task::{TaskContext, TaskError, TaskResult};
use apophy::tasks::{apply_rumad_filter, pseudocode_for, record_papers, rumad_nodes, ArxivMonitor, PseudoCodeGen};
use apophy::workflow::{arxiv_lab_workflow, HybridWorkflow};

fn step_a(ctx: &mut TaskContext) -> TaskResult<()> {
    ctx.results.insert("a".to_string(), "done".to_string());
    Ok(())
}

fn step_b(ctx: &mut TaskContext) -> TaskResult<()> {
    if !ctx.results.contains_key("a") {
        return Err(TaskError::MissingDep("step_a".to_string()));
    }
    ctx.results.insert("b".to_string(), "done".to_string());
    ctx.metrics.insert("tokens_processed".to_string(), 42);
    Ok(())
}

fn step_c(ctx: &mut TaskContext) -> TaskResult<()> {
    ctx.results.insert("c".to_string(), "done".to_string());
    Ok(())
}

/// Runs a workflow whose tasks are given as functions, in the same order as
/// their names were added.
fn run(
    wf: &HybridWorkflow,
    steps: &[fn(&mut TaskContext) -> TaskResult<()>],
    input: &str,
) -> TaskResult<TaskContext> {
    let (mut state, mut ctx) = wf.start_run(input.to_string())?;
    while let Some(i) = state.next_task() {
        let outcome = steps[i](&mut ctx);
        state.complete_task(&mut ctx, outcome)?;
    }
    Ok(ctx)
}

fn arxiv_step(ctx: &mut TaskContext) -> TaskResult<()> {
    ArxivMonitor::new("topologization".to_string()).execute(ctx)
}

fn rumad_step(ctx: &mut TaskContext) -> TaskResult<()> {
    apply_rumad_filter(ctx)
}

fn pseudo_step(ctx: &mut TaskContext) -> TaskResult<()> {
    PseudoCodeGen.execute(ctx)
}

#[test]
fn context_new() {
    let ctx = TaskContext::new("test input".to_string());
    assert_eq!(ctx.input, "test input");
    assert!(ctx.results.is_empty());
    assert!(ctx.graph_nodes.is_empty());
}

#[test]
fn arxiv_monitor_collects_papers() {
    let task = ArxivMonitor::new("topologization 2026".to_string());
    let mut ctx = TaskContext::new("test".to_string());
    task.execute(&mut ctx).expect("arxiv_monitor failed");

    assert!(ctx.results.contains_key("arxiv_papers"));
    assert_eq!(ctx.metrics.get("papers_found"), Some(&3));
    let papers: Vec<String> = serde_json::from_str(ctx.results.get("arxiv_papers").unwrap()).unwrap();
    assert_eq!(papers.len(), 3);
    assert!(papers[0].starts_with("RUMAD"));
}

#[test]
fn rumad_filter_requires_papers() {
    let mut ctx = TaskContext::new("test".to_string());
    let err = apply_rumad_filter(&mut ctx).unwrap_err();
    assert!(err.message().contains("arxiv_monitor"));
}

#[test]
fn full_arxiv_lab_workflow() {
    let wf = arxiv_lab_workflow();
    let ctx = run(&wf, &[arxiv_step, rumad_step, pseudo_step], "ArXiv Lab 2026-03-04").expect("workflow failed");

    assert_eq!(ctx.graph_nodes.len(), 3);
    assert!(ctx.results.contains_key("pseudocode"));
    assert!(ctx.dag_repr.contains("arxiv_monitor -> rumad_filter"));
    assert!(ctx.dag_repr.contains("rumad_filter -> pseudocode_gen"));
    assert_eq!(ctx.metrics.get("papers_found"), Some(&3));
    assert_eq!(ctx.graph_nodes, vec!["arxiv_monitor", "rumad_filter", "pseudocode_gen"]);
    assert_eq!(ctx.metrics.get("pseudocode_lines"), Some(&5));
    assert_eq!(ctx.metrics.get("rumad_nodes"), Some(&3));
}

#[test]
fn sequential_workflow() {
    let mut wf = HybridWorkflow::new();
    wf.add_task("step_a".to_string());
    wf.add_task("step_b".to_string());
    wf.add_edge("step_a".to_string(), "step_b".to_string());

    let ctx = run(&wf, &[step_a, step_b], "test").expect("workflow failed");

    assert_eq!(ctx.results.get("a").map(|s| s.as_str()), Some("done"));
    assert_eq!(ctx.results.get("b").map(|s| s.as_str()), Some("done"));
    assert_eq!(ctx.metrics.get("tokens_processed"), Some(&42));
    assert_eq!(ctx.graph_nodes.len(), 2);
}

#[test]
fn dag_with_three_nodes() {
    let mut wf = HybridWorkflow::new();
    wf.add_task("step_a".to_string());
    wf.add_task("step_b".to_string());
    wf.add_task("step_c".to_string());
    wf.add_edge("step_a".to_string(), "step_b".to_string());
    wf.add_edge("step_a".to_string(), "step_c".to_string());

    let ctx = run(&wf, &[step_a, step_b, step_c], "multi-path").expect("workflow failed");

    assert_eq!(ctx.graph_nodes.len(), 3);
    assert!(ctx.dag_repr.contains("step_a -> step_b"));
    assert!(ctx.dag_repr.contains("step_a -> step_c"));
}

#[test]
fn empty_workflow() {
    let wf = HybridWorkflow::new();
    let ctx = run(&wf, &[], "empty").expect("empty workflow failed");
    assert!(ctx.graph_nodes.is_empty());
    assert_eq!(ctx.dag_repr, "DAG {\n\n}");
}

#[test]
fn edges_reverse_the_insertion_order() {
    let mut wf = HybridWorkflow::new();
    wf.add_task("last".to_string());
    wf.add_task("middle".to_string());
    wf.add_task("first".to_string());
    wf.add_edge("first".to_string(), "middle".to_string());
    wf.add_edge("middle".to_string(), "last".to_string());
    assert_eq!(wf.execution_order().unwrap(), vec![2, 1, 0]);
    assert_eq!(wf.dag_repr(), "DAG {\n  first -> middle;\n  middle -> last;\n}");
}

#[test]
fn missing_dependency_is_reported() {
    let mut wf = HybridWorkflow::new();
    wf.add_task("a".to_string());
    wf.add_edge("a".to_string(), "ghost".to_string());
    match wf.execution_order() {
        Err(TaskError::MissingDep(d)) => assert_eq!(d, "ghost"),
        other => panic!("unexpected: {:?}", other),
    }
    let mut wf = HybridWorkflow::new();
    wf.add_edge("nobody".to_string(), "ghost".to_string());
    match wf.start_run("x".to_string()) {
        Err(TaskError::MissingDep(d)) => assert_eq!(d, "nobody"),
        _ => panic!("missing dependency not reported"),
    }
}

#[test]
fn cycle_is_reported() {
    let mut wf = HybridWorkflow::new();
    wf.add_task("a".to_string());
    wf.add_task("b".to_string());
    wf.add_edge("a".to_string(), "b".to_string());
    wf.add_edge("b".to_string(), "a".to_string());
    match wf.execution_order() {
        Err(e) => assert_eq!(e.message(), "task failed: cyclic dependency detected in DAG"),
        Ok(o) => panic!("cycle accepted: {:?}", o),
    }
    let mut wf = HybridWorkflow::new();
    wf.add_task("self".to_string());
    wf.add_edge("self".to_string(), "self".to_string());
    assert!(wf.execution_order().is_err());
}

#[test]
fn duplicate_names_run_the_last_task() {
    let mut wf = HybridWorkflow::new();
    wf.add_task("dup".to_string());
    wf.add_task("dup".to_string());
    assert_eq!(wf.execution_order().unwrap(), vec![1, 1]);
}

#[test]
fn failing_task_stops_the_run() {
    let mut wf = HybridWorkflow::new();
    wf.add_task("step_b".to_string());
    wf.add_task("step_c".to_string());
    let err = run(&wf, &[step_b, step_c], "x").err().expect("run should fail");
    assert_eq!(err.message(), "missing dependency: step_a");
}

#[test]
fn rumad_and_pseudocode_outputs() {
    let papers = vec!["p".to_string(), "q".to_string()];
    let nodes = rumad_nodes(&papers);
    assert_eq!(nodes, vec!["node_0", "node_1"]);
    let text = pseudocode_for(&nodes);
    assert_eq!(
        text,
        "PIPELINE {\n  PROCESS node_0: extract_concepts → embed → store\n  PROCESS node_1: extract_concepts → embed → store\n  MERGE all → knowledge_graph\n}"
    );
    let many: Vec<String> = (0..12).map(|i| i.to_string()).collect();
    assert_eq!(rumad_nodes(&many)[11], "node_11");
}

#[test]
fn pseudocode_requires_nodes() {
    let mut ctx = TaskContext::new("t".to_string());
    match PseudoCodeGen.execute(&mut ctx) {
        Err(TaskError::MissingDep(d)) => assert_eq!(d, "rumad_filter"),
        other => panic!("unexpected: {:?}", other),
    }
    ctx.results.insert("rumad_nodes".to_string(), "not json".to_string());
    assert!(matches!(PseudoCodeGen.execute(&mut ctx), Err(TaskError::Execution(_))));
    assert!(!ctx.results.contains_key("pseudocode"));
}

#[test]
fn record_papers_outcomes() {
    let mut ctx = TaskContext::new("t".to_string());
    assert!(record_papers(&mut ctx, Err("boom".to_string()), 3).is_err());
    assert!(ctx.results.is_empty());
    record_papers(&mut ctx, Ok("[\"x\"]".to_string()), 1).unwrap();
    assert_eq!(ctx.results.get("arxiv_papers").map(|s| s.as_str()), Some("[\"x\"]"));
    assert_eq!(ctx.metrics.get("papers_found"), Some(&1));
}

#[test]
fn context_maps_replace_values() {
    let mut ctx = TaskContext::new("t".to_string());
    ctx.metrics.insert("k".to_string(), 1);
    ctx.metrics.insert("k".to_string(), 2);
    ctx.metrics.insert("j".to_string(), 3);
    assert_eq!(ctx.metrics.get("k"), Some(&2));
    assert_eq!(ctx.metrics.entries().len(), 2);
    assert_eq!(ctx.metrics.get("missing"), None);
}

#[test]
fn run_arxiv_lab_completes_every_task() {
    let ctx = apophy::workflow::run_arxiv_lab("topologization".to_string(), "ArXiv Lab 2026-03-04".to_string())
        .expect("workflow failed");
    assert_eq!(ctx.input, "ArXiv Lab 2026-03-04");
    assert_eq!(ctx.graph_nodes, vec!["arxiv_monitor", "rumad_filter", "pseudocode_gen"]);
    assert!(ctx.dag_repr.contains("arxiv_monitor -> rumad_filter"));
    assert!(ctx.dag_repr.contains("rumad_filter -> pseudocode_gen"));
    assert_eq!(ctx.metrics.get("papers_found"), Some(&3));
    assert_eq!(ctx.metrics.get("rumad_nodes"), Some(&3));
    assert_eq!(ctx.metrics.get("pseudocode_lines"), Some(&5));
    assert_eq!(
        ctx.results.get("rumad_nodes").map(|s| s.as_str()),
        Some("[\"node_0\",\"node_1\",\"node_2\"]")
    );
    assert!(ctx.results.get("pseudocode").unwrap().contains("PROCESS node_2"));
}

#[test]
fn arxiv_papers_are_written_as_a_json_list() {
    let mut ctx = TaskContext::new("test".to_string());
    ArxivMonitor::new("q".to_string()).execute(&mut ctx).unwrap();
    assert_eq!(
        ctx.results.get("arxiv_papers").map(|s| s.as_str()),
        Some(
            "[\"RUMAD: Robust Unsupervised Multi-scale Anomaly Detection — Tsinghua\",\
             \"Hierarchical Concept Graphs for Visual Reasoning — Cambridge\",\
             \"PseudoAct: Pseudocode-to-Action Translation — Texas A&M\"]"
        )
    );
}
