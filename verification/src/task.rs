//! Task errors and the context that the tasks of a workflow share.
use vstd::prelude::*;
use crate::text_map::TextMap;

verus! {

/// Task errors.
#[derive(Debug)]
pub enum TaskError {
    /// The task ran and failed.
    Execution(String),
    /// A dependency (a task or its output) is missing.
    MissingDep(String),
}

pub type TaskResult<T> = Result<T, TaskError>;

pub open spec fn task_error_message(e: TaskError) -> Seq<char> {
    match e {
        TaskError::Execution(d) => "task failed: "@ + d@,
        TaskError::MissingDep(d) => "missing dependency: "@ + d@,
    }
}

impl TaskError {
    /// The human-readable message of the error.
    pub fn message(&self) -> (s: String)
        ensures
            s@ == task_error_message(*self),
    {
        let (head, detail) = match self {
            TaskError::Execution(d) => ("task failed: ", d),
            TaskError::MissingDep(d) => ("missing dependency: ", d),
        };
        let mut s = String::from_str(head);
        s.append(detail.as_str());
        s
    }
}

/// The context shared by the tasks of a workflow: each task reads and
/// writes it, in the order that the workflow's graph fixes.
pub struct TaskContext {
    /// The workflow's input.
    pub input: String,
    /// Intermediate results, by name.
    pub results: TextMap<String>,
    /// The names of the tasks that completed, in order.
    pub graph_nodes: Vec<String>,
    /// The text form of the workflow's graph.
    pub dag_repr: String,
    /// Collected metrics, by name.
    pub metrics: TextMap<u64>,
}

impl TaskContext {
    /// A fresh context for `input`: no results, no completed tasks, no
    /// metrics and an empty graph text.
    pub fn new(input: String) -> (c: Self)
        ensures
            c.input@ == input@,
            c.results@ == Map::<Seq<char>, String>::empty(),
            c.graph_nodes@ == Seq::<String>::empty(),
            c.dag_repr@ == Seq::<char>::empty(),
            c.metrics@ == Map::<Seq<char>, u64>::empty(),
    {
        TaskContext {
            input,
            results: TextMap::new(),
            graph_nodes: Vec::new(),
            dag_repr: String::new(),
            metrics: TextMap::new(),
        }
    }
}

} // verus!
