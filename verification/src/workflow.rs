//! Hybrid workflows: named tasks and dependency edges form a DAG; the tasks
//! run one after the other in the DAG's topological order.
use vstd::prelude::*;
use crate::graph::{
    add_task_edge, add_task_node, graph_edges, graph_nodes, is_acyclic, is_topological_order,
    new_task_graph, petgraph_toposort, toposort_task_graph,
};
use crate::task::{TaskContext, TaskError, TaskResult};
use crate::tasks::{
    apply_rumad_filter, arxiv_papers, json_parse_string_list, json_string_list, node_labels,
    pseudocode_text, ArxivMonitor, PseudoCodeGen,
};
use crate::text::{chars_of, extend_chars, join, lemma_take_drop_last, string_of, string_rows};

verus! {

/// The last position of `name` in `names`, if any.
pub open spec fn last_index(names: Seq<Seq<char>>, name: Seq<char>) -> Option<int>
    decreases names.len(),
{
    if names.len() == 0 {
        None
    } else if names.last() == name {
        Some(names.len() - 1)
    } else {
        last_index(names.drop_last(), name)
    }
}

/// The first edge endpoint, in edge order and `from` before `to`, that
/// names no task.
pub open spec fn first_missing(names: Seq<Seq<char>>, edges: Seq<(Seq<char>, Seq<char>)>) -> Option<
    Seq<char>,
>
    decreases edges.len(),
{
    if edges.len() == 0 {
        None
    } else if last_index(names, edges[0].0) is None {
        Some(edges[0].0)
    } else if last_index(names, edges[0].1) is None {
        Some(edges[0].1)
    } else {
        first_missing(names, edges.drop_first())
    }
}

/// The edges as task positions: a name stands for the last task of that
/// name.
pub open spec fn resolved_edges(names: Seq<Seq<char>>, edges: Seq<(Seq<char>, Seq<char>)>) -> Seq<
    (usize, usize),
> {
    edges.map_values(
        |e: (Seq<char>, Seq<char>)|
            (last_index(names, e.0).unwrap() as usize, last_index(names, e.1).unwrap() as usize),
    )
}

/// The tasks to run, given the graph nodes in topological order: each node
/// stands for the last task that bears its task's name.
pub open spec fn order_of_sorted(names: Seq<Seq<char>>, sorted: Seq<usize>) -> Seq<usize> {
    sorted.map_values(|node: usize| last_index(names, names[node as int]).unwrap() as usize)
}

pub open spec fn edge_rows(edges: Seq<(String, String)>) -> Seq<(Seq<char>, Seq<char>)> {
    edges.map_values(|e: (String, String)| (e.0@, e.1@))
}

/// `order` is the execution order of the workflow with these tasks and
/// edges.
pub open spec fn is_execution_order(
    names: Seq<Seq<char>>,
    edges: Seq<(Seq<char>, Seq<char>)>,
    order: Seq<usize>,
) -> bool {
    &&& first_missing(names, edges) is None
    &&& petgraph_toposort(names.len(), resolved_edges(names, edges)) matches Some(sorted)
    &&& is_topological_order(sorted, names.len(), resolved_edges(names, edges))
    &&& order == order_of_sorted(names, sorted)
}

pub open spec fn cycle_message() -> Seq<char> {
    "cyclic dependency detected in DAG"@
}

/// `e` is what planning the workflow with these tasks and edges fails with.
pub open spec fn is_plan_error(
    names: Seq<Seq<char>>,
    edges: Seq<(Seq<char>, Seq<char>)>,
    e: TaskError,
) -> bool {
    match e {
        TaskError::MissingDep(d) => first_missing(names, edges) == Some(d@),
        TaskError::Execution(m) => {
            &&& first_missing(names, edges) is None
            &&& petgraph_toposort(names.len(), resolved_edges(names, edges)) is None
            &&& !is_acyclic(names.len(), resolved_edges(names, edges))
            &&& m@ == cycle_message()
        },
    }
}

/// The text line of one edge.
pub open spec fn edge_line(e: (Seq<char>, Seq<char>)) -> Seq<char> {
    "  "@ + e.0 + " -> "@ + e.1 + ";"@
}

/// The text form of a workflow's edges.
pub open spec fn dag_text(edges: Seq<(Seq<char>, Seq<char>)>) -> Seq<char> {
    "DAG {\n"@ + join(edges.map_values(|e: (Seq<char>, Seq<char>)| edge_line(e)), "\n"@) + "\n}"@
}

/// The last position of `name` among `names`.
fn find_last(names: &Vec<String>, name: &String) -> (r: Option<usize>)
    ensures
        match r {
            Some(i) => last_index(string_rows(names@), name@) == Some(i as int),
            None => last_index(string_rows(names@), name@) is None,
        },
{
    let ghost rows = string_rows(names@);
    let mut i = names.len();
    assert(rows.take(i as int) =~= rows);
    while i > 0
        invariant
            i <= names@.len(),
            rows == string_rows(names@),
            last_index(rows, name@) == last_index(rows.take(i as int), name@),
        decreases i,
    {
        let ghost pre = rows.take(i as int);
        assert(pre.last() == names@[i - 1]@);
        assert(pre.drop_last() =~= rows.take(i - 1));
        if names[i - 1] == *name {
            return Some(i - 1);
        }
        i -= 1;
    }
    None
}

proof fn lemma_last_index_bounds(names: Seq<Seq<char>>, name: Seq<char>)
    ensures
        last_index(names, name) matches Some(i) ==> 0 <= i < names.len() && names[i] == name
            && forall|j: int| i < j < names.len() ==> names[j] != name,
        last_index(names, name) is None ==> forall|j: int| 0 <= j < names.len() ==> names[j] != name,
    decreases names.len(),
{
    if names.len() > 0 {
        let init = names.drop_last();
        lemma_last_index_bounds(init, name);
        if names.last() != name {
            match last_index(init, name) {
                Some(i) => {
                    assert forall|j: int| i < j < names.len() implies names[j] != name by {
                        if j < init.len() {
                            assert(init[j] == names[j]);
                        }
                    }
                },
                None => {
                    assert forall|j: int| 0 <= j < names.len() implies names[j] != name by {
                        if j < init.len() {
                            assert(init[j] == names[j]);
                        }
                    }
                },
            }
        }
    }
}

proof fn lemma_last_index_of_present(names: Seq<Seq<char>>, k: int)
    requires
        0 <= k < names.len(),
    ensures
        last_index(names, names[k]) is Some,
{
    lemma_last_index_bounds(names, names[k]);
}

/// Tasks (by name) and dependency edges between them.
pub struct HybridWorkflow {
    task_names: Vec<String>,
    edges: Vec<(String, String)>,
}

impl HybridWorkflow {
    /// The task names, in the order the tasks were added.
    pub closed spec fn names(&self) -> Seq<Seq<char>> {
        string_rows(self.task_names@)
    }

    /// The edges (from, to), in the order they were added.
    pub closed spec fn edge_list(&self) -> Seq<(Seq<char>, Seq<char>)> {
        edge_rows(self.edges@)
    }

    /// A workflow without tasks or edges.
    pub fn new() -> (w: Self)
        ensures
            w.names() == Seq::<Seq<char>>::empty(),
            w.edge_list() == Seq::<(Seq<char>, Seq<char>)>::empty(),
    {
        let w = HybridWorkflow { task_names: Vec::new(), edges: Vec::new() };
        assert(w.names() =~= Seq::<Seq<char>>::empty());
        assert(w.edge_list() =~= Seq::<(Seq<char>, Seq<char>)>::empty());
        w
    }

    /// Adds the task named `name`.
    pub fn add_task(&mut self, name: String)
        ensures
            final(self).names() == old(self).names().push(name@),
            final(self).edge_list() == old(self).edge_list(),
    {
        let ghost before = self.task_names@;
        self.task_names.push(name);
        assert(string_rows(self.task_names@) =~= string_rows(before).push(name@));
    }

    /// Declares that the task `from` must run before the task `to`.
    pub fn add_edge(&mut self, from: String, to: String)
        ensures
            final(self).names() == old(self).names(),
            final(self).edge_list() == old(self).edge_list().push((from@, to@)),
    {
        let ghost before = self.edges@;
        self.edges.push((from, to));
        assert(edge_rows(self.edges@) =~= edge_rows(before).push((from@, to@)));
    }

    /// The tasks to run, given the graph nodes in topological order.
    pub fn tasks_in_order(&self, sorted: &Vec<usize>) -> (order: Vec<usize>)
        requires
            forall|i: int| 0 <= i < sorted@.len() ==> #[trigger] sorted@[i] < self.names().len(),
        ensures
            order@ == order_of_sorted(self.names(), sorted@),
            forall|i: int| 0 <= i < order@.len() ==> #[trigger] order@[i] < self.names().len(),
    {
        let ghost names = self.names();
        let mut order: Vec<usize> = Vec::new();
        let m = sorted.len();
        for k in 0..m
            invariant
                m == sorted@.len(),
                names == self.names(),
                names == string_rows(self.task_names@),
                forall|i: int| 0 <= i < sorted@.len() ==> #[trigger] sorted@[i] < names.len(),
                order@ == order_of_sorted(names, sorted@.take(k as int)),
                forall|i: int| 0 <= i < order@.len() ==> #[trigger] order@[i] < names.len(),
        {
            let node = sorted[k];
            assert(sorted@[k as int] < names.len());
            proof {
                lemma_last_index_of_present(names, node as int);
                lemma_last_index_bounds(names, names[node as int]);
            }
            let idx = match find_last(&self.task_names, &self.task_names[node]) {
                Some(i) => i,
                None => node,  // unreachable: the node's own name is present
            };
            let ghost before = order@;
            order.push(idx);
            assert(order@ =~= order_of_sorted(names, sorted@.take(k + 1)));
        }
        assert(sorted@.take(m as int) =~= sorted@);
        order
    }

    /// The order in which the tasks run: a DAG of the tasks is built (each
    /// edge between the last tasks of its names) and sorted topologically.
    /// Fails on an edge that names no task, and on a cycle.
    pub fn execution_order(&self) -> (r: TaskResult<Vec<usize>>)
        ensures
            match r {
                Ok(order) => is_execution_order(self.names(), self.edge_list(), order@),
                Err(e) => is_plan_error(self.names(), self.edge_list(), e),
            },
            first_missing(self.names(), self.edge_list()) is None && is_acyclic(
                self.names().len(),
                resolved_edges(self.names(), self.edge_list()),
            ) ==> r is Ok,
    {
        let ghost names = self.names();
        let ghost edges = self.edge_list();
        let n = self.task_names.len();
        let mut g = new_task_graph();
        for i in 0..n
            invariant
                n == self.task_names@.len(),
                graph_nodes(g) == Seq::new(i as nat, |k: int| k as usize),
                graph_edges(g) == Seq::<(usize, usize)>::empty(),
        {
            add_task_node(&mut g, i);
            assert(graph_nodes(g) =~= Seq::new((i + 1) as nat, |k: int| k as usize));
        }
        let m = self.edges.len();
        assert(edges.skip(0) =~= edges);
        for k in 0..m
            invariant
                n == self.task_names@.len(),
                m == self.edges@.len(),
                names == self.names(),
                edges == self.edge_list(),
                names == string_rows(self.task_names@),
                edges == edge_rows(self.edges@),
                graph_nodes(g) == Seq::new(n as nat, |k: int| k as usize),
                graph_edges(g) == resolved_edges(names, edges.take(k as int)),
                first_missing(names, edges) == first_missing(names, edges.skip(k as int)),
                forall|j: int| 0 <= j < k ==> last_index(names, (#[trigger] edges[j]).0) is Some
                    && last_index(names, edges[j].1) is Some,
        {
            let ghost e = edges[k as int];
            assert(e == (self.edges@[k as int].0@, self.edges@[k as int].1@));
            assert(edges.skip(k as int)[0] == e);
            assert(edges.skip(k as int).drop_first() =~= edges.skip(k + 1));
            let from = match find_last(&self.task_names, &self.edges[k].0) {
                Some(i) => i,
                None => {
                    return Err(TaskError::MissingDep(self.edges[k].0.clone()));
                },
            };
            let to = match find_last(&self.task_names, &self.edges[k].1) {
                Some(i) => i,
                None => {
                    return Err(TaskError::MissingDep(self.edges[k].1.clone()));
                },
            };
            proof {
                lemma_last_index_bounds(names, e.0);
                lemma_last_index_bounds(names, e.1);
            }
            add_task_edge(&mut g, from, to);
            assert(graph_edges(g) =~= resolved_edges(names, edges.take(k + 1)));
        }
        assert(edges.take(m as int) =~= edges);
        assert(edges.skip(m as int) =~= Seq::<(Seq<char>, Seq<char>)>::empty());
        assert(graph_nodes(g).len() == names.len());
        match toposort_task_graph(&g) {
            None => Err(TaskError::Execution(String::from_str("cyclic dependency detected in DAG"))),
            Some(sorted) => Ok(self.tasks_in_order(&sorted)),
        }
    }

    /// The text form of the graph: one `from -> to;` line per edge.
    pub fn dag_repr(&self) -> (s: String)
        ensures
            s@ == dag_text(self.edge_list()),
    {
        let ghost edges = self.edge_list();
        let ghost lines = edges.map_values(|e: (Seq<char>, Seq<char>)| edge_line(e));
        let mut out = chars_of("DAG {\n");
        let ghost head = out@;
        let newline = chars_of("\n");
        let m = self.edges.len();
        for k in 0..m
            invariant
                m == self.edges@.len(),
                edges == self.edge_list(),
                edges == edge_rows(self.edges@),
                lines == edges.map_values(|e: (Seq<char>, Seq<char>)| edge_line(e)),
                newline@ == "\n"@,
                head == "DAG {\n"@,
                out@ == head + join(lines.take(k as int), "\n"@),
        {
            proof {
                lemma_take_drop_last(lines, k as int);
            }
            if k > 0 {
                extend_chars(&mut out, &newline);
            }
            let indent = chars_of("  ");
            extend_chars(&mut out, &indent);
            let from = chars_of(self.edges[k].0.as_str());
            extend_chars(&mut out, &from);
            let arrow = chars_of(" -> ");
            extend_chars(&mut out, &arrow);
            let to = chars_of(self.edges[k].1.as_str());
            extend_chars(&mut out, &to);
            let semi = chars_of(";");
            extend_chars(&mut out, &semi);
            proof {
                assert(lines[k as int] == edge_line(edges[k as int]));
                if k == 0 {
                    assert(lines.take(1) =~= seq![lines[0]]);
                }
                assert(out@ =~= head + join(lines.take(k + 1), "\n"@));
            }
        }
        assert(lines.take(m as int) =~= lines);
        let tail = chars_of("\n}");
        extend_chars(&mut out, &tail);
        string_of(&out)
    }

    /// Starts a run on `input`: the tasks to run in order, and a fresh
    /// context holding the graph text. Fails as `execution_order` does.
    pub fn start_run(&self, input: String) -> (r: TaskResult<(WorkflowRun, TaskContext)>)
        ensures
            match r {
                Ok((run, ctx)) => {
                    &&& run.wf()
                    &&& run.task_names() == self.names()
                    &&& is_execution_order(self.names(), self.edge_list(), run.order())
                    &&& run.position() == 0
                    &&& !run.stopped()
                    &&& run.completed() == Seq::<Seq<char>>::empty()
                    &&& string_rows(ctx.graph_nodes@) == run.completed()
                    &&& ctx.input@ == input@
                    &&& ctx.results@ == Map::<Seq<char>, String>::empty()
                    &&& ctx.graph_nodes@ == Seq::<String>::empty()
                    &&& ctx.metrics@ == Map::<Seq<char>, u64>::empty()
                    &&& ctx.dag_repr@ == dag_text(self.edge_list())
                },
                Err(e) => is_plan_error(self.names(), self.edge_list(), e),
            },
            first_missing(self.names(), self.edge_list()) is None && is_acyclic(
                self.names().len(),
                resolved_edges(self.names(), self.edge_list()),
            ) ==> r is Ok,
    {
        let mut ctx = TaskContext::new(input);
        let order = self.execution_order()?;
        ctx.dag_repr = self.dag_repr();
        proof {
            let names = self.names();
            let sorted = petgraph_toposort(names.len(), resolved_edges(names, self.edge_list())).unwrap();
            assert forall|i: int| 0 <= i < order@.len() implies #[trigger] order@[i] < names.len() by {
                lemma_last_index_of_present(names, sorted[i] as int);
                lemma_last_index_bounds(names, names[sorted[i] as int]);
            }
        }
        Ok((WorkflowRun { names: self.task_names.clone(), order, next: 0, failed: false }, ctx))
    }
}

impl Default for HybridWorkflow {
    fn default() -> (w: Self)
        ensures
            w.names() == Seq::<Seq<char>>::empty(),
            w.edge_list() == Seq::<(Seq<char>, Seq<char>)>::empty(),
    {
        Self::new()
    }
}

/// A workflow run in progress: the tasks to run in order and how many
/// have completed.
pub struct WorkflowRun {
    names: Vec<String>,
    order: Vec<usize>,
    next: usize,
    failed: bool,
}

impl WorkflowRun {
    pub closed spec fn task_names(&self) -> Seq<Seq<char>> {
        string_rows(self.names@)
    }

    pub closed spec fn order(&self) -> Seq<usize> {
        self.order@
    }

    /// How many tasks of the order have completed.
    pub closed spec fn position(&self) -> nat {
        self.next as nat
    }

    /// A task failed and the run stopped.
    pub closed spec fn stopped(&self) -> bool {
        self.failed
    }

    /// The order only names tasks of the workflow.
    pub closed spec fn wf(&self) -> bool {
        &&& self.next <= self.order@.len()
        &&& forall|i: int| 0 <= i < self.order@.len() ==> #[trigger] self.order@[i] < self.names@.len()
    }

    /// The names of the tasks that have completed, in the order they ran.
    pub open spec fn completed(&self) -> Seq<Seq<char>> {
        self.order().take(self.position() as int).map_values(|i: usize| self.task_names()[i as int])
    }

    /// The task whose turn it is, if the run goes on.
    pub open spec fn current(&self) -> Option<usize> {
        if !self.stopped() && self.position() < self.order().len() {
            Some(self.order()[self.position() as int])
        } else {
            None
        }
    }

    /// The position (in the workflow) of the task to run next, or `None`
    /// when all have completed or one failed.
    pub fn next_task(&self) -> (r: Option<usize>)
        requires
            self.wf(),
        ensures
            r == self.current(),
            r matches Some(i) ==> i < self.task_names().len(),
    {
        if !self.failed && self.next < self.order.len() {
            Some(self.order[self.next])
        } else {
            None
        }
    }

    /// Records how the current task ended: on success its name is appended
    /// to the context's completed tasks and the run moves on; on failure the
    /// run stops and the error is handed back.
    pub fn complete_task(&mut self, ctx: &mut TaskContext, outcome: TaskResult<()>) -> (r: TaskResult<()>)
        requires
            old(self).wf(),
        ensures
            final(self).wf(),
            final(self).task_names() == old(self).task_names(),
            final(self).order() == old(self).order(),
            old(self).current() is None ==> *final(self) == *old(self) && *final(ctx) == *old(ctx) && r
                == outcome,
            old(self).current() matches Some(i) ==> match outcome {
                Ok(()) => {
                    &&& r is Ok
                    &&& final(self).position() == old(self).position() + 1
                    &&& !final(self).stopped()
                    &&& final(self).completed() == old(self).completed().push(
                        old(self).task_names()[i as int],
                    )
                    &&& string_rows(final(ctx).graph_nodes@) == string_rows(old(ctx).graph_nodes@).push(
                        old(self).task_names()[i as int],
                    )
                    &&& final(ctx).results == old(ctx).results
                    &&& final(ctx).metrics == old(ctx).metrics
                    &&& final(ctx).input == old(ctx).input
                    &&& final(ctx).dag_repr == old(ctx).dag_repr
                },
                Err(e) => {
                    &&& r == TaskResult::<()>::Err(e)
                    &&& final(self).stopped()
                    &&& final(self).position() == old(self).position()
                    &&& *final(ctx) == *old(ctx)
                },
            },
    {
        if self.failed || self.next >= self.order.len() {
            return outcome;
        }
        match outcome {
            Ok(()) => {
                let idx = self.order[self.next];
                let name = self.names[idx].clone();
                let ghost before = ctx.graph_nodes@;
                let ghost done = self.completed();
                let ghost pos = self.next as int;
                ctx.graph_nodes.push(name);
                assert(string_rows(ctx.graph_nodes@) =~= string_rows(before).push(
                    self.names@[idx as int]@,
                ));
                self.next = self.next + 1;
                assert(self.order@.take(pos + 1) =~= self.order@.take(pos).push(self.order@[pos]));
                assert(self.completed() =~= done.push(string_rows(self.names@)[idx as int]));
                Ok(())
            },
            Err(e) => {
                self.failed = true;
                Err(e)
            },
        }
    }
}

/// Every dependency edge is respected: the task an edge starts from runs
/// before the task it leads to (names stand for the last task bearing them).
pub proof fn law_order_respects_edges(
    names: Seq<Seq<char>>,
    edges: Seq<(Seq<char>, Seq<char>)>,
    order: Seq<usize>,
)
    requires
        is_execution_order(names, edges, order),
    ensures
        order.len() == names.len(),
        forall|i: int| 0 <= i < order.len() ==> #[trigger] order[i] < names.len(),
        forall|e: int|
            0 <= e < edges.len() ==> exists|i: int, j: int|
                0 <= i < j < order.len() && order[i] == last_index(names, (#[trigger] edges[e]).0).unwrap()
                    && order[j] == last_index(names, edges[e].1).unwrap(),
{
    let res = resolved_edges(names, edges);
    let sorted = petgraph_toposort(names.len(), res).unwrap();
    lemma_distinct_usizes_fit(sorted);
    assert forall|i: int| 0 <= i < order.len() implies #[trigger] order[i] < names.len() by {
        assert(sorted[i] < names.len());
        lemma_last_index_of_present(names, sorted[i] as int);
        lemma_last_index_bounds(names, names[sorted[i] as int]);
    }
    assert forall|e: int| 0 <= e < edges.len() implies exists|i: int, j: int|
        0 <= i < j < order.len() && order[i] == last_index(names, (#[trigger] edges[e]).0).unwrap()
            && order[j] == last_index(names, edges[e].1).unwrap() by {
        lemma_first_missing_none(names, edges, e);
        let a = last_index(names, edges[e].0).unwrap();
        let b = last_index(names, edges[e].1).unwrap();
        lemma_last_index_bounds(names, edges[e].0);
        lemma_last_index_bounds(names, edges[e].1);
        assert(res[e] == (a as usize, b as usize));
        let (i, j) = choose|i: int, j: int| 0 <= i < j < sorted.len() && sorted[i] == res[e].0 && sorted[j] == res[e].1;
        assert(sorted[i] as int == a);
        assert(sorted[j] as int == b);
        assert(names[a] == edges[e].0);
        assert(names[b] == edges[e].1);
        assert(order[i] == last_index(names, names[sorted[i] as int]).unwrap() as usize);
        assert(order[j] == last_index(names, names[sorted[j] as int]).unwrap() as usize);
        assert(order[i] == a);
        assert(order[j] == b);
    }
}

/// A run that went to its end without a failure has completed every task
/// of the workflow, and for each dependency edge a task named as its start
/// completed before a task named as its end.
pub proof fn law_finished_run_completed_every_task(
    run: WorkflowRun,
    edges: Seq<(Seq<char>, Seq<char>)>,
)
    requires
        run.wf(),
        is_execution_order(run.task_names(), edges, run.order()),
        !run.stopped(),
        run.current() is None,
    ensures
        run.completed().len() == run.task_names().len(),
        forall|t: int|
            0 <= t < run.task_names().len() ==> run.completed().contains(
                #[trigger] run.task_names()[t],
            ),
        forall|e: int|
            0 <= e < edges.len() ==> exists|i: int, j: int|
                0 <= i < j < run.completed().len() && run.completed()[i] == (
                #[trigger] edges[e]).0 && run.completed()[j] == edges[e].1,
{
    let names = run.task_names();
    let order = run.order();
    let done = run.completed();
    law_order_respects_edges(names, edges, order);
    assert(order.take(run.position() as int) =~= order);
    assert(done.len() == order.len());
    assert forall|i: int| 0 <= i < done.len() implies #[trigger] done[i] == names[order[i] as int] by {}
    let res = resolved_edges(names, edges);
    let sorted = petgraph_toposort(names.len(), res).unwrap();
    assert forall|t: int| 0 <= t < names.len() implies done.contains(#[trigger] names[t]) by {
        lemma_last_index_bounds(names, names[t]);
        let l = last_index(names, names[t]).unwrap();
        lemma_permutation_covers(sorted, names.len(), l);
        let i = choose|i: int| 0 <= i < sorted.len() && sorted[i] == l;
        lemma_last_index_bounds(names, names[l]);
        assert(names[l] == names[t]);
        assert(order[i] == last_index(names, names[sorted[i] as int]).unwrap() as usize);
        assert(done[i] == names[order[i] as int]);
    }
    assert forall|e: int| 0 <= e < edges.len() implies exists|i: int, j: int|
        0 <= i < j < done.len() && done[i] == (#[trigger] edges[e]).0 && done[j] == edges[e].1 by {
        let (i, j) = choose|i: int, j: int|
            0 <= i < j < order.len() && order[i] == last_index(names, edges[e].0).unwrap()
                && order[j] == last_index(names, edges[e].1).unwrap();
        lemma_first_missing_none(names, edges, e);
        lemma_last_index_bounds(names, edges[e].0);
        lemma_last_index_bounds(names, edges[e].1);
        assert(done[i] == names[order[i] as int]);
        assert(done[j] == names[order[j] as int]);
    }
}

/// With distinct task names, every task runs exactly once.
pub proof fn law_distinct_names_run_each_task_once(
    names: Seq<Seq<char>>,
    edges: Seq<(Seq<char>, Seq<char>)>,
    order: Seq<usize>,
)
    requires
        is_execution_order(names, edges, order),
        forall|i: int, j: int| 0 <= i < j < names.len() ==> names[i] != names[j],
    ensures
        order.len() == names.len(),
        forall|i: int, j: int| 0 <= i < j < order.len() ==> order[i] != order[j],
        forall|t: usize| t < names.len() ==> #[trigger] order.contains(t),
{
    let res = resolved_edges(names, edges);
    let sorted = petgraph_toposort(names.len(), res).unwrap();
    assert forall|i: int| 0 <= i < order.len() implies order[i] == sorted[i] by {
        let k = sorted[i] as int;
        lemma_last_index_bounds(names, names[k]);
        let l = last_index(names, names[k]).unwrap();
        if l != k {
            if l < k {
                assert(names[l] != names[k]);
            }
        }
    }
    assert(order =~= sorted);
    assert forall|t: usize| t < names.len() implies #[trigger] order.contains(t) by {
        lemma_permutation_covers(sorted, names.len(), t as int);
    }
}

/// A sequence of `n` distinct values below `n` holds each of them.
proof fn lemma_permutation_covers(s: Seq<usize>, n: nat, t: int)
    requires
        s.len() == n,
        forall|i: int| 0 <= i < s.len() ==> #[trigger] s[i] < n,
        forall|i: int, j: int| 0 <= i < j < s.len() ==> s[i] != s[j],
        0 <= t < n,
    ensures
        exists|i: int| 0 <= i < s.len() && s[i] == t,
{
    if !(exists|i: int| 0 <= i < s.len() && s[i] == t) {
        let si = s.map_values(|x: usize| x as int);
        assert(si.no_duplicates()) by {
            assert forall|i: int, j: int| 0 <= i < si.len() && 0 <= j < si.len() && i != j implies si[i]
                != si[j] by {
                if i < j {
                    assert(s[i] != s[j]);
                } else {
                    assert(s[j] != s[i]);
                }
            }
        }
        si.unique_seq_to_set();
        let range = vstd::set_lib::set_int_range(0, n as int).remove(t);
        vstd::set_lib::lemma_int_range(0, n as int);
        assert(vstd::set_lib::set_int_range(0, n as int).contains(t));
        assert(range.len() == n - 1);
        assert(si.to_set().subset_of(range)) by {
            assert forall|a: int| si.to_set().contains(a) implies range.contains(a) by {
                assert(si.contains(a));
                let i = choose|i: int| 0 <= i < si.len() && si[i] == a;
                assert(s[i] < n);
                assert(s[i] != t);
            }
        }
        vstd::set_lib::lemma_len_subset(si.to_set(), range);
    }
}

/// Distinct `usize` values are at most `usize::MAX + 1` in number.
proof fn lemma_distinct_usizes_fit(s: Seq<usize>)
    requires
        forall|i: int, j: int| 0 <= i < j < s.len() ==> s[i] != s[j],
    ensures
        s.len() <= usize::MAX + 1,
{
    let si = s.map_values(|x: usize| x as int);
    assert(si.no_duplicates()) by {
        assert forall|i: int, j: int| 0 <= i < si.len() && 0 <= j < si.len() && i != j implies si[i]
            != si[j] by {
            if i < j {
                assert(s[i] != s[j]);
            } else {
                assert(s[j] != s[i]);
            }
        }
    }
    si.unique_seq_to_set();
    let range = vstd::set_lib::set_int_range(0, usize::MAX + 1);
    vstd::set_lib::lemma_int_range(0, usize::MAX + 1);
    assert(si.to_set().subset_of(range)) by {
        assert forall|a: int| si.to_set().contains(a) implies range.contains(a) by {
            assert(si.contains(a));
        }
    }
    vstd::set_lib::lemma_len_subset(si.to_set(), range);
}

/// Every edge of a workflow without missing endpoints resolves to tasks.
proof fn lemma_first_missing_none(names: Seq<Seq<char>>, edges: Seq<(Seq<char>, Seq<char>)>, e: int)
    requires
        first_missing(names, edges) is None,
        0 <= e < edges.len(),
    ensures
        last_index(names, edges[e].0) is Some,
        last_index(names, edges[e].1) is Some,
    decreases e,
{
    if e > 0 {
        assert(edges.drop_first()[e - 1] == edges[e]);
        lemma_first_missing_none(names, edges.drop_first(), e - 1);
    }
}

/// The ArXiv lab workflow's graph: monitor, then RUMAD filter, then
/// pseudocode generation.
pub fn arxiv_lab_workflow() -> (w: HybridWorkflow)
    ensures
        w.names() == seq!["arxiv_monitor"@, "rumad_filter"@, "pseudocode_gen"@],
        w.edge_list() == seq![
            ("arxiv_monitor"@, "rumad_filter"@),
            ("rumad_filter"@, "pseudocode_gen"@),
        ],
{
    let mut w = HybridWorkflow::new();
    w.add_task(String::from_str("arxiv_monitor"));
    w.add_task(String::from_str("rumad_filter"));
    w.add_task(String::from_str("pseudocode_gen"));
    w.add_edge(String::from_str("arxiv_monitor"), String::from_str("rumad_filter"));
    w.add_edge(String::from_str("rumad_filter"), String::from_str("pseudocode_gen"));
    assert(w.names() =~= seq!["arxiv_monitor"@, "rumad_filter"@, "pseudocode_gen"@]);
    assert(w.edge_list() =~= seq![
        ("arxiv_monitor"@, "rumad_filter"@),
        ("rumad_filter"@, "pseudocode_gen"@),
    ]);
    w
}

/// The names of the ArXiv lab's tasks, in the order they are added.
pub open spec fn lab_names() -> Seq<Seq<char>> {
    seq!["arxiv_monitor"@, "rumad_filter"@, "pseudocode_gen"@]
}

/// The ArXiv lab's dependency edges.
pub open spec fn lab_edges() -> Seq<(Seq<char>, Seq<char>)> {
    seq![("arxiv_monitor"@, "rumad_filter"@), ("rumad_filter"@, "pseudocode_gen"@)]
}

/// The result names present after the first `done` tasks of the lab.
spec fn lab_result_keys(done: nat) -> Set<Seq<char>> {
    if done == 0 {
        Set::empty()
    } else if done == 1 {
        set!["arxiv_papers"@]
    } else if done == 2 {
        set!["arxiv_papers"@, "rumad_nodes"@]
    } else {
        set!["arxiv_papers"@, "rumad_nodes"@, "pseudocode"@]
    }
}

/// The metrics collected by the first `done` tasks of the lab.
spec fn lab_metrics(done: nat) -> Map<Seq<char>, u64> {
    if done == 0 {
        Map::empty()
    } else if done == 1 {
        map!["papers_found"@ => 3u64]
    } else if done == 2 {
        map!["papers_found"@ => 3u64, "rumad_nodes"@ => 3u64]
    } else {
        map!["papers_found"@ => 3u64, "rumad_nodes"@ => 3u64, "pseudocode_lines"@ => 5u64]
    }
}

/// The context holds what the first `done` tasks of the lab wrote.
spec fn lab_stage(ctx: TaskContext, done: nat) -> bool {
    &&& ctx.results@.dom() == lab_result_keys(done)
    &&& ctx.metrics@ == lab_metrics(done)
    &&& done >= 1 ==> ctx.results@["arxiv_papers"@]@ == json_string_list(arxiv_papers())
        && json_parse_string_list(ctx.results@["arxiv_papers"@]@) == Some(arxiv_papers())
    &&& done >= 2 ==> ctx.results@["rumad_nodes"@]@ == json_string_list(node_labels(3))
        && json_parse_string_list(ctx.results@["rumad_nodes"@]@) == Some(node_labels(3))
    &&& done >= 3 ==> ctx.results@["pseudocode"@]@ == pseudocode_text(node_labels(3))
}

proof fn lemma_lab_literals()
    ensures
        "arxiv_papers"@ != "rumad_nodes"@,
        "arxiv_papers"@ != "pseudocode"@,
        "rumad_nodes"@ != "pseudocode"@,
        "papers_found"@ != "rumad_nodes"@,
        "papers_found"@ != "pseudocode_lines"@,
        "rumad_nodes"@ != "pseudocode_lines"@,
        "arxiv_monitor"@ != "rumad_filter"@,
        "arxiv_monitor"@ != "pseudocode_gen"@,
        "rumad_filter"@ != "pseudocode_gen"@,
{
    reveal_strlit("arxiv_papers");
    reveal_strlit("rumad_nodes");
    reveal_strlit("pseudocode");
    reveal_strlit("papers_found");
    reveal_strlit("pseudocode_lines");
    reveal_strlit("arxiv_monitor");
    reveal_strlit("rumad_filter");
    reveal_strlit("pseudocode_gen");
    assert("arxiv_papers"@.len() == 12);
    assert("rumad_nodes"@.len() == 11);
    assert("pseudocode"@.len() == 10);
    assert("papers_found"@.len() == 12);
    assert("pseudocode_lines"@.len() == 16);
    assert("arxiv_monitor"@.len() == 13);
    assert("rumad_filter"@.len() == 12);
    assert("pseudocode_gen"@.len() == 14);
}

/// The lab's graph has every edge endpoint among its tasks and no cycle.
proof fn lemma_lab_plan_is_valid()
    ensures
        first_missing(lab_names(), lab_edges()) is None,
        resolved_edges(lab_names(), lab_edges()) == seq![(0usize, 1usize), (1usize, 2usize)],
        is_acyclic(3, resolved_edges(lab_names(), lab_edges())),
{
    let names = lab_names();
    let edges = lab_edges();
    lemma_lab_literals();
    reveal_with_fuel(last_index, 4);
    assert(names.drop_last() =~= seq!["arxiv_monitor"@, "rumad_filter"@]);
    assert(names.drop_last().drop_last() =~= seq!["arxiv_monitor"@]);
    assert(last_index(names, "arxiv_monitor"@) == Some(0int));
    assert(last_index(names, "rumad_filter"@) == Some(1int));
    assert(last_index(names, "pseudocode_gen"@) == Some(2int));
    assert(edges.drop_first() =~= seq![("rumad_filter"@, "pseudocode_gen"@)]);
    assert(edges.drop_first().drop_first() =~= Seq::<(Seq<char>, Seq<char>)>::empty());
    reveal_with_fuel(first_missing, 3);
    let res = resolved_edges(names, edges);
    assert(res =~= seq![(0usize, 1usize), (1usize, 2usize)]);
    let order = seq![0usize, 1usize, 2usize];
    assert(order[0] == res[0].0 && order[1] == res[0].1);
    assert(order[1] == res[1].0 && order[2] == res[1].1);
    assert(is_topological_order(order, 3, res));
}

/// One step of the lab's run: the task at position `task` of the lab.
fn run_lab_task(monitor: &ArxivMonitor, task: usize, ctx: &mut TaskContext) -> (r: TaskResult<()>)
    requires
        task < 3,
        lab_stage(*old(ctx), task as nat),
    ensures
        r is Ok,
        lab_stage(*final(ctx), task as nat + 1),
        final(ctx).input == old(ctx).input,
        final(ctx).graph_nodes == old(ctx).graph_nodes,
        final(ctx).dag_repr == old(ctx).dag_repr,
{
    proof {
        lemma_lab_literals();
    }
    let ghost before = *ctx;
    if task == 0 {
        let r = monitor.execute(ctx);
        assert(ctx.results@.dom() =~= lab_result_keys(1)) by {
            assert(ctx.results@.remove("arxiv_papers"@).dom() =~= before.results@.remove("arxiv_papers"@).dom());
        }
        assert(ctx.metrics@ =~= lab_metrics(1));
        r
    } else if task == 1 {
        let r = apply_rumad_filter(ctx);
        assert(node_labels(arxiv_papers().len()) =~= node_labels(3));
        assert(ctx.results@.dom() =~= lab_result_keys(2)) by {
            assert(ctx.results@.remove("rumad_nodes"@).dom() =~= before.results@.remove("rumad_nodes"@).dom());
        }
        assert(ctx.results@.remove("rumad_nodes"@)["arxiv_papers"@] == before.results@.remove("rumad_nodes"@)["arxiv_papers"@]);
        assert(ctx.metrics@ =~= lab_metrics(2));
        r
    } else {
        let r = PseudoCodeGen.execute(ctx);
        assert(ctx.results@.dom() =~= lab_result_keys(3)) by {
            assert(ctx.results@.remove("pseudocode"@).dom() =~= before.results@.remove("pseudocode"@).dom());
        }
        assert(ctx.results@.remove("pseudocode"@)["arxiv_papers"@] == before.results@.remove("pseudocode"@)["arxiv_papers"@]);
        assert(ctx.results@.remove("pseudocode"@)["rumad_nodes"@] == before.results@.remove("pseudocode"@)["rumad_nodes"@]);
        assert(ctx.metrics@ =~= lab_metrics(3));
        r
    }
}

/// Runs the ArXiv lab workflow on `input`: plans it, then runs its tasks in
/// the planned order. It succeeds; the monitor, the RUMAD filter and the
/// pseudocode generator complete in that order, and the context holds the
/// paper list, the node list and the pipeline text with their metrics.
pub fn run_arxiv_lab(query: String, input: String) -> (r: TaskResult<TaskContext>)
    ensures
        r is Ok,
        r matches Ok(ctx) ==> {
            &&& ctx.input@ == input@
            &&& string_rows(ctx.graph_nodes@) == lab_names()
            &&& ctx.dag_repr@ == dag_text(lab_edges())
            &&& ctx.results@.dom() == set!["arxiv_papers"@, "rumad_nodes"@, "pseudocode"@]
            &&& ctx.results@["arxiv_papers"@]@ == json_string_list(arxiv_papers())
            &&& ctx.results@["rumad_nodes"@]@ == json_string_list(node_labels(3))
            &&& ctx.results@["pseudocode"@]@ == pseudocode_text(node_labels(3))
            &&& ctx.metrics@ == map![
                "papers_found"@ => 3u64,
                "rumad_nodes"@ => 3u64,
                "pseudocode_lines"@ => 5u64,
            ]
        },
{
    let wf = arxiv_lab_workflow();
    proof {
        lemma_lab_plan_is_valid();
        lemma_lab_literals();
    }
    let ghost input_text = input@;
    let (mut run, mut ctx) = match wf.start_run(input) {
        Ok(started) => started,
        Err(e) => {
            return Err(e);
        },
    };
    proof {
        law_chain_of_three_runs_in_order(lab_names(), lab_edges(), run.order());
        assert(ctx.results@.dom() =~= lab_result_keys(0));
        assert(ctx.metrics@ =~= lab_metrics(0));
    }
    let monitor = ArxivMonitor::new(query);
    let mut step = run.next_task();
    while step.is_some()
        invariant
            run.wf(),
            run.order() == seq![0usize, 1usize, 2usize],
            run.task_names() == lab_names(),
            !run.stopped(),
            step == run.current(),
            string_rows(ctx.graph_nodes@) == run.completed(),
            lab_stage(ctx, run.position()),
            ctx.input@ == input_text,
            ctx.dag_repr@ == dag_text(lab_edges()),
        decreases 3 - run.position(),
    {
        let task = step.unwrap();
        let outcome = run_lab_task(&monitor, task, &mut ctx);
        run.complete_task(&mut ctx, outcome)?;
        step = run.next_task();
    }
    proof {
        assert(run.order().take(3) =~= run.order());
        assert(run.completed() =~= lab_names());
    }
    Ok(ctx)
}

/// A chain of three tasks runs in its own order: whatever topological
/// order the sort picks, the first, second and third task run in turn.
pub proof fn law_chain_of_three_runs_in_order(
    names: Seq<Seq<char>>,
    edges: Seq<(Seq<char>, Seq<char>)>,
    order: Seq<usize>,
)
    requires
        names.len() == 3,
        names[0] != names[1],
        names[0] != names[2],
        names[1] != names[2],
        edges == seq![(names[0], names[1]), (names[1], names[2])],
        is_execution_order(names, edges, order),
    ensures
        order == seq![0usize, 1usize, 2usize],
{
    law_order_respects_edges(names, edges, order);
    law_distinct_names_run_each_task_once(names, edges, order);
    lemma_last_index_of_present(names, 0);
    lemma_last_index_of_present(names, 1);
    lemma_last_index_of_present(names, 2);
    lemma_last_index_bounds(names, names[0]);
    lemma_last_index_bounds(names, names[1]);
    lemma_last_index_bounds(names, names[2]);
    assert(last_index(names, names[0]) == Some(0int));
    assert(last_index(names, names[1]) == Some(1int));
    assert(last_index(names, names[2]) == Some(2int));
    assert(edges[0].0 == names[0] && edges[0].1 == names[1]);
    assert(edges[1].0 == names[1] && edges[1].1 == names[2]);
    let (i0, j0) = choose|i: int, j: int| 0 <= i < j < order.len() && order[i] == 0 && order[j] == 1;
    let (i1, j1) = choose|i: int, j: int| 0 <= i < j < order.len() && order[i] == 1 && order[j] == 2;
    assert(j0 == i1) by {
        if j0 != i1 {
            assert(order[j0] == order[i1]);
        }
    }
    assert(order =~= seq![0usize, 1usize, 2usize]);
}

} // verus!
