//! The tasks of the ArXiv lab workflow: collect papers, derive topology
//! nodes from them, and write pseudocode for the nodes.
use vstd::prelude::*;
use crate::task::{TaskContext, TaskError, TaskResult};
use crate::text::{chars_of, decimal, push_decimal, string_of, string_rows};

verus! {

/// The lower-case hexadecimal digit of `d` (below 16).
pub open spec fn hex_digit(d: int) -> char {
    seq!['0', '1', '2', '3', '4', '5', '6', '7', '8', '9', 'a', 'b', 'c', 'd', 'e', 'f'][d]
}

/// How one character of a string is written inside a JSON string: quote and
/// backslash behind a backslash, the control characters with a short
/// escape where JSON has one and as `\u00XX` otherwise, every other
/// character as it is.
pub open spec fn json_escaped_char(c: char) -> Seq<char> {
    if c == '"' {
        seq!['\\', '"']
    } else if c == '\\' {
        seq!['\\', '\\']
    } else if c == '\u{8}' {
        seq!['\\', 'b']
    } else if c == '\t' {
        seq!['\\', 't']
    } else if c == '\n' {
        seq!['\\', 'n']
    } else if c == '\u{c}' {
        seq!['\\', 'f']
    } else if c == '\r' {
        seq!['\\', 'r']
    } else if (c as int) < 0x20 {
        seq!['\\', 'u', '0', '0', hex_digit(c as int / 16), hex_digit(c as int % 16)]
    } else {
        seq![c]
    }
}

/// The characters of `text`, each written as inside a JSON string.
pub open spec fn json_escaped(text: Seq<char>) -> Seq<char>
    decreases text.len(),
{
    if text.len() == 0 {
        seq![]
    } else {
        json_escaped(text.drop_last()) + json_escaped_char(text.last())
    }
}

/// The JSON text that `serde_json` writes for a list of strings: each
/// string quoted and escaped, separated by commas, in brackets.
pub open spec fn json_string_list(items: Seq<Seq<char>>) -> Seq<char> {
    "["@ + crate::text::join(
        items.map_values(|t: Seq<char>| "\""@ + json_escaped(t) + "\""@),
        ","@,
    ) + "]"@
}

/// What `serde_json` reads from `text` as a list of strings, or `None`
/// where it reports an error.
pub uninterp spec fn json_parse_string_list(text: Seq<char>) -> Option<Seq<Seq<char>>>;

/// `serde_json::to_string` on a list of strings. Claims that it succeeds
/// (its documentation names only a failing `Serialize` impl or a map with
/// non-string keys as causes of an error, and neither occurs for a list of
/// strings), and that the text it returns is `json_string_list(items)` and
/// reads back as `items` (serde's round trip).
#[verifier::external_body]
fn strings_to_json(items: &Vec<String>) -> (r: Result<String, String>)
    ensures
        r is Ok,
        r matches Ok(t) ==> t@ == json_string_list(string_rows(items@))
            && json_parse_string_list(t@) == Some(string_rows(items@)),
{
    serde_json::to_string(items).map_err(|e| e.to_string())
}

/// `serde_json::from_str::<Vec<String>>`. Claims that it succeeds exactly
/// where `json_parse_string_list(text)` is defined, with that list; its
/// error text is not stated.
#[verifier::external_body]
fn strings_from_json(text: &str) -> (r: Result<Vec<String>, String>)
    ensures
        match r {
            Ok(v) => json_parse_string_list(text@) == Some(string_rows(v@)),
            Err(_) => json_parse_string_list(text@) is None,
        },
{
    serde_json::from_str::<Vec<String>>(text).map_err(|e| e.to_string())
}

/// The papers that the monitor reports.
pub open spec fn arxiv_papers() -> Seq<Seq<char>> {
    seq![
        "RUMAD: Robust Unsupervised Multi-scale Anomaly Detection — Tsinghua"@,
        "Hierarchical Concept Graphs for Visual Reasoning — Cambridge"@,
        "PseudoAct: Pseudocode-to-Action Translation — Texas A&M"@,
    ]
}

/// The name of the topology node for the `i`-th paper.
pub open spec fn node_label(i: nat) -> Seq<char> {
    "node_"@ + decimal(i)
}

/// One node label per paper, in order.
pub open spec fn node_labels(count: nat) -> Seq<Seq<char>> {
    Seq::new(count, |i: int| node_label(i as nat))
}

/// The pseudocode line for one node.
pub open spec fn pseudocode_line(node: Seq<char>) -> Seq<char> {
    "  PROCESS "@ + node + ": extract_concepts → embed → store"@
}

/// The pseudocode pipeline for a list of nodes.
pub open spec fn pseudocode_text(nodes: Seq<Seq<char>>) -> Seq<char> {
    "PIPELINE {\n"@ + crate::text::join(
        nodes.map_values(|n: Seq<char>| pseudocode_line(n)),
        "\n"@,
    ) + "\n  MERGE all → knowledge_graph\n}"@
}

/// `ctx` is `before` with one more result and one more metric.
pub open spec fn recorded(
    before: TaskContext,
    after: TaskContext,
    key: Seq<char>,
    value: Seq<char>,
    metric: Seq<char>,
    amount: u64,
) -> bool {
    &&& after.results@.contains_key(key)
    &&& after.results@[key]@ == value
    &&& after.results@.remove(key) == before.results@.remove(key)
    &&& after.metrics@ == before.metrics@.insert(metric, amount)
    &&& after.input == before.input
    &&& after.graph_nodes == before.graph_nodes
    &&& after.dag_repr == before.dag_repr
}

proof fn lemma_insert_then_remove<V>(m: Map<Seq<char>, V>, k: Seq<char>, v: V)
    ensures
        m.insert(k, v).remove(k) == m.remove(k),
        m.insert(k, v).contains_key(k),
        m.insert(k, v)[k] == v,
{
    assert(m.insert(k, v).remove(k) =~= m.remove(k));
}

/// Collects the ArXiv papers relevant to a query.
pub struct ArxivMonitor {
    pub query: String,
}

/// Generates pseudocode from the filtered topology.
pub struct PseudoCodeGen;

/// Stores the serialised paper list (or the serialisation error) in the
/// context.
pub fn record_papers(ctx: &mut TaskContext, papers_json: Result<String, String>, count: u64) -> (r:
    TaskResult<()>)
    ensures
        match papers_json {
            Ok(j) => r is Ok && recorded(*old(ctx), *final(ctx), "arxiv_papers"@, j@, "papers_found"@, count),
            Err(m) => r == TaskResult::<()>::Err(TaskError::Execution(m)) && *final(ctx) == *old(ctx),
        },
{
    match papers_json {
        Ok(j) => {
            let key = String::from_str("arxiv_papers");
            proof {
                lemma_insert_then_remove(ctx.results@, key@, j);
            }
            ctx.results.insert(key, j);
            ctx.metrics.insert(String::from_str("papers_found"), count);
            Ok(())
        },
        Err(m) => Err(TaskError::Execution(m)),
    }
}

impl ArxivMonitor {
    pub fn new(query: String) -> (m: Self)
        ensures
            m.query@ == query@,
    {
        ArxivMonitor { query }
    }

    /// The task's node name in the workflow graph.
    pub fn name(&self) -> (n: &'static str)
        ensures
            n@ == "arxiv_monitor"@,
    {
        "arxiv_monitor"
    }

    /// Stores the JSON list of papers under `arxiv_papers` and their count
    /// under the metric `papers_found`.
    pub fn execute(&self, ctx: &mut TaskContext) -> (r: TaskResult<()>)
        ensures
            r is Ok,
            recorded(
                *old(ctx),
                *final(ctx),
                "arxiv_papers"@,
                json_string_list(arxiv_papers()),
                "papers_found"@,
                3,
            ),
            json_parse_string_list(final(ctx).results@["arxiv_papers"@]@) == Some(arxiv_papers()),
    {
        let papers = vec![
            String::from_str("RUMAD: Robust Unsupervised Multi-scale Anomaly Detection — Tsinghua"),
            String::from_str("Hierarchical Concept Graphs for Visual Reasoning — Cambridge"),
            String::from_str("PseudoAct: Pseudocode-to-Action Translation — Texas A&M"),
        ];
        assert(string_rows(papers@) =~= arxiv_papers());
        let count = papers.len() as u64;
        record_papers(ctx, strings_to_json(&papers), count)
    }
}

/// The node labels `node_0`, `node_1`, ... one per paper.
pub fn rumad_nodes(papers: &Vec<String>) -> (nodes: Vec<String>)
    ensures
        string_rows(nodes@) == node_labels(papers@.len() as nat),
{
    let n = papers.len();
    let mut nodes: Vec<String> = Vec::new();
    for i in 0..n
        invariant
            n == papers@.len(),
            string_rows(nodes@) == node_labels(i as nat),
    {
        let mut label = chars_of("node_");
        push_decimal(&mut label, i);
        let ghost before = nodes@;
        let text = string_of(&label);
        assert(text@ == node_label(i as nat));
        nodes.push(text);
        assert(string_rows(nodes@) =~= string_rows(before).push(text@));
        assert(string_rows(nodes@) =~= node_labels((i + 1) as nat));
    }
    nodes
}

/// The RUMAD topological filter: one topology node per collected paper.
/// Reads `arxiv_papers`, stores the JSON list of node labels under
/// `rumad_nodes`, and their count under the metric `rumad_nodes`.
pub fn apply_rumad_filter(ctx: &mut TaskContext) -> (r: TaskResult<()>)
    ensures
        !old(ctx).results@.contains_key("arxiv_papers"@) ==> (r matches Err(TaskError::MissingDep(d))
            && d@ == "arxiv_monitor"@),
        old(ctx).results@.contains_key("arxiv_papers"@) && json_parse_string_list(
            old(ctx).results@["arxiv_papers"@]@,
        ) is None ==> r matches Err(TaskError::Execution(_)),
        old(ctx).results@.contains_key("arxiv_papers"@) && json_parse_string_list(
            old(ctx).results@["arxiv_papers"@]@,
        ) is Some ==> r is Ok,
        r matches Err(_) ==> *final(ctx) == *old(ctx),
        r is Ok ==> old(ctx).results@.contains_key("arxiv_papers"@) && ({
            let papers = json_parse_string_list(old(ctx).results@["arxiv_papers"@]@);
            &&& papers is Some
            &&& recorded(
                *old(ctx),
                *final(ctx),
                "rumad_nodes"@,
                json_string_list(node_labels(papers.unwrap().len())),
                "rumad_nodes"@,
                papers.unwrap().len() as u64,
            )
            &&& json_parse_string_list(final(ctx).results@["rumad_nodes"@]@) == Some(
                node_labels(papers.unwrap().len()),
            )
        }),
{
    let papers_json = match ctx.results.get("arxiv_papers") {
        Some(j) => j,
        None => {
            return Err(TaskError::MissingDep(String::from_str("arxiv_monitor")));
        },
    };
    let papers = match strings_from_json(papers_json.as_str()) {
        Ok(p) => p,
        Err(m) => {
            return Err(TaskError::Execution(m));
        },
    };
    let nodes = rumad_nodes(&papers);
    assert(string_rows(nodes@).len() == nodes@.len());
    assert(string_rows(papers@).len() == papers@.len());
    let count = nodes.len() as u64;
    let nodes_json = match strings_to_json(&nodes) {
        Ok(j) => j,
        Err(m) => {
            return Err(TaskError::Execution(m));
        },
    };
    let key = String::from_str("rumad_nodes");
    proof {
        lemma_insert_then_remove(ctx.results@, key@, nodes_json);
    }
    ctx.results.insert(key, nodes_json);
    ctx.metrics.insert(String::from_str("rumad_nodes"), count);
    Ok(())
}

/// The pseudocode pipeline text for the given nodes.
pub fn pseudocode_for(nodes: &Vec<String>) -> (text: String)
    ensures
        text@ == pseudocode_text(string_rows(nodes@)),
{
    let n = nodes.len();
    let ghost lines = string_rows(nodes@).map_values(|x: Seq<char>| pseudocode_line(x));
    let mut out = chars_of("PIPELINE {\n");
    let ghost head = out@;
    let newline = chars_of("\n");
    for i in 0..n
        invariant
            n == nodes@.len(),
            lines == string_rows(nodes@).map_values(|x: Seq<char>| pseudocode_line(x)),
            newline@ == "\n"@,
            head == "PIPELINE {\n"@,
            out@ == head + crate::text::join(lines.take(i as int), "\n"@),
    {
        proof {
            crate::text::lemma_take_drop_last(lines, i as int);
        }
        let ghost before = out@;
        if i > 0 {
            crate::text::extend_chars(&mut out, &newline);
        }
        let prefix = chars_of("  PROCESS ");
        crate::text::extend_chars(&mut out, &prefix);
        let name = chars_of(nodes[i].as_str());
        crate::text::extend_chars(&mut out, &name);
        let suffix = chars_of(": extract_concepts → embed → store");
        crate::text::extend_chars(&mut out, &suffix);
        proof {
            assert(lines[i as int] == pseudocode_line(nodes@[i as int]@));
            if i == 0 {
                assert(lines.take(1) =~= seq![lines[0]]);
                assert(out@ =~= head + crate::text::join(lines.take(1), "\n"@));
            } else {
                assert(out@ =~= head + crate::text::join(lines.take(i + 1), "\n"@));
            }
        }
    }
    assert(lines.take(n as int) =~= lines);
    let tail = chars_of("\n  MERGE all → knowledge_graph\n}");
    crate::text::extend_chars(&mut out, &tail);
    string_of(&out)
}

impl PseudoCodeGen {
    /// The task's node name in the workflow graph.
    pub fn name(&self) -> (n: &'static str)
        ensures
            n@ == "pseudocode_gen"@,
    {
        "pseudocode_gen"
    }

    /// Reads the node list `rumad_nodes`, stores the pipeline text under
    /// `pseudocode` and its line count (nodes + 2) under the metric
    /// `pseudocode_lines`.
    pub fn execute(&self, ctx: &mut TaskContext) -> (r: TaskResult<()>)
        ensures
            !old(ctx).results@.contains_key("rumad_nodes"@) ==> (r matches Err(
                TaskError::MissingDep(d),
            ) && d@ == "rumad_filter"@),
            old(ctx).results@.contains_key("rumad_nodes"@) && json_parse_string_list(
                old(ctx).results@["rumad_nodes"@]@,
            ) is None ==> r matches Err(TaskError::Execution(_)),
            r matches Err(_) ==> *final(ctx) == *old(ctx),
            old(ctx).results@.contains_key("rumad_nodes"@) && json_parse_string_list(
                old(ctx).results@["rumad_nodes"@]@,
            ) is Some ==> r is Ok,
            r is Ok ==> old(ctx).results@.contains_key("rumad_nodes"@) && ({
                let nodes = json_parse_string_list(old(ctx).results@["rumad_nodes"@]@);
                &&& nodes is Some
                &&& recorded(
                    *old(ctx),
                    *final(ctx),
                    "pseudocode"@,
                    pseudocode_text(nodes.unwrap()),
                    "pseudocode_lines"@,
                    if nodes.unwrap().len() + 2 <= u64::MAX {
                        (nodes.unwrap().len() + 2) as u64
                    } else {
                        u64::MAX
                    },
                )
            }),
    {
        let nodes_json = match ctx.results.get("rumad_nodes") {
            Some(j) => j,
            None => {
                return Err(TaskError::MissingDep(String::from_str("rumad_filter")));
            },
        };
        let nodes = match strings_from_json(nodes_json.as_str()) {
            Ok(v) => v,
            Err(m) => {
                return Err(TaskError::Execution(m));
            },
        };
        let output = pseudocode_for(&nodes);
        assert(string_rows(nodes@).len() == nodes@.len());
        let n = nodes.len() as u64;
        let lines = if n <= u64::MAX - 2 { n + 2 } else { u64::MAX };
        let key = String::from_str("pseudocode");
        proof {
            lemma_insert_then_remove(ctx.results@, key@, output);
        }
        ctx.results.insert(key, output);
        ctx.metrics.insert(String::from_str("pseudocode_lines"), lines);
        Ok(())
    }
}

} // verus!
