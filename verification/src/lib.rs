//! Apophy: local AI continuity engine. The verified core: TOON encoding,
//! model routing, the GPU thermal decision, prompt mutations, the shared
//! task context, the tasks of the ArXiv lab, DAG workflow planning and the
//! values of the HTTP API.
use vstd::prelude::*;

pub mod api;
pub mod graph;
pub mod memory;
pub mod prompt;
pub mod router;
pub mod task;
pub mod tasks;
pub mod text;
pub mod text_map;
pub mod thermal;
pub mod toon;
pub mod workflow;

verus! {

} // verus!
