//! The values that the HTTP API exchanges, and how they are built from the
//! registry and the memory requests.
use vstd::prelude::*;
use crate::memory::MemoryFragment;
use crate::router::{resource_label, resource_name, ModelDescriptor, ModelRegistry, GPU_THERMAL_LIMIT_CELSIUS};
use crate::text::string_rows;

verus! {

/// The health report of the API.
pub struct HealthStatus {
    pub status: String,
    pub version: String,
    pub crates: Vec<String>,
}

/// A request to store a memory fragment.
pub struct InsertFragmentRequest {
    pub id: String,
    pub session_id: String,
    pub content: String,
}

/// A search over memory fragments.
pub struct SearchQuery {
    pub q: String,
}

/// A model as the API reports it.
pub struct ModelInfo {
    pub name: String,
    pub role: String,
    pub resource: String,
    pub max_tokens: usize,
}

/// The router as the API reports it.
pub struct RouterInfo {
    pub models: Vec<ModelInfo>,
    pub thermal_limit: u32,
    pub gpu_temp: u32,
}

/// The components that make up the service, in dependency order.
pub open spec fn component_names() -> Seq<Seq<char>> {
    seq![
        "toon-core"@,
        "memory-engine"@,
        "llm-router"@,
        "prompt-engine"@,
        "refine-loop"@,
        "agent-runtime"@,
        "api-server"@,
    ]
}

/// The health report for a service of the given version.
pub fn health_status(version: String) -> (h: HealthStatus)
    ensures
        h.status@ == "ok"@,
        h.version@ == version@,
        string_rows(h.crates@) == component_names(),
{
    let crates = vec![
        String::from_str("toon-core"),
        String::from_str("memory-engine"),
        String::from_str("llm-router"),
        String::from_str("prompt-engine"),
        String::from_str("refine-loop"),
        String::from_str("agent-runtime"),
        String::from_str("api-server"),
    ];
    assert(string_rows(crates@) =~= component_names());
    HealthStatus { status: String::from_str("ok"), version, crates }
}

/// `info` reports the model `m`.
pub open spec fn reports(info: ModelInfo, m: ModelDescriptor) -> bool {
    &&& info.name@ == m.name@
    &&& info.role@ == m.role@
    &&& info.resource@ == resource_name(m.resource)
    &&& info.max_tokens == m.max_tokens
}

/// How the API reports one model.
pub fn model_info(m: &ModelDescriptor) -> (info: ModelInfo)
    ensures
        reports(info, *m),
{
    ModelInfo {
        name: m.name.clone(),
        role: m.role.clone(),
        resource: resource_label(m.resource),
        max_tokens: m.max_tokens,
    }
}

/// How the API reports every registered model, in registration order.
pub fn model_infos(reg: &ModelRegistry) -> (infos: Vec<ModelInfo>)
    ensures
        infos@.len() == reg@.len(),
        forall|i: int| 0 <= i < infos@.len() ==> reports(#[trigger] infos@[i], reg@[i]),
{
    let models = reg.all();
    let n = models.len();
    let mut infos: Vec<ModelInfo> = Vec::new();
    for i in 0..n
        invariant
            n == models@.len(),
            models@ == reg@,
            infos@.len() == i,
            forall|k: int| 0 <= k < i ==> reports(#[trigger] infos@[k], reg@[k]),
    {
        infos.push(model_info(&models[i]));
    }
    infos
}

/// How the API reports the router, given the GPU temperature.
pub fn router_info(reg: &ModelRegistry, gpu_temp: u32) -> (info: RouterInfo)
    ensures
        info.models@.len() == reg@.len(),
        forall|i: int| 0 <= i < info.models@.len() ==> reports(#[trigger] info.models@[i], reg@[i]),
        info.thermal_limit == GPU_THERMAL_LIMIT_CELSIUS,
        info.gpu_temp == gpu_temp,
{
    RouterInfo { models: model_infos(reg), thermal_limit: reg.thermal_limit(), gpu_temp }
}

/// The fragment that an insertion request stores, stamped `created_at`.
pub fn fragment_from_request(req: InsertFragmentRequest, created_at: String) -> (f: MemoryFragment)
    ensures
        f.id == req.id,
        f.session_id == req.session_id,
        f.content == req.content,
        f.created_at == created_at,
{
    MemoryFragment { id: req.id, session_id: req.session_id, content: req.content, created_at }
}

} // verus!
