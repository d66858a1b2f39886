//! Model registry and task routing between local models.
use vstd::prelude::*;

verus! {

/// Where a model runs.
#[derive(Debug, Clone, Copy, PartialEq, Eq, Structural)]
pub enum Resource {
    Cpu,
    Gpu,
}

/// The kind of work a request asks for.
#[derive(Debug, Clone, Copy, PartialEq, Eq, Structural)]
pub enum TaskType {
    Orchestration,
    Vision,
    CodeGen,
    Embedding,
}

/// Routing errors.
#[derive(Debug)]
pub enum RouterError {
    /// No registered model supports the task (the task's name).
    NoModel(String),
    /// The inference backend failed.
    Inference(String),
    /// No model has the requested name.
    NotFound(String),
}

impl RouterError {
    /// The human-readable message of the error.
    pub fn message(&self) -> (s: String)
        ensures
            s@ == router_error_message(*self),
    {
        let (head, detail) = match self {
            RouterError::NoModel(d) => ("no model available for task: ", d),
            RouterError::Inference(d) => ("inference failed: ", d),
            RouterError::NotFound(d) => ("model not found: ", d),
        };
        let mut s = String::from_str(head);
        s.append(detail.as_str());
        s
    }
}

pub open spec fn router_error_message(e: RouterError) -> Seq<char> {
    match e {
        RouterError::NoModel(d) => "no model available for task: "@ + d@,
        RouterError::Inference(d) => "inference failed: "@ + d@,
        RouterError::NotFound(d) => "model not found: "@ + d@,
    }
}

/// A local model and what it is used for.
#[derive(Debug, Clone)]
pub struct ModelDescriptor {
    pub name: String,
    pub role: String,
    pub resource: Resource,
    pub max_tokens: usize,
    pub supported_tasks: Vec<TaskType>,
    pub gpu_memory_mb: Option<u32>,
}

/// The model handles tasks of type `t`.
pub open spec fn supports(m: ModelDescriptor, t: TaskType) -> bool {
    m.supported_tasks@.contains(t)
}

/// `i` is the position of the first model in `models` that handles `t`.
pub open spec fn is_first_supporting(models: Seq<ModelDescriptor>, t: TaskType, i: int) -> bool {
    &&& 0 <= i < models.len()
    &&& supports(models[i], t)
    &&& forall|j: int| 0 <= j < i ==> !supports(#[trigger] models[j], t)
}

/// Some model in `models` handles `t`.
pub open spec fn has_supporting(models: Seq<ModelDescriptor>, t: TaskType) -> bool {
    exists|i: int| 0 <= i < models.len() && supports(#[trigger] models[i], t)
}

/// `i` is the position of the first model in `models` named `name`.
pub open spec fn is_first_named(models: Seq<ModelDescriptor>, name: Seq<char>, i: int) -> bool {
    &&& 0 <= i < models.len()
    &&& models[i].name@ == name
    &&& forall|j: int| 0 <= j < i ==> (#[trigger] models[j]).name@ != name
}

/// Some model in `models` is named `name`.
pub open spec fn has_named(models: Seq<ModelDescriptor>, name: Seq<char>) -> bool {
    exists|i: int| 0 <= i < models.len() && (#[trigger] models[i]).name@ == name
}

pub open spec fn is_cpu_model(m: ModelDescriptor) -> bool {
    m.resource == Resource::Cpu
}

/// The CPU models among `models`, in order.
pub open spec fn cpu_only(models: Seq<ModelDescriptor>) -> Seq<ModelDescriptor> {
    models.filter(|m: ModelDescriptor| is_cpu_model(m))
}

/// The name under which a task type is reported (its variant name).
pub open spec fn task_type_name(t: TaskType) -> Seq<char> {
    match t {
        TaskType::Orchestration => "Orchestration"@,
        TaskType::Vision => "Vision"@,
        TaskType::CodeGen => "CodeGen"@,
        TaskType::Embedding => "Embedding"@,
    }
}

/// The name under which a resource is reported (its variant name).
pub open spec fn resource_name(r: Resource) -> Seq<char> {
    match r {
        Resource::Cpu => "Cpu"@,
        Resource::Gpu => "Gpu"@,
    }
}

/// The variant name of a task type.
pub fn task_type_label(t: TaskType) -> (s: String)
    ensures
        s@ == task_type_name(t),
{
    match t {
        TaskType::Orchestration => String::from_str("Orchestration"),
        TaskType::Vision => String::from_str("Vision"),
        TaskType::CodeGen => String::from_str("CodeGen"),
        TaskType::Embedding => String::from_str("Embedding"),
    }
}

/// The variant name of a resource.
pub fn resource_label(r: Resource) -> (s: String)
    ensures
        s@ == resource_name(r),
{
    match r {
        Resource::Cpu => String::from_str("Cpu"),
        Resource::Gpu => String::from_str("Gpu"),
    }
}

/// Whether `m` handles tasks of type `t`.
pub fn model_supports(m: &ModelDescriptor, t: TaskType) -> (b: bool)
    ensures
        b == supports(*m, t),
{
    let n = m.supported_tasks.len();
    for i in 0..n
        invariant
            n == m.supported_tasks@.len(),
            forall|j: int| 0 <= j < i ==> m.supported_tasks@[j] != t,
    {
        if m.supported_tasks[i] == t {
            assert(m.supported_tasks@[i as int] == t);
            return true;
        }
    }
    false
}

/// The temperature (°C) from which the GPU counts as too hot.
pub const GPU_THERMAL_LIMIT_CELSIUS: u32 = 80;

/// The describing fields of a model.
pub open spec fn describes(
    m: ModelDescriptor,
    name: Seq<char>,
    role: Seq<char>,
    resource: Resource,
    max_tokens: usize,
    tasks: Seq<TaskType>,
    gpu_memory_mb: Option<u32>,
) -> bool {
    &&& m.name@ == name
    &&& m.role@ == role
    &&& m.resource == resource
    &&& m.max_tokens == max_tokens
    &&& m.supported_tasks@ == tasks
    &&& m.gpu_memory_mb == gpu_memory_mb
}

/// The three models of the default deployment, in registration order.
pub open spec fn is_default_lineup(models: Seq<ModelDescriptor>) -> bool {
    &&& models.len() == 3
    &&& describes(
        models[0],
        "functiongemma-270m"@,
        "orchestration"@,
        Resource::Cpu,
        2048,
        seq![TaskType::Orchestration],
        None,
    )
    &&& describes(
        models[1],
        "glm-4.7-flash"@,
        "vision-code"@,
        Resource::Gpu,
        8192,
        seq![TaskType::Vision, TaskType::CodeGen],
        Some(4096),
    )
    &&& describes(
        models[2],
        "gemma3-270m"@,
        "embedding"@,
        Resource::Cpu,
        2048,
        seq![TaskType::Embedding],
        None,
    )
}

/// Registered models, searched in registration order.
pub struct ModelRegistry {
    models: Vec<ModelDescriptor>,
}

impl View for ModelRegistry {
    type V = Seq<ModelDescriptor>;

    closed spec fn view(&self) -> Seq<ModelDescriptor> {
        self.models@
    }
}

impl ModelRegistry {
    /// An empty registry.
    pub fn new() -> (r: Self)
        ensures
            r@ == Seq::<ModelDescriptor>::empty(),
    {
        ModelRegistry { models: Vec::new() }
    }

    /// The registry of the default deployment: an orchestration model and an
    /// embedding model on CPU, a vision and code model on GPU.
    pub fn apophy_default() -> (r: Self)
        ensures
            is_default_lineup(r@),
    {
        let mut reg = Self::new();
        reg.register(
            ModelDescriptor {
                name: String::from_str("functiongemma-270m"),
                role: String::from_str("orchestration"),
                resource: Resource::Cpu,
                max_tokens: 2048,
                supported_tasks: vec![TaskType::Orchestration],
                gpu_memory_mb: None,
            },
        );
        reg.register(
            ModelDescriptor {
                name: String::from_str("glm-4.7-flash"),
                role: String::from_str("vision-code"),
                resource: Resource::Gpu,
                max_tokens: 8192,
                supported_tasks: vec![TaskType::Vision, TaskType::CodeGen],
                gpu_memory_mb: Some(4096),
            },
        );
        reg.register(
            ModelDescriptor {
                name: String::from_str("gemma3-270m"),
                role: String::from_str("embedding"),
                resource: Resource::Cpu,
                max_tokens: 2048,
                supported_tasks: vec![TaskType::Embedding],
                gpu_memory_mb: None,
            },
        );
        proof {
            assert(reg@[0].supported_tasks@ =~= seq![TaskType::Orchestration]);
            assert(reg@[1].supported_tasks@ =~= seq![TaskType::Vision, TaskType::CodeGen]);
            assert(reg@[2].supported_tasks@ =~= seq![TaskType::Embedding]);
        }
        reg
    }

    /// Adds a model after those already registered.
    pub fn register(&mut self, model: ModelDescriptor)
        ensures
            final(self)@ == old(self)@.push(model),
    {
        self.models.push(model);
    }

    /// The first registered model that handles `task`.
    pub fn route(&self, task: TaskType) -> (r: Result<&ModelDescriptor, RouterError>)
        ensures
            match r {
                Ok(m) => exists|i: int| is_first_supporting(self@, task, i) && *m == self@[i],
                Err(e) => !has_supporting(self@, task) && (e matches RouterError::NoModel(d)
                    && d@ == task_type_name(task)),
            },
    {
        let n = self.models.len();
        for i in 0..n
            invariant
                n == self.models@.len(),
                forall|j: int| 0 <= j < i ==> !supports(#[trigger] self.models@[j], task),
        {
            if model_supports(&self.models[i], task) {
                assert(is_first_supporting(self@, task, i as int));
                return Ok(&self.models[i]);
            }
        }
        Err(RouterError::NoModel(task_type_label(task)))
    }

    /// The first registered model named `name`.
    pub fn get(&self, name: &str) -> (r: Result<&ModelDescriptor, RouterError>)
        ensures
            match r {
                Ok(m) => exists|i: int| is_first_named(self@, name@, i) && *m == self@[i],
                Err(e) => !has_named(self@, name@) && (e matches RouterError::NotFound(d) && d@
                    == name@),
            },
    {
        let wanted = String::from_str(name);
        let n = self.models.len();
        for i in 0..n
            invariant
                n == self.models@.len(),
                wanted@ == name@,
                forall|j: int| 0 <= j < i ==> (#[trigger] self.models@[j]).name@ != name@,
        {
            if self.models[i].name == wanted {
                assert(is_first_named(self@, name@, i as int));
                return Ok(&self.models[i]);
            }
        }
        Err(RouterError::NotFound(wanted))
    }

    /// The models that run on CPU (the fallback when the GPU is unavailable),
    /// in registration order.
    pub fn cpu_models(&self) -> (r: Vec<&ModelDescriptor>)
        ensures
            r@.map_values(|m: &ModelDescriptor| *m) == cpu_only(self@),
    {
        let mut res: Vec<&ModelDescriptor> = Vec::new();
        let n = self.models.len();
        let ghost pred = |m: ModelDescriptor| is_cpu_model(m);
        for i in 0..n
            invariant
                n == self.models@.len(),
                pred == (|m: ModelDescriptor| is_cpu_model(m)),
                res@.map_values(|m: &ModelDescriptor| *m) == self.models@.take(i as int).filter(pred),
        {
            reveal_with_fuel(Seq::<_>::filter, 1);
            let ghost before = res@;
            proof {
                crate::text::lemma_take_drop_last(self.models@, i as int);
            }
            let m = &self.models[i];
            if m.resource == Resource::Cpu {
                res.push(m);
                assert(res@.map_values(|m: &ModelDescriptor| *m) =~= before.map_values(
                    |m: &ModelDescriptor| *m,
                ).push(*m));
            }
        }
        assert(self.models@.take(n as int) =~= self.models@);
        res
    }

    /// All registered models, in registration order.
    pub fn all(&self) -> (r: &[ModelDescriptor])
        ensures
            r@ == self@,
    {
        self.models.as_slice()
    }

    /// The GPU temperature limit (°C) that routing respects.
    pub fn thermal_limit(&self) -> (t: u32)
        ensures
            t == GPU_THERMAL_LIMIT_CELSIUS,
    {
        GPU_THERMAL_LIMIT_CELSIUS
    }
}

impl Default for ModelRegistry {
    fn default() -> (r: Self)
        ensures
            r@ == Seq::<ModelDescriptor>::empty(),
    {
        Self::new()
    }
}

/// Registering a model never changes which model an already routable task
/// goes to.
pub proof fn law_register_keeps_routes(
    models: Seq<ModelDescriptor>,
    added: ModelDescriptor,
    task: TaskType,
    i: int,
)
    requires
        is_first_supporting(models, task, i),
    ensures
        is_first_supporting(models.push(added), task, i),
{
    assert forall|j: int| 0 <= j < i implies !supports(#[trigger] models.push(added)[j], task) by {
        assert(models.push(added)[j] == models[j]);
    }
}

/// A task that no registered model handles goes to the next registered
/// model that handles it.
pub proof fn law_register_serves_new_task(
    models: Seq<ModelDescriptor>,
    added: ModelDescriptor,
    task: TaskType,
)
    requires
        !has_supporting(models, task),
        supports(added, task),
    ensures
        is_first_supporting(models.push(added), task, models.len() as int),
{
    assert forall|j: int| 0 <= j < models.len() implies !supports(
        #[trigger] models.push(added)[j],
        task,
    ) by {
        assert(models.push(added)[j] == models[j]);
    }
}

/// Routing finds a model exactly when some registered model supports the
/// task, and the model found supports it.
pub proof fn law_route_total(models: Seq<ModelDescriptor>, task: TaskType)
    ensures
        has_supporting(models, task) <==> exists|i: int| is_first_supporting(models, task, i),
    decreases models.len(),
{
    if has_supporting(models, task) {
        let k = choose|k: int| 0 <= k < models.len() && supports(#[trigger] models[k], task);
        lemma_first_supporting_exists(models, task, k);
    }
}

proof fn lemma_first_supporting_exists(models: Seq<ModelDescriptor>, task: TaskType, k: int)
    requires
        0 <= k < models.len(),
        supports(models[k], task),
    ensures
        exists|i: int| is_first_supporting(models, task, i),
    decreases k,
{
    if exists|j: int| 0 <= j < k && supports(#[trigger] models[j], task) {
        let j = choose|j: int| 0 <= j < k && supports(#[trigger] models[j], task);
        lemma_first_supporting_exists(models, task, j);
    } else {
        assert(is_first_supporting(models, task, k));
    }
}

/// Every model that the CPU fallback lists runs on CPU, and the fallback
/// lists no more models than are registered.
pub proof fn law_cpu_models_are_cpu(models: Seq<ModelDescriptor>)
    ensures
        forall|i: int| 0 <= i < cpu_only(models).len() ==> is_cpu_model(#[trigger] cpu_only(models)[i]),
        cpu_only(models).len() <= models.len(),
{
    let pred = |m: ModelDescriptor| is_cpu_model(m);
    models.lemma_filter_len(pred);
    assert forall|i: int| 0 <= i < cpu_only(models).len() implies is_cpu_model(
        #[trigger] cpu_only(models)[i],
    ) by {
        models.lemma_filter_pred(pred, i);
    }
}

} // verus!
