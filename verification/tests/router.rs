use apophy::router::{ModelDescriptor, ModelRegistry, Resource, RouterError, TaskType};

fn model(name: &str, resource: Resource, tasks: Vec<TaskType>) -> ModelDescriptor {
    ModelDescriptor {
        name: name.to_string(),
        role: "test".to_string(),
        resource,
        max_tokens: 1024,
        supported_tasks: tasks,
        gpu_memory_mb: None,
    }
}

#[test]
fn apophy_default_registry() {
    let reg = ModelRegistry::apophy_default();
    assert_eq!(reg.all().len(), 3);
}

#[test]
fn route_by_task() {
    let reg = ModelRegistry::apophy_default();

    let orch = reg.route(TaskType::Orchestration).expect("no orchestration model");
    assert_eq!(orch.name, "functiongemma-270m");

    let vision = reg.route(TaskType::Vision).expect("no vision model");
    assert_eq!(vision.name, "glm-4.7-flash");

    let embed = reg.route(TaskType::Embedding).expect("no embedding model");
    assert_eq!(embed.name, "gemma3-270m");
}

#[test]
fn cpu_fallback() {
    let reg = ModelRegistry::apophy_default();
    let cpu = reg.cpu_models();
    assert_eq!(cpu.len(), 2);
    assert!(cpu.iter().all(|m| m.resource == Resource::Cpu));
}

#[test]
fn get_by_name() {
    let reg = ModelRegistry::apophy_default();
    let model = reg.get("glm-4.7-flash").expect("not found");
    assert_eq!(model.resource, Resource::Gpu);
    assert_eq!(model.gpu_memory_mb, Some(4096));

    assert!(reg.get("nonexistent").is_err());
}

#[test]
fn route_code_generation_goes_to_gpu_model() {
    let reg = ModelRegistry::apophy_default();
    let code = reg.route(TaskType::CodeGen).expect("no code model");
    assert_eq!(code.name, "glm-4.7-flash");
    assert_eq!(code.max_tokens, 8192);
}

#[test]
fn empty_registry_reports_task_name() {
    let reg = ModelRegistry::new();
    match reg.route(TaskType::Vision) {
        Err(e) => {
            assert!(matches!(e, RouterError::NoModel(ref t) if t == "Vision"));
            assert_eq!(e.message(), "no model available for task: Vision");
        }
        Ok(_) => panic!("empty registry routed a task"),
    }
    match reg.get("ghost") {
        Err(e) => assert_eq!(e.message(), "model not found: ghost"),
        Ok(_) => panic!("empty registry found a model"),
    }
}

#[test]
fn register_keeps_first_route_and_serves_new_task() {
    let mut reg = ModelRegistry::new();
    reg.register(model("a", Resource::Cpu, vec![TaskType::Embedding]));
    assert!(reg.route(TaskType::Vision).is_err());
    reg.register(model("b", Resource::Gpu, vec![TaskType::Vision, TaskType::Embedding]));
    assert_eq!(reg.route(TaskType::Embedding).unwrap().name, "a");
    assert_eq!(reg.route(TaskType::Vision).unwrap().name, "b");
    assert_eq!(reg.all().len(), 2);
}

#[test]
fn get_returns_first_of_equal_names() {
    let mut reg = ModelRegistry::new();
    reg.register(model("twin", Resource::Cpu, vec![]));
    reg.register(model("twin", Resource::Gpu, vec![]));
    assert_eq!(reg.get("twin").unwrap().resource, Resource::Cpu);
}

#[test]
fn cpu_models_keep_registration_order() {
    let mut reg = ModelRegistry::new();
    reg.register(model("c1", Resource::Cpu, vec![]));
    reg.register(model("g1", Resource::Gpu, vec![]));
    reg.register(model("c2", Resource::Cpu, vec![]));
    let names: Vec<&str> = reg.cpu_models().iter().map(|m| m.name.as_str()).collect();
    assert_eq!(names, vec!["c1", "c2"]);
}

#[test]
fn thermal_limit_is_eighty() {
    assert_eq!(ModelRegistry::new().thermal_limit(), 80);
}
