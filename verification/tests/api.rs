use apophy::api::{fragment_from_request, health_status, model_infos, router_info, InsertFragmentRequest};
use apophy::router::ModelRegistry;

#[test]
fn health_lists_components() {
    let h = health_status("0.1.0".to_string());
    assert_eq!(h.status, "ok");
    assert_eq!(h.version, "0.1.0");
    assert_eq!(h.crates.len(), 7);
    assert_eq!(h.crates[0], "toon-core");
    assert_eq!(h.crates[6], "api-server");
}

#[test]
fn router_reports_models() {
    let reg = ModelRegistry::apophy_default();
    let infos = model_infos(&reg);
    assert_eq!(infos.len(), 3);
    assert_eq!(infos[1].name, "glm-4.7-flash");
    assert_eq!(infos[1].resource, "Gpu");
    assert_eq!(infos[0].resource, "Cpu");
    let info = router_info(&reg, 55);
    assert_eq!(info.thermal_limit, 80);
    assert_eq!(info.gpu_temp, 55);
    assert_eq!(info.models.len(), 3);
}

#[test]
fn fragment_from_insert_request() {
    let req = InsertFragmentRequest {
        id: "f1".to_string(),
        session_id: "s1".to_string(),
        content: "hello".to_string(),
    };
    let f = fragment_from_request(req, "2026-03-04T00:00:00".to_string());
    assert_eq!(f.id, "f1");
    assert_eq!(f.session_id, "s1");
    assert_eq!(f.content, "hello");
    assert_eq!(f.created_at, "2026-03-04T00:00:00");
}
