use leftysay::pipeline::{cache_budget_bytes, Pipeline, PipelineAction, PipelineEvent, Stage};

fn is_return(a: &PipelineAction, expected: &str) -> bool {
    matches!(a, PipelineAction::Return(p) if p == expected)
}

#[test]
fn pipeline_hit_returns_cached_payload() {
    let mut p = Pipeline::new(true, 100);
    assert!(matches!(p.on_event(PipelineEvent::Start), PipelineAction::Lookup));
    let a = p.on_event(PipelineEvent::LookedUp(Some("cached".to_string())));
    assert!(is_return(&a, "cached"));
    assert_eq!(p.stage, Stage::Done);
}

#[test]
fn pipeline_miss_renders_stores_and_evicts() {
    let mut p = Pipeline::new(true, 4096);
    assert!(matches!(p.on_event(PipelineEvent::Start), PipelineAction::Lookup));
    assert!(matches!(p.on_event(PipelineEvent::LookedUp(None)), PipelineAction::Render));
    let a = p.on_event(PipelineEvent::Rendered(Ok("img".to_string())));
    assert!(matches!(a, PipelineAction::Store(ref s) if s == "img"));
    assert!(matches!(p.on_event(PipelineEvent::Stored(true)), PipelineAction::Evict(4096)));
    assert!(is_return(&p.on_event(PipelineEvent::Evicted), "img"));
    assert_eq!(p.stage, Stage::Done);
    assert!(p.payload.is_none());
}

#[test]
fn pipeline_failed_write_still_returns() {
    let mut p = Pipeline::new(true, 10);
    p.on_event(PipelineEvent::Start);
    p.on_event(PipelineEvent::LookedUp(None));
    p.on_event(PipelineEvent::Rendered(Ok("x".to_string())));
    assert!(matches!(p.on_event(PipelineEvent::Stored(false)), PipelineAction::Evict(10)));
    assert!(is_return(&p.on_event(PipelineEvent::Evicted), "x"));
}

#[test]
fn pipeline_cache_off_skips_cache() {
    let mut p = Pipeline::new(false, 10);
    assert!(matches!(p.on_event(PipelineEvent::Start), PipelineAction::Render));
    assert!(is_return(&p.on_event(PipelineEvent::Rendered(Ok("y".to_string()))), "y"));
}

#[test]
fn pipeline_render_failure_fails_without_store() {
    let mut p = Pipeline::new(true, 10);
    p.on_event(PipelineEvent::Start);
    p.on_event(PipelineEvent::LookedUp(None));
    let a = p.on_event(PipelineEvent::Rendered(Err("boom".to_string())));
    assert!(matches!(a, PipelineAction::Fail(ref d) if d == "boom"));
    assert_eq!(p.stage, Stage::Done);
    assert!(p.payload.is_none());
}

#[test]
fn cache_budget_in_bytes() {
    assert_eq!(cache_budget_bytes(64), 67_108_864);
    assert_eq!(cache_budget_bytes(0), 0);
    assert_eq!(cache_budget_bytes(u64::MAX), u64::MAX);
    assert_eq!(cache_budget_bytes(u64::MAX / 1_048_576), (u64::MAX / 1_048_576) * 1_048_576);
}
