use spyro_node::event::{BlockPtr, IngestEvent};
use spyro_node::mapper::{DefaultMapper, EntityModification, LiveMapper, MappingError, ModificationKind};
use spyro_node::schema::{Decimal, Value};

fn model_meta(provider: &str, model_id: &str, version: &str, params: u64, timestamp: u64) -> IngestEvent {
    IngestEvent::ModelMeta {
        provider: provider.to_string(),
        model_id: model_id.to_string(),
        version: version.to_string(),
        params,
        timestamp,
    }
}

fn job(provider: &str, job_id: &str, latency_ms: u32, cost_wei: u128, timestamp: u64) -> IngestEvent {
    IngestEvent::InferenceJob {
        provider: provider.to_string(),
        job_id: job_id.to_string(),
        latency_ms,
        cost_wei,
        success: true,
        timestamp,
    }
}

fn stats(provider: &str, node_id: &str, gpu_util: u8, score: u32) -> IngestEvent {
    IngestEvent::ProviderStats {
        provider: provider.to_string(),
        node_id: node_id.to_string(),
        gpu_util,
        score,
        timestamp: 7,
    }
}

fn field<'a>(m: &'a EntityModification, name: &str) -> &'a Value {
    &m.data.fields.iter().find(|(n, _)| n == name).expect("field present").1
}

fn text(v: &Value) -> &str {
    match v {
        Value::String(s) => s.as_str(),
        other => panic!("not a string: {:?}", other),
    }
}

fn ptr(n: u64) -> BlockPtr {
    BlockPtr { number: n }
}

#[test]
fn model_then_job_scenario() {
    let mapper = DefaultMapper::new();
    let events = vec![
        (model_meta("render", "sd-v1", "1.0", 800_000_000, 100), ptr(1)),
        (job("render", "jobA", 120, 50_000, 200), ptr(2)),
    ];
    let out = mapper.map_stream(&events);
    assert!(out.failures.is_empty());
    assert_eq!(out.modifications.len(), 2);

    let m = &out.modifications[0];
    assert_eq!(m.kind, ModificationKind::Upsert);
    assert_eq!(m.key.entity_type, "Model");
    assert_eq!(m.key.entity_id, "render:sd-v1");
    assert_eq!(text(field(m, "id")), "render:sd-v1");
    assert_eq!(text(field(m, "provider")), "render");
    assert_eq!(text(field(m, "currentVersion")), "1.0");
    assert_eq!(field(m, "params"), &Value::BigInt(800_000_000));
    assert_eq!(field(m, "license"), &Value::String(String::new()));
    assert_eq!(m.position, ptr(1));

    let j = &out.modifications[1];
    assert_eq!(j.kind, ModificationKind::Insert);
    assert_eq!(j.key.entity_type, "InferenceJob");
    assert_eq!(j.key.entity_id, "0x6a6f6241");
    assert_eq!(field(j, "id"), &Value::Bytes(b"jobA".to_vec()));
    assert_eq!(text(field(j, "model")), "render:sd-v1");
    assert_eq!(field(j, "latency"), &Value::Int(120));
    assert_eq!(field(j, "cost"), &Value::BigInt(50_000));
    assert_eq!(field(j, "blockTimestamp"), &Value::BigInt(200));
    assert_eq!(field(j, "requester"), &Value::Bytes(Vec::new()));
    assert_eq!(field(j, "inputHash"), &Value::Bytes(Vec::new()));
    assert_eq!(j.position, ptr(2));
}

#[test]
fn model_entity_field_order() {
    let mapper = DefaultMapper::new();
    let r = mapper.handle_event(&model_meta("render", "sd-v1", "1.0", 5, 1), ptr(9), "").unwrap();
    let names: Vec<&str> = r[0].data.fields.iter().map(|(n, _)| n.as_str()).collect();
    assert_eq!(names, vec!["id", "provider", "currentVersion", "params", "license"]);
}

#[test]
fn mapping_twice_is_identical() {
    let mapper = DefaultMapper::new();
    for evt in [
        model_meta("render", "sd-v1", "1.0", 800_000_000, 1),
        job("tao", "0xabc", 5, 9, 3),
        stats("fetch", "node-1", 50, 77),
    ] {
        let a = mapper.handle_event(&evt, ptr(4), "render:sd-v1");
        let b = mapper.handle_event(&evt.clone(), ptr(4), "render:sd-v1");
        assert_eq!(a, b);
    }
    let events = vec![
        (model_meta("render", "sd-v1", "1.0", 1, 1), ptr(1)),
        (job("render", "j1", 1, 1, 2), ptr(2)),
        (stats("render", "", 1, 1), ptr(3)),
    ];
    let x = mapper.map_stream(&events);
    let y = mapper.map_stream(&events.clone());
    assert_eq!(x.modifications, y.modifications);
    assert_eq!(x.failures, y.failures);
}

#[test]
fn replayed_event_keeps_its_key() {
    let mapper = DefaultMapper::new();
    let e = model_meta("render", "sd-v1", "1.0", 10, 1);
    let out = mapper.map_stream(&vec![(e.clone(), ptr(3)), (e, ptr(3))]);
    assert_eq!(out.modifications.len(), 2);
    assert_eq!(out.modifications[0], out.modifications[1]);
}

#[test]
fn malformed_event_is_isolated() {
    let mapper = DefaultMapper::new();
    let events = vec![
        (model_meta("render", "sd-v1", "1.0", 10, 1), ptr(1)),
        (stats("render", "node-1", 40, 3), ptr(2)),
        (stats("render", "node-2", 150, 3), ptr(3)),
        (job("render", "j1", 3, 4, 5), ptr(4)),
        (job("render", "j2", 3, 4, 6), ptr(5)),
    ];
    let out = mapper.map_stream(&events);
    assert_eq!(out.modifications.len(), 4);
    assert_eq!(out.failures.len(), 1);
    assert_eq!(out.failures[0].index, 2);
    assert_eq!(out.failures[0].error, MappingError::OutOfRange);
    let positions: Vec<u64> = out.modifications.iter().map(|m| m.position.number).collect();
    assert_eq!(positions, vec![1, 2, 4, 5]);
    assert_eq!(out.modifications[3].key.entity_id, "0x6a32");
    assert_eq!(text(field(&out.modifications[3], "model")), "render:sd-v1");
}

#[test]
fn new_version_updates_same_model() {
    let mapper = DefaultMapper::new();
    let a = mapper.handle_event(&model_meta("render", "sd-v1", "1.0", 10, 1), ptr(1), "").unwrap();
    let b = mapper.handle_event(&model_meta("render", "sd-v1", "2.0", 12, 2), ptr(2), "").unwrap();
    assert_eq!(a[0].key, b[0].key);
    assert_eq!(field(&a[0], "id"), field(&b[0], "id"));
    assert_eq!(b[0].kind, ModificationKind::Upsert);
    assert_eq!(text(field(&b[0], "currentVersion")), "2.0");
}

#[test]
fn stats_update_provider() {
    let mapper = DefaultMapper::new();
    let r = mapper.handle_event(&stats("render", "node-42", 100, 880), ptr(5), "").unwrap();
    assert_eq!(r.len(), 1);
    assert_eq!(r[0].kind, ModificationKind::Update);
    assert_eq!(r[0].key.entity_type, "Provider");
    assert_eq!(r[0].key.entity_id, "render:node-42");
    assert_eq!(r[0].data.fields.len(), 3);
    assert_eq!(text(field(&r[0], "network")), "render");
    assert_eq!(field(&r[0], "reputation"), &Value::BigDecimal(Decimal { mantissa: 880, scale: 0 }));
}

#[test]
fn job_without_announced_model() {
    let mapper = DefaultMapper::new();
    let events = vec![
        (model_meta("tao", "m", "1", 1, 1), ptr(1)),
        (job("render", "j", 1, 1, 1), ptr(2)),
    ];
    let out = mapper.map_stream(&events);
    assert_eq!(text(field(&out.modifications[1], "model")), "");
}

#[test]
fn job_follows_latest_model() {
    let mapper = DefaultMapper::new();
    let events = vec![
        (model_meta("render", "a", "1", 1, 1), ptr(1)),
        (model_meta("render", "b", "1", 1, 2), ptr(2)),
        (model_meta("render", "", "1", 1, 3), ptr(3)),
        (job("render", "j", 1, 1, 4), ptr(4)),
    ];
    let out = mapper.map_stream(&events);
    assert_eq!(out.modifications.len(), 3);
    assert_eq!(text(field(&out.modifications[2], "model")), "render:b");
}

#[test]
fn empty_identity_rejected() {
    let mapper = DefaultMapper::new();
    assert_eq!(
        mapper.handle_event(&model_meta("render", "", "1", 1, 1), ptr(1), ""),
        Err(MappingError::EmptyIdentity)
    );
    assert_eq!(mapper.handle_event(&job("", "j", 1, 1, 1), ptr(1), ""), Err(MappingError::EmptyIdentity));
    assert_eq!(mapper.handle_event(&stats("render", "", 1, 1), ptr(1), ""), Err(MappingError::EmptyIdentity));
}

#[test]
fn out_of_range_rejected() {
    let mapper = DefaultMapper::new();
    assert_eq!(
        mapper.handle_event(&model_meta("render", "m", "1", 1 << 63, 1), ptr(1), ""),
        Err(MappingError::OutOfRange)
    );
    assert!(mapper.handle_event(&model_meta("render", "m", "1", (1 << 63) - 1, 1), ptr(1), "").is_ok());
    assert_eq!(mapper.handle_event(&job("r", "j", 1 << 31, 1, 1), ptr(1), ""), Err(MappingError::OutOfRange));
    assert_eq!(mapper.handle_event(&job("r", "j", 1, 1 << 127, 1), ptr(1), ""), Err(MappingError::OutOfRange));
    assert_eq!(mapper.handle_event(&job("r", "j", 1, 1, 1 << 63), ptr(1), ""), Err(MappingError::OutOfRange));
    assert_eq!(mapper.handle_event(&stats("r", "n", 101, 1), ptr(1), ""), Err(MappingError::OutOfRange));
    assert!(mapper.handle_event(&stats("r", "n", 100, 1), ptr(1), "").is_ok());
}

#[test]
fn empty_stream() {
    let out = DefaultMapper::new().map_stream(&Vec::new());
    assert!(out.modifications.is_empty());
    assert!(out.failures.is_empty());
}

#[test]
fn event_accessors() {
    let e = job("render", "j", 1, 1, 42);
    assert_eq!(e.provider(), "render");
    assert_eq!(e.timestamp(), 42);
}

#[test]
fn live_mapping_matches_batch() {
    let events = vec![
        (model_meta("render", "a", "1", 1, 1), ptr(1)),
        (job("render", "j1", 1, 1, 2), ptr(2)),
        (model_meta("tao", "t", "1", 1, 3), ptr(3)),
        (model_meta("render", "b", "2", 1, 4), ptr(4)),
        (stats("render", "n", 200, 1), ptr(5)),
        (job("render", "j2", 1, 1, 6), ptr(6)),
        (job("tao", "j3", 1, 1, 7), ptr(7)),
        (job("fetch", "j4", 1, 1, 8), ptr(8)),
    ];
    let batch = DefaultMapper::new().map_stream(&events);
    let mut live = LiveMapper::new();
    let mut mods = Vec::new();
    let mut failed = Vec::new();
    for (i, (e, p)) in events.iter().enumerate() {
        match live.map_next(e, *p) {
            Ok(mut v) => mods.append(&mut v),
            Err(err) => failed.push((i, err)),
        }
    }
    assert_eq!(mods, batch.modifications);
    let batch_failed: Vec<(usize, MappingError)> = batch.failures.iter().map(|f| (f.index, f.error)).collect();
    assert_eq!(failed, batch_failed);
    assert_eq!(text(field(&mods[4], "model")), "render:b");
    assert_eq!(text(field(&mods[5], "model")), "tao:t");
    assert_eq!(text(field(&mods[6], "model")), "");
}
