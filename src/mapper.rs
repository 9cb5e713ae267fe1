//! The mapping engine: a pure, deterministic function from an event and its
//! position to the entity modifications it stands for.
use vstd::prelude::*;
use vstd::utf8::encode_utf8;
use crate::event::{BlockPtr, IngestEvent, IngestEventView};
use crate::schema::{
    bytes_display, job_key, model_key, provider_key, qualified_id, qualify, Decimal, Entity, EntityKey,
    FieldsView, InferenceJob, Model, Value, ValueView, conforms, fits, has_field, has_type, schema_table,
};

verus! {

/// How the store is asked to apply a modification.
#[derive(Clone, Copy, Debug, PartialEq, Eq, Structural)]
pub enum ModificationKind {
    /// Create the entity; an existing one is left as it is.
    Insert,
    /// Create the entity, or merge the fields into an existing one.
    Upsert,
    /// Merge the fields into the entity, creating it if absent.
    Update,
    /// Delete the entity.
    Remove,
}

/// One instruction to the store, tagged with the position it came with.
#[derive(Clone, Debug, PartialEq, Eq)]
pub struct EntityModification {
    pub kind: ModificationKind,
    pub key: EntityKey,
    pub data: Entity,
    pub position: BlockPtr,
}

/// Mathematical content of an [`EntityModification`].
pub ghost struct ModificationView {
    pub kind: ModificationKind,
    pub key: (Seq<char>, Seq<char>),
    pub data: FieldsView,
    pub position: BlockPtr,
}

impl View for EntityModification {
    type V = ModificationView;

    open spec fn view(&self) -> ModificationView {
        ModificationView { kind: self.kind, key: self.key@, data: self.data@, position: self.position }
    }
}

/// Why an event could not be decoded into its canonical entity.
#[derive(Clone, Copy, Debug, PartialEq, Eq, Structural)]
pub enum MappingError {
    /// A field that the entity's identity is derived from is empty.
    EmptyIdentity,
    /// A numeric field does not fit the entity's field type or range.
    OutOfRange,
}

pub open spec fn i32_max() -> int {
    0x7fff_ffff
}

pub open spec fn i64_max() -> int {
    0x7fff_ffff_ffff_ffff
}

pub open spec fn i128_max() -> int {
    0x7fff_ffff_ffff_ffff_ffff_ffff_ffff_ffff
}

/// The decode failure of an event, if any: identity fields are checked
/// first, then the ranges of the numeric fields.
pub open spec fn decode_error(e: IngestEventView) -> Option<MappingError> {
    match e {
        IngestEventView::ModelMeta { provider, model_id, params, .. } =>
            if provider.len() == 0 || model_id.len() == 0 {
                Some(MappingError::EmptyIdentity)
            } else if params > i64_max() {
                Some(MappingError::OutOfRange)
            } else {
                None
            },
        IngestEventView::InferenceJob { provider, job_id, latency_ms, cost_wei, timestamp, .. } =>
            if provider.len() == 0 || job_id.len() == 0 {
                Some(MappingError::EmptyIdentity)
            } else if latency_ms > i32_max() || cost_wei > i128_max() || timestamp > i64_max() {
                Some(MappingError::OutOfRange)
            } else {
                None
            },
        IngestEventView::ProviderStats { provider, node_id, gpu_util, .. } =>
            if provider.len() == 0 || node_id.len() == 0 {
                Some(MappingError::EmptyIdentity)
            } else if gpu_util > 100 {
                Some(MappingError::OutOfRange)
            } else {
                None
            },
    }
}

/// The single modification a well-formed event maps to. `model` is the id of
/// the model that a job event is attributed to.
pub open spec fn modification_of(e: IngestEventView, pos: BlockPtr, model: Seq<char>) -> ModificationView {
    match e {
        IngestEventView::ModelMeta { provider, model_id, version, params, .. } => {
            let id = qualified_id(provider, model_id);
            ModificationView {
                kind: ModificationKind::Upsert,
                key: ("Model"@, id),
                data: seq![
                    ("id"@, ValueView::Str(id)),
                    ("provider"@, ValueView::Str(provider)),
                    ("currentVersion"@, ValueView::Str(version)),
                    ("params"@, ValueView::BigInt(params as int)),
                    ("license"@, ValueView::Str(Seq::empty())),
                ],
                position: pos,
            }
        },
        IngestEventView::InferenceJob { job_id, latency_ms, cost_wei, timestamp, .. } =>
            ModificationView {
                kind: ModificationKind::Insert,
                key: ("InferenceJob"@, bytes_display(encode_utf8(job_id))),
                data: seq![
                    ("id"@, ValueView::Bytes(encode_utf8(job_id))),
                    ("model"@, ValueView::Str(model)),
                    ("requester"@, ValueView::Bytes(Seq::empty())),
                    ("inputHash"@, ValueView::Bytes(Seq::empty())),
                    ("latency"@, ValueView::Int(latency_ms as i32)),
                    ("cost"@, ValueView::BigInt(cost_wei as int)),
                    ("blockTimestamp"@, ValueView::BigInt(timestamp as int)),
                ],
                position: pos,
            },
        IngestEventView::ProviderStats { provider, node_id, score, .. } => {
            let id = qualified_id(provider, node_id);
            ModificationView {
                kind: ModificationKind::Update,
                key: ("Provider"@, id),
                data: seq![
                    ("id"@, ValueView::Str(id)),
                    ("network"@, ValueView::Str(provider)),
                    ("reputation"@, ValueView::BigDecimal(Decimal { mantissa: score as i128, scale: 0 })),
                ],
                position: pos,
            }
        },
    }
}

/// What mapping one event yields: its modifications, or why it was rejected.
pub open spec fn event_mods(e: IngestEventView, pos: BlockPtr, model: Seq<char>) -> Result<
    Seq<ModificationView>,
    MappingError,
> {
    match decode_error(e) {
        Some(err) => Err(err),
        None => Ok(seq![modification_of(e, pos, model)]),
    }
}

/// The abstract content of a sequence of modifications.
pub open spec fn mods_view(s: Seq<EntityModification>) -> Seq<ModificationView> {
    s.map_values(|m: EntityModification| m@)
}

/// The mapping engine. It keeps no state between events.
pub struct DefaultMapper {}

impl DefaultMapper {
    pub fn new() -> (r: DefaultMapper) {
        DefaultMapper {  }
    }

    /// Maps one event at position `ptr`; `model` is the id of the model that
    /// a job event is attributed to (ignored for other events).
    pub fn handle_event(&self, evt: &IngestEvent, ptr: BlockPtr, model: &str) -> (r: Result<
        Vec<EntityModification>,
        MappingError,
    >)
        ensures
            match r {
                Ok(v) => event_mods(evt@, ptr, model@) == Ok::<Seq<ModificationView>, MappingError>(
                    mods_view(v@),
                ),
                Err(e) => event_mods(evt@, ptr, model@) == Err::<Seq<ModificationView>, MappingError>(
                    e,
                ),
            },
    {
        match evt {
            IngestEvent::ModelMeta { provider, model_id, version, params, .. } => {
                if provider.as_str().is_empty() || model_id.as_str().is_empty() {
                    return Err(MappingError::EmptyIdentity);
                }
                if *params > 0x7fff_ffff_ffff_ffffu64 {
                    return Err(MappingError::OutOfRange);
                }
                let id = qualify(provider.as_str(), model_id.as_str());
                let key = model_key(id.as_str());
                let m = Model {
                    id,
                    provider: provider.clone(),
                    current_version: version.clone(),
                    params: *params as i64,
                    license: String::new(),
                };
                let data = m.into_entity();
                let md = EntityModification { kind: ModificationKind::Upsert, key, data, position: ptr };
                let v = vec![md];
                assert(mods_view(v@) =~= seq![modification_of(evt@, ptr, model@)]);
                Ok(v)
            },
            IngestEvent::InferenceJob { provider, job_id, latency_ms, cost_wei, timestamp, .. } => {
                if provider.as_str().is_empty() || job_id.as_str().is_empty() {
                    return Err(MappingError::EmptyIdentity);
                }
                if *latency_ms > 0x7fff_ffffu32 || *cost_wei > 0x7fff_ffff_ffff_ffff_ffff_ffff_ffff_ffffu128
                    || *timestamp > 0x7fff_ffff_ffff_ffffu64 {
                    return Err(MappingError::OutOfRange);
                }
                let id = job_id.as_str().as_bytes_vec();
                let key = job_key(&id);
                let j = InferenceJob {
                    id,
                    model: String::from_str(model),
                    requester: Vec::new(),
                    input_hash: Vec::new(),
                    latency: *latency_ms as i32,
                    cost: *cost_wei as i128,
                    block_timestamp: *timestamp as i64,
                };
                let data = j.into_entity();
                let md = EntityModification { kind: ModificationKind::Insert, key, data, position: ptr };
                let v = vec![md];
                assert(mods_view(v@) =~= seq![modification_of(evt@, ptr, model@)]);
                Ok(v)
            },
            IngestEvent::ProviderStats { provider, node_id, gpu_util, score, .. } => {
                if provider.as_str().is_empty() || node_id.as_str().is_empty() {
                    return Err(MappingError::EmptyIdentity);
                }
                if *gpu_util > 100u8 {
                    return Err(MappingError::OutOfRange);
                }
                let id = qualify(provider.as_str(), node_id.as_str());
                let key = provider_key(id.as_str());
                let mut data = Entity::new();
                data.insert("id", Value::String(id));
                data.insert("network", Value::String(provider.clone()));
                data.insert(
                    "reputation",
                    Value::BigDecimal(Decimal { mantissa: *score as i128, scale: 0 }),
                );
                assert(data@ =~= modification_of(evt@, ptr, model@).data);
                let md = EntityModification { kind: ModificationKind::Update, key, data, position: ptr };
                let v = vec![md];
                assert(mods_view(v@) =~= seq![modification_of(evt@, ptr, model@)]);
                Ok(v)
            },
        }
    }
}


/// A stream of events with their positions, as character sequences.
pub open spec fn stream_view(s: Seq<(IngestEvent, BlockPtr)>) -> Seq<(IngestEventView, BlockPtr)> {
    s.map_values(|x: (IngestEvent, BlockPtr)| (x.0@, x.1))
}

/// Whether `e` is a well-formed model announcement of `provider`.
pub open spec fn announces_model(e: IngestEventView, provider: Seq<char>) -> bool {
    &&& e is ModelMeta
    &&& e->ModelMeta_provider == provider
    &&& decode_error(e) is None
}

/// The id of the model most recently announced by `provider` in `s`; empty
/// when it announced none.
pub open spec fn active_model(s: Seq<(IngestEventView, BlockPtr)>, provider: Seq<char>) -> Seq<char>
    decreases s.len(),
{
    if s.len() == 0 {
        Seq::empty()
    } else if announces_model(s.last().0, provider) {
        qualified_id(provider, s.last().0->ModelMeta_model_id)
    } else {
        active_model(s.drop_last(), provider)
    }
}

/// What mapping the last event of a non-empty stream yields, in the context
/// of the events before it.
pub open spec fn last_event_mods(s: Seq<(IngestEventView, BlockPtr)>) -> Result<Seq<ModificationView>, MappingError>
    recommends
        s.len() > 0,
{
    event_mods(s.last().0, s.last().1, active_model(s.drop_last(), s.last().0.provider()))
}

/// The modifications of a stream: those of each well-formed event, in order.
pub open spec fn stream_mods(s: Seq<(IngestEventView, BlockPtr)>) -> Seq<ModificationView>
    decreases s.len(),
{
    if s.len() == 0 {
        Seq::empty()
    } else {
        stream_mods(s.drop_last()) + match last_event_mods(s) {
            Ok(m) => m,
            Err(_) => Seq::empty(),
        }
    }
}

/// The rejected events of a stream: index and reason, in order.
pub open spec fn stream_failures(s: Seq<(IngestEventView, BlockPtr)>) -> Seq<(int, MappingError)>
    decreases s.len(),
{
    if s.len() == 0 {
        Seq::empty()
    } else {
        stream_failures(s.drop_last()) + match last_event_mods(s) {
            Ok(_) => Seq::empty(),
            Err(e) => seq![(s.len() - 1, e)],
        }
    }
}

/// An event of a stream that could not be mapped.
#[derive(Clone, Copy, Debug, PartialEq, Eq, Structural)]
pub struct MappingFailure {
    pub index: usize,
    pub error: MappingError,
}

/// The result of mapping a stream: modifications of the well-formed events,
/// and the events that were rejected.
pub struct StreamOutput {
    pub modifications: Vec<EntityModification>,
    pub failures: Vec<MappingFailure>,
}

pub open spec fn failures_view(s: Seq<MappingFailure>) -> Seq<(int, MappingError)> {
    s.map_values(|f: MappingFailure| (f.index as int, f.error))
}

/// The id of the model most recently announced by `provider` among the first
/// `upto` events.
fn find_active_model(events: &Vec<(IngestEvent, BlockPtr)>, upto: usize, provider: &String) -> (r: String)
    requires
        upto <= events@.len(),
    ensures
        r@ == active_model(stream_view(events@).take(upto as int), provider@),
{
    let ghost sv = stream_view(events@);
    let mut i: usize = upto;
    while i > 0
        invariant
            i <= upto <= events@.len(),
            sv == stream_view(events@),
            active_model(sv.take(upto as int), provider@) == active_model(sv.take(i as int), provider@),
        decreases i,
    {
        let ghost t = sv.take(i as int);
        assert(t.drop_last() =~= sv.take(i - 1));
        assert(t.last() == sv[i - 1]);
        let e = &events[i - 1].0;
        if let IngestEvent::ModelMeta { provider: p, model_id, params, .. } = e {
            if *p == *provider && !p.as_str().is_empty() && !model_id.as_str().is_empty()
                && *params <= 0x7fff_ffff_ffff_ffffu64 {
                return qualify(p.as_str(), model_id.as_str());
            }
        }
        i = i - 1;
    }
    assert(sv.take(0) =~= Seq::<(IngestEventView, BlockPtr)>::empty());
    String::new()
}

impl DefaultMapper {
    /// Maps a stream of events in order. A rejected event yields no
    /// modification and is recorded among the failures; mapping goes on with
    /// the next event. A job is attributed to the model its provider
    /// announced last before it.
    pub fn map_stream(&self, events: &Vec<(IngestEvent, BlockPtr)>) -> (r: StreamOutput)
        ensures
            mods_view(r.modifications@) == stream_mods(stream_view(events@)),
            failures_view(r.failures@) == stream_failures(stream_view(events@)),
    {
        let ghost sv = stream_view(events@);
        let mut modifications: Vec<EntityModification> = Vec::new();
        let mut failures: Vec<MappingFailure> = Vec::new();
        let mut i: usize = 0;
        while i < events.len()
            invariant
                i <= events@.len(),
                sv == stream_view(events@),
                mods_view(modifications@) == stream_mods(sv.take(i as int)),
                failures_view(failures@) == stream_failures(sv.take(i as int)),
            decreases events@.len() - i,
        {
            let ghost t = sv.take(i + 1);
            assert(t.drop_last() =~= sv.take(i as int));
            assert(t.last() == sv[i as int]);
            let (evt, ptr) = (&events[i].0, events[i].1);
            let model = find_active_model(events, i, evt.provider());
            match self.handle_event(evt, ptr, model.as_str()) {
                Ok(v) => {
                    let ghost prev = modifications@;
                    let mut v = v;
                    let ghost added = v@;
                    modifications.append(&mut v);
                    assert(mods_view(modifications@) =~= mods_view(prev) + mods_view(added)) by {
                        assert(modifications@ =~= prev + added);
                    }
                },
                Err(e) => {
                    let ghost prev = failures@;
                    failures.push(MappingFailure { index: i, error: e });
                    assert(failures_view(failures@) =~= failures_view(prev).push((i as int, e)));
                },
            }
            i = i + 1;
        }
        assert(sv.take(events@.len() as int) =~= sv);
        StreamOutput { modifications, failures }
    }
}


/// The model id recorded for `provider` in `entries`: the last entry for it,
/// empty if there is none.
pub open spec fn recorded_model(entries: Seq<(String, String)>, provider: Seq<char>) -> Seq<char>
    decreases entries.len(),
{
    if entries.len() == 0 {
        Seq::empty()
    } else if entries.last().0@ == provider {
        entries.last().1@
    } else {
        recorded_model(entries.drop_last(), provider)
    }
}

proof fn lemma_recorded_after_remove(entries: Seq<(String, String)>, i: int, provider: Seq<char>)
    requires
        0 <= i < entries.len(),
        entries[i].0@ != provider,
    ensures
        recorded_model(entries.remove(i), provider) == recorded_model(entries, provider),
    decreases entries.len(),
{
    let r = entries.remove(i);
    if i == entries.len() - 1 {
        assert(r =~= entries.drop_last());
    } else {
        assert(r.last() == entries.last());
        assert(r.drop_last() =~= entries.drop_last().remove(i));
        lemma_recorded_after_remove(entries.drop_last(), i, provider);
    }
}

/// Maps an unbounded stream one event at a time, with the same results as
/// [`DefaultMapper::map_stream`] on the events seen so far. It remembers,
/// per provider, only the model that provider announced last.
pub struct LiveMapper {
    mapper: DefaultMapper,
    models: Vec<(String, String)>,
    seen: Ghost<Seq<(IngestEventView, BlockPtr)>>,
}

impl LiveMapper {
    /// The events mapped so far, with their positions.
    pub closed spec fn history(&self) -> Seq<(IngestEventView, BlockPtr)> {
        self.seen@
    }

    pub closed spec fn wf(&self) -> bool {
        forall|p: Seq<char>| recorded_model(self.models@, p) == active_model(self.seen@, p)
    }

    pub fn new() -> (r: LiveMapper)
        ensures
            r.wf(),
            r.history() == Seq::<(IngestEventView, BlockPtr)>::empty(),
    {
        LiveMapper { mapper: DefaultMapper::new(), models: Vec::new(), seen: Ghost(Seq::empty()) }
    }

    /// Maps the next event of the stream, at position `ptr`.
    pub fn map_next(&mut self, evt: &IngestEvent, ptr: BlockPtr) -> (r: Result<Vec<EntityModification>, MappingError>)
        requires
            old(self).wf(),
        ensures
            final(self).wf(),
            final(self).history() == old(self).history().push((evt@, ptr)),
            match r {
                Ok(v) => last_event_mods(final(self).history()) == Ok::<Seq<ModificationView>, MappingError>(
                    mods_view(v@),
                ),
                Err(e) => last_event_mods(final(self).history()) == Err::<Seq<ModificationView>, MappingError>(e),
            },
    {
        let ghost before = self.seen@;
        let ghost after = before.push((evt@, ptr));
        assert(after.drop_last() =~= before);
        let provider = evt.provider();
        let mut i: usize = self.models.len();
        let mut found = false;
        assert(self.models@.take(i as int) =~= self.models@);
        while i > 0 && !found
            invariant
                i <= self.models@.len(),
                self.models@ == old(self).models@,
                found ==> 0 < i && self.models@[i - 1].0@ == provider@,
                found ==> recorded_model(self.models@, provider@) == self.models@[i - 1].1@,
                !found ==> recorded_model(self.models@, provider@) == recorded_model(
                    self.models@.take(i as int),
                    provider@,
                ),
            decreases i + if found {
                0int
            } else {
                1int
            },
        {
            let ghost t = self.models@.take(i as int);
            assert(t.drop_last() =~= self.models@.take(i - 1));
            assert(t.last() == self.models@[i - 1]);
            if self.models[i - 1].0 == *provider {
                found = true;
            } else {
                i = i - 1;
            }
        }
        let model = if found {
            self.models[i - 1].1.clone()
        } else {
            assert(self.models@.take(0) =~= Seq::<(String, String)>::empty());
            String::new()
        };
        let r = self.mapper.handle_event(evt, ptr, model.as_str());
        if let IngestEvent::ModelMeta { provider: p, model_id, .. } = evt {
            if r.is_ok() {
                let ghost prev = self.models@;
                if found {
                    self.models.remove(i - 1);
                    proof {
                        assert forall|q: Seq<char>| q != p@ implies recorded_model(self.models@, q)
                            == recorded_model(prev, q) by {
                            if prev[i - 1].0@ != q {
                                lemma_recorded_after_remove(prev, i - 1, q);
                            }
                        }
                    }
                }
                let ghost removed = self.models@;
                self.models.push((p.clone(), qualify(p.as_str(), model_id.as_str())));
                proof {
                    assert(self.models@.drop_last() =~= removed);
                    assert(after.last() == (evt@, ptr));
                    assert(decode_error(evt@) is None);
                    assert forall|q: Seq<char>| recorded_model(self.models@, q) == active_model(after, q) by {
                        if q != p@ {
                            assert(recorded_model(self.models@, q) == recorded_model(removed, q));
                            assert(recorded_model(prev, q) == active_model(before, q));
                            assert(active_model(after, q) == active_model(before, q));
                        }
                    }
                }
            }
        }
        proof {
            if self.models@ == old(self).models@ {
                assert forall|q: Seq<char>| recorded_model(self.models@, q) == active_model(after, q) by {
                    assert(after.last() == (evt@, ptr));
                    assert(recorded_model(self.models@, q) == active_model(before, q));
                    if announces_model(evt@, q) {
                        assert(decode_error(evt@) is None);
                        assert(r is Ok);
                    }
                }
            }
        }
        self.seen = Ghost(after);
        r
    }
}

/// What a well-formed event maps to matches the schema: a model or a job
/// carries exactly the fields of its entity type, and a provider update
/// carries fields of the provider type only.
pub proof fn lemma_mapped_fields_conform(e: IngestEventView, pos: BlockPtr, model: Seq<char>)
    requires
        decode_error(e) is None,
    ensures
        e is ModelMeta ==> conforms(modification_of(e, pos, model).data, schema_table()[1].1),
        e is InferenceJob ==> conforms(modification_of(e, pos, model).data, schema_table()[2].1),
        e is ProviderStats ==> fits(modification_of(e, pos, model).data, schema_table()[0].1),
{
    if e is ProviderStats {
        let d = modification_of(e, pos, model).data;
        let t = schema_table()[0].1;
        assert(t[0].0 == d[0].0 && has_type(d[0].1, t[0].1));
        assert(t[1].0 == d[1].0 && has_type(d[1].1, t[1].1));
        assert(t[3].0 == d[2].0 && has_type(d[2].1, t[3].1));
        assert forall|i: int| 0 <= i < d.len() implies has_field(t, #[trigger] d[i].0, d[i].1) by {}
    }
}

/// Mapping depends on the event's content, its position and the attributed
/// model alone: equal inputs yield equal results.
pub proof fn lemma_mapping_deterministic(a: IngestEvent, b: IngestEvent, pos: BlockPtr, model: Seq<char>)
    requires
        a@ == b@,
    ensures
        event_mods(a@, pos, model) == event_mods(b@, pos, model),
{
}

/// Two streams with the same content yield the same modifications and the
/// same failures.
pub proof fn lemma_stream_deterministic(a: Seq<(IngestEvent, BlockPtr)>, b: Seq<(IngestEvent, BlockPtr)>)
    requires
        stream_view(a) == stream_view(b),
    ensures
        stream_mods(stream_view(a)) == stream_mods(stream_view(b)),
        stream_failures(stream_view(a)) == stream_failures(stream_view(b)),
{
}

/// A stream of well-formed events yields one modification per event and no
/// failure.
pub proof fn lemma_all_well_formed(s: Seq<(IngestEventView, BlockPtr)>)
    requires
        forall|i: int| 0 <= i < s.len() ==> decode_error(#[trigger] s[i].0) is None,
    ensures
        stream_mods(s).len() == s.len(),
        stream_failures(s) == Seq::<(int, MappingError)>::empty(),
    decreases s.len(),
{
    if s.len() > 0 {
        let prev = s.drop_last();
        assert forall|i: int| 0 <= i < prev.len() implies decode_error(#[trigger] prev[i].0) is None by {
            assert(prev[i] == s[i]);
        }
        lemma_all_well_formed(prev);
        assert(decode_error(s[s.len() - 1].0) is None);
    }
}

/// In a stream where only the event at index `k` is malformed, every other event yields its modification, the malformed one
/// yields none, and it is the one failure reported.
pub proof fn lemma_event_isolation(s: Seq<(IngestEventView, BlockPtr)>, k: int)
    requires
        0 <= k < s.len(),
        decode_error(s[k].0) is Some,
        forall|i: int| 0 <= i < s.len() && i != k ==> decode_error(#[trigger] s[i].0) is None,
    ensures
        stream_mods(s).len() == s.len() - 1,
        stream_failures(s) == seq![(k, decode_error(s[k].0)->Some_0)],
    decreases s.len(),
{
    let prev = s.drop_last();
    if k == s.len() - 1 {
        assert forall|i: int| 0 <= i < prev.len() implies decode_error(#[trigger] prev[i].0) is None by {
            assert(prev[i] == s[i]);
        }
        lemma_all_well_formed(prev);
        assert(stream_failures(s) =~= seq![(k, decode_error(s[k].0)->Some_0)]);
    } else {
        assert forall|i: int| 0 <= i < prev.len() && i != k implies decode_error(
            #[trigger] prev[i].0,
        ) is None by {
            assert(prev[i] == s[i]);
        }
        assert(prev[k] == s[k]);
        lemma_event_isolation(prev, k);
        assert(decode_error(s[s.len() - 1].0) is None);
        assert(stream_failures(s) =~= stream_failures(prev));
    }
}

/// Two well-formed announcements of the same model by the
/// same provider, whatever their versions, parameters, times and positions,
/// address the same model entity with the same id.
pub proof fn lemma_model_key_stable(
    a: IngestEventView,
    b: IngestEventView,
    pa: BlockPtr,
    pb: BlockPtr,
    ma: Seq<char>,
    mb: Seq<char>,
)
    requires
        a is ModelMeta,
        b is ModelMeta,
        a->ModelMeta_provider == b->ModelMeta_provider,
        a->ModelMeta_model_id == b->ModelMeta_model_id,
        decode_error(a) is None,
        decode_error(b) is None,
    ensures
        event_mods(a, pa, ma) is Ok,
        event_mods(b, pb, mb) is Ok,
        event_mods(a, pa, ma)->Ok_0.len() == 1,
        event_mods(b, pb, mb)->Ok_0.len() == 1,
        event_mods(a, pa, ma)->Ok_0[0].key == event_mods(b, pb, mb)->Ok_0[0].key,
        event_mods(a, pa, ma)->Ok_0[0].key == ("Model"@, qualified_id(a->ModelMeta_provider, a->ModelMeta_model_id)),
        event_mods(a, pa, ma)->Ok_0[0].data[0] == event_mods(b, pb, mb)->Ok_0[0].data[0],
        event_mods(a, pa, ma)->Ok_0[0].kind == ModificationKind::Upsert,
        event_mods(b, pb, mb)->Ok_0[0].kind == ModificationKind::Upsert,
{
}

} // verus!
