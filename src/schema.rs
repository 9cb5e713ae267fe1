//! Canonical entities, the values their fields hold, and the keys under
//! which the store files them.
use vstd::prelude::*;

verus! {

/// A decimal number `mantissa * 10^(-scale)`.
#[derive(Clone, Copy, Debug, PartialEq, Eq, Structural)]
pub struct Decimal {
    pub mantissa: i128,
    pub scale: u32,
}

/// The type of one entity field in the store's schema.
#[derive(Clone, Copy, Debug, PartialEq, Eq, Structural)]
pub enum ValueType {
    String,
    Int,
    BigInt,
    BigDecimal,
    Bytes,
}

/// A field value as the store receives it.
#[derive(Clone, Debug, PartialEq, Eq)]
pub enum Value {
    String(String),
    Int(i32),
    BigInt(i128),
    BigDecimal(Decimal),
    Bytes(Vec<u8>),
}

/// Mathematical content of a [`Value`].
pub ghost enum ValueView {
    Str(Seq<char>),
    Int(i32),
    BigInt(int),
    BigDecimal(Decimal),
    Bytes(Seq<u8>),
}

impl View for Value {
    type V = ValueView;

    open spec fn view(&self) -> ValueView {
        match self {
            Value::String(s) => ValueView::Str(s@),
            Value::Int(i) => ValueView::Int(*i),
            Value::BigInt(i) => ValueView::BigInt(*i as int),
            Value::BigDecimal(d) => ValueView::BigDecimal(*d),
            Value::Bytes(b) => ValueView::Bytes(b@),
        }
    }
}

/// Mathematical content of an entity: its fields, by name, in order.
pub type FieldsView = Seq<(Seq<char>, ValueView)>;

/// The data of one entity: named field values.
#[derive(Clone, Debug, PartialEq, Eq)]
pub struct Entity {
    pub fields: Vec<(String, Value)>,
}

impl View for Entity {
    type V = FieldsView;

    open spec fn view(&self) -> FieldsView {
        self.fields@.map_values(|f: (String, Value)| (f.0@, f.1@))
    }
}

impl Entity {
    /// An entity without fields.
    pub fn new() -> (r: Entity)
        ensures
            r@ == Seq::<(Seq<char>, ValueView)>::empty(),
    {
        let r = Entity { fields: Vec::new() };
        assert(r@ =~= Seq::<(Seq<char>, ValueView)>::empty());
        r
    }

    /// Appends the field `name` with value `v`.
    pub fn insert(&mut self, name: &str, v: Value)
        ensures
            final(self)@ == old(self)@.push((name@, v@)),
    {
        let n = String::from_str(name);
        self.fields.push((n, v));
        assert(self@ =~= old(self)@.push((name@, v@)));
    }
}

/// Identity under which the store files an entity: its type and its id.
#[derive(Clone, Debug, PartialEq, Eq)]
pub struct EntityKey {
    pub entity_type: String,
    pub entity_id: String,
}

impl View for EntityKey {
    type V = (Seq<char>, Seq<char>);

    open spec fn view(&self) -> (Seq<char>, Seq<char>) {
        (self.entity_type@, self.entity_id@)
    }
}

/// A compute provider, one node of a network.
#[derive(Clone, Debug, PartialEq, Eq)]
pub struct Provider {
    pub id: String,
    pub network: String,
    pub stake: i128,
    pub reputation: Decimal,
}

/// A model published by a provider network.
#[derive(Clone, Debug, PartialEq, Eq)]
pub struct Model {
    pub id: String,
    pub provider: String,
    pub current_version: String,
    pub params: i64,
    pub license: String,
}

/// One completed unit of work; an append-only fact.
#[derive(Clone, Debug, PartialEq, Eq)]
pub struct InferenceJob {
    pub id: Vec<u8>,
    pub model: String,
    pub requester: Vec<u8>,
    pub input_hash: Vec<u8>,
    pub latency: i32,
    pub cost: i128,
    pub block_timestamp: i64,
}

/// Identity of an entity composed of a namespace and a local name:
/// `"<namespace>:<name>"`.
pub open spec fn qualified_id(namespace: Seq<char>, name: Seq<char>) -> Seq<char> {
    namespace + seq![':'] + name
}

/// Field table of a provider entity.
pub open spec fn provider_fields(p: Provider) -> FieldsView {
    seq![
        ("id"@, ValueView::Str(p.id@)),
        ("network"@, ValueView::Str(p.network@)),
        ("stake"@, ValueView::BigInt(p.stake as int)),
        ("reputation"@, ValueView::BigDecimal(p.reputation)),
    ]
}

/// Field table of a model entity.
pub open spec fn model_fields(m: Model) -> FieldsView {
    seq![
        ("id"@, ValueView::Str(m.id@)),
        ("provider"@, ValueView::Str(m.provider@)),
        ("currentVersion"@, ValueView::Str(m.current_version@)),
        ("params"@, ValueView::BigInt(m.params as int)),
        ("license"@, ValueView::Str(m.license@)),
    ]
}

/// Field table of an inference job entity.
pub open spec fn job_fields(j: InferenceJob) -> FieldsView {
    seq![
        ("id"@, ValueView::Bytes(j.id@)),
        ("model"@, ValueView::Str(j.model@)),
        ("requester"@, ValueView::Bytes(j.requester@)),
        ("inputHash"@, ValueView::Bytes(j.input_hash@)),
        ("latency"@, ValueView::Int(j.latency)),
        ("cost"@, ValueView::BigInt(j.cost as int)),
        ("blockTimestamp"@, ValueView::BigInt(j.block_timestamp as int)),
    ]
}

impl Provider {
    /// The store representation of this provider.
    pub fn into_entity(self) -> (e: Entity)
        ensures
            e@ == provider_fields(self),
    {
        let mut e = Entity::new();
        e.insert("id", Value::String(self.id));
        e.insert("network", Value::String(self.network));
        e.insert("stake", Value::BigInt(self.stake));
        e.insert("reputation", Value::BigDecimal(self.reputation));
        assert(e@ =~= provider_fields(self));
        e
    }
}

impl Model {
    /// The store representation of this model.
    pub fn into_entity(self) -> (e: Entity)
        ensures
            e@ == model_fields(self),
    {
        let mut e = Entity::new();
        e.insert("id", Value::String(self.id));
        e.insert("provider", Value::String(self.provider));
        e.insert("currentVersion", Value::String(self.current_version));
        e.insert("params", Value::BigInt(self.params as i128));
        e.insert("license", Value::String(self.license));
        assert(e@ =~= model_fields(self));
        e
    }
}

impl InferenceJob {
    /// The store representation of this job.
    pub fn into_entity(self) -> (e: Entity)
        ensures
            e@ == job_fields(self),
    {
        let mut e = Entity::new();
        e.insert("id", Value::Bytes(self.id));
        e.insert("model", Value::String(self.model));
        e.insert("requester", Value::Bytes(self.requester));
        e.insert("inputHash", Value::Bytes(self.input_hash));
        e.insert("latency", Value::Int(self.latency));
        e.insert("cost", Value::BigInt(self.cost));
        e.insert("blockTimestamp", Value::BigInt(self.block_timestamp as i128));
        assert(e@ =~= job_fields(self));
        e
    }
}

/// Store key of the provider entity with id `id`.
pub fn provider_key(id: &str) -> (k: EntityKey)
    ensures
        k@ == ("Provider"@, id@),
{
    EntityKey { entity_type: String::from_str("Provider"), entity_id: String::from_str(id) }
}

/// Store key of the model entity with id `id`.
pub fn model_key(id: &str) -> (k: EntityKey)
    ensures
        k@ == ("Model"@, id@),
{
    EntityKey { entity_type: String::from_str("Model"), entity_id: String::from_str(id) }
}

/// The lowercase hexadecimal digit of `n`, for `n < 16`.
pub open spec fn hex_digit(n: int) -> char {
    seq!['0', '1', '2', '3', '4', '5', '6', '7', '8', '9', 'a', 'b', 'c', 'd', 'e', 'f'][n]
}

/// Two lowercase hexadecimal digits per byte, most significant first.
pub open spec fn hex_of(b: Seq<u8>) -> Seq<char>
    decreases b.len(),
{
    if b.len() == 0 {
        Seq::empty()
    } else {
        hex_of(b.drop_last()) + seq![hex_digit(b.last() as int / 16), hex_digit(b.last() as int % 16)]
    }
}

/// The display form of a byte string: `0x` followed by its hex digits.
pub open spec fn bytes_display(b: Seq<u8>) -> Seq<char> {
    seq!['0', 'x'] + hex_of(b)
}

proof fn lemma_hex_len(b: Seq<u8>)
    ensures
        hex_of(b).len() == 2 * b.len(),
    decreases b.len(),
{
    if b.len() > 0 {
        lemma_hex_len(b.drop_last());
    }
}

proof fn lemma_hex_digit_injective(n: int, m: int)
    requires
        0 <= n < 16,
        0 <= m < 16,
        hex_digit(n) == hex_digit(m),
    ensures
        n == m,
{
}

proof fn lemma_hex_injective(a: Seq<u8>, b: Seq<u8>)
    requires
        hex_of(a) == hex_of(b),
    ensures
        a == b,
    decreases a.len(),
{
    lemma_hex_len(a);
    lemma_hex_len(b);
    if a.len() > 0 {
        let (ha, hb) = (hex_of(a), hex_of(b));
        let n = ha.len();
        let (x, y) = (a.last() as int, b.last() as int);
        assert(ha[n - 2] == hex_digit(x / 16));
        assert(hb[n - 2] == hex_digit(y / 16));
        assert(ha[n - 1] == hex_digit(x % 16));
        assert(hb[n - 1] == hex_digit(y % 16));
        lemma_hex_digit_injective(x / 16, y / 16);
        lemma_hex_digit_injective(x % 16, y % 16);
        assert(x == y);
        lemma_hex_len(a.drop_last());
        lemma_hex_len(b.drop_last());
        assert(ha.subrange(0, n - 2) =~= hex_of(a.drop_last()));
        assert(hb.subrange(0, n - 2) =~= hex_of(b.drop_last()));
        lemma_hex_injective(a.drop_last(), b.drop_last());
        assert(a =~= a.drop_last().push(a.last()));
        assert(b =~= b.drop_last().push(b.last()));
    } else {
        assert(a =~= b);
    }
}

/// Two jobs share a key exactly when their content hashes are equal.
pub proof fn lemma_job_key_injective(a: Seq<u8>, b: Seq<u8>)
    ensures
        bytes_display(a) == bytes_display(b) <==> a == b,
{
    if bytes_display(a) == bytes_display(b) {
        assert(hex_of(a) =~= bytes_display(a).subrange(2, bytes_display(a).len() as int));
        assert(hex_of(b) =~= bytes_display(b).subrange(2, bytes_display(b).len() as int));
        lemma_hex_injective(a, b);
    }
}

/// Store key of the inference job whose content hash is `id`; the key's id
/// is the hash in display form.
pub fn job_key(id: &Vec<u8>) -> (k: EntityKey)
    ensures
        k@ == ("InferenceJob"@, bytes_display(id@)),
{
    let digits = "0123456789abcdef";
    proof {
        reveal_strlit("0123456789abcdef");
        reveal_strlit("0x");
    }
    assert(digits@ =~= seq!['0', '1', '2', '3', '4', '5', '6', '7', '8', '9', 'a', 'b', 'c', 'd', 'e', 'f']);
    let mut r = String::from_str("0x");
    let mut i: usize = 0;
    assert(id@.take(0) =~= Seq::<u8>::empty());
    while i < id.len()
        invariant
            i <= id@.len(),
            digits@.len() == 16,
            forall|n: int| 0 <= n < 16 ==> digits@[n] == hex_digit(n),
            r@ == bytes_display(id@.take(i as int)),
        decreases id@.len() - i,
    {
        let b = id[i];
        let hi = (b / 16) as usize;
        let lo = (b % 16) as usize;
        r.append(digits.substring_char(hi, hi + 1));
        r.append(digits.substring_char(lo, lo + 1));
        proof {
            let t = id@.take(i + 1);
            assert(t.drop_last() =~= id@.take(i as int));
            assert(t.last() == b);
            assert(digits@.subrange(hi as int, hi + 1) =~= seq![hex_digit(hi as int)]);
            assert(digits@.subrange(lo as int, lo + 1) =~= seq![hex_digit(lo as int)]);
            assert(r@ =~= bytes_display(t));
        }
        i = i + 1;
    }
    assert(id@.take(id@.len() as int) =~= id@);
    EntityKey { entity_type: String::from_str("InferenceJob"), entity_id: r }
}

/// `"<namespace>:<name>"`, the id of an entity named within a namespace.
pub fn qualify(namespace: &str, name: &str) -> (r: String)
    ensures
        r@ == qualified_id(namespace@, name@),
{
    let mut r = String::from_str(namespace);
    r.append(":");
    proof {
        reveal_strlit(":");
    }
    r.append(name);
    r
}


/// A field table: field names with their types.
pub type TableView = Seq<(Seq<char>, ValueType)>;

/// The store's schema: each entity type with its field table.
pub open spec fn schema_table() -> Seq<(Seq<char>, TableView)> {
    seq![
        ("Provider"@, seq![
            ("id"@, ValueType::String),
            ("network"@, ValueType::String),
            ("stake"@, ValueType::BigInt),
            ("reputation"@, ValueType::BigDecimal),
        ]),
        ("Model"@, seq![
            ("id"@, ValueType::String),
            ("provider"@, ValueType::String),
            ("currentVersion"@, ValueType::String),
            ("params"@, ValueType::BigInt),
            ("license"@, ValueType::String),
        ]),
        ("InferenceJob"@, seq![
            ("id"@, ValueType::Bytes),
            ("model"@, ValueType::String),
            ("requester"@, ValueType::Bytes),
            ("inputHash"@, ValueType::Bytes),
            ("latency"@, ValueType::Int),
            ("cost"@, ValueType::BigInt),
            ("blockTimestamp"@, ValueType::BigInt),
        ]),
    ]
}

pub open spec fn table_view(t: Seq<(&'static str, ValueType)>) -> TableView {
    t.map_values(|f: (&'static str, ValueType)| (f.0@, f.1))
}

pub open spec fn schema_view(s: Seq<(&'static str, Vec<(&'static str, ValueType)>)>) -> Seq<(Seq<char>, TableView)> {
    s.map_values(|e: (&'static str, Vec<(&'static str, ValueType)>)| (e.0@, table_view(e.1@)))
}

/// Whether `v` is a value of type `t`.
pub open spec fn has_type(v: ValueView, t: ValueType) -> bool {
    match v {
        ValueView::Str(_) => t == ValueType::String,
        ValueView::Int(_) => t == ValueType::Int,
        ValueView::BigInt(_) => t == ValueType::BigInt,
        ValueView::BigDecimal(_) => t == ValueType::BigDecimal,
        ValueView::Bytes(_) => t == ValueType::Bytes,
    }
}

/// Whether `data` holds exactly the fields of `table`, in its order and with
/// its types.
pub open spec fn conforms(data: FieldsView, table: TableView) -> bool {
    &&& data.len() == table.len()
    &&& forall|i: int| 0 <= i < data.len() ==> data[i].0 == table[i].0 && has_type(data[i].1, table[i].1)
}

/// Whether `table` has a field `name` of the type of `v`.
pub open spec fn has_field(table: TableView, name: Seq<char>, v: ValueView) -> bool {
    exists|j: int| 0 <= j < table.len() && (#[trigger] table[j]).0 == name && has_type(v, table[j].1)
}

/// Whether every field of `data` is a field of `table`, with its type.
pub open spec fn fits(data: FieldsView, table: TableView) -> bool {
    forall|i: int| 0 <= i < data.len() ==> has_field(table, #[trigger] data[i].0, data[i].1)
}

/// The store representations of the entities hold exactly the fields that
/// the schema gives their types.
pub proof fn lemma_entities_conform(p: Provider, m: Model, j: InferenceJob)
    ensures
        conforms(provider_fields(p), schema_table()[0].1),
        conforms(model_fields(m), schema_table()[1].1),
        conforms(job_fields(j), schema_table()[2].1),
{
}

/// The store's schema, for registration with the store.
pub fn register_types() -> (r: Vec<(&'static str, Vec<(&'static str, ValueType)>)>)
    ensures
        schema_view(r@) == schema_table(),
{
    let provider = vec![
        ("id", ValueType::String),
        ("network", ValueType::String),
        ("stake", ValueType::BigInt),
        ("reputation", ValueType::BigDecimal),
    ];
    let model = vec![
        ("id", ValueType::String),
        ("provider", ValueType::String),
        ("currentVersion", ValueType::String),
        ("params", ValueType::BigInt),
        ("license", ValueType::String),
    ];
    let job = vec![
        ("id", ValueType::Bytes),
        ("model", ValueType::String),
        ("requester", ValueType::Bytes),
        ("inputHash", ValueType::Bytes),
        ("latency", ValueType::Int),
        ("cost", ValueType::BigInt),
        ("blockTimestamp", ValueType::BigInt),
    ];
    assert(table_view(provider@) =~= schema_table()[0].1);
    assert(table_view(model@) =~= schema_table()[1].1);
    assert(table_view(job@) =~= schema_table()[2].1);
    let r = vec![("Provider", provider), ("Model", model), ("InferenceJob", job)];
    assert(schema_view(r@) =~= schema_table());
    r
}

} // verus!
