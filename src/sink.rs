//! What the store makes of modifications: entity state keyed by
//! `(entity type, id)`, each entity a map from field name to value.
use vstd::prelude::*;
use crate::event::BlockPtr;
use crate::mapper::{event_mods, ModificationKind, ModificationView};
use crate::event::IngestEventView;
use crate::schema::{FieldsView, ValueView};

verus! {

/// Mathematical content of the store.
pub type StoreView = Map<(Seq<char>, Seq<char>), Map<Seq<char>, ValueView>>;

/// The fields of an entity as a map; a later field of the same name wins.
pub open spec fn fields_map(d: FieldsView) -> Map<Seq<char>, ValueView>
    decreases d.len(),
{
    if d.len() == 0 {
        Map::empty()
    } else {
        fields_map(d.drop_last()).insert(d.last().0, d.last().1)
    }
}

/// The store after applying `m`: an insert leaves an existing entity as it
/// is; an upsert or update merges the fields into the entity, creating it if
/// absent; a remove deletes it.
pub open spec fn apply(st: StoreView, m: ModificationView) -> StoreView {
    match m.kind {
        ModificationKind::Insert => if st.contains_key(m.key) {
            st
        } else {
            st.insert(m.key, fields_map(m.data))
        },
        ModificationKind::Upsert | ModificationKind::Update => st.insert(
            m.key,
            if st.contains_key(m.key) {
                st[m.key].union_prefer_right(fields_map(m.data))
            } else {
                fields_map(m.data)
            },
        ),
        ModificationKind::Remove => st.remove(m.key),
    }
}

/// The store after applying `ms` in order.
pub open spec fn apply_all(st: StoreView, ms: Seq<ModificationView>) -> StoreView
    decreases ms.len(),
{
    if ms.len() == 0 {
        st
    } else {
        apply(apply_all(st, ms.drop_last()), ms.last())
    }
}

/// Applying one modification twice leaves the store as applying it once.
pub proof fn lemma_apply_idempotent(st: StoreView, m: ModificationView)
    ensures
        apply(apply(st, m), m) == apply(st, m),
{
    let once = apply(st, m);
    match m.kind {
        ModificationKind::Upsert | ModificationKind::Update => {
            let f = fields_map(m.data);
            assert(once[m.key].union_prefer_right(f) =~= once[m.key]);
            assert(apply(once, m) =~= once);
        },
        ModificationKind::Remove => {
            assert(apply(once, m) =~= once);
        },
        ModificationKind::Insert => {},
    }
}

proof fn lemma_apply_all_single(st: StoreView, ms: Seq<ModificationView>)
    requires
        ms.len() == 1,
    ensures
        apply_all(st, ms) == apply(st, ms[0]),
{
    let prev = ms.drop_last();
    assert(prev =~= Seq::<ModificationView>::empty());
    assert(apply_all(st, prev) == st);
}

/// Replaying an event at its position through the store
/// a second time leaves the same entities, with the same fields, as
/// applying it once.
pub proof fn lemma_replay_idempotent(st: StoreView, e: IngestEventView, pos: BlockPtr, model: Seq<char>)
    ensures
        match event_mods(e, pos, model) {
            Ok(ms) => apply_all(apply_all(st, ms), ms) == apply_all(st, ms),
            Err(_) => true,
        },
{
    if let Ok(ms) = event_mods(e, pos, model) {
        lemma_apply_all_single(st, ms);
        lemma_apply_all_single(apply(st, ms[0]), ms);
        lemma_apply_idempotent(st, ms[0]);
    }
}

} // verus!
