//! The client replication manager: buffers incoming messages, then applies
//! them to the local store once per tick in a fixed order — spawns, then
//! added components, then updates — matching the server's emission order so
//! components exist before their updates are applied.
//!
//! Classification of one received message into the pending buffer is a pure
//! step (`Pending::process_incoming`); the embedding application owns the
//! receive loop, its locking and its yielding, and hands each message in as
//! a plain value.

use crate::id_map::IdMap;
use crate::id_map::spec_contains;
use crate::id_map::spec_find;
use crate::id_map::spec_get;
use crate::id_map::spec_insert;
use crate::id_map::spec_remove;
use crate::id_map::spec_unique_keys;
use crate::replication::AddedComponentData;
use crate::replication::AddedComponentDataView;
use crate::replication::ComponentType;
use crate::replication::Id;
use crate::replication::Message;
use crate::replication::MobType;
use crate::replication::Replicated;
use crate::replication::SpawnData;
use crate::replication::SpawnDataView;
use crate::replication::SpawnId;
use crate::replication::UpdateData;
use crate::replication::component_factory;
use crate::replication::component_factory::spec_construct_component;
use crate::replication::mob_factory;
use crate::replication::mob_factory::MobConstructor;
use crate::replication::mob_factory::spec_constructed_tag;
use crate::store::Entity;
use crate::store::MobView;
use crate::store::ReplicatedComponent;
use crate::store::World;
use crate::store::WorldView;
use crate::store::spec_find_mob;
use vstd::prelude::*;

verus! {

/// One callback fired during an apply pass, in firing order.
#[derive(Clone, Copy, PartialEq, Eq, Structural, Debug)]
pub enum CallbackEvent {
    Spawned { entity: Entity, spawn_id: SpawnId, mob_type: MobType },
    ComponentAdded {
        entity: Entity,
        spawn_id: SpawnId,
        component_type: ComponentType,
        replicated_id: Id,
    },
    ComponentUpdated { entity: Entity, spawn_id: SpawnId, replicated_id: Id },
}

/// Callbacks the embedder receives synchronously during an apply pass.  A
/// no-op default is provided by [`NoopUpdateCallbacks`].
pub trait UpdateCallbacks {
    fn on_component_updated(&mut self, entity: Entity, spawn_id: SpawnId, replicated_id: Id);

    fn on_spawn(&mut self, entity: Entity, spawn_id: SpawnId, mob_type: MobType);

    fn on_component_added(
        &mut self,
        entity: Entity,
        spawn_id: SpawnId,
        component_type: ComponentType,
        replicated_id: Id,
    );
}

/// The do-nothing callback implementation.
pub struct NoopUpdateCallbacks;

impl UpdateCallbacks for NoopUpdateCallbacks {
    fn on_component_updated(&mut self, _entity: Entity, _spawn_id: SpawnId, _replicated_id: Id) {
    }

    fn on_spawn(&mut self, _entity: Entity, _spawn_id: SpawnId, _mob_type: MobType) {
    }

    fn on_component_added(
        &mut self,
        _entity: Entity,
        _spawn_id: SpawnId,
        _component_type: ComponentType,
        _replicated_id: Id,
    ) {
    }
}

/// The shared pending buffer the receive pump fills and the apply pass
/// drains.
pub struct Pending {
    /// Unapplied updates, keyed by component id; a newer update for the
    /// same id replaces any unapplied previous one, since updates are
    /// full-value snapshots.
    updates: IdMap<UpdateData>,
    /// Queued spawns, first in first out, never overwritten.
    spawns: Vec<SpawnData>,
    /// Queued component additions, grouped per spawn id, first in first
    /// out; retained even while the referenced object's spawn is itself
    /// still queued.
    added_component: IdMap<Vec<AddedComponentData>>,
}

/// The view of one queued addition group.
pub open spec fn spec_group_views(q: Vec<AddedComponentData>) -> Seq<AddedComponentDataView> {
    q@.map_values(|a: AddedComponentData| a@)
}

impl Pending {
    pub closed spec fn spec_updates(&self) -> Seq<(u32, UpdateData)> {
        self.updates@
    }

    pub closed spec fn spec_spawns(&self) -> Seq<SpawnDataView> {
        self.spawns@.map_values(|s: SpawnData| s@)
    }

    pub closed spec fn spec_added(&self) -> Seq<(u32, Seq<AddedComponentDataView>)> {
        self.added_component@.map_values(
            |e: (u32, Vec<AddedComponentData>)| (e.0, spec_group_views(e.1)),
        )
    }

    /// Both keyed buffers have unique keys.
    pub closed spec fn wf(&self) -> bool {
        &&& self.updates.wf()
        &&& self.added_component.wf()
    }

    pub fn new() -> (r: Pending)
        ensures
            r.wf(),
            r.spec_updates() == Seq::<(u32, UpdateData)>::empty(),
            r.spec_spawns() == Seq::<SpawnDataView>::empty(),
            r.spec_added() == Seq::<(u32, Seq<AddedComponentDataView>)>::empty(),
    {
        let r = Pending {
            updates: IdMap::new(),
            spawns: Vec::new(),
            added_component: IdMap::new(),
        };
        proof {
            assert(r.spec_spawns() =~= Seq::<SpawnDataView>::empty());
            assert(r.spec_added() =~= Seq::<(u32, Seq<AddedComponentDataView>)>::empty());
        }
        r
    }

    /// Number of spawns waiting in the buffer.
    pub fn num_spawns(&self) -> (r: usize)
        ensures
            r == self.spec_spawns().len(),
    {
        self.spawns.len()
    }

    /// Classifies one received message into the buffer: an update replaces
    /// any unapplied update for the same component id (last write wins), a
    /// spawn is appended to the spawn queue, and a component addition is
    /// appended to its spawn id's group.
    pub fn process_incoming(&mut self, message: Message)
        requires
            old(self).wf(),
        ensures
            final(self).wf(),
            match message {
                Message::Update(u) => {
                    &&& final(self).spec_updates() == spec_insert(
                        old(self).spec_updates(),
                        u.id.0,
                        u,
                    )
                    &&& final(self).spec_spawns() == old(self).spec_spawns()
                    &&& final(self).spec_added() == old(self).spec_added()
                },
                Message::Spawn(s) => {
                    &&& final(self).spec_updates() == old(self).spec_updates()
                    &&& final(self).spec_spawns() == old(self).spec_spawns().push(s@)
                    &&& final(self).spec_added() == old(self).spec_added()
                },
                Message::AddComponent(a) => {
                    &&& final(self).spec_updates() == old(self).spec_updates()
                    &&& final(self).spec_spawns() == old(self).spec_spawns()
                    &&& final(self).spec_added() == (match spec_find(
                        old(self).spec_added(),
                        a.spawn_id.0,
                    ) {
                        Some(i) => old(self).spec_added().update(
                            i,
                            (a.spawn_id.0, old(self).spec_added()[i].1.push(a@)),
                        ),
                        None => old(self).spec_added().push((a.spawn_id.0, seq![a@])),
                    })
                },
            },
    {
        match message {
            Message::Update(u) => {
                let key = u.id.0;
                self.updates.insert(key, u);
            },
            Message::Spawn(s) => {
                self.spawns.push(s);
                proof {
                    assert(self.spec_spawns() =~= old(self).spec_spawns().push(s@));
                }
            },
            Message::AddComponent(a) => {
                let ghost av = a;
                let key = a.spawn_id.0;
                proof {
                    crate::id_map::lemma_find_preserved(
                        old(self).added_component@,
                        old(self).spec_added(),
                        key,
                    );
                }
                match self.added_component.get_mut(key) {
                    Some(q) => {
                        q.push(a);
                    },
                    None => {
                        let mut q: Vec<AddedComponentData> = Vec::new();
                        q.push(a);
                        self.added_component.insert(key, q);
                    },
                }
                proof {
                    let raw0 = old(self).added_component@;
                    let m0 = old(self).spec_added();
                    crate::id_map::lemma_find_characterization(raw0, key);
                    match spec_find(raw0, key) {
                        Some(i) => {
                            assert(self.added_component@[i].1@ == raw0[i].1@.push(av));
                            assert(spec_group_views(self.added_component@[i].1)
                                =~= spec_group_views(raw0[i].1).push(av@));
                            assert(self.spec_added() =~~= m0.update(
                                i,
                                (key, m0[i].1.push(av@)),
                            ));
                        },
                        None => {
                            assert(spec_group_views(
                                self.added_component@[self.added_component@.len() - 1].1,
                            ) =~= seq![av@]);
                            assert(self.spec_added() =~~= m0.push((key, seq![av@])));
                        },
                    }
                }
            },
        }
    }
}

/// Applies the buffered updates to every component of the mob at position
/// `mi`, in component order: a component whose id has a buffered update
/// consumes it; on a successful replicate the updated callback fires where
/// a spawn id is known for the entity.
fn apply_updates_for_mob<C: UpdateCallbacks>(
    world: &mut World,
    mi: usize,
    m_entity: Entity,
    sid_opt: Option<u32>,
    pending: &mut Pending,
    events: &mut Vec<CallbackEvent>,
    callbacks: &mut C,
)
    requires
        old(world)@.wf(),
        mi < old(world)@.mobs.len(),
        old(world)@.mobs[mi as int].entity == m_entity.0,
        old(pending).wf(),
    ensures
        final(world)@.wf(),
        final(pending).wf(),
        ({
            let inner = spec_apply_component_updates(
                old(world)@.mobs[mi as int].components,
                m_entity.0,
                sid_opt,
                old(pending).spec_updates(),
                old(events)@,
            );
            &&& final(world)@.mobs == old(world)@.mobs.update(
                mi as int,
                MobView {
                    entity: m_entity.0,
                    mob_type: old(world)@.mobs[mi as int].mob_type,
                    components: inner.0,
                },
            )
            &&& final(pending).spec_updates() == inner.1
            &&& final(events)@ == inner.2
        }),
        final(world)@.next_entity == old(world)@.next_entity,
        final(world)@.mobs.len() == old(world)@.mobs.len(),
        final(pending).spec_spawns() == old(pending).spec_spawns(),
        final(pending).spec_added() == old(pending).spec_added(),
{
    let ghost cs0 = old(world)@.mobs[mi as int].components;
    let ghost mt = old(world)@.mobs[mi as int].mob_type;
    let ghost upd_in = old(pending).spec_updates();
    let ghost ev_in = old(events)@;
    proof {
        let r0 = spec_apply_component_updates(cs0.take(0), m_entity.0, sid_opt, upd_in, ev_in);
        assert(cs0.take(0) =~= Seq::<ReplicatedComponent>::empty());
        assert(r0.0 + cs0.skip(0) =~= cs0);
        assert(world@.mobs =~~= old(world)@.mobs.update(
            mi as int,
            MobView { entity: m_entity.0, mob_type: mt, components: r0.0 + cs0.skip(0) },
        ));
    }
    let mut cj: usize = 0;
    while cj < world.mob_at(mi).components.len()
        invariant
            cj <= cs0.len(),
            mi < world@.mobs.len(),
            world@.mobs.len() == old(world)@.mobs.len(),
            world@.mobs[mi as int].components.len() == cs0.len(),
            world@.wf(),
            world@.next_entity == old(world)@.next_entity,
            pending.wf(),
            pending.spec_spawns() == old(pending).spec_spawns(),
            pending.spec_added() == old(pending).spec_added(),
            ({
                let r = spec_apply_component_updates(
                    cs0.take(cj as int),
                    m_entity.0,
                    sid_opt,
                    upd_in,
                    ev_in,
                );
                &&& world@.mobs == old(world)@.mobs.update(
                    mi as int,
                    MobView {
                        entity: m_entity.0,
                        mob_type: mt,
                        components: r.0 + cs0.skip(cj as int),
                    },
                )
                &&& pending.spec_updates() == r.1
                &&& events@ == r.2
            }),
        decreases cs0.len() - cj,
    {
        proof {
            lemma_apply_component_updates_len(
                cs0.take(cj as int),
                m_entity.0,
                sid_opt,
                upd_in,
                ev_in,
            );
            assert(world@.mobs[mi as int].components[cj as int] == cs0[cj as int]);
        }
        let cid = world.mob_at(mi).components[cj].id();
        let ghost rpre = spec_apply_component_updates(
            cs0.take(cj as int),
            m_entity.0,
            sid_opt,
            upd_in,
            ev_in,
        );
        match pending.updates.remove(cid.0) {
            Some(u) => {
                match world.replicate_component_at(mi, cj, &u.data) {
                    Ok(_) => {
                        match sid_opt {
                            Some(sid) => {
                                events.push(
                                    CallbackEvent::ComponentUpdated {
                                        entity: m_entity,
                                        spawn_id: SpawnId(sid),
                                        replicated_id: cid,
                                    },
                                );
                                callbacks.on_component_updated(m_entity, SpawnId(sid), cid);
                            },
                            None => {},
                        }
                    },
                    Err(_) => {},
                }
            },
            None => {},
        }
        proof {
            assert(cs0.take(cj as int + 1).drop_last() =~= cs0.take(cj as int));
            assert(cs0.take(cj as int + 1).last() == cs0[cj as int]);
            let rpost = spec_apply_component_updates(
                cs0.take(cj as int + 1),
                m_entity.0,
                sid_opt,
                upd_in,
                ev_in,
            );
            lemma_apply_component_updates_len(
                cs0.take(cj as int + 1),
                m_entity.0,
                sid_opt,
                upd_in,
                ev_in,
            );
            assert(world@.mobs[mi as int].components =~= rpost.0 + cs0.skip(cj as int + 1));
            assert(world@.mobs =~~= old(world)@.mobs.update(
                mi as int,
                MobView {
                    entity: m_entity.0,
                    mob_type: mt,
                    components: rpost.0 + cs0.skip(cj as int + 1),
                },
            ));
        }
        cj = cj + 1;
    }
    proof {
        assert(cs0.take(cs0.len() as int) =~= cs0);
        let rfin = spec_apply_component_updates(cs0, m_entity.0, sid_opt, upd_in, ev_in);
        lemma_apply_component_updates_len(cs0, m_entity.0, sid_opt, upd_in, ev_in);
        assert(rfin.0 + cs0.skip(cs0.len() as int) =~= rfin.0);
        assert(world@.mobs =~~= old(world)@.mobs.update(
            mi as int,
            MobView { entity: m_entity.0, mob_type: mt, components: rfin.0 },
        ));
    }
}

/// Ghost state threaded through the spawn pass: the store, both directions
/// of the spawn-id registry, and the callbacks fired so far.
#[verifier::ext_equal]
pub struct ApplyState {
    pub world: WorldView,
    pub spawn_id_lookup: Seq<(u32, u32)>,
    pub entity_lookup: Seq<(u32, u32)>,
    pub events: Seq<CallbackEvent>,
}

/// One buffered spawn applied: a bare mob is built by the registered
/// constructor, the spawn-id registry learns the mapping in both
/// directions, and the spawn callback fires.  A spawn whose mob type has no
/// registered constructor is dropped.
pub open spec fn spec_apply_spawn(
    st: ApplyState,
    s: SpawnDataView,
    mf: Seq<(u32, MobConstructor)>,
) -> ApplyState {
    match spec_get(mf, s.mob_type) {
        Some(c) => {
            let e = st.world.next_entity;
            ApplyState {
                world: WorldView {
                    mobs: st.world.mobs.push(
                        MobView {
                            entity: e,
                            mob_type: spec_constructed_tag(c),
                            components: Seq::empty(),
                        },
                    ),
                    next_entity: (e + 1) as u32,
                },
                spawn_id_lookup: spec_insert(st.spawn_id_lookup, e, s.spawn_id),
                entity_lookup: spec_insert(st.entity_lookup, s.spawn_id, e),
                events: st.events.push(
                    CallbackEvent::Spawned {
                        entity: Entity(e),
                        spawn_id: SpawnId(s.spawn_id),
                        mob_type: MobType(s.mob_type),
                    },
                ),
            }
        },
        None => st,
    }
}

/// The buffered spawns applied first to last.
pub open spec fn spec_apply_spawns(
    st: ApplyState,
    ss: Seq<SpawnDataView>,
    mf: Seq<(u32, MobConstructor)>,
) -> ApplyState
    decreases ss.len(),
{
    if ss.len() == 0 {
        st
    } else {
        spec_apply_spawn(spec_apply_spawns(st, ss.drop_last(), mf), ss.last(), mf)
    }
}

/// The store with `comp` attached to the mob at position `i`.
pub open spec fn spec_attach(w: WorldView, i: int, comp: ReplicatedComponent) -> WorldView {
    WorldView {
        mobs: w.mobs.update(
            i,
            MobView {
                entity: w.mobs[i].entity,
                mob_type: w.mobs[i].mob_type,
                components: w.mobs[i].components.push(comp),
            },
        ),
        next_entity: w.next_entity,
    }
}

/// One buffered component addition applied to the resolved entity `e`: the
/// registered constructor builds the component from the payload and it is
/// attached; the added callback fires.  An unregistered type, a malformed
/// payload, or a missing mob drops the addition.
pub open spec fn spec_apply_one_add(
    w: WorldView,
    ev: Seq<CallbackEvent>,
    e: u32,
    sid: u32,
    a: AddedComponentDataView,
    cf: Seq<(u32, component_factory::ComponentConstructor)>,
) -> (WorldView, Seq<CallbackEvent>) {
    match spec_get(cf, a.component_type) {
        Some(c) => match spec_construct_component(c, a.replicated_id, a.data) {
            Some(comp) => match spec_find_mob(w.mobs, e) {
                Some(i) => (
                    spec_attach(w, i, comp),
                    ev.push(
                        CallbackEvent::ComponentAdded {
                            entity: Entity(e),
                            spawn_id: SpawnId(sid),
                            component_type: ComponentType(a.component_type),
                            replicated_id: Id(a.replicated_id),
                        },
                    ),
                ),
                None => (w, ev),
            },
            None => (w, ev),
        },
        None => (w, ev),
    }
}

/// One group of buffered additions applied first to last.
pub open spec fn spec_apply_group_adds(
    w: WorldView,
    ev: Seq<CallbackEvent>,
    e: u32,
    sid: u32,
    adds: Seq<AddedComponentDataView>,
    cf: Seq<(u32, component_factory::ComponentConstructor)>,
) -> (WorldView, Seq<CallbackEvent>)
    decreases adds.len(),
{
    if adds.len() == 0 {
        (w, ev)
    } else {
        let r = spec_apply_group_adds(w, ev, e, sid, adds.drop_last(), cf);
        spec_apply_one_add(r.0, r.1, e, sid, adds.last(), cf)
    }
}

/// All buffered addition groups applied in buffer order.  A group whose
/// spawn id resolves to no local entity is dropped whole: its additions
/// create no object and change no other state.
pub open spec fn spec_apply_adds(
    w: WorldView,
    ev: Seq<CallbackEvent>,
    groups: Seq<(u32, Seq<AddedComponentDataView>)>,
    el: Seq<(u32, u32)>,
    cf: Seq<(u32, component_factory::ComponentConstructor)>,
) -> (WorldView, Seq<CallbackEvent>)
    decreases groups.len(),
{
    if groups.len() == 0 {
        (w, ev)
    } else {
        let r = spec_apply_adds(w, ev, groups.drop_last(), el, cf);
        let g = groups.last();
        match spec_get(el, g.0) {
            Some(e) => spec_apply_group_adds(r.0, r.1, e, g.0, g.1, cf),
            None => r,
        }
    }
}

/// The buffered updates applied to one component list, first to last: a
/// component whose id has a buffered update consumes it and takes the
/// decoded replicated fields; the updated callback fires where the entity
/// has a known spawn id.  A malformed payload leaves the component
/// unchanged, the update still consumed.
pub open spec fn spec_apply_component_updates(
    cs: Seq<ReplicatedComponent>,
    e: u32,
    sid_opt: Option<u32>,
    upd: Seq<(u32, UpdateData)>,
    ev: Seq<CallbackEvent>,
) -> (Seq<ReplicatedComponent>, Seq<(u32, UpdateData)>, Seq<CallbackEvent>)
    decreases cs.len(),
{
    if cs.len() == 0 {
        (cs, upd, ev)
    } else {
        let r = spec_apply_component_updates(cs.drop_last(), e, sid_opt, upd, ev);
        let c = cs.last();
        match spec_get(r.1, c.repl_id()) {
            Some(u) => {
                let upd2 = spec_remove(r.1, c.repl_id());
                match c.repl_dec(u.data@) {
                    Some((c2, n)) => (
                        r.0.push(c2),
                        upd2,
                        match sid_opt {
                            Some(sid) => r.2.push(
                                CallbackEvent::ComponentUpdated {
                                    entity: Entity(e),
                                    spawn_id: SpawnId(sid),
                                    replicated_id: Id(c.repl_id()),
                                },
                            ),
                            None => r.2,
                        },
                    ),
                    None => (r.0.push(c), upd2, r.2),
                }
            },
            None => (r.0.push(c), r.1, r.2),
        }
    }
}

/// The buffered updates applied across the whole store, mob by mob in store
/// order.
pub open spec fn spec_apply_mob_updates(
    mobs: Seq<MobView>,
    sl: Seq<(u32, u32)>,
    upd: Seq<(u32, UpdateData)>,
    ev: Seq<CallbackEvent>,
) -> (Seq<MobView>, Seq<(u32, UpdateData)>, Seq<CallbackEvent>)
    decreases mobs.len(),
{
    if mobs.len() == 0 {
        (mobs, upd, ev)
    } else {
        let r = spec_apply_mob_updates(mobs.drop_last(), sl, upd, ev);
        let m = mobs.last();
        let inner = spec_apply_component_updates(
            m.components,
            m.entity,
            spec_get(sl, m.entity),
            r.1,
            r.2,
        );
        (
            r.0.push(MobView { entity: m.entity, mob_type: m.mob_type, components: inner.0 }),
            inner.1,
            inner.2,
        )
    }
}

/// Applying updates preserves the number of components.
proof fn lemma_apply_component_updates_len(
    cs: Seq<ReplicatedComponent>,
    e: u32,
    sid_opt: Option<u32>,
    upd: Seq<(u32, UpdateData)>,
    ev: Seq<CallbackEvent>,
)
    ensures
        spec_apply_component_updates(cs, e, sid_opt, upd, ev).0.len() == cs.len(),
    decreases cs.len(),
{
    if cs.len() > 0 {
        lemma_apply_component_updates_len(cs.drop_last(), e, sid_opt, upd, ev);
    }
}

/// Applying updates preserves the number of mobs.
proof fn lemma_apply_mob_updates_len(
    mobs: Seq<MobView>,
    sl: Seq<(u32, u32)>,
    upd: Seq<(u32, UpdateData)>,
    ev: Seq<CallbackEvent>,
)
    ensures
        spec_apply_mob_updates(mobs, sl, upd, ev).0.len() == mobs.len(),
    decreases mobs.len(),
{
    if mobs.len() > 0 {
        lemma_apply_mob_updates_len(mobs.drop_last(), sl, upd, ev);
    }
}

/// The client replication manager: applies the pending buffer to the local
/// store once per tick, and keeps the bidirectional registry between local
/// entity handles and network-wide spawn ids.
pub struct Manager {
    mob_factory: mob_factory::Factory,
    component_factory: component_factory::Factory,
    spawn_id_lookup: IdMap<u32>,
    entity_lookup: IdMap<u32>,
}

impl Manager {
    pub closed spec fn spec_mob_factory(&self) -> Seq<(u32, MobConstructor)> {
        self.mob_factory@
    }

    pub closed spec fn spec_component_factory(&self) -> Seq<
        (u32, component_factory::ComponentConstructor),
    > {
        self.component_factory@
    }

    /// Map from local entity handle to spawn id.
    pub closed spec fn spec_spawn_id_lookup(&self) -> Seq<(u32, u32)> {
        self.spawn_id_lookup@
    }

    /// Map from spawn id to local entity handle.
    pub closed spec fn spec_entity_lookup(&self) -> Seq<(u32, u32)> {
        self.entity_lookup@
    }

    /// Both registries and both factories are keyed uniquely.
    pub closed spec fn wf(&self) -> bool {
        &&& self.mob_factory.wf()
        &&& self.component_factory.wf()
        &&& self.spawn_id_lookup.wf()
        &&& self.entity_lookup.wf()
    }

    /// Builds the manager around its factories, paired with the empty
    /// pending buffer its receive pump will fill.
    pub fn new(
        mob_factory: mob_factory::Factory,
        component_factory: component_factory::Factory,
    ) -> (r: (Manager, Pending))
        requires
            mob_factory.wf(),
            component_factory.wf(),
        ensures
            r.0.wf(),
            r.1.wf(),
            r.0.spec_mob_factory() == mob_factory@,
            r.0.spec_component_factory() == component_factory@,
            r.0.spec_spawn_id_lookup() == Seq::<(u32, u32)>::empty(),
            r.0.spec_entity_lookup() == Seq::<(u32, u32)>::empty(),
            r.1.spec_updates() == Seq::<(u32, UpdateData)>::empty(),
            r.1.spec_spawns() == Seq::<SpawnDataView>::empty(),
            r.1.spec_added() == Seq::<(u32, Seq<AddedComponentDataView>)>::empty(),
    {
        let manager = Manager {
            mob_factory,
            component_factory,
            spawn_id_lookup: IdMap::new(),
            entity_lookup: IdMap::new(),
        };
        (manager, Pending::new())
    }

    /// The per-tick apply pass, in the fixed order matching the server's
    /// emission order: queued spawns are drained first, then queued
    /// component additions grouped by spawn id, then buffered updates — so
    /// components exist before their updates are applied.  Returns the
    /// callbacks fired, in order; each was also invoked on `callbacks` as
    /// it happened.
    pub fn update_world<C: UpdateCallbacks>(
        &mut self,
        pending: &mut Pending,
        world: &mut World,
        callbacks: &mut C,
    ) -> (events: Vec<CallbackEvent>)
        requires
            old(self).wf(),
            old(pending).wf(),
            old(world)@.wf(),
            old(world)@.next_entity + old(pending).spec_spawns().len() <= u32::MAX,
        ensures
            final(self).wf(),
            final(pending).wf(),
            final(world)@.wf(),
            ({
                let st0 = ApplyState {
                    world: old(world)@,
                    spawn_id_lookup: old(self).spec_spawn_id_lookup(),
                    entity_lookup: old(self).spec_entity_lookup(),
                    events: Seq::empty(),
                };
                let st1 = spec_apply_spawns(
                    st0,
                    old(pending).spec_spawns(),
                    old(self).spec_mob_factory(),
                );
                let r2 = spec_apply_adds(
                    st1.world,
                    st1.events,
                    old(pending).spec_added(),
                    st1.entity_lookup,
                    old(self).spec_component_factory(),
                );
                let r3 = spec_apply_mob_updates(
                    r2.0.mobs,
                    st1.spawn_id_lookup,
                    old(pending).spec_updates(),
                    r2.1,
                );
                &&& final(world)@ == (WorldView { mobs: r3.0, next_entity: r2.0.next_entity })
                &&& final(self).spec_spawn_id_lookup() == st1.spawn_id_lookup
                &&& final(self).spec_entity_lookup() == st1.entity_lookup
                &&& events@ == r3.2
                &&& final(pending).spec_updates() == r3.1
            }),
            final(pending).spec_spawns() == Seq::<SpawnDataView>::empty(),
            final(pending).spec_added() == Seq::<(u32, Seq<AddedComponentDataView>)>::empty(),
            final(self).spec_mob_factory() == old(self).spec_mob_factory(),
            final(self).spec_component_factory() == old(self).spec_component_factory(),
    {
        let mut events: Vec<CallbackEvent> = Vec::new();
        let ghost st0 = ApplyState {
            world: old(world)@,
            spawn_id_lookup: old(self).spec_spawn_id_lookup(),
            entity_lookup: old(self).spec_entity_lookup(),
            events: Seq::empty(),
        };
        let ghost ss = old(pending).spec_spawns();
        let ghost mf = old(self).spec_mob_factory();

        // Pass one: drain queued spawns.
        let mut si: usize = 0;
        while si < pending.spawns.len()
            invariant
                si <= ss.len(),
                pending.spawns@.map_values(|s: SpawnData| s@) == ss,
                pending.spawns@.len() == ss.len(),
                pending.wf(),
                pending.spec_updates() == old(pending).spec_updates(),
                pending.spec_added() == old(pending).spec_added(),
                self.wf(),
                self.spec_mob_factory() == mf,
                self.spec_component_factory() == old(self).spec_component_factory(),
                world@.wf(),
                ({
                    let st = spec_apply_spawns(st0, ss.take(si as int), mf);
                    &&& world@ == st.world
                    &&& self.spec_spawn_id_lookup() == st.spawn_id_lookup
                    &&& self.spec_entity_lookup() == st.entity_lookup
                    &&& events@ == st.events
                }),
                world@.next_entity <= old(world)@.next_entity + si,
                old(world)@.next_entity + ss.len() <= u32::MAX,
            decreases ss.len() - si,
        {
            let s_mob_type = pending.spawns[si].mob_type;
            let s_spawn_id = pending.spawns[si].spawn_id;
            proof {
                assert(ss[si as int] == pending.spawns@[si as int]@);
                assert(world@.next_entity < u32::MAX);
            }
            match self.mob_factory.construct(world, s_mob_type) {
                Ok(entity) => {
                    self.spawn_id_lookup.insert(entity.0, s_spawn_id.0);
                    self.entity_lookup.insert(s_spawn_id.0, entity.0);
                    events.push(
                        CallbackEvent::Spawned {
                            entity,
                            spawn_id: s_spawn_id,
                            mob_type: s_mob_type,
                        },
                    );
                    callbacks.on_spawn(entity, s_spawn_id, s_mob_type);
                },
                Err(_) => {},
            }
            proof {
                assert(ss.take(si as int + 1).drop_last() =~= ss.take(si as int));
                assert(ss.take(si as int + 1).last() == ss[si as int]);
            }
            si = si + 1;
        }
        proof {
            assert(ss.take(ss.len() as int) =~= ss);
        }
        pending.spawns.clear();
        proof {
            assert(pending.spec_spawns() =~= Seq::<SpawnDataView>::empty());
        }

        // Pass two: drain queued component additions, grouped by spawn id.
        let ghost st1 = spec_apply_spawns(st0, ss, mf);
        let ghost groups = old(pending).spec_added();
        let ghost cf = old(self).spec_component_factory();
        let ghost el1 = st1.entity_lookup;
        let ghost ev1 = st1.events;
        let ghost w1 = st1.world;
        let mut gi: usize = 0;
        while gi < pending.added_component.len()
            invariant
                gi <= groups.len(),
                pending.added_component@.len() == groups.len(),
                pending.spec_added() == groups,
                pending.wf(),
                pending.spec_updates() == old(pending).spec_updates(),
                pending.spec_spawns() == Seq::<SpawnDataView>::empty(),
                self.wf(),
                self.spec_mob_factory() == mf,
                self.spec_component_factory() == cf,
                self.spec_spawn_id_lookup() == st1.spawn_id_lookup,
                self.spec_entity_lookup() == el1,
                world@.wf(),
                ({
                    let r = spec_apply_adds(w1, ev1, groups.take(gi as int), el1, cf);
                    &&& world@ == r.0
                    &&& events@ == r.1
                }),
            decreases groups.len() - gi,
        {
            let sid = pending.added_component.key_at(gi);
            proof {
                assert(groups[gi as int] == (
                    pending.added_component@[gi as int].0,
                    spec_group_views(pending.added_component@[gi as int].1),
                ));
            }
            let resolved: Option<u32> = match self.entity_lookup.get(sid) {
                Some(e) => Some(*e),
                None => None,
            };
            match resolved {
                Some(e_raw) => {
                    let entity = Entity(e_raw);
                    let group = pending.added_component.value_at(gi);
                    let ghost gviews = groups[gi as int].1;
                    let ghost wg = spec_apply_adds(w1, ev1, groups.take(gi as int), el1, cf);
                    let mut ai: usize = 0;
                    while ai < group.len()
                        invariant
                            ai <= gviews.len(),
                            entity.0 == e_raw,
                            group@.map_values(|x: AddedComponentData| x@) == gviews,
                            group@.len() == gviews.len(),
                            self.wf(),
                            self.spec_component_factory() == cf,
                            world@.wf(),
                            ({
                                let r = spec_apply_group_adds(
                                    wg.0,
                                    wg.1,
                                    e_raw,
                                    sid,
                                    gviews.take(ai as int),
                                    cf,
                                );
                                &&& world@ == r.0
                                &&& events@ == r.1
                            }),
                        decreases gviews.len() - ai,
                    {
                        let item_ct = group[ai].component_type;
                        let item_rid = group[ai].replicated_id;
                        let ghost rpre = spec_apply_group_adds(
                            wg.0,
                            wg.1,
                            e_raw,
                            sid,
                            gviews.take(ai as int),
                            cf,
                        );
                        proof {
                            assert(gviews[ai as int] == group@[ai as int]@);
                        }
                        match self.component_factory.add_component(
                            world,
                            entity,
                            item_ct,
                            item_rid,
                            &group[ai].data,
                        ) {
                            Ok(_) => {
                                events.push(
                                    CallbackEvent::ComponentAdded {
                                        entity,
                                        spawn_id: SpawnId(sid),
                                        component_type: item_ct,
                                        replicated_id: item_rid,
                                    },
                                );
                                callbacks.on_component_added(
                                    entity,
                                    SpawnId(sid),
                                    item_ct,
                                    item_rid,
                                );
                            },
                            Err(_) => {},
                        }
                        proof {
                            assert(gviews.take(ai as int + 1).drop_last() =~= gviews.take(
                                ai as int,
                            ));
                            assert(gviews.take(ai as int + 1).last() == gviews[ai as int]);
                            let rpost = spec_apply_group_adds(
                                wg.0,
                                wg.1,
                                e_raw,
                                sid,
                                gviews.take(ai as int + 1),
                                cf,
                            );
                            assert(rpost == spec_apply_one_add(
                                rpre.0,
                                rpre.1,
                                e_raw,
                                sid,
                                gviews[ai as int],
                                cf,
                            ));
                            assert(world@ =~~= rpost.0);
                            assert(events@ =~= rpost.1);
                        }
                        ai = ai + 1;
                    }
                    proof {
                        assert(gviews.take(gviews.len() as int) =~= gviews);
                    }
                },
                None => {},
            }
            proof {
                assert(groups.take(gi as int + 1).drop_last() =~= groups.take(gi as int));
                assert(groups.take(gi as int + 1).last() == groups[gi as int]);
            }
            gi = gi + 1;
        }
        proof {
            assert(groups.take(groups.len() as int) =~= groups);
        }
        pending.added_component.clear();
        proof {
            assert(pending.spec_added() =~= Seq::<(u32, Seq<AddedComponentDataView>)>::empty());
        }

        // Pass three: apply buffered updates across the store.
        let ghost r2 = spec_apply_adds(w1, ev1, groups, el1, cf);
        let ghost sl1 = st1.spawn_id_lookup;
        let ghost upd0 = old(pending).spec_updates();
        let ghost mobs2 = r2.0.mobs;
        let ghost ev2 = r2.1;
        let mut mi: usize = 0;
        while mi < world.num_mobs()
            invariant
                mi <= mobs2.len(),
                world@.mobs.len() == mobs2.len(),
                pending.wf(),
                pending.spec_spawns() == Seq::<SpawnDataView>::empty(),
                pending.spec_added() == Seq::<(u32, Seq<AddedComponentDataView>)>::empty(),
                self.wf(),
                self.spec_mob_factory() == mf,
                self.spec_component_factory() == cf,
                self.spec_spawn_id_lookup() == sl1,
                self.spec_entity_lookup() == el1,
                world@.wf(),
                world@.next_entity == r2.0.next_entity,
                ({
                    let r = spec_apply_mob_updates(mobs2.take(mi as int), sl1, upd0, ev2);
                    &&& world@.mobs == r.0 + mobs2.skip(mi as int)
                    &&& pending.spec_updates() == r.1
                    &&& events@ == r.2
                }),
            decreases mobs2.len() - mi,
        {
            proof {
                lemma_apply_mob_updates_len(mobs2.take(mi as int), sl1, upd0, ev2);
                assert(world@.mobs[mi as int] == mobs2[mi as int]);
            }
            let m_entity = world.mob_at(mi).entity;
            let sid_opt: Option<u32> = match self.spawn_id_lookup.get(m_entity.0) {
                Some(s) => Some(*s),
                None => None,
            };
            let ghost rpre = spec_apply_mob_updates(mobs2.take(mi as int), sl1, upd0, ev2);
            apply_updates_for_mob(world, mi, m_entity, sid_opt, pending, &mut events, callbacks);
            proof {
                assert(mobs2.take(mi as int + 1).drop_last() =~= mobs2.take(mi as int));
                assert(mobs2.take(mi as int + 1).last() == mobs2[mi as int]);
                let rpost = spec_apply_mob_updates(mobs2.take(mi as int + 1), sl1, upd0, ev2);
                assert(world@.mobs =~= rpost.0 + mobs2.skip(mi as int + 1));
            }
            mi = mi + 1;
        }
        proof {
            assert(mobs2.take(mobs2.len() as int) =~= mobs2);
            let r3 = spec_apply_mob_updates(mobs2, sl1, upd0, ev2);
            assert(world@.mobs =~= r3.0 + mobs2.skip(mobs2.len() as int));
            assert(r3.0 + mobs2.skip(mobs2.len() as int) =~= r3.0);
            assert(world@ =~~= (WorldView { mobs: r3.0, next_entity: r2.0.next_entity }));
        }
        events
    }

    /// The spawn id recorded for a local entity, if any.
    pub fn spawn_id_of(&self, entity: Entity) -> (r: Option<SpawnId>)
        ensures
            match r {
                Some(sid) => spec_get(self.spec_spawn_id_lookup(), entity.0) == Some(sid.0),
                None => spec_get(self.spec_spawn_id_lookup(), entity.0) is None,
            },
    {
        match self.spawn_id_lookup.get(entity.0) {
            Some(sid) => Some(SpawnId(*sid)),
            None => None,
        }
    }

    /// The local entity recorded for a spawn id, if any.
    pub fn entity_of(&self, spawn_id: SpawnId) -> (r: Option<Entity>)
        ensures
            match r {
                Some(e) => spec_get(self.spec_entity_lookup(), spawn_id.0) == Some(e.0),
                None => spec_get(self.spec_entity_lookup(), spawn_id.0) is None,
            },
    {
        match self.entity_lookup.get(spawn_id.0) {
            Some(e) => Some(Entity(*e)),
            None => None,
        }
    }
}

/// Orphan safety: an addition group whose spawn id resolves to no local
/// entity — its spawn was never successfully applied — creates no object,
/// changes no other state and fires no callback; later groups and later
/// ticks proceed unaffected.
pub proof fn lemma_orphan_adds_dropped(
    w: WorldView,
    ev: Seq<CallbackEvent>,
    sid: u32,
    adds: Seq<AddedComponentDataView>,
    el: Seq<(u32, u32)>,
    cf: Seq<(u32, component_factory::ComponentConstructor)>,
)
    requires
        !spec_contains(el, sid),
    ensures
        spec_apply_adds(w, ev, seq![(sid, adds)], el, cf).0 == w,
        spec_apply_adds(w, ev, seq![(sid, adds)], el, cf).1 == ev,
{
    let groups = seq![(sid, adds)];
    assert(groups.drop_last() =~= Seq::<(u32, Seq<AddedComponentDataView>)>::empty());
    assert(groups.last() == (sid, adds));
    assert(spec_get(el, sid) is None);
    assert(groups.drop_last().len() == 0);
    assert(spec_apply_adds(w, ev, groups.drop_last(), el, cf) == (w, ev));
}

/// A component list none of whose ids has a buffered update is left
/// exactly as it is, and consumes nothing.
proof fn lemma_component_updates_no_match(
    cs: Seq<ReplicatedComponent>,
    e: u32,
    sid_opt: Option<u32>,
    upd: Seq<(u32, UpdateData)>,
    ev: Seq<CallbackEvent>,
)
    requires
        forall|j: int|
            0 <= j < cs.len() ==> !spec_contains(upd, (#[trigger] cs[j]).repl_id()),
    ensures
        spec_apply_component_updates(cs, e, sid_opt, upd, ev).0 == cs,
        spec_apply_component_updates(cs, e, sid_opt, upd, ev).1 == upd,
        spec_apply_component_updates(cs, e, sid_opt, upd, ev).2 == ev,
    decreases cs.len(),
{
    if cs.len() > 0 {
        let front = cs.drop_last();
        assert(forall|j: int| 0 <= j < front.len() ==> (#[trigger] front[j]) == cs[j]);
        lemma_component_updates_no_match(front, e, sid_opt, upd, ev);
        assert(cs[cs.len() - 1] == cs.last());
        assert(!spec_contains(upd, cs.last().repl_id()));
        assert(spec_get(upd, cs.last().repl_id()) is None);
        assert(front.push(cs.last()) =~= cs);
    }
}

/// A store none of whose component ids has a buffered update is left
/// exactly as it is, and consumes nothing.
proof fn lemma_mob_updates_no_match(
    mobs: Seq<MobView>,
    sl: Seq<(u32, u32)>,
    upd: Seq<(u32, UpdateData)>,
    ev: Seq<CallbackEvent>,
)
    requires
        forall|i: int, j: int|
            0 <= i < mobs.len() && 0 <= j < mobs[i].components.len() ==> !spec_contains(
                upd,
                (#[trigger] mobs[i].components[j]).repl_id(),
            ),
    ensures
        spec_apply_mob_updates(mobs, sl, upd, ev).0 == mobs,
        spec_apply_mob_updates(mobs, sl, upd, ev).1 == upd,
        spec_apply_mob_updates(mobs, sl, upd, ev).2 == ev,
    decreases mobs.len(),
{
    if mobs.len() > 0 {
        let front = mobs.drop_last();
        assert(forall|i: int| 0 <= i < front.len() ==> (#[trigger] front[i]) == mobs[i]);
        lemma_mob_updates_no_match(front, sl, upd, ev);
        let m = mobs.last();
        assert(m == mobs[mobs.len() - 1]);
        assert(forall|j: int|
            0 <= j < m.components.len() ==> !spec_contains(
                upd,
                (#[trigger] m.components[j]).repl_id(),
            ));
        lemma_component_updates_no_match(m.components, m.entity, spec_get(sl, m.entity), upd, ev);
        assert(front.push(MobView { entity: m.entity, mob_type: m.mob_type, components: m.components })
            =~~= mobs);
    }
}

/// Every component a constructor builds carries the replication id it was
/// asked for.
proof fn lemma_construct_component_id(
    c: component_factory::ComponentConstructor,
    id: u32,
    data: Seq<u8>,
)
    ensures
        match spec_construct_component(c, id, data) {
            Some(comp) => comp.repl_id() == id,
            None => true,
        },
{
}

/// Causal ordering: feeding a client one spawn, then one component addition
/// for the same object, then one update for that component, yields — after
/// one apply pass — a local object whose component equals the applied
/// update, with the spawn, added and updated callbacks fired once each, in
/// that order.
pub proof fn lemma_causal_ordering(
    world0: WorldView,
    sl0: Seq<(u32, u32)>,
    el0: Seq<(u32, u32)>,
    mf: Seq<(u32, MobConstructor)>,
    cf: Seq<(u32, component_factory::ComponentConstructor)>,
    s: SpawnDataView,
    a: AddedComponentDataView,
    u: UpdateData,
    comp2: ReplicatedComponent,
    n: int,
)
    requires
        world0.wf(),
        world0.next_entity < u32::MAX,
        spec_unique_keys(sl0),
        spec_unique_keys(el0),
        spec_get(mf, s.mob_type) is Some,
        a.spawn_id == s.spawn_id,
        spec_get(cf, a.component_type) is Some,
        spec_construct_component(
            spec_get(cf, a.component_type)->Some_0,
            a.replicated_id,
            a.data,
        ) is Some,
        spec_construct_component(
            spec_get(cf, a.component_type)->Some_0,
            a.replicated_id,
            a.data,
        )->Some_0.repl_dec(u.data@) == Some((comp2, n)),
        forall|i: int, j: int|
            0 <= i < world0.mobs.len() && 0 <= j < world0.mobs[i].components.len()
                ==> (#[trigger] world0.mobs[i].components[j]).repl_id() != a.replicated_id,
    ensures
        ({
            let st0 = ApplyState {
                world: world0,
                spawn_id_lookup: sl0,
                entity_lookup: el0,
                events: Seq::empty(),
            };
            let st1 = spec_apply_spawns(st0, seq![s], mf);
            let r2 = spec_apply_adds(
                st1.world,
                st1.events,
                seq![(s.spawn_id, seq![a])],
                st1.entity_lookup,
                cf,
            );
            let r3 = spec_apply_mob_updates(
                r2.0.mobs,
                st1.spawn_id_lookup,
                seq![(a.replicated_id, u)],
                r2.1,
            );
            let e = world0.next_entity;
            let tag = spec_constructed_tag(spec_get(mf, s.mob_type)->Some_0);
            &&& r3.0 == world0.mobs.push(
                MobView { entity: e, mob_type: tag, components: seq![comp2] },
            )
            &&& r3.1 == Seq::<(u32, UpdateData)>::empty()
            &&& r3.2 == seq![
                CallbackEvent::Spawned {
                    entity: Entity(e),
                    spawn_id: SpawnId(s.spawn_id),
                    mob_type: MobType(s.mob_type),
                },
                CallbackEvent::ComponentAdded {
                    entity: Entity(e),
                    spawn_id: SpawnId(s.spawn_id),
                    component_type: ComponentType(a.component_type),
                    replicated_id: Id(a.replicated_id),
                },
                CallbackEvent::ComponentUpdated {
                    entity: Entity(e),
                    spawn_id: SpawnId(s.spawn_id),
                    replicated_id: Id(a.replicated_id),
                },
            ]
        }),
{
    let st0 = ApplyState {
        world: world0,
        spawn_id_lookup: sl0,
        entity_lookup: el0,
        events: Seq::empty(),
    };
    let e = world0.next_entity;
    let c = spec_get(mf, s.mob_type)->Some_0;
    let tag = spec_constructed_tag(c);
    let cc = spec_get(cf, a.component_type)->Some_0;
    let comp = spec_construct_component(cc, a.replicated_id, a.data)->Some_0;

    // Pass one on the single spawn.
    let ss = seq![s];
    assert(ss.drop_last() =~= Seq::<SpawnDataView>::empty());
    assert(ss.last() == s);
    assert(ss.drop_last().len() == 0);
    assert(spec_apply_spawns(st0, ss.drop_last(), mf) == st0);
    let st1 = spec_apply_spawns(st0, ss, mf);
    assert(st1 == spec_apply_spawn(st0, s, mf));
    let bare = MobView { entity: e, mob_type: tag, components: Seq::empty() };
    assert(st1.world.mobs == world0.mobs.push(bare));
    assert(st1.spawn_id_lookup == spec_insert(sl0, e, s.spawn_id));
    assert(st1.entity_lookup == spec_insert(el0, s.spawn_id, e));
    let ev_spawn = CallbackEvent::Spawned {
        entity: Entity(e),
        spawn_id: SpawnId(s.spawn_id),
        mob_type: MobType(s.mob_type),
    };
    assert(st1.events =~= seq![ev_spawn]);

    // The new registry entries are readable back.
    crate::id_map::lemma_find_characterization(el0, s.spawn_id);
    crate::id_map::lemma_get_after_insert(el0, st1.entity_lookup, s.spawn_id, e);
    crate::id_map::lemma_find_characterization(sl0, e);
    crate::id_map::lemma_get_after_insert(sl0, st1.spawn_id_lookup, e, s.spawn_id);

    // Pass two on the single addition group.
    let groups = seq![(s.spawn_id, seq![a])];
    assert(groups.drop_last() =~= Seq::<(u32, Seq<AddedComponentDataView>)>::empty());
    assert(groups.last() == (s.spawn_id, seq![a]));
    assert(spec_get(st1.entity_lookup, s.spawn_id) == Some(e));
    let adds = seq![a];
    assert(adds.drop_last() =~= Seq::<AddedComponentDataView>::empty());
    assert(adds.last() == a);
    assert(adds.drop_last().len() == 0);
    assert(groups.drop_last().len() == 0);
    assert(spec_apply_adds(st1.world, st1.events, groups.drop_last(), st1.entity_lookup, cf) == (
        st1.world,
        st1.events,
    ));
    assert(spec_apply_group_adds(st1.world, st1.events, e, s.spawn_id, adds.drop_last(), cf) == (
        st1.world,
        st1.events,
    ));
    assert(forall|i: int| 0 <= i < world0.mobs.len() ==> world0.mobs[i].entity < e);
    crate::store::lemma_find_mob_first(st1.world.mobs, e, world0.mobs.len() as int);
    assert(spec_find_mob(st1.world.mobs, e) == Some(world0.mobs.len() as int));
    let r2 = spec_apply_adds(st1.world, st1.events, groups, st1.entity_lookup, cf);
    assert(r2 == spec_apply_group_adds(st1.world, st1.events, e, s.spawn_id, adds, cf));
    assert(r2 == spec_apply_one_add(st1.world, st1.events, e, s.spawn_id, a, cf));
    let withcomp = MobView { entity: e, mob_type: tag, components: seq![comp] };
    assert(bare.components.push(comp) =~= seq![comp]);
    assert(r2.0.mobs =~= world0.mobs.push(bare).update(world0.mobs.len() as int, withcomp));
    assert(r2.0.mobs =~= world0.mobs.push(withcomp));
    let ev_add = CallbackEvent::ComponentAdded {
        entity: Entity(e),
        spawn_id: SpawnId(s.spawn_id),
        component_type: ComponentType(a.component_type),
        replicated_id: Id(a.replicated_id),
    };
    assert(r2.1 =~= seq![ev_spawn, ev_add]);

    // Pass three: only the new mob's component has the buffered update.
    let upd0 = seq![(a.replicated_id, u)];
    lemma_construct_component_id(cc, a.replicated_id, a.data);
    assert(comp.repl_id() == a.replicated_id);
    let mobs2 = r2.0.mobs;
    assert(mobs2.drop_last() =~= world0.mobs.push(withcomp).drop_last());
    assert(world0.mobs.push(withcomp).drop_last() =~= world0.mobs);
    assert forall|i: int, j: int|
        0 <= i < world0.mobs.len() && 0 <= j
            < world0.mobs[i].components.len() implies !spec_contains(
        upd0,
        (#[trigger] world0.mobs[i].components[j]).repl_id(),
    ) by {
        let id = world0.mobs[i].components[j].repl_id();
        crate::id_map::lemma_find_characterization(upd0, id);
        if spec_contains(upd0, id) {
            let w = spec_find(upd0, id)->Some_0;
            assert(upd0[w].0 == id);
            assert(w == 0);
        }
    }
    lemma_mob_updates_no_match(world0.mobs, st1.spawn_id_lookup, upd0, r2.1);
    assert(mobs2.last() == withcomp);

    // The inner run on the new mob's single component.
    let cs = seq![comp];
    assert(cs.drop_last() =~= Seq::<ReplicatedComponent>::empty());
    assert(cs.last() == comp);
    assert(cs.drop_last().len() == 0);
    assert(spec_apply_component_updates(
        cs.drop_last(),
        e,
        spec_get(st1.spawn_id_lookup, e),
        upd0,
        r2.1,
    ) == (cs.drop_last(), upd0, r2.1));
    assert(upd0[0] == (a.replicated_id, u));
    assert(spec_get(upd0, a.replicated_id) == Some(u));
    assert(spec_remove(upd0, a.replicated_id) =~= Seq::<(u32, UpdateData)>::empty());
    assert(spec_get(st1.spawn_id_lookup, e) == Some(s.spawn_id));
    let inner = spec_apply_component_updates(
        cs,
        e,
        spec_get(st1.spawn_id_lookup, e),
        upd0,
        r2.1,
    );
    let ev_upd = CallbackEvent::ComponentUpdated {
        entity: Entity(e),
        spawn_id: SpawnId(s.spawn_id),
        replicated_id: Id(a.replicated_id),
    };
    assert(inner.0 =~= seq![comp2]);
    assert(inner.2 =~= seq![ev_spawn, ev_add, ev_upd]);

    let r3 = spec_apply_mob_updates(mobs2, st1.spawn_id_lookup, upd0, r2.1);
    assert(spec_apply_mob_updates(mobs2.drop_last(), st1.spawn_id_lookup, upd0, r2.1) == (
        world0.mobs,
        upd0,
        r2.1,
    ));
    assert(r3.0 == spec_apply_mob_updates(mobs2.drop_last(), st1.spawn_id_lookup, upd0, r2.1)
        .0.push(MobView { entity: e, mob_type: tag, components: inner.0 }));
    assert(r3.0 =~~= world0.mobs.push(
        MobView { entity: e, mob_type: tag, components: seq![comp2] },
    ));
    assert(r3.2 =~= seq![ev_spawn, ev_add, ev_upd]);
}

} // verus!
