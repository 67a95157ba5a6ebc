//! The server replication manager: tracks dirty objects, newly spawned
//! objects and clients pending their first full sync, and emits, once per
//! tick, exactly the messages needed to converge every client.
//!
//! The tick emits in a fixed order: updates for dirty objects to the fully
//! synced clients, then a spawn block for each newly spawned object, then a
//! full replay of the store for each pending client, which is then promoted
//! to fully synced.  The order keeps the protocol's causal invariant: a
//! freshly spawned object never also receives a redundant update in the
//! same tick, and a newly joined client never sees a component before its
//! spawn.

use crate::id_map::IdMap;
use crate::id_map::IdSet;
use crate::id_map::spec_contains;
use crate::id_map::spec_get;
use crate::id_map::spec_unique_keys;
use crate::replication::AddedComponentData;
use crate::replication::AddedComponentDataView;
use crate::replication::Id;
use crate::replication::Message;
use crate::replication::MessageView;
use crate::replication::Replicated;
use crate::replication::SpawnData;
use crate::replication::SpawnDataView;
use crate::replication::SpawnId;
use crate::replication::UpdateData;
use crate::replication::UpdateDataView;
use crate::store::Entity;
use crate::store::Mob;
use crate::store::MobView;
use crate::store::World;
use crate::store::spec_find_mob;
use vstd::prelude::*;

verus! {

/// Size of the bounded buffer one component payload must fit; a component
/// whose encoding exceeds it is skipped, never truncated.
pub const REPLICATION_BUFFER_SIZE: usize = 512;

/// Handle under which the embedding application knows one client channel.
#[derive(Clone, Copy, PartialEq, Eq, Structural, Hash, Debug)]
pub struct ClientId(pub u32);

/// Whether a component's encoding fits the bounded payload buffer.
pub open spec fn spec_fits(c: crate::store::ReplicatedComponent) -> bool {
    c.repl_enc().len() <= REPLICATION_BUFFER_SIZE
}

/// The update message carrying a full-value snapshot of one component.
pub open spec fn spec_update_msg(c: crate::store::ReplicatedComponent) -> MessageView {
    MessageView::Update(UpdateDataView { id: c.repl_id(), data: c.repl_enc() })
}

/// The message attaching one component to the object with spawn id `sid`.
pub open spec fn spec_add_component_msg(
    sid: u32,
    c: crate::store::ReplicatedComponent,
) -> MessageView {
    MessageView::AddComponent(
        AddedComponentDataView {
            spawn_id: sid,
            component_type: c.repl_type(),
            replicated_id: c.repl_id(),
            data: c.repl_enc(),
        },
    )
}

/// Update messages for a component list, in order, skipping components that
/// do not fit the payload buffer.
pub open spec fn spec_update_msgs_for_components(
    cs: Seq<crate::store::ReplicatedComponent>,
) -> Seq<MessageView>
    decreases cs.len(),
{
    if cs.len() == 0 {
        Seq::empty()
    } else {
        spec_update_msgs_for_components(cs.drop_last()) + (if spec_fits(cs.last()) {
            seq![spec_update_msg(cs.last())]
        } else {
            Seq::empty()
        })
    }
}

/// Update messages for one dirty entity: one per component of its mob, or
/// nothing where the entity is not in the store.
pub open spec fn spec_update_msgs_for_entity(mobs: Seq<MobView>, e: u32) -> Seq<MessageView> {
    match spec_find_mob(mobs, e) {
        Some(i) => spec_update_msgs_for_components(mobs[i].components),
        None => Seq::empty(),
    }
}

/// Update messages for the dirty set, in insertion order.
pub open spec fn spec_update_msgs(mobs: Seq<MobView>, dirty: Seq<u32>) -> Seq<MessageView>
    decreases dirty.len(),
{
    if dirty.len() == 0 {
        Seq::empty()
    } else {
        spec_update_msgs(mobs, dirty.drop_last()) + spec_update_msgs_for_entity(
            mobs,
            dirty.last(),
        )
    }
}

/// `AddComponent` messages for a component list, in order, skipping
/// components that do not fit the payload buffer.
pub open spec fn spec_add_msgs_for_components(
    sid: u32,
    cs: Seq<crate::store::ReplicatedComponent>,
) -> Seq<MessageView>
    decreases cs.len(),
{
    if cs.len() == 0 {
        Seq::empty()
    } else {
        spec_add_msgs_for_components(sid, cs.drop_last()) + (if spec_fits(cs.last()) {
            seq![spec_add_component_msg(sid, cs.last())]
        } else {
            Seq::empty()
        })
    }
}

/// The spawn block for one mob: its `Spawn`, then one `AddComponent` per
/// component, or nothing where the mob has no recorded spawn id.
pub open spec fn spec_spawn_block(m: MobView, sids: Seq<(u32, u32)>) -> Seq<MessageView> {
    match spec_get(sids, m.entity) {
        Some(sid) => seq![
            MessageView::Spawn(SpawnDataView { mob_type: m.mob_type, spawn_id: sid }),
        ] + spec_add_msgs_for_components(sid, m.components),
        None => Seq::empty(),
    }
}

/// The spawn block one entity contributes: that of its mob, or nothing
/// where the entity is not in the store.
pub open spec fn spec_spawn_msgs_step(
    mobs: Seq<MobView>,
    e: u32,
    sids: Seq<(u32, u32)>,
) -> Seq<MessageView> {
    match spec_find_mob(mobs, e) {
        Some(i) => spec_spawn_block(mobs[i], sids),
        None => Seq::empty(),
    }
}

/// Spawn blocks for a list of entities, in order; entities not in the store
/// contribute nothing.
pub open spec fn spec_spawn_msgs(
    mobs: Seq<MobView>,
    entities: Seq<u32>,
    sids: Seq<(u32, u32)>,
) -> Seq<MessageView>
    decreases entities.len(),
{
    if entities.len() == 0 {
        Seq::empty()
    } else {
        spec_spawn_msgs(mobs, entities.drop_last(), sids) + spec_spawn_msgs_step(
            mobs,
            entities.last(),
            sids,
        )
    }
}

/// The full replay sent to a newly connected client: a spawn block for
/// every mob of the store, in store order, as if each were newly spawned.
pub open spec fn spec_full_sync_msgs(mobs: Seq<MobView>, sids: Seq<(u32, u32)>) -> Seq<
    MessageView,
>
    decreases mobs.len(),
{
    if mobs.len() == 0 {
        Seq::empty()
    } else {
        spec_full_sync_msgs(mobs.drop_last(), sids) + spec_spawn_block(mobs.last(), sids)
    }
}

/// The views of a message list.
pub open spec fn spec_views_of(s: Seq<Message>) -> Seq<MessageView> {
    s.map_values(|m: Message| m@)
}

/// The messages a client pending its first full sync receives this tick.
pub struct ClientSync {
    pub client: ClientId,
    pub messages: Vec<Message>,
}

/// Everything one tick emits: the broadcast for every fully synced client,
/// and one full replay per client that was pending its first sync.
pub struct TickOutput {
    pub broadcast: Vec<Message>,
    pub full_sync: Vec<ClientSync>,
}

/// The server replication manager.
pub struct Manager {
    /// Fully synced client channels.
    clients: Vec<ClientId>,
    /// Clients pending their first full state sync; they receive no traffic
    /// until caught up.
    pending_full_sync: Vec<ClientId>,
    /// Newly spawned entities that still need their spawn block broadcast.
    newly_spawned: IdSet,
    /// Entities with at least one changed component awaiting an update.
    dirty: IdSet,
    /// Map from entity handle to assigned spawn id.
    entity_spawn_ids: IdMap<u32>,
    /// Next spawn id to assign.
    next_spawn_id: u32,
}

impl Manager {
    pub closed spec fn spec_clients(&self) -> Seq<ClientId> {
        self.clients@
    }

    pub closed spec fn spec_pending(&self) -> Seq<ClientId> {
        self.pending_full_sync@
    }

    pub closed spec fn spec_newly_spawned(&self) -> Seq<u32> {
        self.newly_spawned@
    }

    pub closed spec fn spec_dirty(&self) -> Seq<u32> {
        self.dirty@
    }

    pub closed spec fn spec_spawn_ids(&self) -> Seq<(u32, u32)> {
        self.entity_spawn_ids@
    }

    pub closed spec fn spec_next_spawn_id(&self) -> u32 {
        self.next_spawn_id
    }

    /// The dirty and newly-spawned sets are duplicate-free, spawn ids are
    /// keyed uniquely, and every tracked entity is registered.
    pub open spec fn wf(&self) -> bool {
        &&& forall|i: int, j: int|
            0 <= i < j < self.spec_dirty().len() ==> self.spec_dirty()[i] != self.spec_dirty()[j]
        &&& forall|i: int, j: int|
            0 <= i < j < self.spec_newly_spawned().len() ==> self.spec_newly_spawned()[i]
                != self.spec_newly_spawned()[j]
        &&& spec_unique_keys(self.spec_spawn_ids())
        &&& forall|i: int|
            0 <= i < self.spec_dirty().len() ==> spec_contains(
                self.spec_spawn_ids(),
                #[trigger] self.spec_dirty()[i],
            )
        &&& forall|i: int|
            0 <= i < self.spec_newly_spawned().len() ==> spec_contains(
                self.spec_spawn_ids(),
                #[trigger] self.spec_newly_spawned()[i],
            )
    }

    pub fn new() -> (r: Manager)
        ensures
            r.wf(),
            r.spec_clients() == Seq::<ClientId>::empty(),
            r.spec_pending() == Seq::<ClientId>::empty(),
            r.spec_newly_spawned() == Seq::<u32>::empty(),
            r.spec_dirty() == Seq::<u32>::empty(),
            r.spec_spawn_ids() == Seq::<(u32, u32)>::empty(),
            r.spec_next_spawn_id() == 0,
    {
        Manager {
            clients: Vec::new(),
            pending_full_sync: Vec::new(),
            newly_spawned: IdSet::new(),
            dirty: IdSet::new(),
            entity_spawn_ids: IdMap::new(),
            next_spawn_id: 0,
        }
    }

    /// Enqueues a client as pending its first full sync; it receives no
    /// traffic until the next tick catches it up.
    pub fn add_client(&mut self, client: ClientId)
        requires
            old(self).wf(),
        ensures
            final(self).wf(),
            final(self).spec_pending() == old(self).spec_pending().push(client),
            final(self).spec_clients() == old(self).spec_clients(),
            final(self).spec_newly_spawned() == old(self).spec_newly_spawned(),
            final(self).spec_dirty() == old(self).spec_dirty(),
            final(self).spec_spawn_ids() == old(self).spec_spawn_ids(),
            final(self).spec_next_spawn_id() == old(self).spec_next_spawn_id(),
    {
        self.pending_full_sync.push(client);
        proof {
            assert(self.spec_dirty() == old(self).spec_dirty());
            assert(self.spec_newly_spawned() == old(self).spec_newly_spawned());
            assert(self.spec_spawn_ids() == old(self).spec_spawn_ids());
            assert(self.wf());
        }
    }

    /// Marks an object changed.  Idempotent within a tick: a second mark of
    /// the same entity changes nothing.  A no-op for an entity that was
    /// never registered.
    pub fn mark_dirty(&mut self, entity: Entity)
        requires
            old(self).wf(),
        ensures
            final(self).wf(),
            if spec_contains(old(self).spec_spawn_ids(), entity.0) {
                if old(self).spec_dirty().contains(entity.0) {
                    final(self).spec_dirty() == old(self).spec_dirty()
                } else {
                    final(self).spec_dirty() == old(self).spec_dirty().push(entity.0)
                }
            } else {
                final(self).spec_dirty() == old(self).spec_dirty()
            },
            final(self).spec_clients() == old(self).spec_clients(),
            final(self).spec_pending() == old(self).spec_pending(),
            final(self).spec_newly_spawned() == old(self).spec_newly_spawned(),
            final(self).spec_spawn_ids() == old(self).spec_spawn_ids(),
            final(self).spec_next_spawn_id() == old(self).spec_next_spawn_id(),
    {
        proof {
            assert(self.dirty.wf());
        }
        if self.entity_spawn_ids.contains_key(entity.0) {
            self.dirty.insert(entity.0);
            proof {
                assert(self.spec_newly_spawned() == old(self).spec_newly_spawned());
                assert(self.spec_spawn_ids() == old(self).spec_spawn_ids());
                if !old(self).spec_dirty().contains(entity.0) {
                    assert(self.spec_dirty() == old(self).spec_dirty().push(entity.0));
                    assert forall|i: int|
                        0 <= i < self.spec_dirty().len() implies spec_contains(
                        self.spec_spawn_ids(),
                        #[trigger] self.spec_dirty()[i],
                    ) by {
                        if i < old(self).spec_dirty().len() {
                            assert(self.spec_dirty()[i] == old(self).spec_dirty()[i]);
                        } else {
                            assert(self.spec_dirty()[i] == entity.0);
                        }
                    }
                }
            }
        }
    }

    /// Assigns the next spawn id to `entity`, records the mapping and adds
    /// the entity to the newly-spawned set.  Must be called exactly once
    /// per object, before any `mark_dirty` on it.
    pub fn register_new_entity(&mut self, entity: Entity)
        requires
            old(self).wf(),
            old(self).spec_next_spawn_id() < u32::MAX,
            !spec_contains(old(self).spec_spawn_ids(), entity.0),
        ensures
            final(self).wf(),
            final(self).spec_spawn_ids() == old(self).spec_spawn_ids().push(
                (entity.0, old(self).spec_next_spawn_id()),
            ),
            final(self).spec_newly_spawned() == old(self).spec_newly_spawned().push(entity.0),
            final(self).spec_next_spawn_id() == old(self).spec_next_spawn_id() + 1,
            final(self).spec_clients() == old(self).spec_clients(),
            final(self).spec_pending() == old(self).spec_pending(),
            final(self).spec_dirty() == old(self).spec_dirty(),
    {
        proof {
            crate::id_map::lemma_find_characterization(self.spec_spawn_ids(), entity.0);
            if self.spec_newly_spawned().contains(entity.0) {
                let i = choose|i: int|
                    0 <= i < self.spec_newly_spawned().len() && self.spec_newly_spawned()[i]
                        == entity.0;
                assert(spec_contains(self.spec_spawn_ids(), self.spec_newly_spawned()[i]));
            }
        }
        let spawn_id = self.next_spawn_id;
        self.next_spawn_id = self.next_spawn_id + 1;
        self.entity_spawn_ids.insert(entity.0, spawn_id);
        self.newly_spawned.insert(entity.0);
        proof {
            let om = old(self).spec_spawn_ids();
            let nm = self.spec_spawn_ids();
            crate::id_map::lemma_get_after_insert(om, nm, entity.0, spawn_id);
            assert forall|k: u32| spec_contains(om, k) implies spec_contains(nm, k) by {
                assert(k != entity.0);
                assert(spec_get(nm, k) == spec_get(om, k));
            }
            assert(self.spec_dirty() == old(self).spec_dirty());
            assert forall|i: int|
                0 <= i < self.spec_dirty().len() implies spec_contains(
                nm,
                #[trigger] self.spec_dirty()[i],
            ) by {
                assert(self.spec_dirty()[i] == old(self).spec_dirty()[i]);
                assert(spec_contains(om, old(self).spec_dirty()[i]));
            }
            assert forall|i: int|
                0 <= i < self.spec_newly_spawned().len() implies spec_contains(
                nm,
                #[trigger] self.spec_newly_spawned()[i],
            ) by {
                if i < old(self).spec_newly_spawned().len() {
                    assert(self.spec_newly_spawned()[i] == old(self).spec_newly_spawned()[i]);
                    assert(spec_contains(om, old(self).spec_newly_spawned()[i]));
                } else {
                    assert(self.spec_newly_spawned()[i] == entity.0);
                    assert(spec_get(nm, entity.0) == Some(spawn_id));
                }
            }
        }
    }

    /// The per-tick flush: emits the updates for every dirty object, then a
    /// spawn block for every newly spawned object — both broadcast to the
    /// fully synced clients — then one full replay of the store for each
    /// client pending its first sync, which is then promoted to fully
    /// synced.  The dirty and newly-spawned sets are cleared.
    pub fn serialize(&mut self, world: &World) -> (out: TickOutput)
        requires
            old(self).wf(),
            world@.wf(),
        ensures
            final(self).wf(),
            spec_views_of(out.broadcast@) == spec_update_msgs(world@.mobs, old(self).spec_dirty())
                + spec_spawn_msgs(
                world@.mobs,
                old(self).spec_newly_spawned(),
                old(self).spec_spawn_ids(),
            ),
            out.full_sync@.len() == old(self).spec_pending().len(),
            forall|k: int|
                0 <= k < out.full_sync@.len() ==> (#[trigger] out.full_sync@[k]).client == old(
                    self,
                ).spec_pending()[k] && spec_views_of(out.full_sync@[k].messages@)
                    == spec_full_sync_msgs(world@.mobs, old(self).spec_spawn_ids()),
            final(self).spec_clients() == old(self).spec_clients() + old(self).spec_pending(),
            final(self).spec_pending() == Seq::<ClientId>::empty(),
            final(self).spec_dirty() == Seq::<u32>::empty(),
            final(self).spec_newly_spawned() == Seq::<u32>::empty(),
            final(self).spec_spawn_ids() == old(self).spec_spawn_ids(),
            final(self).spec_next_spawn_id() == old(self).spec_next_spawn_id(),
    {
        let mut broadcast: Vec<Message> = Vec::new();

        // Updates for every dirty object, to the fully synced clients.
        let ghost mobs = world@.mobs;
        let ghost dirty0 = self.spec_dirty();
        let mut di: usize = 0;
        while di < self.dirty.len()
            invariant
                di <= dirty0.len(),
                self.spec_dirty() == dirty0,
                self == old(self),
                world@.wf(),
                mobs == world@.mobs,
                spec_views_of(broadcast@) == spec_update_msgs(mobs, dirty0.take(di as int)),
            decreases dirty0.len() - di,
        {
            let e = self.dirty.at(di);
            match world.find_mob(Entity(e)) {
                Some(mi) => {
                    proof {
                        crate::store::lemma_find_mob_characterization(mobs, e);
                    }
                    push_update_messages_for_mob(world.mob_at(mi), &mut broadcast);
                },
                None => {
                    proof {
                        crate::store::lemma_find_mob_characterization(mobs, e);
                    }
                },
            }
            proof {
                assert(dirty0.take(di as int + 1).drop_last() =~= dirty0.take(di as int));
                assert(dirty0.take(di as int + 1).last() == dirty0[di as int]);
            }
            di = di + 1;
        }
        proof {
            assert(dirty0.take(dirty0.len() as int) =~= dirty0);
        }
        self.dirty.clear();

        // A spawn block for every newly spawned object.
        let ghost newly0 = self.spec_newly_spawned();
        let ghost bprefix = spec_views_of(broadcast@);
        let mut ni: usize = 0;
        while ni < self.newly_spawned.len()
            invariant
                ni <= newly0.len(),
                self.spec_newly_spawned() == newly0,
                self.spec_spawn_ids() == old(self).spec_spawn_ids(),
                world@.wf(),
                mobs == world@.mobs,
                spec_views_of(broadcast@) == bprefix + spec_spawn_msgs(
                    mobs,
                    newly0.take(ni as int),
                    old(self).spec_spawn_ids(),
                ),
            decreases newly0.len() - ni,
        {
            let e = self.newly_spawned.at(ni);
            match world.find_mob(Entity(e)) {
                Some(mi) => {
                    proof {
                        crate::store::lemma_find_mob_characterization(mobs, e);
                    }
                    self.push_spawn_block(world.mob_at(mi), &mut broadcast);
                },
                None => {
                    proof {
                        crate::store::lemma_find_mob_characterization(mobs, e);
                    }
                },
            }
            proof {
                assert(newly0.take(ni as int + 1).drop_last() =~= newly0.take(ni as int));
                assert(newly0.take(ni as int + 1).last() == newly0[ni as int]);
                assert((bprefix + spec_spawn_msgs(mobs, newly0.take(ni as int), old(self).spec_spawn_ids()))
                    + spec_spawn_msgs_step(mobs, newly0[ni as int], old(self).spec_spawn_ids())
                    =~= bprefix + (spec_spawn_msgs(mobs, newly0.take(ni as int), old(self).spec_spawn_ids())
                    + spec_spawn_msgs_step(mobs, newly0[ni as int], old(self).spec_spawn_ids())));
            }
            ni = ni + 1;
        }
        proof {
            assert(newly0.take(newly0.len() as int) =~= newly0);
        }
        self.newly_spawned.clear();

        // One full replay per client pending its first sync; then promote.
        let mut full_sync: Vec<ClientSync> = Vec::new();
        let mut pi: usize = 0;
        while pi < self.pending_full_sync.len()
            invariant
                pi <= self.spec_pending().len(),
                self.spec_pending() == old(self).spec_pending(),
                self.spec_spawn_ids() == old(self).spec_spawn_ids(),
                world@.wf(),
                mobs == world@.mobs,
                full_sync@.len() == pi,
                forall|k: int|
                    0 <= k < pi ==> (#[trigger] full_sync@[k]).client == old(
                        self,
                    ).spec_pending()[k] && spec_views_of(full_sync@[k].messages@)
                        == spec_full_sync_msgs(mobs, old(self).spec_spawn_ids()),
            decreases self.spec_pending().len() - pi,
        {
            let messages = self.full_sync_messages(world);
            let client = self.pending_full_sync[pi];
            full_sync.push(ClientSync { client, messages });
            pi = pi + 1;
        }
        self.clients.append(&mut self.pending_full_sync);

        TickOutput { broadcast, full_sync }
    }

    /// The spawn block for one mob: its `Spawn` message, then one
    /// `AddComponent` per component that fits the payload buffer.  A mob
    /// with no recorded spawn id is skipped.
    fn push_spawn_block(&self, mob: &Mob, out: &mut Vec<Message>)
        ensures
            spec_views_of(final(out)@) == spec_views_of(old(out)@) + spec_spawn_block(
                mob@,
                self.spec_spawn_ids(),
            ),
    {
        let sid = match self.entity_spawn_ids.get(mob.entity.0) {
            Some(s) => *s,
            None => {
                return ;
            },
        };
        let message = Message::Spawn(
            SpawnData { mob_type: mob.mob_type, spawn_id: SpawnId(sid) },
        );
        out.push(message);
        proof {
            assert(spec_views_of(out@) =~= spec_views_of(old(out)@) + seq![
                MessageView::Spawn(SpawnDataView { mob_type: mob@.mob_type, spawn_id: sid }),
            ]);
        }
        let ghost sprefix = spec_views_of(out@);
        let mut ci: usize = 0;
        while ci < mob.components.len()
            invariant
                ci <= mob@.components.len(),
                spec_views_of(out@) == sprefix + spec_add_msgs_for_components(
                    sid,
                    mob@.components.take(ci as int),
                ),
            decreases mob@.components.len() - ci,
        {
            let comp = &mob.components[ci];
            match encode_component(comp) {
                Some(data) => {
                    let message = Message::AddComponent(
                        AddedComponentData {
                            spawn_id: SpawnId(sid),
                            component_type: comp.replicated_component_type(),
                            replicated_id: comp.id(),
                            data,
                        },
                    );
                    out.push(message);
                    proof {
                        assert(message@ == spec_add_component_msg(sid, mob@.components[ci as int]));
                        assert(spec_views_of(out@) =~= sprefix + spec_add_msgs_for_components(
                            sid,
                            mob@.components.take(ci as int),
                        ) + seq![message@]);
                    }
                },
                None => {},
            }
            proof {
                let cs = mob@.components;
                assert(cs.take(ci as int + 1).drop_last() =~= cs.take(ci as int));
                assert(cs.take(ci as int + 1).last() == cs[ci as int]);
                if spec_fits(cs[ci as int]) {
                    assert((sprefix + spec_add_msgs_for_components(sid, cs.take(ci as int)))
                        + seq![spec_add_component_msg(sid, cs[ci as int])] =~= sprefix
                        + spec_add_msgs_for_components(sid, cs.take(ci as int + 1)));
                } else {
                    assert(spec_add_msgs_for_components(sid, cs.take(ci as int))
                        + Seq::<MessageView>::empty() =~= spec_add_msgs_for_components(
                        sid,
                        cs.take(ci as int),
                    ));
                }
            }
            ci = ci + 1;
        }
        proof {
            assert(mob@.components.take(mob@.components.len() as int) =~= mob@.components);
            assert(spec_views_of(out@) =~= spec_views_of(old(out)@) + spec_spawn_block(
                mob@,
                self.spec_spawn_ids(),
            ));
        }
    }

    /// The full replay for one pending client: a spawn block for every mob
    /// of the store, in store order.
    fn full_sync_messages(&self, world: &World) -> (msgs: Vec<Message>)
        ensures
            spec_views_of(msgs@) == spec_full_sync_msgs(world@.mobs, self.spec_spawn_ids()),
    {
        let mut msgs: Vec<Message> = Vec::new();
        let mut mi: usize = 0;
        while mi < world.num_mobs()
            invariant
                mi <= world@.mobs.len(),
                spec_views_of(msgs@) == spec_full_sync_msgs(
                    world@.mobs.take(mi as int),
                    self.spec_spawn_ids(),
                ),
            decreases world@.mobs.len() - mi,
        {
            self.push_spawn_block(world.mob_at(mi), &mut msgs);
            proof {
                assert(world@.mobs.take(mi as int + 1).drop_last() =~= world@.mobs.take(mi as int));
                assert(world@.mobs.take(mi as int + 1).last() == world@.mobs[mi as int]);
            }
            mi = mi + 1;
        }
        proof {
            assert(world@.mobs.take(world@.mobs.len() as int) =~= world@.mobs);
        }
        msgs
    }

    /// The next spawn id that will be assigned.
    pub fn next_spawn_id(&self) -> (r: u32)
        ensures
            r == self.spec_next_spawn_id(),
    {
        self.next_spawn_id
    }

    /// The fully synced clients, in the order they finished their first
    /// sync.
    pub fn clients(&self) -> (r: &Vec<ClientId>)
        ensures
            r@ == self.spec_clients(),
    {
        &self.clients
    }

    /// The spawn id recorded for `entity`, if any.
    pub fn spawn_id_of(&self, entity: Entity) -> (r: Option<SpawnId>)
        ensures
            match r {
                Some(sid) => spec_get(self.spec_spawn_ids(), entity.0) == Some(sid.0),
                None => spec_get(self.spec_spawn_ids(), entity.0) is None,
            },
    {
        match self.entity_spawn_ids.get(entity.0) {
            Some(sid) => Some(SpawnId(*sid)),
            None => None,
        }
    }
}

/// Number of `Spawn` messages in `msgs`.
pub open spec fn spec_count_spawns(msgs: Seq<MessageView>) -> int
    decreases msgs.len(),
{
    if msgs.len() == 0 {
        0
    } else {
        spec_count_spawns(msgs.drop_last()) + (match msgs.last() {
            MessageView::Spawn(_) => 1int,
            _ => 0int,
        })
    }
}

/// Number of `AddComponent` messages in `msgs`.
pub open spec fn spec_count_adds(msgs: Seq<MessageView>) -> int
    decreases msgs.len(),
{
    if msgs.len() == 0 {
        0
    } else {
        spec_count_adds(msgs.drop_last()) + (match msgs.last() {
            MessageView::AddComponent(_) => 1int,
            _ => 0int,
        })
    }
}

/// Number of `Update` messages in `msgs`.
pub open spec fn spec_count_updates(msgs: Seq<MessageView>) -> int
    decreases msgs.len(),
{
    if msgs.len() == 0 {
        0
    } else {
        spec_count_updates(msgs.drop_last()) + (match msgs.last() {
            MessageView::Update(_) => 1int,
            _ => 0int,
        })
    }
}

/// Number of `Update` messages in `msgs` carrying component id `id`.
pub open spec fn spec_count_updates_for_id(msgs: Seq<MessageView>, id: u32) -> int
    decreases msgs.len(),
{
    if msgs.len() == 0 {
        0
    } else {
        spec_count_updates_for_id(msgs.drop_last(), id) + (match msgs.last() {
            MessageView::Update(u) => if u.id == id {
                1int
            } else {
                0int
            },
            _ => 0int,
        })
    }
}

/// Total number of components over all mobs of the store.
pub open spec fn spec_total_components(mobs: Seq<MobView>) -> int
    decreases mobs.len(),
{
    if mobs.len() == 0 {
        0
    } else {
        spec_total_components(mobs.drop_last()) + mobs.last().components.len()
    }
}

/// All message counts distribute over concatenation.
proof fn lemma_counts_concat(a: Seq<MessageView>, b: Seq<MessageView>, id: u32)
    ensures
        spec_count_spawns(a + b) == spec_count_spawns(a) + spec_count_spawns(b),
        spec_count_adds(a + b) == spec_count_adds(a) + spec_count_adds(b),
        spec_count_updates(a + b) == spec_count_updates(a) + spec_count_updates(b),
        spec_count_updates_for_id(a + b, id) == spec_count_updates_for_id(a, id)
            + spec_count_updates_for_id(b, id),
    decreases b.len(),
{
    if b.len() == 0 {
        assert(a + b =~= a);
    } else {
        lemma_counts_concat(a, b.drop_last(), id);
        assert((a + b).drop_last() =~= a + b.drop_last());
        assert((a + b).last() == b.last());
    }
}

/// Counts over a one-message list.
proof fn lemma_counts_singleton(m: MessageView, id: u32)
    ensures
        spec_count_spawns(seq![m]) == (match m {
            MessageView::Spawn(_) => 1int,
            _ => 0int,
        }),
        spec_count_adds(seq![m]) == (match m {
            MessageView::AddComponent(_) => 1int,
            _ => 0int,
        }),
        spec_count_updates(seq![m]) == (match m {
            MessageView::Update(_) => 1int,
            _ => 0int,
        }),
        spec_count_updates_for_id(seq![m], id) == (match m {
            MessageView::Update(u) => if u.id == id {
                1int
            } else {
                0int
            },
            _ => 0int,
        }),
{
    let s = seq![m];
    assert(s.len() == 1);
    assert(s.drop_last() =~= Seq::<MessageView>::empty());
    assert(spec_count_spawns(s.drop_last()) == 0);
    assert(spec_count_adds(s.drop_last()) == 0);
    assert(spec_count_updates(s.drop_last()) == 0);
    assert(spec_count_updates_for_id(s.drop_last(), id) == 0);
    assert(s.last() == m);
}

/// Every component this crate ships fits the bounded payload buffer.
pub proof fn lemma_component_always_fits(c: crate::store::ReplicatedComponent)
    ensures
        spec_fits(c),
{
    match c {
        crate::store::ReplicatedComponent::DynamicActorProxy(p) => {
            crate::physics::lemma_transform_enc_dec(p.transform, Seq::empty());
        },
        crate::store::ReplicatedComponent::StaticActorProxy(p) => {
            crate::physics::lemma_transform_enc_dec(p.transform, Seq::empty());
        },
        crate::store::ReplicatedComponent::Render(_) => {},
    }
}

/// Counts over the `AddComponent` run of one spawn block.
proof fn lemma_add_msgs_counts(sid: u32, cs: Seq<crate::store::ReplicatedComponent>, id: u32)
    requires
        forall|j: int| 0 <= j < cs.len() ==> spec_fits(#[trigger] cs[j]),
    ensures
        spec_count_spawns(spec_add_msgs_for_components(sid, cs)) == 0,
        spec_count_adds(spec_add_msgs_for_components(sid, cs)) == cs.len(),
        spec_count_updates(spec_add_msgs_for_components(sid, cs)) == 0,
        spec_count_updates_for_id(spec_add_msgs_for_components(sid, cs), id) == 0,
    decreases cs.len(),
{
    if cs.len() > 0 {
        let front = cs.drop_last();
        assert(forall|j: int| 0 <= j < front.len() ==> front[j] == cs[j]);
        lemma_add_msgs_counts(sid, front, id);
        assert(spec_fits(cs[cs.len() - 1]));
        lemma_counts_singleton(spec_add_component_msg(sid, cs.last()), id);
        lemma_counts_concat(
            spec_add_msgs_for_components(sid, front),
            seq![spec_add_component_msg(sid, cs.last())],
            id,
        );
    }
}

/// Counts over one spawn block: exactly one `Spawn` and one `AddComponent`
/// per component, no `Update`.
proof fn lemma_spawn_block_counts(m: MobView, sids: Seq<(u32, u32)>, id: u32)
    requires
        spec_contains(sids, m.entity),
        forall|j: int| 0 <= j < m.components.len() ==> spec_fits(#[trigger] m.components[j]),
    ensures
        spec_count_spawns(spec_spawn_block(m, sids)) == 1,
        spec_count_adds(spec_spawn_block(m, sids)) == m.components.len(),
        spec_count_updates(spec_spawn_block(m, sids)) == 0,
{
    let sid = spec_get(sids, m.entity)->Some_0;
    lemma_add_msgs_counts(sid, m.components, id);
    lemma_counts_singleton(
        MessageView::Spawn(SpawnDataView { mob_type: m.mob_type, spawn_id: sid }),
        id,
    );
    lemma_counts_concat(
        seq![MessageView::Spawn(SpawnDataView { mob_type: m.mob_type, spawn_id: sid })],
        spec_add_msgs_for_components(sid, m.components),
        id,
    );
}

/// Full-sync completeness: a client connecting when `N` objects exist, each
/// with its components, receives exactly `N` `Spawn` messages and one
/// `AddComponent` per component in its replay, and no `Update` at all —
/// every later update therefore follows the object's spawn.
pub proof fn lemma_full_sync_completeness(mobs: Seq<MobView>, sids: Seq<(u32, u32)>)
    requires
        forall|i: int| 0 <= i < mobs.len() ==> spec_contains(sids, #[trigger] mobs[i].entity),
        forall|i: int, j: int|
            0 <= i < mobs.len() && 0 <= j < mobs[i].components.len() ==> spec_fits(
                #[trigger] mobs[i].components[j],
            ),
    ensures
        spec_count_spawns(spec_full_sync_msgs(mobs, sids)) == mobs.len(),
        spec_count_adds(spec_full_sync_msgs(mobs, sids)) == spec_total_components(mobs),
        spec_count_updates(spec_full_sync_msgs(mobs, sids)) == 0,
    decreases mobs.len(),
{
    if mobs.len() > 0 {
        let front = mobs.drop_last();
        assert(forall|i: int| 0 <= i < front.len() ==> front[i] == mobs[i]);
        lemma_full_sync_completeness(front, sids);
        let m = mobs.last();
        assert(m == mobs[mobs.len() - 1]);
        lemma_spawn_block_counts(m, sids, 0);
        lemma_counts_concat(spec_full_sync_msgs(front, sids), spec_spawn_block(m, sids), 0);
    }
}

/// No two components anywhere in the store share a component id.
pub open spec fn spec_unique_component_ids(mobs: Seq<MobView>) -> bool {
    forall|i1: int, j1: int, i2: int, j2: int|
        0 <= i1 < mobs.len() && 0 <= j1 < mobs[i1].components.len() && 0 <= i2 < mobs.len() && 0
            <= j2 < mobs[i2].components.len() && (i1 != i2 || j1 != j2)
            ==> #[trigger] mobs[i1].components[j1].repl_id()
            != #[trigger] mobs[i2].components[j2].repl_id()
}

/// Counts over the update run of one component list.
proof fn lemma_components_update_count(cs: Seq<crate::store::ReplicatedComponent>, id: u32)
    ensures
        spec_count_updates_for_id(spec_update_msgs_for_components(cs), id) >= 0,
        (forall|j1: int, j2: int|
            0 <= j1 < j2 < cs.len() ==> #[trigger] cs[j1].repl_id() != #[trigger] cs[j2].repl_id())
            ==> spec_count_updates_for_id(spec_update_msgs_for_components(cs), id) <= 1,
        spec_count_updates_for_id(spec_update_msgs_for_components(cs), id) > 0 ==> exists|j: int|
            0 <= j < cs.len() && (#[trigger] cs[j].repl_id()) == id,
    decreases cs.len(),
{
    if cs.len() > 0 {
        let front = cs.drop_last();
        assert(forall|j: int| 0 <= j < front.len() ==> front[j] == cs[j]);
        lemma_components_update_count(front, id);
        if spec_fits(cs.last()) {
            lemma_counts_singleton(spec_update_msg(cs.last()), id);
            lemma_counts_concat(
                spec_update_msgs_for_components(front),
                seq![spec_update_msg(cs.last())],
                id,
            );
        } else {
            assert(spec_update_msgs_for_components(front) + Seq::<MessageView>::empty()
                =~= spec_update_msgs_for_components(front));
        }
        if spec_count_updates_for_id(spec_update_msgs_for_components(cs), id) > 0 {
            if spec_count_updates_for_id(spec_update_msgs_for_components(front), id) > 0 {
                let j = choose|j: int| 0 <= j < front.len() && (#[trigger] front[j].repl_id()) == id;
                assert(cs[j].repl_id() == id);
            } else {
                assert(cs[cs.len() - 1].repl_id() == id);
            }
        }
    }
}

/// Counts over the update run of one dirty entity.
proof fn lemma_entity_update_count(mobs: Seq<MobView>, e: u32, id: u32)
    requires
        spec_unique_component_ids(mobs),
    ensures
        spec_count_updates_for_id(spec_update_msgs_for_entity(mobs, e), id) >= 0,
        spec_count_updates_for_id(spec_update_msgs_for_entity(mobs, e), id) <= 1,
        spec_count_updates_for_id(spec_update_msgs_for_entity(mobs, e), id) > 0 ==> (
        match spec_find_mob(mobs, e) {
            Some(i) => exists|j: int|
                0 <= j < mobs[i].components.len() && (#[trigger] mobs[i].components[j].repl_id())
                    == id,
            None => false,
        }),
{
    crate::store::lemma_find_mob_characterization(mobs, e);
    match spec_find_mob(mobs, e) {
        Some(i) => {
            assert(forall|j1: int, j2: int|
                0 <= j1 < j2 < mobs[i].components.len() ==> #[trigger] mobs[i].components[j1].repl_id()
                    != #[trigger] mobs[i].components[j2].repl_id());
            lemma_components_update_count(mobs[i].components, id);
        },
        None => {},
    }
}

/// Whether the mob owning entity `e` holds a component with id `id`.
pub open spec fn spec_owns_id(mobs: Seq<MobView>, e: u32, id: u32) -> bool {
    match spec_find_mob(mobs, e) {
        Some(i) => exists|j: int|
            0 <= j < mobs[i].components.len() && (#[trigger] mobs[i].components[j].repl_id()) == id,
        None => false,
    }
}

/// Dirty idempotence: however many times an object was marked dirty in a
/// tick, its flush emits at most one `Update` per component id — the dirty
/// set is duplicate-free and component ids are unique across the store.
pub proof fn lemma_dirty_updates_at_most_once(mobs: Seq<MobView>, dirty: Seq<u32>, id: u32)
    requires
        forall|i: int, j: int| 0 <= i < j < dirty.len() ==> dirty[i] != dirty[j],
        forall|i: int, j: int| 0 <= i < j < mobs.len() ==> mobs[i].entity != mobs[j].entity,
        spec_unique_component_ids(mobs),
    ensures
        spec_count_updates_for_id(spec_update_msgs(mobs, dirty), id) >= 0,
        spec_count_updates_for_id(spec_update_msgs(mobs, dirty), id) <= 1,
        spec_count_updates_for_id(spec_update_msgs(mobs, dirty), id) > 0 ==> exists|k: int|
            0 <= k < dirty.len() && spec_owns_id(mobs, #[trigger] dirty[k], id),
    decreases dirty.len(),
{
    if dirty.len() > 0 {
        let front = dirty.drop_last();
        assert(forall|k: int| 0 <= k < front.len() ==> front[k] == dirty[k]);
        lemma_dirty_updates_at_most_once(mobs, front, id);
        let e = dirty.last();
        lemma_entity_update_count(mobs, e, id);
        lemma_counts_concat(
            spec_update_msgs(mobs, front),
            spec_update_msgs_for_entity(mobs, e),
            id,
        );
        let ca = spec_count_updates_for_id(spec_update_msgs(mobs, front), id);
        let cb = spec_count_updates_for_id(spec_update_msgs_for_entity(mobs, e), id);
        if ca > 0 && cb > 0 {
            let k = choose|k: int| 0 <= k < front.len() && spec_owns_id(mobs, #[trigger] front[k], id);
            let e1 = front[k];
            assert(e1 != e);
            crate::store::lemma_find_mob_characterization(mobs, e1);
            crate::store::lemma_find_mob_characterization(mobs, e);
            let i1 = spec_find_mob(mobs, e1)->Some_0;
            let i2 = spec_find_mob(mobs, e)->Some_0;
            assert(i1 != i2);
            let j1 = choose|j: int|
                0 <= j < mobs[i1].components.len() && (#[trigger] mobs[i1].components[j].repl_id())
                    == id;
            let j2 = choose|j: int|
                0 <= j < mobs[i2].components.len() && (#[trigger] mobs[i2].components[j].repl_id())
                    == id;
            assert(mobs[i1].components[j1].repl_id() != mobs[i2].components[j2].repl_id());
            assert(false);
        }
        if ca + cb > 0 {
            if cb > 0 {
                assert(spec_owns_id(mobs, dirty[dirty.len() - 1], id));
            } else {
                let k = choose|k: int|
                    0 <= k < front.len() && spec_owns_id(mobs, #[trigger] front[k], id);
                assert(spec_owns_id(mobs, dirty[k], id));
            }
        }
    }
}

/// Encodes one component into a fresh payload, enforcing the bounded
/// buffer: a component whose encoding does not fit yields `None`, never a
/// truncated payload.
fn encode_component(comp: &crate::store::ReplicatedComponent) -> (r: Option<Vec<u8>>)
    ensures
        match r {
            Some(v) => spec_fits(*comp) && v@ == comp.repl_enc(),
            None => !spec_fits(*comp),
        },
{
    let mut data: Vec<u8> = vec![0u8; REPLICATION_BUFFER_SIZE];
    match comp.serialize(&mut data) {
        Ok(n) => {
            data.truncate(n);
            proof {
                assert(data@ =~= comp.repl_enc());
            }
            Some(data)
        },
        Err(_) => None,
    }
}

/// Appends one update message per component of `mob` that fits the payload
/// buffer, in component order.
fn push_update_messages_for_mob(mob: &Mob, out: &mut Vec<Message>)
    ensures
        spec_views_of(final(out)@) == spec_views_of(old(out)@)
            + spec_update_msgs_for_components(mob@.components),
{
    let ghost uprefix = spec_views_of(out@);
    let mut ci: usize = 0;
    while ci < mob.components.len()
        invariant
            ci <= mob@.components.len(),
            spec_views_of(out@) == uprefix + spec_update_msgs_for_components(
                mob@.components.take(ci as int),
            ),
        decreases mob@.components.len() - ci,
    {
        let comp = &mob.components[ci];
        match encode_component(comp) {
            Some(data) => {
                let message = Message::Update(UpdateData { id: comp.id(), data });
                out.push(message);
                proof {
                    assert(message@ == spec_update_msg(mob@.components[ci as int]));
                    assert(spec_views_of(out@) =~= (uprefix + spec_update_msgs_for_components(
                        mob@.components.take(ci as int),
                    )) + seq![message@]);
                }
            },
            None => {},
        }
        proof {
            let cs = mob@.components;
            assert(cs.take(ci as int + 1).drop_last() =~= cs.take(ci as int));
            assert(cs.take(ci as int + 1).last() == cs[ci as int]);
            if spec_fits(cs[ci as int]) {
                assert((uprefix + spec_update_msgs_for_components(cs.take(ci as int))) + seq![
                    spec_update_msg(cs[ci as int]),
                ] =~= uprefix + spec_update_msgs_for_components(cs.take(ci as int + 1)));
            } else {
                assert(spec_update_msgs_for_components(cs.take(ci as int))
                    + Seq::<MessageView>::empty() =~= spec_update_msgs_for_components(
                    cs.take(ci as int),
                ));
            }
        }
        ci = ci + 1;
    }
    proof {
        assert(mob@.components.take(mob@.components.len() as int) =~= mob@.components);
    }
}

} // verus!
