use std::collections::HashMap;

use vstd::prelude::*;

verus! {

/// The kinds of instance a group can enter.
#[derive(Clone, Copy, Debug, PartialEq, Eq, Structural, Hash)]
pub enum InstanceKind {
    Overworld,
    CrystalCaverns,
}

/// The kinds of mob an instance definition can place.
#[derive(Clone, Copy, Debug, PartialEq, Eq, Structural)]
pub enum MobKind {
    Goblin,
    Orc,
    Troll,
    CrystalGolem,
    CrystalGolemLord,
}

/// `count` mobs of one kind in a pack.
#[derive(Clone, Copy, Debug)]
pub struct MobSpawn {
    pub kind: MobKind,
    pub count: u8,
}

/// A running instance. Players are recorded by their network client id and
/// entities by their entity bits; `noise` is the instance's cached terrain
/// noise, built by the caller.
pub struct LiveInstance<N> {
    pub kind: InstanceKind,
    pub group_id: u32,
    /// Network client ids currently in this instance.
    pub client_ids: Vec<u64>,
    /// All entities (mobs + players) belonging to this instance.
    pub entities: Vec<u64>,
    /// node index → mob entities spawned at that pack node.
    pub pack_entities: HashMap<usize, Vec<u64>>,
    /// Cached terrain noise for this instance.
    pub noise: N,
}

/// All live instances, and which instance each group uses for each kind.
pub struct InstanceRegistry<N> {
    /// Id the next created instance receives.
    pub next_id: u32,
    pub instances: HashMap<u32, LiveInstance<N>>,
    /// `group_key(group_id, kind)` → instance id. The first group member to
    /// request a kind creates the instance; later members join it.
    pub group_instances: HashMap<u64, u32>,
}

pub open spec fn kind_code(kind: InstanceKind) -> u64 {
    match kind {
        InstanceKind::Overworld => 0,
        InstanceKind::CrystalCaverns => 1,
    }
}

/// Key of a `(group, kind)` pair in `group_instances`.
pub open spec fn group_key(group_id: u32, kind: InstanceKind) -> u64 {
    (group_id as u64 * 2 + kind_code(kind)) as u64
}

fn exec_group_key(group_id: u32, kind: InstanceKind) -> (k: u64)
    ensures
        k == group_key(group_id, kind),
{
    let code: u64 = match kind {
        InstanceKind::Overworld => 0,
        InstanceKind::CrystalCaverns => 1,
    };
    group_id as u64 * 2 + code
}

/// Different `(group, kind)` pairs have different keys.
pub proof fn lemma_group_key_injective(g1: u32, k1: InstanceKind, g2: u32, k2: InstanceKind)
    ensures
        group_key(g1, k1) == group_key(g2, k2) ==> g1 == g2 && k1 == k2,
{
}

/// `v` with every occurrence of `x` removed.
pub open spec fn without(v: Seq<u64>, x: u64) -> Seq<u64> {
    v.filter(|y: u64| y != x)
}

fn remove_all(v: &Vec<u64>, x: u64) -> (r: Vec<u64>)
    ensures
        r@ == without(v@, x),
{
    let mut r: Vec<u64> = Vec::new();
    let mut i: usize = 0;
    while i < v.len()
        invariant
            i <= v.len(),
            r@ == without(v@.take(i as int), x),
        decreases v.len() - i,
    {
        proof {
            reveal_with_fuel(Seq::filter, 1);
            assert(v@.take(i as int + 1).drop_last() =~= v@.take(i as int));
        }
        if v[i] != x {
            r.push(v[i]);
        }
        i = i + 1;
    }
    assert(v@.take(v.len() as int) =~= v@);
    r
}

impl<N> InstanceRegistry<N> {
    pub open spec fn spec_next_id(&self) -> u32 {
        self.next_id
    }

    /// The group table, by `(group, kind)`.
    pub open spec fn groups(&self) -> Map<(u32, InstanceKind), u32> {
        Map::new(
            |k: (u32, InstanceKind)| self.group_instances@.contains_key(group_key(k.0, k.1)),
            |k: (u32, InstanceKind)| self.group_instances@[group_key(k.0, k.1)],
        )
    }

    /// Well-formed: every instance id was handed out already, and every group
    /// entry names a live instance of that group and kind.
    pub open spec fn wf(&self) -> bool {
        &&& forall|id: u32| #[trigger] self.instances@.contains_key(id) ==> id < self.next_id
        &&& forall|key: u64| #[trigger] self.group_instances@.contains_key(key) ==> {
            let id = self.group_instances@[key];
            &&& self.instances@.contains_key(id)
            &&& group_key(self.instances@[id].group_id, self.instances@[id].kind) == key
        }
    }

    /// An empty registry.
    pub fn new() -> (reg: Self)
        ensures
            reg.wf(),
            reg.instances@ == Map::<u32, LiveInstance<N>>::empty(),
            reg.groups() == Map::<(u32, InstanceKind), u32>::empty(),
            reg.spec_next_id() == 0,
    {
        let reg = InstanceRegistry { next_id: 0, instances: HashMap::new(), group_instances: HashMap::new() };
        assert(reg.groups() =~= Map::<(u32, InstanceKind), u32>::empty());
        reg
    }

    /// Whether another instance id can be handed out.
    pub fn can_create(&self) -> (b: bool)
        ensures
            b == (self.spec_next_id() < u32::MAX),
    {
        self.next_id < u32::MAX
    }

    /// The group's instance of `kind`, if it has one.
    pub fn group_instance(&self, group_id: u32, kind: InstanceKind) -> (id: Option<u32>)
        ensures
            id == (if self.groups().contains_key((group_id, kind)) {
                Some(self.groups()[(group_id, kind)])
            } else {
                None
            }),
    {
        match self.group_instances.get(&exec_group_key(group_id, kind)) {
            Some(id) => Some(*id),
            None => None,
        }
    }

    /// Kind of the live instance `id`, if it exists.
    pub fn instance_kind(&self, id: u32) -> (k: Option<InstanceKind>)
        ensures
            k == (if self.instances@.contains_key(id) { Some(self.instances@[id].kind) } else { None }),
    {
        match self.instances.get(&id) {
            Some(live) => Some(live.kind),
            None => None,
        }
    }
}

/// Allocate a new instance of `kind` for `group_id` with the given terrain
/// noise and register it as the group's instance of that kind; returns its id.
/// Mobs are spawned separately.
pub fn create_instance<N>(kind: InstanceKind, group_id: u32, reg: &mut InstanceRegistry<N>, noise: N) -> (id: u32)
    requires
        old(reg).wf(),
        old(reg).spec_next_id() < u32::MAX,
    ensures
        final(reg).wf(),
        id == old(reg).spec_next_id(),
        final(reg).spec_next_id() == id + 1,
        !old(reg).instances@.contains_key(id),
        final(reg).instances@.dom() == old(reg).instances@.dom().insert(id),
        forall|other: u32| other != id && #[trigger] old(reg).instances@.contains_key(other)
            ==> final(reg).instances@[other] == old(reg).instances@[other],
        final(reg).instances@[id].kind == kind,
        final(reg).instances@[id].group_id == group_id,
        final(reg).instances@[id].client_ids@.len() == 0,
        final(reg).instances@[id].entities@.len() == 0,
        final(reg).instances@[id].pack_entities@.len() == 0,
        final(reg).instances@[id].noise == noise,
        final(reg).groups() == old(reg).groups().insert((group_id, kind), id),
{
    let id = reg.next_id;
    reg.next_id = reg.next_id + 1;
    let live = LiveInstance {
        kind,
        group_id,
        client_ids: Vec::new(),
        entities: Vec::new(),
        pack_entities: HashMap::new(),
        noise,
    };
    reg.instances.insert(id, live);
    let key = exec_group_key(group_id, kind);
    reg.group_instances.insert(key, id);
    proof {
        assert forall|k: (u32, InstanceKind)| true implies
            (#[trigger] reg.groups().contains_key(k)) == old(reg).groups().insert((group_id, kind), id).contains_key(k)
            && (reg.groups().contains_key(k) ==> reg.groups()[k] == old(reg).groups().insert((group_id, kind), id)[k]) by {
            lemma_group_key_injective(k.0, k.1, group_id, kind);
        }
        assert(reg.groups() =~= old(reg).groups().insert((group_id, kind), id));
    }
    id
}

/// What `ensure_group_instance(kind, group_id, .., noise)` does to a
/// registry: the group's instance of `kind` is `id` afterwards; an existing
/// one is returned with nothing changed, otherwise a fresh one is created.
pub open spec fn ensure_outcome<N>(
    before: InstanceRegistry<N>,
    after: InstanceRegistry<N>,
    id: u32,
    kind: InstanceKind,
    group_id: u32,
    noise: N,
) -> bool {
    &&& after.groups().contains_key((group_id, kind))
    &&& after.groups()[(group_id, kind)] == id
    &&& after.instances@.contains_key(id)
    &&& before.groups().contains_key((group_id, kind)) ==> {
        &&& id == before.groups()[(group_id, kind)]
        &&& after.instances@ == before.instances@
        &&& after.group_instances@ == before.group_instances@
        &&& after.next_id == before.next_id
    }
    &&& !before.groups().contains_key((group_id, kind)) ==> {
        &&& id == before.next_id
        &&& after.next_id == id + 1
        &&& after.instances@.dom() == before.instances@.dom().insert(id)
        &&& forall|other: u32| other != id && #[trigger] before.instances@.contains_key(other)
            ==> after.instances@[other] == before.instances@[other]
        &&& after.instances@[id].kind == kind
        &&& after.instances@[id].group_id == group_id
        &&& after.instances@[id].client_ids@.len() == 0
        &&& after.instances@[id].entities@.len() == 0
        &&& after.instances@[id].pack_entities@.len() == 0
        &&& after.instances@[id].noise == noise
        &&& after.groups() == before.groups().insert((group_id, kind), id)
    }
}

/// The group's instance of `kind`, creating it (with `noise`) if the group has
/// none yet; `noise` is dropped when the instance already exists.
pub fn ensure_group_instance<N>(kind: InstanceKind, group_id: u32, reg: &mut InstanceRegistry<N>, noise: N) -> (id: u32)
    requires
        old(reg).wf(),
        !old(reg).groups().contains_key((group_id, kind)) ==> old(reg).spec_next_id() < u32::MAX,
    ensures
        final(reg).wf(),
        ensure_outcome(*old(reg), *final(reg), id, kind, group_id, noise),
{
    match reg.group_instance(group_id, kind) {
        Some(id) => {
            proof {
                let key = group_key(group_id, kind);
                assert(reg.group_instances@.contains_key(key));
            }
            id
        },
        None => create_instance(kind, group_id, reg, noise),
    }
}

/// `after` is `before` with instance `id` replaced by `live`.
pub open spec fn replaced<N>(
    before: Map<u32, LiveInstance<N>>,
    after: Map<u32, LiveInstance<N>>,
    id: u32,
    live: LiveInstance<N>,
) -> bool {
    &&& after.dom() == before.dom()
    &&& after[id] == live
    &&& forall|other: u32| other != id && #[trigger] before.contains_key(other) ==> after[other] == before[other]
}

/// `after` records `client` and `entity` as joining `before`.
pub open spec fn joined<N>(before: LiveInstance<N>, after: LiveInstance<N>, client: u64, entity: u64) -> bool {
    &&& after.kind == before.kind
    &&& after.group_id == before.group_id
    &&& after.client_ids@ == before.client_ids@.push(client)
    &&& after.entities@ == before.entities@.push(entity)
    &&& after.pack_entities@ == before.pack_entities@
    &&& after.noise == before.noise
}

/// Record `client` (and its player `entity`) as a member of instance `id`.
/// Returns whether the instance still needs its mobs spawned (no pack has
/// been populated yet); persisted instances keep their mobs across rejoins.
pub fn admit_player<N>(reg: &mut InstanceRegistry<N>, id: u32, client: u64, entity: u64) -> (needs_population: bool)
    requires
        old(reg).wf(),
        old(reg).instances@.contains_key(id),
    ensures
        final(reg).wf(),
        needs_population == (old(reg).instances@[id].pack_entities@.len() == 0),
        exists|live: LiveInstance<N>| #[trigger] replaced(old(reg).instances@, final(reg).instances@, id, live)
            && joined(old(reg).instances@[id], live, client, entity),
        final(reg).group_instances@ == old(reg).group_instances@,
        final(reg).next_id == old(reg).next_id,
{
    let mut live = match reg.instances.remove(&id) {
        Some(l) => l,
        None => {
            return false;
        },
    };
    let needs = live.pack_entities.len() == 0;
    live.client_ids.push(client);
    live.entities.push(entity);
    let ghost new_live = live;
    reg.instances.insert(id, live);
    proof {
        assert(replaced(old(reg).instances@, reg.instances@, id, new_live));
    }
    needs
}

/// Add a player to a running instance and return the instance's client list,
/// which every existing entity of the instance should now replicate to.
pub fn assign_player_to_instance<N>(reg: &mut InstanceRegistry<N>, id: u32, client: u64, entity: u64) -> (targets: Vec<u64>)
    requires
        old(reg).wf(),
        old(reg).instances@.contains_key(id),
    ensures
        final(reg).wf(),
        exists|live: LiveInstance<N>| #[trigger] replaced(old(reg).instances@, final(reg).instances@, id, live)
            && joined(old(reg).instances@[id], live, client, entity),
        targets@ == old(reg).instances@[id].client_ids@.push(client),
        final(reg).group_instances@ == old(reg).group_instances@,
        final(reg).next_id == old(reg).next_id,
{
    admit_player(reg, id, client, entity);
    let mut targets: Vec<u64> = Vec::new();
    match reg.instances.get(&id) {
        Some(live) => {
            let mut i: usize = 0;
            while i < live.client_ids.len()
                invariant
                    i <= live.client_ids.len(),
                    targets@ == live.client_ids@.take(i as int),
                decreases live.client_ids.len() - i,
            {
                targets.push(live.client_ids[i]);
                i = i + 1;
                assert(targets@ =~= live.client_ids@.take(i as int));
            }
            assert(live.client_ids@.take(live.client_ids.len() as int) =~= live.client_ids@);
        },
        None => {},
    }
    targets
}

/// What `remove_player_from_instance(id, client, entity, ..)` does to a
/// registry, with `despawn` the entities it hands back.
pub open spec fn removal_outcome<N>(
    before: InstanceRegistry<N>,
    after: InstanceRegistry<N>,
    despawn: Seq<u64>,
    id: u32,
    client: u64,
    entity: u64,
) -> bool {
    &&& !before.instances@.contains_key(id) ==> {
            &&& after.instances@ == before.instances@
            &&& after.group_instances@ == before.group_instances@
            &&& despawn.len() == 0
        }
    &&& before.instances@.contains_key(id) ==> {
            let live = before.instances@[id];
            let clients = without(live.client_ids@, client);
            let entities = without(live.entities@, entity);
            if clients.len() > 0 {
                &&& despawn.len() == 0
                &&& after.group_instances@ == before.group_instances@
                &&& after.instances@.dom() == before.instances@.dom()
                &&& after.instances@[id].client_ids@ == clients
                &&& after.instances@[id].entities@ == entities
                &&& after.instances@[id].kind == live.kind
                &&& after.instances@[id].group_id == live.group_id
                &&& after.instances@[id].pack_entities@ == live.pack_entities@
                &&& forall|other: u32| other != id && #[trigger] before.instances@.contains_key(other)
                    ==> after.instances@[other] == before.instances@[other]
            } else {
                &&& despawn == entities
                &&& after.instances@ == before.instances@.remove(id)
                &&& after.group_instances@ == before.group_instances@.remove(group_key(live.group_id, live.kind))
            }
        }
}

/// Remove a player from instance `id`. When the instance becomes empty of
/// clients it is torn down: it leaves the registry and its group entry, and
/// every remaining entity is returned for despawning. Returns nothing to
/// despawn when the instance does not exist or still has clients.
pub fn remove_player_from_instance<N>(id: u32, client: u64, entity: u64, reg: &mut InstanceRegistry<N>) -> (despawn: Vec<u64>)
    requires
        old(reg).wf(),
    ensures
        final(reg).wf(),
        final(reg).next_id == old(reg).next_id,
        removal_outcome(*old(reg), *final(reg), despawn@, id, client, entity),
{
    let mut live = match reg.instances.remove(&id) {
        Some(l) => l,
        None => {
            assert(reg.instances@ =~= old(reg).instances@);
            return Vec::new();
        },
    };
    live.client_ids = remove_all(&live.client_ids, client);
    live.entities = remove_all(&live.entities, entity);
    if live.client_ids.len() > 0 {
        reg.instances.insert(id, live);
        return Vec::new();
    }
    let key = exec_group_key(live.group_id, live.kind);
    reg.group_instances.remove(&key);
    proof {
        assert forall|k: u64| #[trigger] reg.group_instances@.contains_key(k) implies {
            let v = reg.group_instances@[k];
            &&& reg.instances@.contains_key(v)
            &&& group_key(reg.instances@[v].group_id, reg.instances@[v].kind) == k
        } by {
            let v = old(reg).group_instances@[k];
            if v == id {
                assert(group_key(old(reg).instances@[id].group_id, old(reg).instances@[id].kind) == k);
            }
        }
    }
    live.entities
}

/// The mobs of node `node` in a pack map: its list, or nothing when the node
/// has no entry.
pub open spec fn pack_of(packs: Map<usize, Vec<u64>>, node: usize) -> Seq<u64> {
    if packs.contains_key(node) {
        packs[node]@
    } else {
        Seq::empty()
    }
}

/// The entities of `spawned` placed at node `node`, in the order they come.
pub open spec fn node_spawns(spawned: Seq<(usize, u64)>, node: usize) -> Seq<u64>
    decreases spawned.len(),
{
    if spawned.len() == 0 {
        Seq::empty()
    } else if spawned.last().0 == node {
        node_spawns(spawned.drop_last(), node).push(spawned.last().1)
    } else {
        node_spawns(spawned.drop_last(), node)
    }
}

/// Record mobs spawned for instance `id`: each `(node index, entity)` joins the
/// instance's entities and its node's pack, in order.
pub fn register_pack_entities<N>(reg: &mut InstanceRegistry<N>, id: u32, spawned: &Vec<(usize, u64)>)
    requires
        old(reg).wf(),
        old(reg).instances@.contains_key(id),
    ensures
        final(reg).wf(),
        final(reg).instances@.dom() == old(reg).instances@.dom(),
        final(reg).instances@[id].entities@ == old(reg).instances@[id].entities@
            + spawned@.map_values(|p: (usize, u64)| p.1),
        final(reg).instances@[id].client_ids@ == old(reg).instances@[id].client_ids@,
        final(reg).instances@[id].kind == old(reg).instances@[id].kind,
        final(reg).instances@[id].group_id == old(reg).instances@[id].group_id,
        forall|node: usize| #[trigger] final(reg).instances@[id].pack_entities@.contains_key(node) <==>
            (old(reg).instances@[id].pack_entities@.contains_key(node)
                || exists|i: int| 0 <= i < spawned@.len() && spawned@[i].0 == node),
        forall|node: usize| #[trigger] pack_of(final(reg).instances@[id].pack_entities@, node)
            == pack_of(old(reg).instances@[id].pack_entities@, node) + node_spawns(spawned@, node),
        forall|other: u32| other != id && #[trigger] old(reg).instances@.contains_key(other)
            ==> final(reg).instances@[other] == old(reg).instances@[other],
        final(reg).group_instances@ == old(reg).group_instances@,
        final(reg).next_id == old(reg).next_id,
{
    let mut live = match reg.instances.remove(&id) {
        Some(l) => l,
        None => {
            return;
        },
    };
    let ghost start = live;
    let mut i: usize = 0;
    while i < spawned.len()
        invariant
            i <= spawned.len(),
            live.kind == start.kind,
            live.group_id == start.group_id,
            live.client_ids@ == start.client_ids@,
            live.entities@ == start.entities@ + spawned@.take(i as int).map_values(|p: (usize, u64)| p.1),
            forall|node: usize| #[trigger] live.pack_entities@.contains_key(node) <==>
                (start.pack_entities@.contains_key(node)
                    || exists|j: int| 0 <= j < i && spawned@[j].0 == node),
            forall|node: usize| #[trigger] pack_of(live.pack_entities@, node)
                == pack_of(start.pack_entities@, node) + node_spawns(spawned@.take(i as int), node),
        decreases spawned.len() - i,
    {
        let ghost before = live.pack_entities@;
        let (node, e) = spawned[i];
        live.entities.push(e);
        let mut pack = match live.pack_entities.remove(&node) {
            Some(p) => p,
            None => Vec::new(),
        };
        pack.push(e);
        live.pack_entities.insert(node, pack);
        proof {
            assert(spawned@.take(i as int + 1).map_values(|p: (usize, u64)| p.1)
                =~= spawned@.take(i as int).map_values(|p: (usize, u64)| p.1).push(e));
            assert forall|n: usize| #[trigger] live.pack_entities@.contains_key(n) <==>
                (start.pack_entities@.contains_key(n)
                    || exists|j: int| 0 <= j < i + 1 && spawned@[j].0 == n) by {
                if n == node {
                    assert(spawned@[i as int].0 == n);
                }
            }
            let upto = spawned@.take(i as int + 1);
            assert(upto.drop_last() =~= spawned@.take(i as int));
            assert(upto.last() == spawned@[i as int]);
            assert forall|n: usize| #[trigger] pack_of(live.pack_entities@, n)
                == pack_of(start.pack_entities@, n) + node_spawns(upto, n) by {
                assert(pack_of(before, n) == pack_of(start.pack_entities@, n)
                    + node_spawns(spawned@.take(i as int), n));
                if n == node {
                    assert(pack_of(live.pack_entities@, n) =~= pack_of(before, n).push(e));
                } else {
                    assert(pack_of(live.pack_entities@, n) == pack_of(before, n));
                }
            }
        }
        i = i + 1;
    }
    assert(spawned@.take(spawned.len() as int) =~= spawned@);
    reg.instances.insert(id, live);
}

/// The steps of a transfer from `before` to `after`: leave `old_id` (handing
/// back `despawn`), get the group's instance `new_id` of `kind`, and join it,
/// learning whether it `needs_population`.
pub open spec fn transfer_steps<N>(
    before: InstanceRegistry<N>,
    after: InstanceRegistry<N>,
    old_id: u32,
    client: u64,
    entity: u64,
    kind: InstanceKind,
    group_id: u32,
    noise: N,
    new_id: u32,
    needs_population: bool,
    despawn: Seq<u64>,
) -> bool {
    exists|r1: InstanceRegistry<N>, r2: InstanceRegistry<N>|
        #![trigger removal_outcome(before, r1, despawn, old_id, client, entity), ensure_outcome(r1, r2, new_id, kind, group_id, noise)]
        {
            &&& removal_outcome(before, r1, despawn, old_id, client, entity)
            &&& r1.next_id == before.next_id
            &&& ensure_outcome(r1, r2, new_id, kind, group_id, noise)
            &&& needs_population == (r2.instances@[new_id].pack_entities@.len() == 0)
            &&& exists|live: LiveInstance<N>| #[trigger] replaced(r2.instances@, after.instances@, new_id, live)
                && joined(r2.instances@[new_id], live, client, entity)
            &&& after.group_instances@ == r2.group_instances@
            &&& after.next_id == r2.next_id
        }
}

/// Move a player (`client`, with its player `entity`) from instance `old_id`
/// into its group's instance of `kind`, creating that instance with `noise`
/// if the group has none. Returns `None`, changing nothing, when the player's
/// instance already is of `kind`. Otherwise returns the new instance id,
/// whether it still needs its mobs spawned, and the entities of the old
/// instance to despawn when the player was its last client.
pub fn transfer_player<N>(
    reg: &mut InstanceRegistry<N>,
    old_id: u32,
    client: u64,
    entity: u64,
    kind: InstanceKind,
    group_id: u32,
    noise: N,
) -> (out: Option<(u32, bool, Vec<u64>)>)
    requires
        old(reg).wf(),
        !old(reg).groups().contains_key((group_id, kind)) ==> old(reg).spec_next_id() < u32::MAX,
    ensures
        final(reg).wf(),
        out is None <==> (old(reg).instances@.contains_key(old_id) && old(reg).instances@[old_id].kind == kind),
        out is None ==> *final(reg) == *old(reg),
        out matches Some(t) ==> {
            let (new_id, needs_population, despawn) = t;
            &&& transfer_steps(*old(reg), *final(reg), old_id, client, entity, kind, group_id, noise, new_id, needs_population, despawn@)
            // The player lands in the group's instance of `kind`, as its newest client.
            &&& final(reg).groups().contains_key((group_id, kind))
            &&& final(reg).groups()[(group_id, kind)] == new_id
            &&& final(reg).instances@[new_id].kind == kind
            &&& final(reg).instances@[new_id].client_ids@.last() == client
        },
{
    match reg.instance_kind(old_id) {
        Some(k) => {
            if k == kind {
                return None;
            }
        },
        None => {},
    }
    let despawn = remove_player_from_instance(old_id, client, entity, reg);
    let ghost r1 = *reg;
    proof {
        // Leaving an instance of another kind keeps the group's entry for `kind`.
        if old(reg).groups().contains_key((group_id, kind)) && old(reg).instances@.contains_key(old_id) {
            let live = old(reg).instances@[old_id];
            lemma_group_key_injective(live.group_id, live.kind, group_id, kind);
            assert(reg.group_instances@.contains_key(group_key(group_id, kind)));
        }
    }
    let new_id = ensure_group_instance(kind, group_id, reg, noise);
    let ghost r2 = *reg;
    let needs = admit_player(reg, new_id, client, entity);
    proof {
        assert(removal_outcome(*old(reg), r1, despawn@, old_id, client, entity));
        assert(ensure_outcome(r1, r2, new_id, kind, group_id, noise));
        let live = choose|live: LiveInstance<N>| #[trigger] replaced(r2.instances@, reg.instances@, new_id, live)
            && joined(r2.instances@[new_id], live, client, entity);
        assert(reg.groups() =~= r2.groups());
        assert(r2.instances@[new_id].kind == kind) by {
            let key = group_key(group_id, kind);
            assert(r2.group_instances@.contains_key(key));
            lemma_group_key_injective(r2.instances@[new_id].group_id, r2.instances@[new_id].kind, group_id, kind);
        }
        assert(reg.instances@[new_id] == live);
        assert(live.client_ids@ == r2.instances@[new_id].client_ids@.push(client));
        assert(reg.instances@[new_id].client_ids@.last() == client);
        assert(needs == (r2.instances@[new_id].pack_entities@.len() == 0));
        assert(reg.groups().contains_key((group_id, kind)));
        assert(transfer_steps(*old(reg), *reg, old_id, client, entity, kind, group_id, noise, new_id, needs, despawn@));
    }
    Some((new_id, needs, despawn))
}

/// Law: asking again for a group's instance of a kind returns the instance
/// the first request produced and leaves the registry as it was.
pub proof fn lemma_ensure_is_idempotent<N>(
    r0: InstanceRegistry<N>,
    r1: InstanceRegistry<N>,
    r2: InstanceRegistry<N>,
    id1: u32,
    id2: u32,
    kind: InstanceKind,
    group_id: u32,
    n1: N,
    n2: N,
)
    requires
        ensure_outcome(r0, r1, id1, kind, group_id, n1),
        ensure_outcome(r1, r2, id2, kind, group_id, n2),
    ensures
        id2 == id1,
        r2.instances@ == r1.instances@,
        r2.group_instances@ == r1.group_instances@,
        r2.next_id == r1.next_id,
{
}

/// Law: a player who joins an empty instance and then leaves it takes the
/// instance down: it is gone from the registry and from its group's table.
pub proof fn lemma_sole_visitor_leaving_tears_down<N>(
    r0: InstanceRegistry<N>,
    r1: InstanceRegistry<N>,
    r2: InstanceRegistry<N>,
    despawn: Seq<u64>,
    id: u32,
    client: u64,
    entity: u64,
)
    requires
        r0.instances@.contains_key(id),
        r0.instances@[id].client_ids@.len() == 0,
        exists|live: LiveInstance<N>| #[trigger] replaced(r0.instances@, r1.instances@, id, live)
            && joined(r0.instances@[id], live, client, entity),
        r1.group_instances@ == r0.group_instances@,
        removal_outcome(r1, r2, despawn, id, client, entity),
    ensures
        !r2.instances@.contains_key(id),
        !r2.group_instances@.contains_key(group_key(r0.instances@[id].group_id, r0.instances@[id].kind)),
{
    let live = choose|live: LiveInstance<N>| #[trigger] replaced(r0.instances@, r1.instances@, id, live)
        && joined(r0.instances@[id], live, client, entity);
    let clients = r1.instances@[id].client_ids@;
    assert(clients == seq![client]);
    reveal_with_fuel(Seq::filter, 2);
    assert(seq![client].drop_last() =~= Seq::<u64>::empty());
    assert(without(clients, client).len() == 0);
}

/// One mob to spawn while populating an instance: the pack node it belongs
/// to, its index within that node's pack, and its kind.
#[derive(Clone, Copy, Debug, PartialEq, Eq, Structural)]
pub struct PackSlot {
    pub node_idx: usize,
    pub mob_idx: usize,
    pub kind: MobKind,
}

/// The kinds of a pack, each `MobSpawn` repeated `count` times, in order.
pub open spec fn expand_pack(mobs: Seq<MobSpawn>) -> Seq<MobKind>
    decreases mobs.len(),
{
    if mobs.len() == 0 {
        Seq::empty()
    } else {
        expand_pack(mobs.drop_last()) + Seq::new(mobs.last().count as nat, |i: int| mobs.last().kind)
    }
}

/// The slots of node `node`'s pack.
pub open spec fn node_slots(node: int, mobs: Seq<MobSpawn>) -> Seq<PackSlot> {
    expand_pack(mobs).map(|i: int, k: MobKind| PackSlot { node_idx: node as usize, mob_idx: i as usize, kind: k })
}

/// All slots of an instance whose nodes carry the packs `packs` (an empty
/// list for a node without a pack), node by node.
pub open spec fn spawn_plan(packs: Seq<Seq<MobSpawn>>) -> Seq<PackSlot>
    decreases packs.len(),
{
    if packs.len() == 0 {
        Seq::empty()
    } else {
        spawn_plan(packs.drop_last()) + node_slots(packs.len() - 1, packs.last())
    }
}

proof fn lemma_expand_prefix(m: Seq<MobSpawn>, j: int)
    requires
        0 <= j <= m.len(),
    ensures
        expand_pack(m.take(j)).len() <= expand_pack(m).len(),
    decreases m.len(),
{
    if j < m.len() {
        assert(m.take(j) =~= m.drop_last().take(j));
        lemma_expand_prefix(m.drop_last(), j);
    } else {
        assert(m.take(j) =~= m);
    }
}

proof fn lemma_plan_prefix(s: Seq<Seq<MobSpawn>>, n: int)
    requires
        0 <= n <= s.len(),
    ensures
        spawn_plan(s.take(n)).len() <= spawn_plan(s).len(),
    decreases s.len(),
{
    if n < s.len() {
        assert(s.take(n) =~= s.drop_last().take(n));
        lemma_plan_prefix(s.drop_last(), n);
    } else {
        assert(s.take(n) =~= s);
    }
}

/// Enumerate the mobs to spawn for an instance: for every node in order, every
/// pack entry in order, `count` mobs of its kind, numbered within the node.
pub fn pack_spawn_plan(packs: &Vec<Vec<MobSpawn>>) -> (plan: Vec<PackSlot>)
    requires
        spawn_plan(packs@.map_values(|p: Vec<MobSpawn>| p@)).len() < usize::MAX,
    ensures
        plan@ == spawn_plan(packs@.map_values(|p: Vec<MobSpawn>| p@)),
{
    let ghost views = packs@.map_values(|p: Vec<MobSpawn>| p@);
    let mut plan: Vec<PackSlot> = Vec::new();
    let mut n: usize = 0;
    while n < packs.len()
        invariant
            n <= packs.len(),
            views == packs@.map_values(|p: Vec<MobSpawn>| p@),
            plan@ == spawn_plan(views.take(n as int)),
            spawn_plan(views).len() < usize::MAX,
        decreases packs.len() - n,
    {
        let mobs = &packs[n];
        let ghost before = plan@;
        proof {
            assert(views.take(n as int + 1).drop_last() =~= views.take(n as int));
            assert(views[n as int] == mobs@);
            lemma_plan_prefix(views, n as int + 1);
        }
        let mut mob_i: usize = 0;
        let mut j: usize = 0;
        while j < mobs.len()
            invariant
                j <= mobs.len(),
                n < packs.len(),
                mobs == &packs[n as int],
                mob_i == expand_pack(mobs@.take(j as int)).len(),
                plan@ == before + node_slots(n as int, mobs@.take(j as int)),
                before.len() + expand_pack(mobs@).len() < usize::MAX,
            decreases mobs.len() - j,
        {
            let spawn = mobs[j];
            let ghost prefix = mobs@.take(j as int);
            assert(mobs@.take(j as int + 1).drop_last() =~= prefix);
            proof {
                lemma_expand_prefix(mobs@, j as int + 1);
            }
            let mut c: u8 = 0;
            while c < spawn.count
                invariant
                    c <= spawn.count,
                    mob_i == expand_pack(prefix).len() + c,
                    plan@ == before + node_slots(n as int, prefix)
                        + Seq::new(c as nat, |i: int| PackSlot {
                            node_idx: n,
                            mob_idx: (expand_pack(prefix).len() + i) as usize,
                            kind: spawn.kind,
                        }),
                    before.len() + expand_pack(prefix).len() + spawn.count < usize::MAX,
                decreases spawn.count - c,
            {
                plan.push(PackSlot { node_idx: n, mob_idx: mob_i, kind: spawn.kind });
                mob_i = mob_i + 1;
                c = c + 1;
                assert(plan@ =~= before + node_slots(n as int, prefix)
                    + Seq::new(c as nat, |i: int| PackSlot {
                        node_idx: n,
                        mob_idx: (expand_pack(prefix).len() + i) as usize,
                        kind: spawn.kind,
                    }));
            }
            j = j + 1;
            assert(node_slots(n as int, mobs@.take(j as int)) =~= node_slots(n as int, prefix)
                + Seq::new(spawn.count as nat, |i: int| PackSlot {
                    node_idx: n,
                    mob_idx: (expand_pack(prefix).len() + i) as usize,
                    kind: spawn.kind,
                }));
        }
        assert(mobs@.take(mobs.len() as int) =~= mobs@);
        assert(views.take(n as int + 1).drop_last() =~= views.take(n as int));
        n = n + 1;
    }
    assert(views.take(packs.len() as int) =~= views);
    plan
}

} // verus!
