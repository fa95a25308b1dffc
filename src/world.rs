//! The entity registry: identity allocation, directed mutation, action
//! application and per-tick integration.

use vstd::prelude::*;

use crate::control::{Action, MovingState};
use crate::vector::{fits_i32, vec2_add};

verus! {

/// Identity token of a body, minted by the registry.
#[derive(Clone, Copy, Debug, PartialEq, Eq, Structural, PartialOrd, Ord, Hash)]
pub struct ObjectName {
    id: usize,
}

impl View for ObjectName {
    type V = nat;

    closed spec fn view(&self) -> nat {
        self.id as nat
    }
}

impl ObjectName {
    pub fn id(&self) -> (r: usize)
        ensures
            r as nat == self@,
    {
        self.id
    }
}

/// Mathematical state of a body.
pub struct ObjectModel {
    pub position: (int, int),
    pub inertia: (int, int),
    pub control: MovingState,
}

impl ObjectModel {
    /// A freshly spawned body: at rest at the origin, no direction active.
    pub open spec fn fresh() -> ObjectModel {
        ObjectModel { position: (0, 0), inertia: (0, 0), control: MovingState::idle() }
    }

    /// Whether one integration step stays within `i32`.
    pub open spec fn can_integrate(self) -> bool {
        fits_i32(self.position.0 + self.inertia.0) && fits_i32(self.position.1 + self.inertia.1)
    }

    /// One integration step: position moves by inertia; inertia is kept.
    pub open spec fn integrated(self) -> ObjectModel {
        ObjectModel {
            position: (self.position.0 + self.inertia.0, self.position.1 + self.inertia.1),
            ..self
        }
    }

    /// The body with its inertia replaced by `v`.
    pub open spec fn with_inertia(self, v: (int, int)) -> ObjectModel {
        ObjectModel { inertia: v, ..self }
    }

    /// The body after one control action: the flags change and the inertia
    /// becomes what the new flags command.
    pub open spec fn with_action(self, action: Action) -> ObjectModel {
        ObjectModel {
            control: self.control.after(action),
            inertia: self.control.after(action).inertia_spec(),
            ..self
        }
    }
}

/// A simulated body with position and inertia.
#[derive(Clone, Copy, Debug)]
pub struct Object {
    position: [i32; 2],
    inertia: [i32; 2],
    control: MovingState,
}

impl View for Object {
    type V = ObjectModel;

    closed spec fn view(&self) -> ObjectModel {
        ObjectModel {
            position: (self.position[0] as int, self.position[1] as int),
            inertia: (self.inertia[0] as int, self.inertia[1] as int),
            control: self.control,
        }
    }
}

impl Object {
    fn fresh() -> (r: Object)
        ensures
            r@ == ObjectModel::fresh(),
    {
        Object { position: [0, 0], inertia: [0, 0], control: MovingState::new() }
    }

    /// Replaces the inertia; nothing else changes.
    pub fn set_inertia(&mut self, inertia: [i32; 2])
        ensures
            final(self)@ == old(self)@.with_inertia((inertia[0] as int, inertia[1] as int)),
    {
        self.inertia = inertia;
    }

    pub fn get_position(&self) -> (r: [i32; 2])
        ensures
            r[0] as int == self@.position.0,
            r[1] as int == self@.position.1,
    {
        self.position
    }

    pub fn get_inertia(&self) -> (r: [i32; 2])
        ensures
            r[0] as int == self@.inertia.0,
            r[1] as int == self@.inertia.1,
    {
        self.inertia
    }

    pub fn get_control(&self) -> (r: MovingState)
        ensures
            r == self@.control,
    {
        self.control
    }

    /// Applies one control action to the flags and commands the resulting inertia.
    pub fn apply_action(&mut self, action: Action)
        ensures
            final(self)@ == old(self)@.with_action(action),
    {
        self.control.apply(action);
        self.inertia = self.control.inertia();
    }

    /// One integration step: position += inertia.
    pub fn update(&mut self)
        requires
            old(self)@.can_integrate(),
        ensures
            final(self)@ == old(self)@.integrated(),
    {
        self.position = vec2_add(self.position, self.inertia);
    }
}

/// Mathematical state of a registry: its bodies in iteration order, and the
/// identity that the next spawn will mint.
pub struct WorldModel {
    pub objects: Seq<(ObjectName, ObjectModel)>,
    pub next_id: nat,
}

impl WorldModel {
    /// Identities strictly increase in iteration order and all lie below the
    /// next identity to be minted, so no two bodies share a name.
    pub open spec fn wf(self) -> bool {
        &&& forall|i: int, j: int|
            0 <= i < j < self.objects.len() ==> #[trigger] self.objects[i].0@ < #[trigger] self.objects[j].0@
        &&& forall|i: int| 0 <= i < self.objects.len() ==> #[trigger] self.objects[i].0@ < self.next_id
    }

    pub open spec fn has(self, name: ObjectName) -> bool {
        exists|i: int| 0 <= i < self.objects.len() && #[trigger] self.objects[i].0 == name
    }

    /// The registry after minting `name` for a fresh body.
    pub open spec fn spawned(self, name: ObjectName) -> WorldModel {
        WorldModel {
            objects: self.objects.push((name, ObjectModel::fresh())),
            next_id: self.next_id + 1,
        }
    }

    /// The registry without the body at index `i`; identities are not reissued.
    pub open spec fn removed(self, i: int) -> WorldModel {
        WorldModel { objects: self.objects.remove(i), ..self }
    }

    /// The registry with the inertia of the body named `name` replaced, if any.
    pub open spec fn set_inertia(self, name: ObjectName, v: (int, int)) -> WorldModel {
        WorldModel {
            objects: self.objects.map_values(
                |e: (ObjectName, ObjectModel)|
                    if e.0 == name { (e.0, e.1.with_inertia(v)) } else { e },
            ),
            ..self
        }
    }

    /// The registry with one action routed to the body named `name`, if any.
    pub open spec fn apply_action(self, name: ObjectName, action: Action) -> WorldModel {
        WorldModel {
            objects: self.objects.map_values(
                |e: (ObjectName, ObjectModel)|
                    if e.0 == name { (e.0, e.1.with_action(action)) } else { e },
            ),
            ..self
        }
    }

    /// The registry after routing every action of the batch, in order.
    pub open spec fn apply_batch(self, batch: Seq<(ObjectName, Action)>) -> WorldModel
        decreases batch.len(),
    {
        if batch.len() == 0 {
            self
        } else {
            self.apply_batch(batch.drop_last()).apply_action(batch.last().0, batch.last().1)
        }
    }

    pub open spec fn can_integrate(self) -> bool {
        forall|i: int| 0 <= i < self.objects.len() ==> (#[trigger] self.objects[i]).1.can_integrate()
    }

    /// Every body integrated once, independently of the others.
    pub open spec fn integrated(self) -> WorldModel {
        WorldModel {
            objects: self.objects.map_values(
                |e: (ObjectName, ObjectModel)| (e.0, e.1.integrated()),
            ),
            ..self
        }
    }

    /// One tick: route the batch, then integrate. No state where integration
    /// would leave `i32`.
    pub open spec fn tick(self, batch: Seq<(ObjectName, Action)>) -> Option<WorldModel> {
        let routed = self.apply_batch(batch);
        if routed.can_integrate() {
            Some(routed.integrated())
        } else {
            None
        }
    }
}

/// The authoritative registry of bodies, ordered by name.
#[derive(Debug)]
pub struct World {
    objects: Vec<(ObjectName, Object)>,
    next_id: usize,
}

impl View for World {
    type V = WorldModel;

    closed spec fn view(&self) -> WorldModel {
        WorldModel {
            objects: self.objects@.map_values(|e: (ObjectName, Object)| (e.0, e.1@)),
            next_id: self.next_id as nat,
        }
    }
}

impl World {
    pub fn new() -> (r: World)
        ensures
            r@.wf(),
            r@.objects.len() == 0,
            r@.next_id == 0,
    {
        World { objects: Vec::new(), next_id: 0 }
    }

    /// Whether another identity can still be minted.
    pub fn can_spawn(&self) -> (r: bool)
        ensures
            r == (self@.next_id < usize::MAX),
    {
        self.next_id < usize::MAX
    }

    /// Mints a never-used name, registers a fresh body under it, and returns it.
    pub fn spawn_object(&mut self) -> (name: ObjectName)
        requires
            old(self)@.wf(),
            old(self)@.next_id < usize::MAX,
        ensures
            final(self)@.wf(),
            name@ == old(self)@.next_id,
            !old(self)@.has(name),
            final(self)@ == old(self)@.spawned(name),
    {
        let name = ObjectName { id: self.next_id };
        self.objects.push((name, Object::fresh()));
        self.next_id = self.next_id + 1;
        proof {
            let pre = old(self)@;
            let post = final(self)@;
            assert(post.objects =~= pre.objects.push((name, ObjectModel::fresh())));
            assert forall|a: int, b: int| 0 <= a < b < post.objects.len() implies
                #[trigger] post.objects[a].0@ < #[trigger] post.objects[b].0@ by {
                assert(post.objects[a] == pre.objects[a]);
                assert(pre.objects[a].0@ < pre.next_id);
                if b < pre.objects.len() {
                    assert(post.objects[b] == pre.objects[b]);
                    assert(pre.objects[a].0@ < pre.objects[b].0@);
                } else {
                    assert(post.objects[b].0 == name);
                }
            }
            assert forall|k: int| 0 <= k < post.objects.len() implies #[trigger] post.objects[k].0@ < post.next_id by {
                if k < pre.objects.len() {
                    assert(post.objects[k] == pre.objects[k]);
                    assert(pre.objects[k].0@ < pre.next_id);
                }
            }
        }
        name
    }

    /// Removes the body named `name`, reporting whether it was registered; an
    /// unknown name changes nothing. Its identity is never minted again.
    pub fn despawn_object(&mut self, name: &ObjectName) -> (r: bool)
        requires
            old(self)@.wf(),
        ensures
            final(self)@.wf(),
            r == old(self)@.has(*name),
            !final(self)@.has(*name),
            !r ==> final(self)@ == old(self)@,
            r ==> exists|i: int|
                0 <= i < old(self)@.objects.len() && #[trigger] old(self)@.objects[i].0 == *name
                    && final(self)@ == old(self)@.removed(i),
    {
        let ghost pre = self@;
        let n = self.objects.len();
        let mut i: usize = 0;
        while i < n
            invariant
                n == self.objects@.len(),
                i <= n,
                self@ == pre,
                pre == old(self)@,
                pre.wf(),
                forall|k: int| 0 <= k < i ==> (#[trigger] self.objects@[k]).0 != *name,
            decreases n - i,
        {
            if self.objects[i].0 == *name {
                assert(pre.objects[i as int].0 == *name);
                self.objects.remove(i);
                proof {
                    assert(self@.objects =~= pre.objects.remove(i as int));
                    assert forall|a: int, b: int|
                        0 <= a < b < self@.objects.len() implies #[trigger] self@.objects[a].0@
                        < #[trigger] self@.objects[b].0@ by {
                        let x = if a < i { a } else { a + 1 };
                        let y = if b < i { b } else { b + 1 };
                        assert(self@.objects[a] == pre.objects[x]);
                        assert(self@.objects[b] == pre.objects[y]);
                        assert(pre.objects[x].0@ < pre.objects[y].0@);
                    }
                    assert forall|k: int| 0 <= k < self@.objects.len() implies #[trigger] self@.objects[k].0 != *name by {
                        if k < i {
                            assert(self@.objects[k] == pre.objects[k]);
                            let j = i as int;
                            assert(pre.objects[k].0@ < pre.objects[j].0@);
                        } else {
                            assert(self@.objects[k] == pre.objects[k + 1]);
                            assert(pre.objects[i as int].0@ < pre.objects[k + 1].0@);
                        }
                    }
                }
                return true;
            }
            i = i + 1;
        }
        proof {
            assert forall|k: int| 0 <= k < pre.objects.len() implies #[trigger] pre.objects[k].0 != *name by {
                assert(self.objects@[k].0 != *name);
            }
        }
        false
    }

    /// Replaces the inertia of the body named `name`; an unknown name changes nothing.
    pub fn set_object_inertia(&mut self, name: &ObjectName, inertia: [i32; 2])
        requires
            old(self)@.wf(),
        ensures
            final(self)@.wf(),
            final(self)@ == old(self)@.set_inertia(*name, (inertia[0] as int, inertia[1] as int)),
    {
        let ghost pre = self@;
        let n = self.objects.len();
        let mut i: usize = 0;
        while i < n
            invariant
                n == self.objects@.len(),
                i <= n,
                self@.next_id == pre.next_id,
                self@.objects.len() == pre.objects.len(),
                forall|k: int| 0 <= k < i ==> (#[trigger] self.objects@[k].0, self.objects@[k].1@) == (
                    if pre.objects[k].0 == *name { (pre.objects[k].0, pre.objects[k].1.with_inertia((inertia[0] as int, inertia[1] as int))) }
                    else { pre.objects[k] }),
                forall|k: int| i <= k < n ==> (#[trigger] self.objects@[k].0, self.objects@[k].1@) == pre.objects[k],
            decreases n - i,
        {
            let (key, mut object) = self.objects[i];
            if key == *name {
                object.set_inertia(inertia);
                self.objects.set(i, (key, object));
            }
            i = i + 1;
        }
        proof {
            assert(self@.objects =~= pre.set_inertia(*name, (inertia[0] as int, inertia[1] as int)).objects);
        }
    }

    /// Routes one action to the body named `name`; an unknown name changes nothing.
    pub fn apply_action(&mut self, name: &ObjectName, action: Action)
        requires
            old(self)@.wf(),
        ensures
            final(self)@.wf(),
            final(self)@ == old(self)@.apply_action(*name, action),
    {
        let ghost pre = self@;
        let n = self.objects.len();
        let mut i: usize = 0;
        while i < n
            invariant
                n == self.objects@.len(),
                i <= n,
                self@.next_id == pre.next_id,
                self@.objects.len() == pre.objects.len(),
                forall|k: int| 0 <= k < i ==> (#[trigger] self.objects@[k].0, self.objects@[k].1@) == (
                    if pre.objects[k].0 == *name { (pre.objects[k].0, pre.objects[k].1.with_action(action)) }
                    else { pre.objects[k] }),
                forall|k: int| i <= k < n ==> (#[trigger] self.objects@[k].0, self.objects@[k].1@) == pre.objects[k],
            decreases n - i,
        {
            let (key, mut object) = self.objects[i];
            if key == *name {
                object.apply_action(action);
                self.objects.set(i, (key, object));
            }
            i = i + 1;
        }
        proof {
            assert(self@.objects =~= pre.apply_action(*name, action).objects);
        }
    }

    /// Routes every action of the batch, in order.
    pub fn apply_actions(&mut self, batch: &Vec<(ObjectName, Action)>)
        requires
            old(self)@.wf(),
        ensures
            final(self)@.wf(),
            final(self)@ == old(self)@.apply_batch(batch@),
    {
        let ghost pre = self@;
        let mut i: usize = 0;
        while i < batch.len()
            invariant
                i <= batch@.len(),
                self@.wf(),
                self@ == pre.apply_batch(batch@.subrange(0, i as int)),
            decreases batch@.len() - i,
        {
            let (name, action) = batch[i];
            self.apply_action(&name, action);
            proof {
                let s = batch@.subrange(0, i + 1);
                assert(s.drop_last() =~= batch@.subrange(0, i as int));
            }
            i = i + 1;
        }
        proof {
            assert(batch@.subrange(0, batch@.len() as int) =~= batch@);
        }
    }

    /// Whether integrating every body once stays within `i32`.
    pub fn can_update(&self) -> (r: bool)
        ensures
            r == self@.can_integrate(),
    {
        let n = self.objects.len();
        let mut i: usize = 0;
        while i < n
            invariant
                n == self.objects@.len(),
                i <= n,
                forall|k: int| 0 <= k < i ==> (#[trigger] self@.objects[k]).1.can_integrate(),
            decreases n - i,
        {
            let p = self.objects[i].1.get_position();
            let v = self.objects[i].1.get_inertia();
            let x = p[0] as i64 + v[0] as i64;
            let y = p[1] as i64 + v[1] as i64;
            if x < i32::MIN as i64 || x > i32::MAX as i64 || y < i32::MIN as i64 || y > i32::MAX as i64 {
                assert(!self@.objects[i as int].1.can_integrate());
                return false;
            }
            i = i + 1;
        }
        true
    }

    /// Integrates every body once: position += inertia.
    pub fn update(&mut self)
        requires
            old(self)@.wf(),
            old(self)@.can_integrate(),
        ensures
            final(self)@.wf(),
            final(self)@ == old(self)@.integrated(),
    {
        let ghost pre = self@;
        let n = self.objects.len();
        let mut i: usize = 0;
        while i < n
            invariant
                n == self.objects@.len(),
                i <= n,
                pre.can_integrate(),
                self@.next_id == pre.next_id,
                self@.objects.len() == pre.objects.len(),
                forall|k: int| 0 <= k < i ==> (#[trigger] self.objects@[k].0, self.objects@[k].1@) == (pre.objects[k].0, pre.objects[k].1.integrated()),
                forall|k: int| i <= k < n ==> (#[trigger] self.objects@[k].0, self.objects@[k].1@) == pre.objects[k],
            decreases n - i,
        {
            let (key, mut object) = self.objects[i];
            assert(pre.objects[i as int].1.can_integrate());
            object.update();
            self.objects.set(i, (key, object));
            i = i + 1;
        }
        proof {
            assert(self@.objects =~= pre.integrated().objects);
        }
    }

    /// A deep, independent copy, for a candidate next state.
    pub fn duplicate(&self) -> (r: World)
        ensures
            r@ == self@,
    {
        let n = self.objects.len();
        let mut objects: Vec<(ObjectName, Object)> = Vec::new();
        let mut i: usize = 0;
        while i < n
            invariant
                n == self.objects@.len(),
                i <= n,
                objects@ =~= self.objects@.subrange(0, i as int),
            decreases n - i,
        {
            objects.push(self.objects[i]);
            i = i + 1;
        }
        let r = World { objects, next_id: self.next_id };
        proof {
            assert(objects@ =~= self.objects@);
        }
        r
    }

    /// Computes the next authoritative state from a batch of actions: on a
    /// copy, routes every action in order, then integrates once. The batch is
    /// rejected as a whole, with `None`, where integration would leave `i32`;
    /// `self` is never touched.
    pub fn next_state(&self, batch: &Vec<(ObjectName, Action)>) -> (r: Option<World>)
        requires
            self@.wf(),
        ensures
            r is None <==> self@.tick(batch@) is None,
            r matches Some(w) ==> w@.wf() && self@.tick(batch@) == Some(w@),
    {
        let mut candidate = self.duplicate();
        candidate.apply_actions(batch);
        if candidate.can_update() {
            candidate.update();
            Some(candidate)
        } else {
            None
        }
    }

    /// Number of registered bodies.
    pub fn len(&self) -> (r: usize)
        ensures
            r == self@.objects.len(),
    {
        self.objects.len()
    }

    /// A copy of the body named `name`, if it is registered.
    pub fn get_object(&self, name: &ObjectName) -> (r: Option<Object>)
        requires
            self@.wf(),
        ensures
            r is None <==> !self@.has(*name),
            r matches Some(o) ==> exists|i: int|
                0 <= i < self@.objects.len() && #[trigger] self@.objects[i] == (*name, o@),
    {
        let n = self.objects.len();
        let mut i: usize = 0;
        while i < n
            invariant
                n == self.objects@.len(),
                i <= n,
                forall|k: int| 0 <= k < i ==> (#[trigger] self.objects@[k]).0 != *name,
            decreases n - i,
        {
            if self.objects[i].0 == *name {
                assert(self@.objects[i as int] == (*name, self.objects@[i as int].1@));
                assert(self@.objects[i as int].0 == *name);
                return Some(self.objects[i].1);
            }
            i = i + 1;
        }
        proof {
            if self@.has(*name) {
                let k = choose|k: int| 0 <= k < self@.objects.len() && #[trigger] self@.objects[k].0 == *name;
                assert(self.objects@[k].0 == *name);
            }
        }
        None
    }

    /// Read-only snapshot of every body's name and position, in name order.
    pub fn positions(&self) -> (r: Vec<(ObjectName, [i32; 2])>)
        ensures
            r@.len() == self@.objects.len(),
            forall|k: int| 0 <= k < r@.len() ==> {
                &&& (#[trigger] r@[k]).0 == self@.objects[k].0
                &&& r@[k].1[0] as int == self@.objects[k].1.position.0
                &&& r@[k].1[1] as int == self@.objects[k].1.position.1
            },
    {
        let n = self.objects.len();
        let mut r: Vec<(ObjectName, [i32; 2])> = Vec::new();
        let mut i: usize = 0;
        while i < n
            invariant
                n == self.objects@.len(),
                i <= n,
                r@.len() == i,
                forall|k: int| 0 <= k < i ==> {
                    &&& (#[trigger] r@[k]).0 == self@.objects[k].0
                    &&& r@[k].1[0] as int == self@.objects[k].1.position.0
                    &&& r@[k].1[1] as int == self@.objects[k].1.position.1
                },
            decreases n - i,
        {
            let (name, object) = self.objects[i];
            r.push((name, object.get_position()));
            i = i + 1;
        }
        r
    }
}

/// `names[k]` is what the spawn from `worlds[k]` to `worlds[k + 1]` returned,
/// as `World::spawn_object` states it, for every `k`.
pub open spec fn spawn_chain(worlds: Seq<WorldModel>, names: Seq<ObjectName>) -> bool {
    &&& worlds.len() == names.len() + 1
    &&& forall|k: int|
        0 <= k < names.len() ==> (#[trigger] names[k])@ == worlds[k].next_id && worlds[k + 1]
            == worlds[k].spawned(names[k])
}

/// Successive spawns mint consecutive identities starting from the first
/// registry's counter.
proof fn lemma_spawn_ids(worlds: Seq<WorldModel>, names: Seq<ObjectName>, i: int)
    requires
        spawn_chain(worlds, names),
        0 <= i < names.len(),
    ensures
        names[i]@ == worlds[0].next_id + i,
    decreases i,
{
    if i > 0 {
        lemma_spawn_ids(worlds, names, i - 1);
        assert(worlds[i] == worlds[i - 1].spawned(names[i - 1]));
    }
}

/// Any sequence of consecutive spawns returns pairwise distinct names.
pub proof fn lemma_spawned_names_distinct(worlds: Seq<WorldModel>, names: Seq<ObjectName>)
    requires
        spawn_chain(worlds, names),
    ensures
        forall|i: int, j: int| 0 <= i < j < names.len() ==> names[i] != names[j],
{
    assert forall|i: int, j: int| 0 <= i < j < names.len() implies names[i] != names[j] by {
        lemma_spawn_ids(worlds, names, i);
        lemma_spawn_ids(worlds, names, j);
    }
}

/// One integration step moves a body from `p` to `p + v` and keeps its inertia `v`.
pub proof fn lemma_integration(o: ObjectModel)
    ensures
        o.integrated().position == (o.position.0 + o.inertia.0, o.position.1 + o.inertia.1),
        o.integrated().inertia == o.inertia,
        o.integrated().control == o.control,
{
}

/// Setting the inertia twice leaves the second value, not the sum.
pub proof fn lemma_inertia_replaced(w: WorldModel, name: ObjectName, v1: (int, int), v2: (int, int))
    ensures
        w.set_inertia(name, v1).set_inertia(name, v2) == w.set_inertia(name, v2),
{
    assert(w.set_inertia(name, v1).set_inertia(name, v2).objects =~= w.set_inertia(name, v2).objects);
}

/// Addressing a name that is not registered changes nothing, neither by a
/// direct inertia update nor by a routed action.
pub proof fn lemma_unknown_name_noop(w: WorldModel, name: ObjectName, v: (int, int), action: Action)
    requires
        !w.has(name),
    ensures
        w.set_inertia(name, v) == w,
        w.apply_action(name, action) == w,
{
    assert forall|i: int| 0 <= i < w.objects.len() implies w.objects[i].0 != name by {
        if w.objects[i].0 == name {
            assert(w.has(name));
        }
    }
    assert(w.set_inertia(name, v).objects =~= w.objects);
    assert(w.apply_action(name, action).objects =~= w.objects);
}

/// Equal starting states and the same ordered batch give equal next states.
pub proof fn lemma_tick_deterministic(a: WorldModel, b: WorldModel, batch: Seq<(ObjectName, Action)>)
    requires
        a == b,
    ensures
        a.tick(batch) == b.tick(batch),
{
}

} // verus!
