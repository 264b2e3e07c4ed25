//! The world: entities, components with their values, and systems, and the
//! tick that runs every system on every entity that has its components.
use vstd::prelude::*;
use crate::ecs::component::{self, AnyValue, Component};
use crate::ecs::entity;
use crate::ecs::error::{ErrorCause, Result};
use crate::ecs::system::{self, IntoComponents, SystemRunner, TypedComponentList, TypedEntriesComponents, TypedSystemRunner};
use crate::ecs::value::{RawEntry, TryValue};

verus! {

/// Entities, components with their values, and systems.
pub struct World {
    components: component::Registry,
    entities: entity::Registry,
    systems: system::Registry,
}

/// Whether some system runs over the component numbered `c`.
pub open spec fn used_by(systems: Map<u64, (Seq<char>, Seq<component::RawId>)>, c: u64) -> bool {
    exists|k: u64, i: int| systems.contains_key(k) && 0 <= i < systems[k].1.len() && #[trigger] systems[k].1[i].raw() == c
}

/// Whether the component numbered `c` holds a value for the entity numbered `e`.
pub open spec fn has_value(values: Map<u64, Map<u64, AnyValue>>, c: u64, e: u64) -> bool {
    values.contains_key(c) && values[c].contains_key(e)
}

/// The values after the entries `outs` are written back, in order, for the
/// entity numbered `e` into the components `cs`; an entry past the end of
/// `outs` is not written.
pub open spec fn written(
    values: Map<u64, Map<u64, AnyValue>>,
    cs: Seq<component::RawId>,
    e: u64,
    outs: Seq<AnyValue>,
) -> Map<u64, Map<u64, AnyValue>>
    decreases cs.len(),
{
    if cs.len() == 0 {
        values
    } else {
        let v = written(values, cs.drop_last(), e, outs);
        let i = cs.len() - 1;
        if i < outs.len() {
            let c = cs.last().raw();
            v.insert(c, v[c].insert(e, outs[i]))
        } else {
            v
        }
    }
}

/// Writing back stops at the end of the entries: components past it are not
/// written.
pub proof fn lemma_written_past_end(
    values: Map<u64, Map<u64, AnyValue>>,
    cs: Seq<component::RawId>,
    e: u64,
    outs: Seq<AnyValue>,
    n: int,
)
    requires
        outs.len() <= n <= cs.len(),
    ensures
        written(values, cs, e, outs) == written(values, cs.take(n), e, outs),
    decreases cs.len(),
{
    if cs.len() > n {
        assert(cs.drop_last().take(n) =~= cs.take(n));
        lemma_written_past_end(values, cs.drop_last(), e, outs, n);
    } else {
        assert(cs.take(n) =~= cs);
    }
}

/// The values of the components `cs` for the entity numbered `e`, in order.
pub open spec fn read_vals(values: Map<u64, Map<u64, AnyValue>>, cs: Seq<component::RawId>, e: u64) -> Seq<AnyValue> {
    Seq::new(cs.len(), |j: int| values[cs[j].raw()][e])
}

/// Whether each component of `cs` holds a value for the entity numbered `e`.
pub open spec fn all_held(values: Map<u64, Map<u64, AnyValue>>, cs: Seq<component::RawId>, e: u64) -> bool {
    forall|j: int| 0 <= j < cs.len() ==> has_value(values, #[trigger] cs[j].raw(), e)
}

/// The causes of the error of a value missing for a run: the component is
/// not registered, or holds no value for the entity.
pub open spec fn missing_cause(cause: ErrorCause) -> bool {
    cause == ErrorCause::InvalidComponentId || cause == ErrorCause::EntityMissesValue
}

/// Whether a set of components holds every component of `cs`.
pub open spec fn carries_all(set: Set<component::RawId>, cs: Seq<component::RawId>) -> bool {
    forall|i: int| 0 <= i < cs.len() ==> set.contains(#[trigger] cs[i])
}

/// The runs of the system numbered `k` over `cs` in one tick: each entity,
/// in order, that carries all of `cs`.
pub open spec fn system_plan(k: u64, cs: Seq<component::RawId>, ents: Seq<(entity::Id, Set<component::RawId>)>) -> Seq<
    (u64, entity::Id, Seq<component::RawId>),
>
    decreases ents.len(),
{
    if ents.len() == 0 {
        Seq::empty()
    } else {
        let p = system_plan(k, cs, ents.drop_last());
        if carries_all(ents.last().1, cs) {
            p.push((k, ents.last().0, cs))
        } else {
            p
        }
    }
}

/// The runs of one tick: the runs of each system in order.
pub open spec fn tick_plan(
    sys: Seq<(u64, Seq<component::RawId>)>,
    ents: Seq<(entity::Id, Set<component::RawId>)>,
) -> Seq<(u64, entity::Id, Seq<component::RawId>)>
    decreases sys.len(),
{
    if sys.len() == 0 {
        Seq::empty()
    } else {
        tick_plan(sys.drop_last(), ents) + system_plan(sys.last().0, sys.last().1, ents)
    }
}

/// The values after each run of `plan` writes back its entries `outs`.
pub open spec fn applied(
    values: Map<u64, Map<u64, AnyValue>>,
    plan: Seq<(u64, entity::Id, Seq<component::RawId>)>,
    outs: Seq<Seq<AnyValue>>,
) -> Map<u64, Map<u64, AnyValue>>
    decreases plan.len(),
{
    if plan.len() == 0 || outs.len() == 0 {
        values
    } else {
        written(applied(values, plan.drop_last(), outs.drop_last()), plan.last().2, plan.last().1.raw(), outs.last())
    }
}

/// A prefix of a prefix is a prefix.
proof fn lemma_prefix_trans<A>(x: Seq<A>, y: Seq<A>, z: Seq<A>)
    requires
        x.is_prefix_of(y),
        y.is_prefix_of(z),
    ensures
        x.is_prefix_of(z),
{
    assert forall|i: int| 0 <= i < x.len() implies x[i] == z.subrange(0, x.len() as int)[i] by {
        assert(x[i] == y.subrange(0, x.len() as int)[i]);
        assert(y[i] == z.subrange(0, y.len() as int)[i]);
    }
    assert(x =~= z.subrange(0, x.len() as int));
}

/// The runs of a system over the first entities come first among its runs
/// over all of them.
proof fn lemma_system_plan_take(
    k: u64,
    cs: Seq<component::RawId>,
    ents: Seq<(entity::Id, Set<component::RawId>)>,
    n: int,
)
    requires
        0 <= n <= ents.len(),
    ensures
        system_plan(k, cs, ents.take(n)).is_prefix_of(system_plan(k, cs, ents)),
    decreases ents.len(),
{
    if n < ents.len() {
        let d = ents.drop_last();
        assert(d.take(n) =~= ents.take(n));
        lemma_system_plan_take(k, cs, d, n);
        let p = system_plan(k, cs, d);
        assert(p.is_prefix_of(system_plan(k, cs, ents))) by {
            if carries_all(ents.last().1, cs) {
                assert(p =~= p.push((k, ents.last().0, cs)).subrange(0, p.len() as int));
            } else {
                assert(p =~= p.subrange(0, p.len() as int));
            }
        }
        lemma_prefix_trans(system_plan(k, cs, ents.take(n)), p, system_plan(k, cs, ents));
    } else {
        assert(ents.take(n) =~= ents);
        let p = system_plan(k, cs, ents);
        assert(p =~= p.subrange(0, p.len() as int));
    }
}

/// The runs of the first systems come first among the runs of a tick.
proof fn lemma_tick_plan_prefix(
    sys: Seq<(u64, Seq<component::RawId>)>,
    ents: Seq<(entity::Id, Set<component::RawId>)>,
    n: int,
)
    requires
        0 <= n <= sys.len(),
    ensures
        tick_plan(sys.take(n), ents).is_prefix_of(tick_plan(sys, ents)),
    decreases sys.len(),
{
    if n < sys.len() {
        let d = sys.drop_last();
        assert(d.take(n) =~= sys.take(n));
        lemma_tick_plan_prefix(d, ents, n);
        let p = tick_plan(d, ents);
        let full = tick_plan(sys, ents);
        assert(p.is_prefix_of(full)) by {
            assert(p =~= full.subrange(0, p.len() as int));
        }
        lemma_prefix_trans(tick_plan(sys.take(n), ents), p, full);
    } else {
        assert(sys.take(n) =~= sys);
        let p = tick_plan(sys, ents);
        assert(p =~= p.subrange(0, p.len() as int));
    }
}

/// Taking fewer entities keeps the runs a prefix of the tick's runs.
proof fn lemma_plan_prefix_take(
    a: Seq<(u64, entity::Id, Seq<component::RawId>)>,
    k: u64,
    cs: Seq<component::RawId>,
    ents: Seq<(entity::Id, Set<component::RawId>)>,
    n: int,
    plan: Seq<(u64, entity::Id, Seq<component::RawId>)>,
)
    requires
        0 <= n <= ents.len(),
        (a + system_plan(k, cs, ents)).is_prefix_of(plan),
    ensures
        (a + system_plan(k, cs, ents.take(n))).is_prefix_of(plan),
{
    lemma_system_plan_take(k, cs, ents, n);
    let b1 = system_plan(k, cs, ents.take(n));
    let b = system_plan(k, cs, ents);
    assert((a + b1).is_prefix_of(a + b)) by {
        assert forall|i: int| 0 <= i < (a + b1).len() implies (a + b1)[i] == (a + b).subrange(0, (a + b1).len() as int)[i] by {
            if i >= a.len() {
                assert(b1[i - a.len()] == b.subrange(0, b1.len() as int)[i - a.len()]);
            }
        }
        assert((a + b1) =~= (a + b).subrange(0, (a + b1).len() as int));
    }
    lemma_prefix_trans(a + b1, a + b, plan);
}

/// A copy of a list of component identifiers.
fn copy_ids(ids: &[component::RawId]) -> (r: Vec<component::RawId>)
    ensures
        r@ == ids@,
{
    let mut r: Vec<component::RawId> = Vec::new();
    let mut i: usize = 0;
    while i < ids.len()
        invariant
            i <= ids@.len(),
            r@ == ids@.take(i as int),
        decreases ids@.len() - i,
    {
        r.push(ids[i]);
        assert(ids@.take(i + 1) =~= ids@.take(i as int).push(ids@[i as int]));
        i += 1;
    }
    assert(ids@.take(ids@.len() as int) =~= ids@);
    r
}

/// Whether the entity numbered `e` has all of `components`.
pub open spec fn has_all(entity_components: Map<u64, Set<component::RawId>>, e: u64, components: Seq<component::RawId>) -> bool {
    forall|i: int| 0 <= i < components.len() ==> entity_components[e].contains(#[trigger] components[i])
}

impl World {
    /// The components of each entity, by the number of the entity.
    pub closed spec fn entity_components(self) -> Map<u64, Set<component::RawId>> {
        self.entities.records().map_values(|r: entity::Record| r.component_set())
    }

    /// The entities by name.
    pub closed spec fn entity_names(self) -> Map<Seq<char>, entity::Id> {
        self.entities.names()
    }

    /// The values of each component, by the number of the component, then by
    /// the number of the entity.
    pub closed spec fn values(self) -> Map<u64, Map<u64, AnyValue>> {
        self.components.records().map_values(|r: component::Record| r.values())
    }

    /// The name of each component, by the number of the component.
    pub closed spec fn component_names(self) -> Map<u64, Seq<char>> {
        self.components.records().map_values(|r: component::Record| r.name_spec())
    }

    /// The components by name.
    pub closed spec fn component_ids(self) -> Map<Seq<char>, component::RawId> {
        self.components.names()
    }

    /// The name and the components of each system, by the number of the system.
    pub closed spec fn systems(self) -> Map<u64, (Seq<char>, Seq<component::RawId>)> {
        self.systems.records().map_values(|r: system::Record| (r.name_spec(), r.components_spec()))
    }

    /// The systems by name.
    pub closed spec fn system_ids(self) -> Map<Seq<char>, system::Id> {
        self.systems.names()
    }

    /// The number of the identifier that the next entity created gets.
    pub closed spec fn next_entity(self) -> u64 {
        self.entities.next_raw()
    }

    /// The number of the identifier that the next component created gets.
    pub closed spec fn next_component(self) -> u64 {
        self.components.next_raw()
    }

    /// The number of the identifier that the next system created gets.
    pub closed spec fn next_system(self) -> u64 {
        self.systems.next_raw()
    }

    /// The well-formedness of the world.
    pub closed spec fn wf(self) -> bool {
        &&& self.components.wf()
        &&& self.entities.wf()
        &&& self.systems.wf()
    }

    /// Whether the entities, their components and their names are those of `other`.
    pub open spec fn same_entities(self, other: World) -> bool {
        &&& self.entity_components() == other.entity_components()
        &&& self.entity_names() == other.entity_names()
        &&& self.next_entity() == other.next_entity()
    }

    /// Whether the components, their names and their values are those of `other`.
    pub open spec fn same_components(self, other: World) -> bool {
        &&& self.values() == other.values()
        &&& self.component_names() == other.component_names()
        &&& self.component_ids() == other.component_ids()
        &&& self.next_component() == other.next_component()
    }

    /// Whether the component registrations, leaving values aside, are those of `other`.
    pub open spec fn same_component_names(self, other: World) -> bool {
        &&& self.component_names() == other.component_names()
        &&& self.component_ids() == other.component_ids()
        &&& self.next_component() == other.next_component()
    }

    /// Whether the systems and their names are those of `other`.
    pub open spec fn same_systems(self, other: World) -> bool {
        &&& self.systems() == other.systems()
        &&& self.system_ids() == other.system_ids()
        &&& self.next_system() == other.next_system()
    }

    /// Whether the world holds no entity, no component and no system, and
    /// no name of any.
    pub open spec fn fresh(self) -> bool {
        &&& self.entity_components() == Map::<u64, Set<component::RawId>>::empty()
        &&& self.entity_names() == Map::<Seq<char>, entity::Id>::empty()
        &&& self.values() == Map::<u64, Map<u64, AnyValue>>::empty()
        &&& self.component_ids() == Map::<Seq<char>, component::RawId>::empty()
        &&& self.system_ids() == Map::<Seq<char>, system::Id>::empty()
        &&& self.systems() == Map::<u64, (Seq<char>, Seq<component::RawId>)>::empty()
    }

    /// An empty world.
    pub fn new() -> (r: World)
        ensures
            r.wf(),
            r.fresh(),
            r.entity_components() == Map::<u64, Set<component::RawId>>::empty(),
            r.entity_names() == Map::<Seq<char>, entity::Id>::empty(),
            r.values() == Map::<u64, Map<u64, AnyValue>>::empty(),
            r.component_ids() == Map::<Seq<char>, component::RawId>::empty(),
            r.systems() == Map::<u64, (Seq<char>, Seq<component::RawId>)>::empty(),
            r.system_ids() == Map::<Seq<char>, system::Id>::empty(),
            r.next_entity() == 0,
            r.next_component() == 0,
            r.next_system() == 0,
    {
        let r = World {
            components: component::Registry::new(),
            entities: entity::Registry::new(),
            systems: system::Registry::new(),
        };
        assert(r.entity_components() =~= Map::<u64, Set<component::RawId>>::empty());
        assert(r.values() =~= Map::<u64, Map<u64, AnyValue>>::empty());
        assert(r.systems() =~= Map::<u64, (Seq<char>, Seq<component::RawId>)>::empty());
        r
    }

    /// Creates an entity with no component.
    pub fn create_entity(&mut self) -> (r: entity::Id)
        requires
            old(self).wf(),
            old(self).next_entity() < u64::MAX,
        ensures
            final(self).wf(),
            final(self).same_components(*old(self)),
            final(self).same_systems(*old(self)),
            r.raw() == old(self).next_entity(),
            final(self).next_entity() == old(self).next_entity() + 1,
            !old(self).entity_components().contains_key(r.raw()),
            final(self).entity_components() == old(self).entity_components().insert(r.raw(), Set::empty()),
            final(self).entity_names() == old(self).entity_names(),
            final(self).values() == old(self).values(),
            final(self).systems() == old(self).systems(),
    {
        let id = self.entities.create();
        proof {
            let rec = self.entities.records()[id.raw()];
            assert(rec.component_set() =~= Set::<component::RawId>::empty());
            assert(self.entity_components() =~= old(self).entity_components().insert(id.raw(), Set::empty()));
        }
        id
    }

    /// The entity named `name`, created with that name when there is none.
    pub fn get_or_create_entity(&mut self, name: &str) -> (r: entity::Id)
        requires
            old(self).wf(),
            old(self).next_entity() < u64::MAX,
        ensures
            final(self).wf(),
            final(self).same_components(*old(self)),
            final(self).same_systems(*old(self)),
            final(self).values() == old(self).values(),
            final(self).systems() == old(self).systems(),
            if old(self).entity_names().contains_key(name@) {
                &&& r == old(self).entity_names()[name@]
                &&& final(self).entity_components() == old(self).entity_components()
                &&& final(self).entity_names() == old(self).entity_names()
                &&& final(self).next_entity() == old(self).next_entity()
            } else {
                &&& r.raw() == old(self).next_entity()
                &&& final(self).next_entity() == old(self).next_entity() + 1
                &&& !old(self).entity_components().contains_key(r.raw())
                &&& final(self).entity_components() == old(self).entity_components().insert(r.raw(), Set::empty())
                &&& final(self).entity_names() == old(self).entity_names().insert(name@, r)
            },
    {
        let id = self.entities.get_or_create(name.to_owned());
        proof {
            if !old(self).entity_names().contains_key(name@) {
                let rec = self.entities.records()[id.raw()];
                assert(rec.component_set() =~= Set::<component::RawId>::empty());
                assert(self.entity_components() =~= old(self).entity_components().insert(id.raw(), Set::empty()));
            }
        }
        id
    }

    /// Names `entity` with `name`, unless the name belongs to another entity.
    pub fn add_entity_name(&mut self, entity: entity::Id, name: &str) -> (r: Result<()>)
        requires
            old(self).wf(),
        ensures
            final(self).wf(),
            final(self).same_components(*old(self)),
            final(self).same_systems(*old(self)),
            final(self).entity_components() == old(self).entity_components(),
            final(self).values() == old(self).values(),
            final(self).systems() == old(self).systems(),
            final(self).next_entity() == old(self).next_entity(),
            match r {
                Ok(()) => {
                    &&& old(self).entity_components().contains_key(entity.raw()) || old(self).entity_names().contains_key(name@)
                    &&& !old(self).entity_names().contains_key(name@) || old(self).entity_names()[name@] == entity
                    &&& final(self).entity_names() == old(self).entity_names().insert(name@, entity)
                },
                Err(e) => final(self).entity_names() == old(self).entity_names() && if old(self).entity_names().contains_key(
                    name@,
                ) {
                    old(self).entity_names()[name@] != entity && e.cause_spec() == ErrorCause::EntityNameTaken
                } else {
                    !old(self).entity_components().contains_key(entity.raw()) && e.cause_spec() == ErrorCause::InvalidEntityId
                },
            },
    {
        self.entities.add_name(entity, name.to_owned())
    }

    /// Removes the name `name`, giving back the entity it named.
    pub fn remove_entity_name(&mut self, name: &str) -> (r: Result<entity::Id>)
        requires
            old(self).wf(),
        ensures
            final(self).wf(),
            final(self).same_components(*old(self)),
            final(self).same_systems(*old(self)),
            final(self).entity_components() == old(self).entity_components(),
            final(self).values() == old(self).values(),
            final(self).systems() == old(self).systems(),
            final(self).next_entity() == old(self).next_entity(),
            final(self).entity_names() == old(self).entity_names().remove(name@),
            match r {
                Ok(id) => old(self).entity_names().contains_key(name@) && id == old(self).entity_names()[name@],
                Err(e) => !old(self).entity_names().contains_key(name@) && e.cause_spec() == ErrorCause::InvalidEntityName,
            },
    {
        self.entities.remove_name(name)
    }

    /// The entity named `name`; a missing name is reported as a name taken.
    pub fn get_entity(&self, name: &str) -> (r: Result<entity::Id>)
        requires
            self.wf(),
        ensures
            match r {
                Ok(id) => self.entity_names().contains_key(name@) && id == self.entity_names()[name@],
                Err(e) => !self.entity_names().contains_key(name@) && e.cause_spec() == ErrorCause::EntityNameTaken,
            },
    {
        self.entities.id_from_name(name)
    }
    /// Adds the component named `name` to the views of `self`, given the
    /// registry's account of the new record.
    proof fn lemma_component_added(self, old_world: World, id: component::RawId, name: Seq<char>)
        requires
            self.components.records() == old_world.components.records().insert(id.raw(), self.components.records()[id.raw()]),
            self.components.records()[id.raw()].name_spec() == name,
            self.components.records()[id.raw()].values() == Map::<u64, AnyValue>::empty(),
        ensures
            self.values() == old_world.values().insert(id.raw(), Map::empty()),
            self.component_names() == old_world.component_names().insert(id.raw(), name),
    {
        assert(self.values() =~= old_world.values().insert(id.raw(), Map::empty()));
        assert(self.component_names() =~= old_world.component_names().insert(id.raw(), name));
    }

    /// Creates the component named `name`, unless the name is taken.
    pub fn create_component_raw(&mut self, name: &str) -> (r: Result<component::RawId>)
        requires
            old(self).wf(),
            old(self).next_component() < u64::MAX,
        ensures
            final(self).wf(),
            final(self).same_entities(*old(self)),
            final(self).same_systems(*old(self)),
            final(self).entity_components() == old(self).entity_components(),
            final(self).entity_names() == old(self).entity_names(),
            final(self).systems() == old(self).systems(),
            match r {
                Ok(id) => {
                    &&& !old(self).component_ids().contains_key(name@)
                    &&& id.raw() == old(self).next_component()
                    &&& !old(self).values().contains_key(id.raw())
                    &&& final(self).next_component() == old(self).next_component() + 1
                    &&& final(self).component_ids() == old(self).component_ids().insert(name@, id)
                    &&& final(self).values() == old(self).values().insert(id.raw(), Map::empty())
                    &&& final(self).component_names() == old(self).component_names().insert(id.raw(), name@)
                },
                Err(e) => {
                    &&& old(self).component_ids().contains_key(name@)
                    &&& e.cause_spec() == ErrorCause::DuplicateComponentName
                    &&& final(self).component_ids() == old(self).component_ids()
                    &&& final(self).values() == old(self).values()
                    &&& final(self).component_names() == old(self).component_names()
                    &&& final(self).next_component() == old(self).next_component()
                },
            },
    {
        let r = self.components.create(name.to_owned());
        proof {
            if let Ok(id) = r {
                self.lemma_component_added(*old(self), id, name@);
            }
        }
        r
    }

    /// Creates the component `C` under its name, unless the name is taken.
    pub fn create_component<C: Component>(&mut self, _component: C) -> (r: Result<component::Id<C>>)
        requires
            old(self).wf(),
            old(self).next_component() < u64::MAX,
        ensures
            final(self).wf(),
            final(self).same_entities(*old(self)),
            final(self).same_systems(*old(self)),
            final(self).entity_components() == old(self).entity_components(),
            final(self).entity_names() == old(self).entity_names(),
            final(self).systems() == old(self).systems(),
            match r {
                Ok(id) => {
                    &&& id.raw_spec().raw() == old(self).next_component()
                    &&& final(self).next_component() == old(self).next_component() + 1
                    &&& final(self).values() == old(self).values().insert(id.raw_spec().raw(), Map::empty())
                },
                Err(e) => {
                    &&& e.cause_spec() == ErrorCause::DuplicateComponentName
                    &&& final(self).component_ids() == old(self).component_ids()
                    &&& final(self).values() == old(self).values()
                    &&& final(self).next_component() == old(self).next_component()
                },
            },
    {
        match self.create_component_raw(C::NAME) {
            Ok(id) => Ok(id.typed()),
            Err(e) => Err(e),
        }
    }

    /// The component named `name`, created when there is none.
    pub fn get_or_create_component_raw(&mut self, name: &str) -> (r: component::RawId)
        requires
            old(self).wf(),
            !old(self).component_ids().contains_key(name@) ==> old(self).next_component() < u64::MAX,
        ensures
            final(self).wf(),
            final(self).component_ids().contains_key(name@) && final(self).component_ids()[name@] == r,
            final(self).same_entities(*old(self)),
            final(self).same_systems(*old(self)),
            final(self).entity_components() == old(self).entity_components(),
            final(self).entity_names() == old(self).entity_names(),
            final(self).systems() == old(self).systems(),
            if old(self).component_ids().contains_key(name@) {
                &&& r == old(self).component_ids()[name@]
                &&& *final(self) == *old(self)
                &&& final(self).component_ids() == old(self).component_ids()
                &&& final(self).values() == old(self).values()
                &&& final(self).component_names() == old(self).component_names()
                &&& final(self).next_component() == old(self).next_component()
            } else {
                &&& r.raw() == old(self).next_component()
                &&& !old(self).values().contains_key(r.raw())
                &&& final(self).next_component() == old(self).next_component() + 1
                &&& final(self).component_ids() == old(self).component_ids().insert(name@, r)
                &&& final(self).values() == old(self).values().insert(r.raw(), Map::empty())
                &&& final(self).component_names() == old(self).component_names().insert(r.raw(), name@)
            },
    {
        let r = self.components.get_or_create(name.to_owned());
        proof {
            if !old(self).component_ids().contains_key(name@) {
                self.lemma_component_added(*old(self), r, name@);
            }
        }
        r
    }

    /// The component `C`, created under its name when there is none.
    pub fn get_or_create_component<C: Component>(&mut self, _component: C) -> (r: component::Id<C>)
        requires
            old(self).wf(),
            old(self).next_component() < u64::MAX,
        ensures
            final(self).wf(),
            final(self).same_entities(*old(self)),
            final(self).same_systems(*old(self)),
            final(self).entity_components() == old(self).entity_components(),
            final(self).entity_names() == old(self).entity_names(),
            final(self).systems() == old(self).systems(),
            final(self).component_ids().contains_key(C::NAME@),
            r.raw_spec() == final(self).component_ids()[C::NAME@],
            old(self).component_ids().contains_key(C::NAME@) ==> r.raw_spec() == old(self).component_ids()[C::NAME@]
                && final(self).values() == old(self).values() && final(self).next_component() == old(self).next_component()
                && final(self).component_ids() == old(self).component_ids(),
            !old(self).component_ids().contains_key(C::NAME@) ==> r.raw_spec().raw() == old(self).next_component()
                && !old(self).values().contains_key(r.raw_spec().raw())
                && final(self).values() == old(self).values().insert(r.raw_spec().raw(), Map::empty())
                && final(self).component_ids() == old(self).component_ids().insert(C::NAME@, r.raw_spec())
                && final(self).next_component() == old(self).next_component() + 1,
    {
        self.get_or_create_component_raw(C::NAME).typed()
    }

    /// The component named `name`.
    pub fn get_component_raw(&self, name: &str) -> (r: Result<component::RawId>)
        requires
            self.wf(),
        ensures
            match r {
                Ok(id) => self.component_ids().contains_key(name@) && id == self.component_ids()[name@],
                Err(e) => !self.component_ids().contains_key(name@) && e.cause_spec() == ErrorCause::InvalidComponentName,
            },
    {
        self.components.id_from_name(name)
    }

    /// The name of `component`.
    pub fn get_component_name(&self, component: component::RawId) -> (r: Result<&str>)
        requires
            self.wf(),
        ensures
            match r {
                Ok(name) => self.component_names().contains_key(component.raw()) && name@ == self.component_names()[component.raw()],
                Err(e) => !self.component_names().contains_key(component.raw()) && e.cause_spec()
                    == ErrorCause::InvalidComponentId,
            },
    {
        match self.components.get(component) {
            Ok(record) => Ok(record.name()),
            Err(e) => Err(e),
        }
    }

    /// The component `C`, found by its name.
    pub fn get_component<C: Component>(&self, _component: C) -> (r: Result<component::Id<C>>)
        requires
            self.wf(),
        ensures
            match r {
                Ok(id) => self.component_ids().contains_key(C::NAME@) && id.raw_spec() == self.component_ids()[C::NAME@],
                Err(e) => !self.component_ids().contains_key(C::NAME@) && e.cause_spec() == ErrorCause::InvalidComponentName,
            },
    {
        match self.get_component_raw(C::NAME) {
            Ok(id) => Ok(id.typed()),
            Err(e) => Err(e),
        }
    }
    /// Creates the system named `name`, running over `components` the runner
    /// that `runner` holds, unless the name is taken: the runner is moved in,
    /// leaving an idle one in `runner`, and the new system runs as it did.
    pub fn create_system_boxed(
        &mut self,
        name: &str,
        components: Vec<component::RawId>,
        runner: &mut Box<dyn SystemRunner>,
    ) -> (r: Result<system::Id>)
        requires
            old(self).wf(),
            old(self).next_system() < u64::MAX,
        ensures
            final(self).wf(),
            final(self).same_entities(*old(self)),
            final(self).same_components(*old(self)),
            final(self).entity_components() == old(self).entity_components(),
            final(self).entity_names() == old(self).entity_names(),
            final(self).values() == old(self).values(),
            forall|k: u64, e: entity::Id, b: Seq<AnyValue>, a: Seq<AnyValue>, ok: bool|
                k != old(self).next_system() ==> #[trigger] final(self).system_runs(k, e, b, a, ok)
                    == old(self).system_runs(k, e, b, a, ok),
            match r {
                Ok(id) => {
                    &&& !old(self).system_ids().contains_key(name@)
                    &&& id.raw() == old(self).next_system()
                    &&& !old(self).systems().contains_key(id.raw())
                    &&& final(self).next_system() == old(self).next_system() + 1
                    &&& final(self).system_ids() == old(self).system_ids().insert(name@, id)
                    &&& final(self).systems() == old(self).systems().insert(id.raw(), (name@, components@))
                    &&& forall|e: entity::Id, b: Seq<AnyValue>, a: Seq<AnyValue>, ok: bool|
                        #[trigger] final(self).system_runs(id.raw(), e, b, a, ok) == old(runner).runs(e, b, a, ok)
                },
                Err(e) => {
                    &&& old(self).system_ids().contains_key(name@)
                    &&& e.cause_spec() == ErrorCause::DuplicateSystemName
                    &&& final(self).system_ids() == old(self).system_ids()
                    &&& final(self).systems() == old(self).systems()
                    &&& final(self).next_system() == old(self).next_system()
                },
            },
    {
        let ghost cs = components@;
        let r = self.systems.create_boxed(name.to_owned(), components, runner);
        proof {
            if let Ok(id) = r {
                assert(self.systems() =~= old(self).systems().insert(id.raw(), (name@, cs)));
            }
        }
        r
    }

    /// Creates the system named `name`, running `runner` over `components`,
    /// unless the name is taken. Which runner the new system holds is left
    /// unsaid: boxed here, as a generic value, it is not one that Verus can
    /// tell apart; [`World::create_system_boxed`], given the runner boxed by
    /// the caller, says it.
    pub fn create_system_raw<S: SystemRunner>(&mut self, name: &str, components: Vec<component::RawId>, runner: S) -> (r: Result<
        system::Id,
    >)
        requires
            old(self).wf(),
            old(self).next_system() < u64::MAX,
        ensures
            final(self).wf(),
            final(self).same_entities(*old(self)),
            final(self).same_components(*old(self)),
            final(self).entity_components() == old(self).entity_components(),
            final(self).entity_names() == old(self).entity_names(),
            final(self).values() == old(self).values(),
            forall|k: u64, e: entity::Id, b: Seq<AnyValue>, a: Seq<AnyValue>, ok: bool|
                k != old(self).next_system() ==> #[trigger] final(self).system_runs(k, e, b, a, ok)
                    == old(self).system_runs(k, e, b, a, ok),
            match r {
                Ok(id) => {
                    &&& !old(self).system_ids().contains_key(name@)
                    &&& id.raw() == old(self).next_system()
                    &&& !old(self).systems().contains_key(id.raw())
                    &&& final(self).next_system() == old(self).next_system() + 1
                    &&& final(self).system_ids() == old(self).system_ids().insert(name@, id)
                    &&& final(self).systems() == old(self).systems().insert(id.raw(), (name@, components@))
                },
                Err(e) => {
                    &&& old(self).system_ids().contains_key(name@)
                    &&& e.cause_spec() == ErrorCause::DuplicateSystemName
                    &&& final(self).system_ids() == old(self).system_ids()
                    &&& final(self).systems() == old(self).systems()
                    &&& final(self).next_system() == old(self).next_system()
                },
            },
    {
        let ghost cs = components@;
        let r = self.systems.create_raw(name.to_owned(), components, runner);
        proof {
            if let Ok(id) = r {
                assert(self.systems() =~= old(self).systems().insert(id.raw(), (name@, cs)));
            }
        }
        r
    }

    /// Creates the system named `name`, running the typed `runner` over the
    /// typed `components`, unless the name is taken. Which runner the new
    /// system holds is left unsaid; [`World::create_system_boxed`], given the
    /// runner as a [`system::TypedRunnerAdapter`] boxed by the caller, says it.
    pub fn create_system<S, A, L>(&mut self, name: &str, components: L, runner: S) -> (r: Result<system::Id>) where
        L: IntoComponents + TypedComponentList + TypedEntriesComponents<A> + Send + Sync + 'static,
        S: TypedSystemRunner<L>,
        requires
            old(self).wf(),
            old(self).next_system() < u64::MAX,
        ensures
            final(self).wf(),
            final(self).same_entities(*old(self)),
            final(self).same_components(*old(self)),
            final(self).entity_components() == old(self).entity_components(),
            final(self).entity_names() == old(self).entity_names(),
            final(self).values() == old(self).values(),
            forall|k: u64, e: entity::Id, b: Seq<AnyValue>, a: Seq<AnyValue>, ok: bool|
                k != old(self).next_system() ==> #[trigger] final(self).system_runs(k, e, b, a, ok)
                    == old(self).system_runs(k, e, b, a, ok),
            match r {
                Ok(id) => {
                    &&& !old(self).system_ids().contains_key(name@)
                    &&& id.raw() == old(self).next_system()
                    &&& !old(self).systems().contains_key(id.raw())
                    &&& final(self).next_system() == old(self).next_system() + 1
                    &&& final(self).system_ids() == old(self).system_ids().insert(name@, id)
                    &&& final(self).systems() == old(self).systems().insert(id.raw(), (name@, components.raw_ids()))
                },
                Err(e) => {
                    &&& old(self).system_ids().contains_key(name@)
                    &&& e.cause_spec() == ErrorCause::DuplicateSystemName
                    &&& final(self).system_ids() == old(self).system_ids()
                    &&& final(self).systems() == old(self).systems()
                    &&& final(self).next_system() == old(self).next_system()
                },
            },
    {
        let ghost ids = components.raw_ids();
        let r = self.systems.create_typed(name.to_owned(), components, runner);
        proof {
            if let Ok(id) = r {
                assert(self.systems() =~= old(self).systems().insert(id.raw(), (name@, ids)));
            }
        }
        r
    }

    /// The system named `name`.
    pub fn get_system(&self, name: &str) -> (r: Result<system::Id>)
        requires
            self.wf(),
        ensures
            match r {
                Ok(id) => self.system_ids().contains_key(name@) && id == self.system_ids()[name@],
                Err(e) => !self.system_ids().contains_key(name@) && e.cause_spec() == ErrorCause::InvalidSystemName,
            },
    {
        self.systems.id_from_name(name)
    }

    /// The name of `system`.
    pub fn get_system_name(&self, system: system::Id) -> (r: Result<&str>)
        requires
            self.wf(),
        ensures
            match r {
                Ok(name) => self.systems().contains_key(system.raw()) && name@ == self.systems()[system.raw()].0,
                Err(e) => !self.systems().contains_key(system.raw()) && e.cause_spec() == ErrorCause::InvalidSystemId,
            },
    {
        match self.systems.get(system) {
            Ok(record) => Ok(record.name()),
            Err(e) => Err(e),
        }
    }

    /// Removes `system`; its name, if any, stays.
    pub fn remove_system(&mut self, system: system::Id) -> (r: Result<()>)
        requires
            old(self).wf(),
        ensures
            final(self).wf(),
            final(self).same_entities(*old(self)),
            final(self).same_components(*old(self)),
            final(self).entity_components() == old(self).entity_components(),
            final(self).entity_names() == old(self).entity_names(),
            final(self).values() == old(self).values(),
            final(self).system_ids() == old(self).system_ids(),
            final(self).next_system() == old(self).next_system(),
            final(self).systems() == old(self).systems().remove(system.raw()),
            match r {
                Ok(()) => old(self).systems().contains_key(system.raw()),
                Err(e) => !old(self).systems().contains_key(system.raw()) && e.cause_spec() == ErrorCause::InvalidSystemId,
            },
    {
        let r = self.systems.remove(system);
        assert(self.systems() =~= old(self).systems().remove(system.raw()));
        r
    }

    /// The value of `component` for `entity`.
    pub fn get_value_raw(&self, entity: entity::Id, component: component::RawId) -> (r: Result<AnyValue>)
        requires
            self.wf(),
        ensures
            match r {
                Ok(v) => self.values().contains_key(component.raw()) && self.values()[component.raw()].contains_key(entity.raw())
                    && v == self.values()[component.raw()][entity.raw()],
                Err(e) => if self.values().contains_key(component.raw()) {
                    !self.values()[component.raw()].contains_key(entity.raw()) && e.cause_spec() == ErrorCause::EntityMissesValue
                } else {
                    e.cause_spec() == ErrorCause::InvalidComponentId
                },
            },
    {
        match self.components.get(component) {
            Ok(record) => match record.get(entity) {
                Ok(v) => Ok(v),
                Err(e) => Err(e.adding_info("component.id", component.to_string())),
            },
            Err(e) => Err(e.adding_info("entity.id", entity.to_string())),
        }
    }

    /// Replaces the value of `component` for `entity`.
    pub fn set_value_raw(&mut self, entity: entity::Id, component: component::RawId, primitive: AnyValue) -> (r: Result<()>)
        requires
            old(self).wf(),
        ensures
            forall|k: u64, e: entity::Id, b: Seq<AnyValue>, a: Seq<AnyValue>, ok: bool|
                #[trigger] final(self).system_runs(k, e, b, a, ok) == old(self).system_runs(k, e, b, a, ok),
            final(self).wf(),
            final(self).same_entities(*old(self)),
            final(self).same_component_names(*old(self)),
            final(self).same_systems(*old(self)),
            final(self).entity_components() == old(self).entity_components(),
            final(self).entity_names() == old(self).entity_names(),
            final(self).component_ids() == old(self).component_ids(),
            final(self).component_names() == old(self).component_names(),
            final(self).systems() == old(self).systems(),
            match r {
                Ok(()) => old(self).values().contains_key(component.raw()) && old(self).values()[component.raw()].contains_key(
                    entity.raw(),
                ) && final(self).values() == old(self).values().insert(
                    component.raw(),
                    old(self).values()[component.raw()].insert(entity.raw(), primitive),
                ),
                Err(e) => final(self).values() == old(self).values() && if old(self).values().contains_key(component.raw()) {
                    !old(self).values()[component.raw()].contains_key(entity.raw()) && e.cause_spec()
                        == ErrorCause::EntityMissesValue
                } else {
                    e.cause_spec() == ErrorCause::InvalidComponentId
                },
            },
    {
        let r = self.components.set_value(entity, component, primitive);
        proof {
            assert(self.component_names() =~= old(self).component_names());
            if r is Ok {
                assert(self.values() =~= old(self).values().insert(
                    component.raw(),
                    old(self).values()[component.raw()].insert(entity.raw(), primitive),
                ));
            } else {
                assert(self.values() =~= old(self).values());
            }
        }
        r
    }

    /// The value of `component` for `entity`, converted to its type.
    pub fn get_value<C: Component>(&self, entity: entity::Id, component: component::Id<C>) -> (r: Result<C::Value>)
        requires
            self.wf(),
        ensures
            ({
                let c = component.raw_spec().raw();
                let e = entity.raw();
                match r {
                    Ok(v) => self.values().contains_key(c) && self.values()[c].contains_key(e) && C::Value::try_from_spec(
                        self.values()[c][e],
                    ) == Some(v),
                    Err(err) => if !self.values().contains_key(c) {
                        err.cause_spec() == ErrorCause::InvalidComponentId
                    } else if !self.values()[c].contains_key(e) {
                        err.cause_spec() == ErrorCause::EntityMissesValue
                    } else {
                        C::Value::try_from_spec(self.values()[c][e]) is None
                    },
                }
            }),
    {
        let primitive = match self.get_value_raw(entity, component.raw()) {
            Ok(p) => p,
            Err(e) => return Err(e),
        };
        C::Value::try_from_primitive(primitive)
    }

    /// Replaces the value of `component` for `entity` with `value`, converted
    /// to a primitive.
    pub fn set_value<C: Component>(&mut self, entity: entity::Id, component: component::Id<C>, value: C::Value) -> (r: Result<()>)
        requires
            old(self).wf(),
        ensures
            final(self).wf(),
            forall|k: u64, e: entity::Id, b: Seq<AnyValue>, a: Seq<AnyValue>, ok: bool|
                #[trigger] final(self).system_runs(k, e, b, a, ok) == old(self).system_runs(k, e, b, a, ok),
            final(self).same_entities(*old(self)),
            final(self).same_component_names(*old(self)),
            final(self).same_systems(*old(self)),
            final(self).entity_components() == old(self).entity_components(),
            final(self).entity_names() == old(self).entity_names(),
            final(self).component_ids() == old(self).component_ids(),
            final(self).component_names() == old(self).component_names(),
            final(self).systems() == old(self).systems(),
            ({
                let c = component.raw_spec().raw();
                let e = entity.raw();
                match r {
                    Ok(()) => value.try_to_spec() is Some && old(self).values().contains_key(c) && old(self).values()[c].contains_key(e)
                        && final(self).values() == old(self).values().insert(c, old(self).values()[c].insert(e, value.try_to_spec()->0)),
                    Err(err) => final(self).values() == old(self).values() && if value.try_to_spec() is None {
                        true
                    } else if !old(self).values().contains_key(c) {
                        err.cause_spec() == ErrorCause::InvalidComponentId
                    } else {
                        !old(self).values()[c].contains_key(e) && err.cause_spec() == ErrorCause::EntityMissesValue
                    },
                }
            }),
    {
        let primitive = match value.try_to_primitive() {
            Ok(p) => p,
            Err(e) => return Err(e),
        };
        self.set_value_raw(entity, component.raw(), primitive)
    }
    /// Whether creating the value of `component` for `entity` creates it: the
    /// component exists and holds no value for the entity yet.
    pub open spec fn value_creatable(self, entity: entity::Id, component: component::RawId) -> bool {
        &&& self.values().contains_key(component.raw())
        &&& !self.values()[component.raw()].contains_key(entity.raw())
    }

    /// Whether creating the value of `component` for `entity` also adds the
    /// component to the entity: the value is created, the entity exists and
    /// does not have the component yet.
    pub open spec fn component_addable(self, entity: entity::Id, component: component::RawId) -> bool {
        &&& self.value_creatable(entity, component)
        &&& self.entity_components().contains_key(entity.raw())
        &&& !self.entity_components()[entity.raw()].contains(component)
    }

    /// The cause of the failure to create the value of `component` for `entity`.
    pub open spec fn create_value_error(self, entity: entity::Id, component: component::RawId) -> ErrorCause {
        if !self.values().contains_key(component.raw()) {
            ErrorCause::InvalidComponentId
        } else if self.values()[component.raw()].contains_key(entity.raw()) {
            ErrorCause::EntityAlreadyHasValue
        } else if !self.entity_components().contains_key(entity.raw()) {
            ErrorCause::InvalidEntityId
        } else {
            ErrorCause::EntityAlreadyHasComponent
        }
    }

    /// Gives `entity` the value zero of `component`, then adds the component to
    /// the entity. The value is created even when the entity then fails.
    pub fn create_value_raw(&mut self, entity: entity::Id, component: component::RawId) -> (r: Result<()>)
        requires
            old(self).wf(),
        ensures
            forall|k: u64, e: entity::Id, b: Seq<AnyValue>, a: Seq<AnyValue>, ok: bool|
                #[trigger] final(self).system_runs(k, e, b, a, ok) == old(self).system_runs(k, e, b, a, ok),
            final(self).wf(),
            final(self).same_component_names(*old(self)),
            final(self).same_systems(*old(self)),
            final(self).entity_names() == old(self).entity_names(),
            final(self).component_ids() == old(self).component_ids(),
            final(self).component_names() == old(self).component_names(),
            final(self).systems() == old(self).systems(),
            final(self).values() == if old(self).value_creatable(entity, component) {
                old(self).values().insert(component.raw(), old(self).values()[component.raw()].insert(entity.raw(), 0))
            } else {
                old(self).values()
            },
            final(self).entity_components() == if old(self).component_addable(entity, component) {
                old(self).entity_components().insert(
                    entity.raw(),
                    old(self).entity_components()[entity.raw()].insert(component),
                )
            } else {
                old(self).entity_components()
            },
            match r {
                Ok(()) => old(self).component_addable(entity, component),
                Err(e) => !old(self).component_addable(entity, component) && e.cause_spec() == old(self).create_value_error(
                    entity,
                    component,
                ),
            },
    {
        let created = self.components.create_value(entity, component);
        proof {
            assert(self.component_names() =~= old(self).component_names());
            if created is Ok {
                assert(self.values() =~= old(self).values().insert(
                    component.raw(),
                    old(self).values()[component.raw()].insert(entity.raw(), 0),
                ));
            } else {
                assert(self.values() =~= old(self).values());
            }
        }
        match created {
            Ok(()) => {},
            Err(e) => return Err(e),
        }
        let ghost mid = *self;
        let added = self.entities.add_component(entity, component);
        proof {
            if added is Ok {
                assert(self.entity_components() =~= mid.entity_components().insert(
                    entity.raw(),
                    mid.entity_components()[entity.raw()].insert(component),
                ));
            } else {
                assert(self.entity_components() =~= mid.entity_components());
            }
        }
        match added {
            Ok(()) => Ok(()),
            Err(e) => Err(e.adding_info("component.id", component.to_string())),
        }
    }

    /// Gives `entity` a value of `component`, then sets it to `value`; see
    /// [`World::create_value_raw`].
    pub fn create_value<C: Component>(&mut self, entity: entity::Id, component: component::Id<C>, value: C::Value) -> (r: Result<
        (),
    >)
        requires
            old(self).wf(),
        ensures
            final(self).wf(),
            forall|k: u64, e: entity::Id, b: Seq<AnyValue>, a: Seq<AnyValue>, ok: bool|
                #[trigger] final(self).system_runs(k, e, b, a, ok) == old(self).system_runs(k, e, b, a, ok),
            final(self).same_component_names(*old(self)),
            final(self).same_systems(*old(self)),
            final(self).entity_names() == old(self).entity_names(),
            final(self).component_ids() == old(self).component_ids(),
            final(self).component_names() == old(self).component_names(),
            final(self).systems() == old(self).systems(),
            ({
                let c = component.raw_spec();
                let e = entity.raw();
                &&& final(self).entity_components() == if old(self).component_addable(entity, c) {
                    old(self).entity_components().insert(e, old(self).entity_components()[e].insert(c))
                } else {
                    old(self).entity_components()
                }
                &&& final(self).values() == if !old(self).value_creatable(entity, c) {
                    old(self).values()
                } else if old(self).component_addable(entity, c) && value.try_to_spec() is Some {
                    old(self).values().insert(c.raw(), old(self).values()[c.raw()].insert(e, value.try_to_spec()->0))
                } else {
                    old(self).values().insert(c.raw(), old(self).values()[c.raw()].insert(e, 0))
                }
                &&& match r {
                    Ok(()) => old(self).component_addable(entity, c) && value.try_to_spec() is Some,
                    Err(err) => !old(self).component_addable(entity, c) && err.cause_spec() == old(self).create_value_error(
                        entity,
                        c,
                    ) || old(self).component_addable(entity, c) && value.try_to_spec() is None,
                }
            }),
    {
        match self.create_value_raw(entity, component.raw()) {
            Ok(()) => {},
            Err(e) => return Err(e),
        }
        let ghost mid = *self;
        let r = self.set_value(entity, component, value);
        proof {
            if r is Ok {
                let c = component.raw_spec().raw();
                let e = entity.raw();
                let p = value.try_to_spec()->0;
                assert(mid.values()[c] == old(self).values()[c].insert(e, 0));
                assert(mid.values()[c].insert(e, p) =~= old(self).values()[c].insert(e, p));
                assert(self.values() == mid.values().insert(c, mid.values()[c].insert(e, p)));
                assert(self.values() =~= old(self).values().insert(c, old(self).values()[c].insert(e, p)));
            }
        }
        r
    }

    /// Removes the value of `component` for `entity`, then the component from
    /// the entity. The value is removed even when the entity then fails.
    pub fn remove_value(&mut self, entity: entity::Id, component: component::RawId) -> (r: Result<()>)
        requires
            old(self).wf(),
        ensures
            final(self).wf(),
            final(self).same_component_names(*old(self)),
            final(self).same_systems(*old(self)),
            final(self).entity_names() == old(self).entity_names(),
            final(self).component_ids() == old(self).component_ids(),
            final(self).component_names() == old(self).component_names(),
            final(self).systems() == old(self).systems(),
            ({
                let c = component.raw();
                let e = entity.raw();
                let removed = old(self).values().contains_key(c) && old(self).values()[c].contains_key(e);
                let dropped = removed && old(self).entity_components().contains_key(e) && old(self).entity_components()[e].contains(
                    component,
                );
                &&& final(self).values() == if removed {
                    old(self).values().insert(c, old(self).values()[c].remove(e))
                } else {
                    old(self).values()
                }
                &&& final(self).entity_components() == if dropped {
                    old(self).entity_components().insert(e, old(self).entity_components()[e].remove(component))
                } else {
                    old(self).entity_components()
                }
                &&& match r {
                    Ok(()) => dropped,
                    Err(err) => !dropped && err.cause_spec() == if !old(self).values().contains_key(c) {
                        ErrorCause::InvalidComponentId
                    } else if !old(self).values()[c].contains_key(e) {
                        ErrorCause::EntityMissesValue
                    } else if !old(self).entity_components().contains_key(e) {
                        ErrorCause::InvalidEntityId
                    } else {
                        ErrorCause::ComponentNotInEntity
                    },
                }
            }),
    {
        let removed = self.components.remove_value(entity, component);
        proof {
            assert(self.component_names() =~= old(self).component_names());
            if removed is Ok {
                assert(self.values() =~= old(self).values().insert(
                    component.raw(),
                    old(self).values()[component.raw()].remove(entity.raw()),
                ));
            } else {
                assert(self.values() =~= old(self).values());
            }
        }
        match removed {
            Ok(()) => {},
            Err(e) => return Err(e),
        }
        let ghost mid = *self;
        let dropped = self.entities.remove_component(entity, component);
        proof {
            if dropped is Ok {
                assert(self.entity_components() =~= mid.entity_components().insert(
                    entity.raw(),
                    mid.entity_components()[entity.raw()].remove(component),
                ));
            } else {
                assert(self.entity_components() =~= mid.entity_components());
            }
        }
        match dropped {
            Ok(()) => Ok(()),
            Err(e) => Err(e.adding_info("component.id", component.to_string())),
        }
    }
    /// The components, in the order they were created.
    pub closed spec fn component_order(self) -> Seq<component::RawId> {
        self.components.record_seq().map_values(|p: (u64, component::Record)| p.1.id_spec())
    }

    /// The components of each system, in creation order.
    pub closed spec fn system_order(self) -> Seq<(u64, Seq<component::RawId>)> {
        self.systems.record_seq().map_values(|p: (u64, system::Record)| (p.0, p.1.components_spec()))
    }

    /// Each entity, in creation order, with its components.
    pub closed spec fn entity_sets(self) -> Seq<(entity::Id, Set<component::RawId>)> {
        self.entities.record_seq().map_values(|p: (u64, entity::Record)| (p.1.id_spec(), p.1.component_set()))
    }

    /// The systems in creation order come in increasing order of their
    /// numbers, each with its components, and every system comes.
    pub proof fn lemma_system_order(self)
        requires
            self.wf(),
        ensures
            forall|i: int, j: int|
                0 <= i < j < self.system_order().len() ==> #[trigger] self.system_order()[i].0 < #[trigger] self.system_order()[j].0,
            forall|i: int|
                0 <= i < self.system_order().len() ==> self.systems().contains_key(#[trigger] self.system_order()[i].0)
                    && self.system_order()[i].1 == self.systems()[self.system_order()[i].0].1,
            forall|k: u64|
                #[trigger] self.systems().contains_key(k) ==> exists|i: int|
                    0 <= i < self.system_order().len() && #[trigger] self.system_order()[i].0 == k,
    {
        let o = self.system_order();
        let rs = self.systems.record_seq();
        assert forall|i: int, j: int| 0 <= i < j < o.len() implies #[trigger] o[i].0 < #[trigger] o[j].0 by {
            self.systems.lemma_record_seq_sorted(i, j);
        }
        assert forall|i: int| 0 <= i < o.len() implies self.systems().contains_key(#[trigger] o[i].0) && o[i].1
            == self.systems()[o[i].0].1 by {
            self.systems.lemma_record_seq(i);
        }
        assert forall|k: u64| #[trigger] self.systems().contains_key(k) implies exists|i: int|
            0 <= i < o.len() && #[trigger] o[i].0 == k by {
            self.systems.lemma_record_seq_covers(k);
            let i = choose|i: int| 0 <= i < rs.len() && rs[i].0 == k;
            assert(o[i].0 == k);
        }
    }

    /// The entities in creation order are distinct, each with its components,
    /// and every entity comes.
    pub proof fn lemma_entity_sets(self)
        requires
            self.wf(),
        ensures
            forall|i: int, j: int|
                0 <= i < j < self.entity_sets().len() ==> #[trigger] self.entity_sets()[i].0.raw()
                    != #[trigger] self.entity_sets()[j].0.raw(),
            forall|i: int|
                0 <= i < self.entity_sets().len() ==> self.entity_components().contains_key(
                    (#[trigger] self.entity_sets()[i]).0.raw(),
                ) && self.entity_sets()[i].1 == self.entity_components()[self.entity_sets()[i].0.raw()],
            forall|k: u64|
                #[trigger] self.entity_components().contains_key(k) ==> exists|i: int|
                    0 <= i < self.entity_sets().len() && #[trigger] self.entity_sets()[i].0.raw() == k,
    {
        let o = self.entity_sets();
        let rs = self.entities.record_seq();
        assert forall|i: int, j: int| 0 <= i < j < o.len() implies #[trigger] o[i].0.raw() != #[trigger] o[j].0.raw() by {
            self.entities.lemma_record_seq(i);
            self.entities.lemma_record_seq(j);
            self.entities.lemma_record_seq_distinct(i, j);
        }
        assert forall|i: int| 0 <= i < o.len() implies self.entity_components().contains_key((#[trigger] o[i]).0.raw())
            && o[i].1 == self.entity_components()[o[i].0.raw()] by {
            self.entities.lemma_record_seq(i);
        }
        assert forall|k: u64| #[trigger] self.entity_components().contains_key(k) implies exists|i: int|
            0 <= i < o.len() && #[trigger] o[i].0.raw() == k by {
            self.entities.lemma_record_seq_covers(k);
            let i = choose|i: int| 0 <= i < rs.len() && rs[i].0 == k;
            self.entities.lemma_record_seq(i);
            assert(o[i].0.raw() == k);
        }
    }

    /// Whether the runner of the system numbered `k`, by its contract, may
    /// take the entries `before` of `entity` to `after`, succeeding exactly
    /// when `ok`.
    pub closed spec fn system_runs(
        self,
        k: u64,
        entity: entity::Id,
        before: Seq<AnyValue>,
        after: Seq<AnyValue>,
        ok: bool,
    ) -> bool {
        &&& self.systems.records().contains_key(k)
        &&& self.systems.records()[k].runs_spec(entity, before, after, ok)
    }

    /// The runs of a tick of this world: each system in creation order with
    /// each entity, in creation order, that carries all its components.
    pub open spec fn plan(self) -> Seq<(u64, entity::Id, Seq<component::RawId>)> {
        tick_plan(self.system_order(), self.entity_sets())
    }

    /// Whether the `i`-th run of `plan` went through with the entries
    /// `outs[i]` given back: the entity held a value of each component, and
    /// the runner, given those values as the runs before left them, may give
    /// back `outs[i]` and succeed.
    pub open spec fn step_ok(
        self,
        plan: Seq<(u64, entity::Id, Seq<component::RawId>)>,
        outs: Seq<Seq<AnyValue>>,
        i: int,
    ) -> bool {
        &&& all_held(self.values(), plan[i].2, plan[i].1.raw())
        &&& self.system_runs(
            plan[i].0,
            plan[i].1,
            read_vals(applied(self.values(), plan.take(i), outs.take(i)), plan[i].2, plan[i].1.raw()),
            outs[i],
            true,
        )
    }

    /// Whether the `i`-th run of `plan` fails on the values `current` with an
    /// error of `cause`: a value is missing, and the cause says so; or none
    /// is, and the runner, given the values, may fail.
    pub open spec fn step_fails(
        self,
        plan: Seq<(u64, entity::Id, Seq<component::RawId>)>,
        current: Map<u64, Map<u64, AnyValue>>,
        i: int,
        cause: ErrorCause,
    ) -> bool {
        ||| !all_held(self.values(), plan[i].2, plan[i].1.raw()) && missing_cause(cause)
        ||| all_held(self.values(), plan[i].2, plan[i].1.raw()) && exists|a: Seq<AnyValue>|
            #[trigger] self.system_runs(plan[i].0, plan[i].1, read_vals(current, plan[i].2, plan[i].1.raw()), a, false)
    }

    /// The entities in creation order.
    pub closed spec fn entity_order(self) -> Seq<entity::Id> {
        self.entities.record_seq().map_values(|p: (u64, entity::Record)| p.1.id_spec())
    }

    /// The place, in creation order, of the first component that holds no
    /// value for the entity numbered `e`; the number of components when all hold one.
    pub closed spec fn value_stop(self, e: u64) -> int {
        component::first_missing(self.components.record_seq(), e)
    }

    /// The place, in creation order, of the first entity that lacks
    /// `component`; the number of entities when all have it.
    pub closed spec fn component_stop(self, component: component::RawId) -> int {
        entity::first_lacking(self.entities.record_seq(), component)
    }

    /// The orders of creation list exactly the components and the entities of the world.
    pub proof fn lemma_orders(self)
        requires
            self.wf(),
        ensures
            forall|i: int| 0 <= i < self.component_order().len() ==> self.values().contains_key(
                #[trigger] self.component_order()[i].raw(),
            ),
            forall|k: u64| #[trigger] self.values().contains_key(k) ==> exists|i: int|
                0 <= i < self.component_order().len() && self.component_order()[i].raw() == k,
            forall|i: int| 0 <= i < self.entity_order().len() ==> self.entity_components().contains_key(
                #[trigger] self.entity_order()[i].raw(),
            ),
            forall|k: u64| #[trigger] self.entity_components().contains_key(k) ==> exists|i: int|
                0 <= i < self.entity_order().len() && self.entity_order()[i].raw() == k,
    {
        assert forall|i: int| 0 <= i < self.component_order().len() implies self.values().contains_key(
            #[trigger] self.component_order()[i].raw(),
        ) by {
            self.components.lemma_record_seq(i);
        }
        assert forall|k: u64| #[trigger] self.values().contains_key(k) implies exists|i: int|
            0 <= i < self.component_order().len() && self.component_order()[i].raw() == k by {
            let s = self.components.record_seq();
            self.components.lemma_record_seq_covers(k);
            let i = choose|i: int| 0 <= i < s.len() && s[i].0 == k;
            self.components.lemma_record_seq(i);
            assert(self.component_order()[i].raw() == k);
        }
        assert forall|i: int| 0 <= i < self.entity_order().len() implies self.entity_components().contains_key(
            #[trigger] self.entity_order()[i].raw(),
        ) by {
            self.entities.lemma_record_seq(i);
        }
        assert forall|k: u64| #[trigger] self.entity_components().contains_key(k) implies exists|i: int|
            0 <= i < self.entity_order().len() && self.entity_order()[i].raw() == k by {
            let s = self.entities.record_seq();
            self.entities.lemma_record_seq_covers(k);
            let i = choose|i: int| 0 <= i < s.len() && s[i].0 == k;
            self.entities.lemma_record_seq(i);
            assert(self.entity_order()[i].raw() == k);
        }
    }

    /// Removes `entity`, then its value of every component in creation order,
    /// stopping at the first component that holds none. The entity is removed
    /// even when a component then fails.
    pub fn remove_entity(&mut self, entity: entity::Id) -> (r: Result<()>)
        requires
            old(self).wf(),
        ensures
            final(self).wf(),
            final(self).same_component_names(*old(self)),
            final(self).same_systems(*old(self)),
            final(self).entity_names() == old(self).entity_names(),
            final(self).component_ids() == old(self).component_ids(),
            final(self).component_names() == old(self).component_names(),
            final(self).systems() == old(self).systems(),
            !old(self).entity_components().contains_key(entity.raw()) ==> {
                &&& r is Err
                &&& r->Err_0.cause_spec() == ErrorCause::InvalidEntityId
                &&& final(self).entity_components() == old(self).entity_components()
                &&& final(self).values() == old(self).values()
            },
            old(self).entity_components().contains_key(entity.raw()) ==> {
                let order = old(self).component_order();
                let stop = old(self).value_stop(entity.raw());
                &&& final(self).entity_components() == old(self).entity_components().remove(entity.raw())
                &&& 0 <= stop <= order.len()
                &&& forall|i: int| 0 <= i < stop ==> old(self).values()[#[trigger] order[i].raw()].contains_key(entity.raw())
                &&& stop < order.len() ==> !old(self).values()[order[stop].raw()].contains_key(entity.raw())
                &&& final(self).values().dom() == old(self).values().dom()
                &&& forall|i: int| 0 <= i < order.len() ==> final(self).values()[#[trigger] order[i].raw()] == if i < stop {
                    old(self).values()[order[i].raw()].remove(entity.raw())
                } else {
                    old(self).values()[order[i].raw()]
                }
                &&& (r is Ok <==> stop == order.len())
                &&& r is Err ==> r->Err_0.cause_spec() == ErrorCause::EntityMissesValue
            },
    {
        match self.entities.remove(entity) {
            Ok(()) => {},
            Err(e) => {
                return Err(e);
            },
        }
        proof {
            assert(self.entity_components() =~= old(self).entity_components().remove(entity.raw()));
        }
        let ghost mid = *self;
        let r = self.components.remove_values(entity);
        proof {
            let s = old(self).components.record_seq();
            let t = self.components.record_seq();
            assert(self.component_names() =~= old(self).component_names()) by {
                assert forall|k: u64| #[trigger] self.component_names().contains_key(k) implies self.component_names()[k]
                    == old(self).component_names()[k] by {
                    self.components.lemma_record_seq_covers(k);
                    let i = choose|i: int| 0 <= i < t.len() && t[i].0 == k;
                    self.components.lemma_record_seq(i);
                    old(self).components.lemma_record_seq(i);
                }
            }
            assert(self.values().dom() =~= old(self).values().dom());
            assert forall|i: int| 0 <= i < s.len() implies self.values()[#[trigger] old(self).component_order()[i].raw()]
                == if i < old(self).value_stop(entity.raw()) {
                old(self).values()[old(self).component_order()[i].raw()].remove(entity.raw())
            } else {
                old(self).values()[old(self).component_order()[i].raw()]
            } by {
                old(self).components.lemma_record_seq(i);
                self.components.lemma_record_seq(i);
            }
            assert forall|i: int| 0 <= i < old(self).value_stop(entity.raw()) implies old(self).values()[
                #[trigger] old(self).component_order()[i].raw()].contains_key(entity.raw()) by {
                old(self).components.lemma_record_seq(i);
            }
            if old(self).value_stop(entity.raw()) < s.len() {
                old(self).components.lemma_record_seq(old(self).value_stop(entity.raw()));
            }
        }
        r
    }
    /// The component sets of entities after removing a component from the
    /// first `upto` of them, in storage order, seen through the world's views.
    proof fn lemma_component_sets(a: entity::Registry, b: entity::Registry, component: component::RawId, upto: int)
        requires
            a.wf(),
            b.wf(),
            b.records().dom() == a.records().dom(),
            b.record_seq().len() == a.record_seq().len(),
            forall|j: int| 0 <= j < a.record_seq().len() ==> {
                let before = #[trigger] a.record_seq()[j];
                let after = b.record_seq()[j];
                &&& after.0 == before.0
                &&& after.1.id_spec() == before.1.id_spec()
                &&& after.1.component_set() == if j < upto {
                    before.1.component_set().remove(component)
                } else {
                    before.1.component_set()
                }
            },
        ensures
            forall|i: int| 0 <= i < a.record_seq().len() ==> {
                let k = #[trigger] a.record_seq()[i].0;
                &&& a.records().contains_key(k)
                &&& b.records()[k].component_set() == if i < upto {
                    a.records()[k].component_set().remove(component)
                } else {
                    a.records()[k].component_set()
                }
            },
    {
        assert forall|i: int| 0 <= i < a.record_seq().len() implies {
            let k = #[trigger] a.record_seq()[i].0;
            &&& a.records().contains_key(k)
            &&& b.records()[k].component_set() == if i < upto {
                a.records()[k].component_set().remove(component)
            } else {
                a.records()[k].component_set()
            }
        } by {
            a.lemma_record_seq(i);
            b.lemma_record_seq(i);
        }
    }

    /// Removes `component`, then the component from every entity in creation
    /// order, stopping at the first entity that lacks it. Its name stays
    /// registered. The component is removed even when an entity then fails.
    pub fn remove_component(&mut self, component: component::RawId) -> (r: Result<()>)
        requires
            old(self).wf(),
        ensures
            final(self).wf(),
            final(self).same_systems(*old(self)),
            final(self).entity_names() == old(self).entity_names(),
            final(self).component_ids() == old(self).component_ids(),
            final(self).systems() == old(self).systems(),
            !old(self).values().contains_key(component.raw()) ==> {
                &&& r is Err
                &&& r->Err_0.cause_spec() == ErrorCause::InvalidComponentId
                &&& final(self).entity_components() == old(self).entity_components()
                &&& final(self).values() == old(self).values()
                &&& final(self).component_names() == old(self).component_names()
            },
            old(self).values().contains_key(component.raw()) ==> {
                let order = old(self).entity_order();
                let stop = old(self).component_stop(component);
                &&& final(self).values() == old(self).values().remove(component.raw())
                &&& final(self).component_names() == old(self).component_names().remove(component.raw())
                &&& 0 <= stop <= order.len()
                &&& forall|i: int| 0 <= i < stop ==> old(self).entity_components()[#[trigger] order[i].raw()].contains(component)
                &&& stop < order.len() ==> !old(self).entity_components()[order[stop].raw()].contains(component)
                &&& final(self).entity_components().dom() == old(self).entity_components().dom()
                &&& forall|i: int| 0 <= i < order.len() ==> final(self).entity_components()[#[trigger] order[i].raw()] == if i
                    < stop {
                    old(self).entity_components()[order[i].raw()].remove(component)
                } else {
                    old(self).entity_components()[order[i].raw()]
                }
                &&& (r is Ok <==> stop == order.len())
                &&& r is Err ==> r->Err_0.cause_spec() == ErrorCause::ComponentNotInEntity
            },
    {
        match self.components.remove(component) {
            Ok(()) => {},
            Err(e) => return Err(e),
        }
        proof {
            assert(self.values() =~= old(self).values().remove(component.raw()));
            assert(self.component_names() =~= old(self).component_names().remove(component.raw()));
        }
        let ghost s = self.entities.record_seq();
        let ghost a = self.entities;
        let ghost stop = entity::first_lacking(s, component);
        proof {
            entity::lemma_first_lacking(s, component);
            assert forall|i: int| 0 <= i < stop implies old(self).entity_components()[#[trigger] old(self).entity_order()[i].raw()].contains(
                component,
            ) by {
                a.lemma_record_seq(i);
            }
            if stop < s.len() {
                a.lemma_record_seq(stop);
            }
        }
        let mut i: usize = 0;
        while i < self.entities.len()
            invariant
                self.wf(),
                a.wf(),
                a == old(self).entities,
                s == a.record_seq(),
                stop == entity::first_lacking(s, component),
                0 <= stop <= s.len(),
                forall|j: int| 0 <= j < stop ==> #[trigger] s[j].1.component_set().contains(component),
                stop < s.len() ==> !s[stop].1.component_set().contains(component),
                i <= stop,
                old(self).values().contains_key(component.raw()),
                old(self).component_stop(component) == stop,
                old(self).entity_order().len() == s.len(),
                forall|j: int| 0 <= j < stop ==> old(self).entity_components()[#[trigger] old(self).entity_order()[j].raw()].contains(
                    component,
                ),
                stop < s.len() ==> !old(self).entity_components()[old(self).entity_order()[stop].raw()].contains(component),
                self.values() == old(self).values().remove(component.raw()),
                self.component_names() == old(self).component_names().remove(component.raw()),
                self.component_ids() == old(self).component_ids(),
                self.systems() == old(self).systems(),
                self.systems == old(self).systems,
                self.next_component() == old(self).next_component(),
                self.entity_names() == old(self).entity_names(),
                self.entities.records().dom() == a.records().dom(),
                self.entities.record_seq().len() == s.len(),
                forall|j: int| 0 <= j < s.len() ==> {
                    let before = #[trigger] s[j];
                    let after = self.entities.record_seq()[j];
                    &&& after.0 == before.0
                    &&& after.1.id_spec() == before.1.id_spec()
                    &&& after.1.component_set() == if j < i {
                        before.1.component_set().remove(component)
                    } else {
                        before.1.component_set()
                    }
                },
            decreases s.len() - i,
        {
            let ghost before = self.entities;
            assert(s[i as int].1.component_set() == before.record_seq()[i as int].1.component_set());
            let removed = self.entities.remove_component_at(i, component);
            match removed {
                Ok(()) => {
                    proof {
                        assert(i as int != stop);
                    }
                },
                Err(e) => {
                    proof {
                        assert(i as int == stop);
                        World::lemma_component_sets(a, self.entities, component, stop);
                        assert(self.entity_components().dom() =~= old(self).entity_components().dom());
                        assert forall|j: int| 0 <= j < s.len() implies self.entity_components()[#[trigger] old(self).entity_order()[j].raw()]
                            == if j < stop {
                            old(self).entity_components()[old(self).entity_order()[j].raw()].remove(component)
                        } else {
                            old(self).entity_components()[old(self).entity_order()[j].raw()]
                        } by {
                            a.lemma_record_seq(j);
                        }
                    }
                    return Err(e);
                },
            }
            i += 1;
        }
        proof {
            World::lemma_component_sets(a, self.entities, component, stop);
            assert(self.entity_components().dom() =~= old(self).entity_components().dom());
            assert forall|j: int| 0 <= j < s.len() implies self.entity_components()[#[trigger] old(self).entity_order()[j].raw()]
                == if j < stop {
                old(self).entity_components()[old(self).entity_order()[j].raw()].remove(component)
            } else {
                old(self).entity_components()[old(self).entity_order()[j].raw()]
            } by {
                a.lemma_record_seq(j);
            }
        }
        Ok(())
    }
    /// The entries handed to a runner on `entity`: the value of each of
    /// `components` for the entity, in order; an error when one holds none.
    fn read_entries(&self, entity: entity::Id, components: &Vec<component::RawId>) -> (r: Result<Vec<RawEntry>>)
        requires
            self.wf(),
        ensures
            match r {
                Ok(entries) => {
                    &&& entries@.len() == components@.len()
                    &&& forall|i: int|
                        0 <= i < components@.len() ==> has_value(self.values(), #[trigger] components@[i].raw(), entity.raw())
                            && entries@[i].primitive_spec() == self.values()[components@[i].raw()][entity.raw()]
                },
                Err(_) => exists|j: int|
                    0 <= j < components@.len() && !has_value(self.values(), #[trigger] components@[j].raw(), entity.raw()),
            },
            r is Ok <==> all_held(self.values(), components@, entity.raw()),
            r matches Err(e) ==> missing_cause(e.cause_spec()),
            r matches Ok(entries) ==> system::prims(entries@) == read_vals(self.values(), components@, entity.raw()),
    {
        let mut entries: Vec<RawEntry> = Vec::new();
        let mut j: usize = 0;
        while j < components.len()
            invariant
                self.wf(),
                j <= components@.len(),
                entries@.len() == j,
                forall|i: int|
                    0 <= i < j ==> has_value(self.values(), #[trigger] components@[i].raw(), entity.raw())
                        && entries@[i].primitive_spec() == self.values()[components@[i].raw()][entity.raw()],
            decreases components@.len() - j,
        {
            let value = match self.components.get(components[j]) {
                Ok(record) => match record.get(entity) {
                    Ok(v) => v,
                    Err(e) => {
                        proof {
                            assert(!has_value(self.values(), components@[j as int].raw(), entity.raw()));
                        }
                        return Err(e.adding_info("component.id", components[j].to_string()));
                    },
                },
                Err(e) => {
                    proof {
                        assert(!has_value(self.values(), components@[j as int].raw(), entity.raw()));
                    }
                    return Err(e.adding_info("entity.id", entity.to_string()));
                },
            };
            entries.push(RawEntry::new(value));
            j += 1;
        }
        proof {
            assert(system::prims(entries@) =~= read_vals(self.values(), components@, entity.raw()));
        }
        Ok(entries)
    }

    /// Runs the system at `index` in storage order on `entity` when the entity
    /// has all its components `components`: reads their values, runs the
    /// runner on them, and writes back what it leaves in the entries.
    fn run_on_entity(&mut self, index: usize, entity: entity::Id, components: &Vec<component::RawId>) -> (r: Result<()>)
        requires
            old(self).wf(),
            index < old(self).systems.record_seq().len(),
            forall|j: int| 0 <= j < components@.len() ==> used_by(old(self).systems(), #[trigger] components@[j].raw()),
        ensures
            final(self).wf(),
            final(self).entities == old(self).entities,
            final(self).component_ids() == old(self).component_ids(),
            final(self).component_names() == old(self).component_names(),
            final(self).systems() == old(self).systems(),
            final(self).system_ids() == old(self).system_ids(),
            final(self).next_component() == old(self).next_component(),
            final(self).next_system() == old(self).next_system(),
            final(self).systems.record_seq().len() == old(self).systems.record_seq().len(),
            final(self).system_order() == old(self).system_order(),
            forall|k: u64, e: entity::Id, b: Seq<AnyValue>, a: Seq<AnyValue>, ok: bool|
                #[trigger] final(self).system_runs(k, e, b, a, ok) == old(self).system_runs(k, e, b, a, ok),
            final(self).values().dom() == old(self).values().dom(),
            forall|c: u64| #[trigger] old(self).values().contains_key(c) ==> final(self).values()[c].dom() == old(self).values()[c].dom(),
            forall|c: u64| old(self).values().contains_key(c) && !used_by(old(self).systems(), c) ==> #[trigger] final(self).values()[c]
                == old(self).values()[c],
            !all_held(old(self).values(), components@, entity.raw()) ==> (r matches Err(e) && missing_cause(e.cause_spec()))
                && *final(self) == *old(self),
            r is Err ==> final(self).values() == old(self).values(),
            all_held(old(self).values(), components@, entity.raw()) ==> exists|after: Seq<AnyValue>|
                #[trigger] old(self).system_runs(
                    old(self).systems.record_seq()[index as int].0,
                    entity,
                    read_vals(old(self).values(), components@, entity.raw()),
                    after,
                    r is Ok,
                ) && (r is Ok ==> final(self).values() == written(old(self).values(), components@, entity.raw(), after)),
    {
        let mut entries = match self.read_entries(entity, components) {
            Ok(entries) => entries,
            Err(e) => return Err(e),
        };
        let ghost before_entries = entries@;
        let ctx = system::Context::new(entity);
        let ran = self.systems.run_at(index, &ctx, entries.as_mut_slice());
        let ghost after = system::prims(entries@);
        proof {
            assert(self.systems() =~= old(self).systems());
            assert(self.system_order() =~= old(self).system_order());
            old(self).systems.lemma_record_seq(index as int);
            assert forall|k: u64, e: entity::Id, b: Seq<AnyValue>, a: Seq<AnyValue>, ok: bool|
                #[trigger] self.system_runs(k, e, b, a, ok) == old(self).system_runs(k, e, b, a, ok) by {
                if old(self).systems.records().contains_key(k) {
                    assert(self.systems.records()[k].runs_spec(e, b, a, ok) == old(self).systems.records()[k].runs_spec(
                        e,
                        b,
                        a,
                        ok,
                    ));
                }
            }
            assert(old(self).system_runs(
                old(self).systems.record_seq()[index as int].0,
                entity,
                read_vals(old(self).values(), components@, entity.raw()),
                after,
                ran is Ok,
            ));
        }
        match ran {
            Ok(()) => {},
            Err(e) => return Err(e),
        }
        proof {
            assert(components@.take(0) =~= Seq::<component::RawId>::empty());
        }
        let mut j: usize = 0;
        while j < components.len() && j < entries.len()
            invariant
                after == system::prims(entries@),
                self.system_order() == old(self).system_order(),
                forall|k: u64, e: entity::Id, b: Seq<AnyValue>, a: Seq<AnyValue>, ok: bool|
                    #[trigger] self.system_runs(k, e, b, a, ok) == old(self).system_runs(k, e, b, a, ok),
                j <= components@.len(),
                j <= entries@.len(),
                self.values() == written(old(self).values(), components@.take(j as int), entity.raw(), after),
                self.wf(),
                self.entities == old(self).entities,
                self.component_ids() == old(self).component_ids(),
                self.component_names() == old(self).component_names(),
                self.systems() == old(self).systems(),
                self.system_ids() == old(self).system_ids(),
                self.next_component() == old(self).next_component(),
                self.next_system() == old(self).next_system(),
                self.systems.record_seq().len() == old(self).systems.record_seq().len(),
                self.values().dom() == old(self).values().dom(),
                forall|c: u64| #[trigger] old(self).values().contains_key(c) ==> self.values()[c].dom() == old(self).values()[c].dom(),
                forall|c: u64| old(self).values().contains_key(c) && !used_by(old(self).systems(), c) ==> #[trigger] self.values()[c]
                    == old(self).values()[c],
                forall|i: int| 0 <= i < components@.len() ==> used_by(old(self).systems(), #[trigger] components@[i].raw()),
                all_held(old(self).values(), components@, entity.raw()),
            decreases components@.len() - j,
        {
            let component = components[j];
            let value = entries[j].get_primitive();
            let ghost before = *self;
            let ghost sys_before = self.systems;
            match self.components.set_value(entity, component, value) {
                Ok(()) => {
                    proof {
                        assert(used_by(old(self).systems(), components@[j as int].raw()));
                        assert(self.values() =~= before.values().insert(
                            component.raw(),
                            before.values()[component.raw()].insert(entity.raw(), value),
                        ));
                        assert(self.component_names() =~= before.component_names());
                        assert forall|c: u64| #[trigger] old(self).values().contains_key(c) implies self.values()[c].dom()
                            == old(self).values()[c].dom() by {
                            if c == component.raw() {
                                assert(self.values()[c].dom() =~= before.values()[c].dom());
                            }
                        }
                        assert(components@.take(j + 1).drop_last() =~= components@.take(j as int));
                        assert(after[j as int] == value);
                        assert(self.systems == sys_before);
                        assert forall|k: u64, e: entity::Id, b: Seq<AnyValue>, a: Seq<AnyValue>, ok: bool|
                            #[trigger] self.system_runs(k, e, b, a, ok) == before.system_runs(k, e, b, a, ok) by {
                        }
                    }
                },
                Err(e) => {
                    proof {
                        assert(has_value(old(self).values(), components@[j as int].raw(), entity.raw()));
                        assert(before.values()[component.raw()].dom() == old(self).values()[component.raw()].dom());
                        assert(has_value(before.values(), component.raw(), entity.raw()));
                    }
                    return Err(e);
                },
            }
            j += 1;
        }
        proof {
            if j < components@.len() {
                lemma_written_past_end(old(self).values(), components@, entity.raw(), after, j as int);
            } else {
                assert(components@.take(j as int) =~= components@);
            }
            assert(self.values() == written(old(self).values(), components@, entity.raw(), after));
        }
        let r: Result<()> = Ok(());
        proof {
            assert(old(self).system_runs(
                old(self).systems.record_seq()[index as int].0,
                entity,
                read_vals(old(self).values(), components@, entity.raw()),
                after,
                r is Ok,
            ));
        }
        r
    }

    /// Runs every system, in creation order, on every entity, in creation
    /// order, that has all its components: the runner gets the entity's
    /// current values of the system's components, and what it leaves in them
    /// is written back; stops at the first failure, which is either a value
    /// missing for a run or a runner failing. Only values change, and only
    /// values of components that some system runs over.
    pub fn tick(&mut self) -> (r: Result<()>)
        requires
            old(self).wf(),
        ensures
            final(self).wf(),
            final(self).entity_components() == old(self).entity_components(),
            final(self).entity_names() == old(self).entity_names(),
            final(self).component_ids() == old(self).component_ids(),
            final(self).component_names() == old(self).component_names(),
            final(self).systems() == old(self).systems(),
            final(self).system_ids() == old(self).system_ids(),
            final(self).next_entity() == old(self).next_entity(),
            final(self).next_component() == old(self).next_component(),
            final(self).next_system() == old(self).next_system(),
            forall|k: u64, e: entity::Id, b: Seq<AnyValue>, a: Seq<AnyValue>, ok: bool|
                #[trigger] final(self).system_runs(k, e, b, a, ok) == old(self).system_runs(k, e, b, a, ok),
            final(self).values().dom() == old(self).values().dom(),
            forall|c: u64| #[trigger] old(self).values().contains_key(c) ==> final(self).values()[c].dom() == old(self).values()[c].dom(),
            forall|c: u64| old(self).values().contains_key(c) && !used_by(old(self).systems(), c) ==> #[trigger] final(self).values()[c]
                == old(self).values()[c],
            old(self).systems().dom() == Set::<u64>::empty() ==> r is Ok && *final(self) == *old(self),
            old(self).plan().len() == 0 ==> r is Ok && *final(self) == *old(self),
            (exists|i: int|
                0 <= i < old(self).plan().len() && !all_held(
                    old(self).values(),
                    #[trigger] old(self).plan()[i].2,
                    old(self).plan()[i].1.raw(),
                )) ==> r is Err,
            r is Ok ==> exists|outs: Seq<Seq<AnyValue>>|
                outs.len() == old(self).plan().len() && final(self).values() == #[trigger] applied(
                    old(self).values(),
                    old(self).plan(),
                    outs,
                ) && forall|i: int| 0 <= i < old(self).plan().len() ==> #[trigger] old(self).step_ok(old(self).plan(), outs, i),
            r matches Err(err) ==> exists|outs: Seq<Seq<AnyValue>>, i: int|
                0 <= i < old(self).plan().len() && outs.len() == i && (forall|j: int|
                    0 <= j < i ==> #[trigger] old(self).step_ok(old(self).plan(), outs, j)) && final(self).values()
                    == #[trigger] applied(old(self).values(), old(self).plan().take(i), outs) && old(self).step_fails(
                    old(self).plan(),
                    final(self).values(),
                    i,
                    err.cause_spec(),
                ),
    {
        proof {
            if old(self).systems().dom() == Set::<u64>::empty() && self.systems.record_seq().len() > 0 {
                self.systems.lemma_record_seq(0);
                assert(self.systems().dom().contains(self.systems.record_seq()[0].0));
            }
        }
        let ghost sys = old(self).system_order();
        let ghost ents = old(self).entity_sets();
        let ghost plan = old(self).plan();
        let ghost mut outs: Seq<Seq<AnyValue>> = Seq::empty();
        proof {
            assert(sys.take(0) =~= Seq::<(u64, Seq<component::RawId>)>::empty());
            lemma_tick_plan_prefix(sys, ents, 0);
        }
        let mut s: usize = 0;
        while s < self.systems.len()
            invariant
                tick_plan(sys.take(s as int), ents).len() == 0 ==> *self == *old(self),
                s <= self.systems.record_seq().len(),
                old(self).systems().dom() == Set::<u64>::empty() ==> self.systems.record_seq().len() == 0,
                sys == old(self).system_order(),
                ents == old(self).entity_sets(),
                plan == old(self).plan(),
                plan == tick_plan(sys, ents),
                self.system_order() == sys,
                sys.len() == self.systems.record_seq().len(),
                tick_plan(sys.take(s as int), ents).is_prefix_of(plan),
                outs.len() == tick_plan(sys.take(s as int), ents).len(),
                self.values() == applied(old(self).values(), tick_plan(sys.take(s as int), ents), outs),
                forall|j: int| 0 <= j < outs.len() ==> #[trigger] old(self).step_ok(plan, outs, j),
                forall|k: u64, e: entity::Id, b: Seq<AnyValue>, a: Seq<AnyValue>, ok: bool|
                    #[trigger] self.system_runs(k, e, b, a, ok) == old(self).system_runs(k, e, b, a, ok),
                self.wf(),
                self.entities == old(self).entities,
                self.component_ids() == old(self).component_ids(),
                self.component_names() == old(self).component_names(),
                self.systems() == old(self).systems(),
                self.system_ids() == old(self).system_ids(),
                self.next_component() == old(self).next_component(),
                self.next_system() == old(self).next_system(),
                self.systems.record_seq().len() == old(self).systems.record_seq().len(),
                self.values().dom() == old(self).values().dom(),
                forall|c: u64| #[trigger] old(self).values().contains_key(c) ==> self.values()[c].dom() == old(self).values()[c].dom(),
                forall|c: u64| old(self).values().contains_key(c) && !used_by(old(self).systems(), c) ==> #[trigger] self.values()[c]
                    == old(self).values()[c],
            decreases old(self).systems.record_seq().len() - s,
        {
            let components = copy_ids(self.systems.at(s).components());
            let ghost k = self.systems.record_seq()[s as int].0;
            proof {
                self.systems.lemma_record_seq(s as int);
                assert(self.systems()[k].1 == components@);
                assert(sys[s as int] == (k, components@));
                assert forall|j: int| 0 <= j < components@.len() implies used_by(old(self).systems(), #[trigger] components@[j].raw()) by {
                    assert(self.systems()[k].1[j].raw() == components@[j].raw());
                }
                assert(ents.take(0) =~= Seq::<(entity::Id, Set<component::RawId>)>::empty());
                assert(tick_plan(sys.take(s as int), ents) + system_plan(k, components@, ents.take(0)) =~= tick_plan(
                    sys.take(s as int),
                    ents,
                ));
                assert(sys.take(s + 1).drop_last() =~= sys.take(s as int));
                assert(sys.take(s + 1).last() == sys[s as int]);
                lemma_tick_plan_prefix(sys, ents, s + 1);
            }
            let ghost before_plan = tick_plan(sys.take(s as int), ents);
            let mut e: usize = 0;
            while e < self.entities.len()
                invariant
                    s < self.systems.record_seq().len(),
                    old(self).systems().dom() == Set::<u64>::empty() ==> self.systems.record_seq().len() == 0,
                    sys == old(self).system_order(),
                    ents == old(self).entity_sets(),
                    plan == old(self).plan(),
                    plan == tick_plan(sys, ents),
                    self.system_order() == sys,
                    sys[s as int] == (k, components@),
                    k == self.systems.record_seq()[s as int].0,
                    before_plan == tick_plan(sys.take(s as int), ents),
                    (before_plan + system_plan(k, components@, ents)).is_prefix_of(plan),
                    ents.len() == self.entities.record_seq().len(),
                    e <= ents.len(),
                    (before_plan + system_plan(k, components@, ents.take(e as int))).len() == 0 ==> *self == *old(self),
                    outs.len() == (before_plan + system_plan(k, components@, ents.take(e as int))).len(),
                    self.values() == applied(
                        old(self).values(),
                        before_plan + system_plan(k, components@, ents.take(e as int)),
                        outs,
                    ),
                    forall|j: int| 0 <= j < outs.len() ==> #[trigger] old(self).step_ok(plan, outs, j),
                    forall|k2: u64, e2: entity::Id, b: Seq<AnyValue>, a: Seq<AnyValue>, ok: bool|
                        #[trigger] self.system_runs(k2, e2, b, a, ok) == old(self).system_runs(k2, e2, b, a, ok),
                    self.wf(),
                    self.entities == old(self).entities,
                    self.component_ids() == old(self).component_ids(),
                    self.component_names() == old(self).component_names(),
                    self.systems() == old(self).systems(),
                    self.system_ids() == old(self).system_ids(),
                    self.next_component() == old(self).next_component(),
                    self.next_system() == old(self).next_system(),
                    self.systems.record_seq().len() == old(self).systems.record_seq().len(),
                    self.values().dom() == old(self).values().dom(),
                    forall|c: u64| #[trigger] old(self).values().contains_key(c) ==> self.values()[c].dom() == old(self).values()[c].dom(),
                    forall|c: u64| old(self).values().contains_key(c) && !used_by(old(self).systems(), c) ==> #[trigger] self.values()[c]
                        == old(self).values()[c],
                    forall|j: int| 0 <= j < components@.len() ==> used_by(old(self).systems(), #[trigger] components@[j].raw()),
                decreases old(self).entities.record_seq().len() - e,
            {
                let record = self.entities.at(e);
                let entity = record.id();
                let mut all = true;
                let mut j: usize = 0;
                while j < components.len()
                    invariant
                        j <= components@.len(),
                        all == forall|i: int| 0 <= i < j ==> record.component_set().contains(#[trigger] components@[i]),
                    decreases components@.len() - j,
                {
                    if !record.has_component(components[j]) {
                        all = false;
                    }
                    j += 1;
                }
                let ghost cur_plan = before_plan + system_plan(k, components@, ents.take(e as int));
                proof {
                    assert(ents[e as int] == (entity, record.component_set()));
                    assert(all == carries_all(ents[e as int].1, components@));
                    assert(ents.take(e + 1).drop_last() =~= ents.take(e as int));
                    assert(ents.take(e + 1).last() == ents[e as int]);
                    lemma_plan_prefix_take(before_plan, k, components@, ents, e + 1, plan);
                    assert(cur_plan.is_prefix_of(plan)) by {
                        lemma_plan_prefix_take(before_plan, k, components@, ents, e as int, plan);
                    }
                }
                if all {
                    let ghost w0 = *self;
                    let ghost step = (k, entity, components@);
                    proof {
                        let new_plan = cur_plan.push(step);
                        assert(before_plan + system_plan(k, components@, ents.take(e + 1)) =~= new_plan);
                        assert(new_plan.is_prefix_of(plan));
                        assert(plan[cur_plan.len() as int] == step) by {
                            assert(plan.take(new_plan.len() as int)[cur_plan.len() as int] == new_plan[cur_plan.len() as int]);
                        }
                        assert(plan.take(cur_plan.len() as int) =~= cur_plan) by {
                            assert forall|i: int| 0 <= i < cur_plan.len() implies plan.take(cur_plan.len() as int)[i]
                                == cur_plan[i] by {
                                assert(plan.take(new_plan.len() as int)[i] == new_plan[i]);
                            }
                        }
                        assert forall|c: u64| #[trigger] has_value(old(self).values(), c, entity.raw()) == has_value(
                            self.values(),
                            c,
                            entity.raw(),
                        ) by {
                            if old(self).values().contains_key(c) {
                                assert(self.values()[c].dom() == old(self).values()[c].dom());
                            }
                        }
                    }
                    let ran = self.run_on_entity(s, entity, &components);
                    proof {
                        let new_plan = cur_plan.push(step);
                        let i = cur_plan.len() as int;
                        assert(all_held(old(self).values(), components@, entity.raw()) == all_held(
                            w0.values(),
                            components@,
                            entity.raw(),
                        ));
                        if all_held(w0.values(), components@, entity.raw()) {
                            let after = choose|after: Seq<AnyValue>|
                                #[trigger] w0.system_runs(
                                    k,
                                    entity,
                                    read_vals(w0.values(), components@, entity.raw()),
                                    after,
                                    ran is Ok,
                                ) && (ran is Ok ==> self.values() == written(w0.values(), components@, entity.raw(), after));
                            assert(old(self).system_runs(
                                k,
                                entity,
                                read_vals(w0.values(), components@, entity.raw()),
                                after,
                                ran is Ok,
                            ));
                            if ran is Ok {
                                let new_outs = outs.push(after);
                                assert(new_plan.drop_last() =~= cur_plan);
                                assert(new_outs.drop_last() =~= outs);
                                assert(self.values() == applied(old(self).values(), new_plan, new_outs));
                                assert(new_outs.take(i) =~= outs);
                                assert forall|j: int| 0 <= j < new_outs.len() implies #[trigger] old(self).step_ok(
                                    plan,
                                    new_outs,
                                    j,
                                ) by {
                                    assert(new_outs.take(j) =~= outs.take(j) || j == i);
                                    if j < i {
                                        assert(new_outs.take(j) =~= outs.take(j));
                                        assert(new_outs[j] == outs[j]);
                                        assert(old(self).step_ok(plan, outs, j));
                                    } else {
                                        assert(plan.take(j) =~= cur_plan);
                                    }
                                }
                                outs = new_outs;
                            }
                        }
                    }
                    match ran {
                        Ok(()) => {},
                        Err(err) => {
                            let err2 = err.adding_info("system.id", self.systems.at(s).id().to_string());
                            proof {
                                let i = cur_plan.len() as int;
                                assert(plan.take(i) =~= cur_plan);
                                assert(self.values() == w0.values());
                                assert(plan[i] == step);
                                assert(all_held(old(self).values(), components@, entity.raw()) == all_held(
                                    w0.values(),
                                    components@,
                                    entity.raw(),
                                ));
                                if all_held(w0.values(), components@, entity.raw()) {
                                    let after = choose|after: Seq<AnyValue>|
                                        #[trigger] w0.system_runs(
                                            k,
                                            entity,
                                            read_vals(w0.values(), components@, entity.raw()),
                                            after,
                                            ran is Ok,
                                        ) && (ran is Ok ==> self.values() == written(
                                            w0.values(),
                                            components@,
                                            entity.raw(),
                                            after,
                                        ));
                                    assert(old(self).system_runs(
                                        plan[i].0,
                                        plan[i].1,
                                        read_vals(self.values(), plan[i].2, plan[i].1.raw()),
                                        after,
                                        false,
                                    ));
                                }
                                assert(old(self).step_fails(plan, self.values(), i, err2.cause_spec()));
                            }
                            return Err(err2);
                        },
                    }
                } else {
                    proof {
                        assert(before_plan + system_plan(k, components@, ents.take(e + 1)) =~= cur_plan);
                    }
                }
                e += 1;
            }
            proof {
                assert(ents.take(ents.len() as int) =~= ents);
                assert(sys.take(s + 1).last() == (k, components@));
            }
            s += 1;
        }
        proof {
            assert(sys.take(sys.len() as int) =~= sys);
            assert forall|i: int| 0 <= i < plan.len() implies all_held(
                old(self).values(),
                #[trigger] plan[i].2,
                plan[i].1.raw(),
            ) by {
                assert(old(self).step_ok(plan, outs, i));
            }
        }
        Ok(())
    }

}

} // verus!
