//! Components: named kinds of value, each holding one value per entity that
//! has it.
use vstd::prelude::*;
use std::marker::PhantomData;
use crate::ecs::entity;
use crate::ecs::error::{Error, ErrorCause, ErrorContext, Result, hex_digits, hex_text};
use crate::ecs::names::Names;
use crate::ecs::table::Table;
use crate::ecs::value::TryValue;

verus! {

/// The primitive that stores any value.
pub type AnyValue = u64;

/// The identifier of a component, whatever its type.
#[derive(Debug, Clone, Copy, PartialEq, Eq, Structural, PartialOrd, Ord, Hash)]
pub struct RawId(u64);

impl RawId {
    /// The number behind the identifier.
    pub closed spec fn raw(self) -> u64 {
        self.0
    }

    /// The identifier with the number `raw`.
    pub(crate) fn from_raw(raw: u64) -> (r: RawId)
        ensures
            r.raw() == raw,
    {
        RawId(raw)
    }

    /// The number behind the identifier, in executable form.
    pub(crate) fn to_raw(self) -> (r: u64)
        ensures
            r == self.raw(),
    {
        self.0
    }

    /// Two identifiers are equal when their numbers are.
    pub proof fn lemma_raw_injective(a: RawId, b: RawId)
        ensures
            a.raw() == b.raw() <==> a == b,
    {
    }

    /// The number behind the identifier, as an index.
    pub fn cast_to_index(self) -> (r: usize)
        ensures
            r == self.raw() as usize,
    {
        self.0 as usize
    }

    /// The identifier typed as one of the component `C`.
    pub fn typed<C>(self) -> (r: Id<C>) where C: Component
        ensures
            r.raw_spec() == self,
    {
        Id { inner: self, marker: PhantomData }
    }

    /// The identifier in lowercase hexadecimal.
    pub fn to_string(&self) -> (r: String)
        ensures
            r@ == hex_digits(self.raw() as nat),
    {
        hex_text(self.0)
    }
}

/// A kind of component: the type of its values and its name.
pub trait Component {
    /// The type of the values.
    type Value: TryValue;

    /// The name of the component.
    const NAME: &'static str;
}

/// The identifier of a component of type `C`.
#[derive(Debug)]
pub struct Id<C> {
    inner: RawId,
    marker: PhantomData<C>,
}

impl<C> Clone for Id<C> {
    fn clone(&self) -> (r: Id<C>)
        ensures
            r == *self,
    {
        Id { inner: self.inner, marker: PhantomData }
    }
}

impl<C> Copy for Id<C> {
}

impl<C> Id<C> {
    /// The untyped identifier.
    pub closed spec fn raw_spec(self) -> RawId {
        self.inner
    }

    /// The number behind the identifier, as an index.
    pub fn cast_to_index(self) -> (r: usize)
        ensures
            r == self.raw_spec().raw() as usize,
    {
        self.inner.cast_to_index()
    }

    /// The untyped identifier.
    pub fn raw(self) -> (r: RawId)
        ensures
            r == self.raw_spec(),
    {
        self.inner
    }
}

/// The error of `cause` about the entity `entity`.
pub(crate) fn entity_error(cause: ErrorCause, entity: entity::Id) -> (r: Error)
    ensures
        r.cause_spec() == cause,
{
    ErrorContext::new(cause).adding_info("entity.id", entity.to_string())
}

/// The error of `cause` about the component `component`.
pub(crate) fn component_error(cause: ErrorCause, component: RawId) -> (r: Error)
    ensures
        r.cause_spec() == cause,
{
    ErrorContext::new(cause).adding_info("component.id", component.to_string())
}

/// A component: its identifier, its name, and its value for each entity that has it.
#[derive(Debug, Clone)]
pub(crate) struct Record {
    id: RawId,
    name: String,
    values: Table<AnyValue>,
}

impl Record {
    /// The identifier.
    pub closed spec fn id_spec(self) -> RawId {
        self.id
    }

    /// The name.
    pub closed spec fn name_spec(self) -> Seq<char> {
        self.name@
    }

    /// The values, by the number of the entity.
    pub closed spec fn values(self) -> Map<u64, AnyValue> {
        self.values.view()
    }

    /// The well-formedness of the record.
    pub closed spec fn wf(self) -> bool {
        self.values.wf()
    }

    /// A component with no value.
    pub fn new(id: RawId, name: String) -> (r: Record)
        ensures
            r.wf(),
            r.id_spec() == id,
            r.name_spec() == name@,
            r.values() == Map::<u64, AnyValue>::empty(),
    {
        Record { id, name, values: Table::new() }
    }

    /// The name.
    pub fn name(&self) -> (r: &str)
        ensures
            r@ == self.name_spec(),
    {
        self.name.as_str()
    }

    /// The identifier.
    pub fn id(&self) -> (r: RawId)
        ensures
            r == self.id_spec(),
    {
        self.id
    }

    /// The value for `entity`.
    pub fn get(&self, entity: entity::Id) -> (r: Result<AnyValue>)
        requires
            self.wf(),
        ensures
            match r {
                Ok(v) => self.values().contains_key(entity.raw()) && v == self.values()[entity.raw()],
                Err(e) => !self.values().contains_key(entity.raw()) && e.cause_spec() == ErrorCause::EntityMissesValue,
            },
    {
        match self.values.get(entity.to_raw()) {
            Some(v) => Ok(*v),
            None => Err(entity_error(ErrorCause::EntityMissesValue, entity)),
        }
    }

    /// Replaces the value for `entity`.
    pub fn set(&mut self, entity: entity::Id, value: AnyValue) -> (r: Result<()>)
        requires
            old(self).wf(),
        ensures
            final(self).wf(),
            final(self).id_spec() == old(self).id_spec(),
            final(self).name_spec() == old(self).name_spec(),
            match r {
                Ok(()) => old(self).values().contains_key(entity.raw()) && final(self).values() == old(self).values().insert(entity.raw(), value),
                Err(e) => !old(self).values().contains_key(entity.raw()) && e.cause_spec()
                    == ErrorCause::EntityMissesValue && *final(self) == *old(self),
            },
    {
        match self.values.find(entity.to_raw()) {
            Some(i) => {
                let _ = self.values.replace_at(i, value);
                Ok(())
            },
            None => Err(entity_error(ErrorCause::EntityMissesValue, entity)),
        }
    }

    /// Gives `entity` the value zero.
    pub fn create_value(&mut self, entity: entity::Id) -> (r: Result<()>)
        requires
            old(self).wf(),
        ensures
            final(self).wf(),
            final(self).id_spec() == old(self).id_spec(),
            final(self).name_spec() == old(self).name_spec(),
            match r {
                Ok(()) => !old(self).values().contains_key(entity.raw()) && final(self).values() == old(self).values().insert(entity.raw(), 0),
                Err(e) => old(self).values().contains_key(entity.raw()) && e.cause_spec()
                    == ErrorCause::EntityAlreadyHasValue && *final(self) == *old(self),
            },
    {
        match self.values.find(entity.to_raw()) {
            Some(_) => Err(entity_error(ErrorCause::EntityAlreadyHasValue, entity)),
            None => {
                self.values.push(entity.to_raw(), 0);
                Ok(())
            },
        }
    }

    /// Removes the value for `entity`.
    pub fn remove_value(&mut self, entity: entity::Id) -> (r: Result<()>)
        requires
            old(self).wf(),
        ensures
            final(self).wf(),
            final(self).id_spec() == old(self).id_spec(),
            final(self).name_spec() == old(self).name_spec(),
            match r {
                Ok(()) => old(self).values().contains_key(entity.raw()) && final(self).values() == old(self).values().remove(entity.raw()),
                Err(e) => !old(self).values().contains_key(entity.raw()) && e.cause_spec()
                    == ErrorCause::EntityMissesValue && *final(self) == *old(self),
            },
    {
        match self.values.find(entity.to_raw()) {
            Some(i) => {
                let _ = self.values.remove_at(i);
                Ok(())
            },
            None => Err(entity_error(ErrorCause::EntityMissesValue, entity)),
        }
    }

    /// Every entity with its value.
    pub fn iter(&self) -> (r: Vec<(entity::Id, AnyValue)>)
        requires
            self.wf(),
        ensures
            r@.len() == self.values().len(),
            forall|i: int| 0 <= i < r@.len() ==> self.values().contains_key(#[trigger] r@[i].0.raw())
                && self.values()[r@[i].0.raw()] == r@[i].1,
    {
        let mut r: Vec<(entity::Id, AnyValue)> = Vec::new();
        let mut i: usize = 0;
        while i < self.values.len()
            invariant
                i <= self.values.entries().len(),
                self.values.wf(),
                r@.len() == i,
                forall|j: int| 0 <= j < r@.len() ==> self.values().contains_key(#[trigger] r@[j].0.raw())
                    && self.values()[r@[j].0.raw()] == r@[j].1,
            decreases self.values.entries().len() - i,
        {
            let (key, value) = self.values.at(i);
            r.push((entity::Id::from_raw(key), *value));
            i += 1;
        }
        proof {
            crate::ecs::table::lemma_key_map_len(self.values.entries());
        }
        r
    }
}

/// The place of the first record, in storage order, that holds no value for
/// the entity numbered `e`; their number when all hold one.
pub open spec fn first_missing(s: Seq<(u64, Record)>, e: u64) -> int
    decreases s.len(),
{
    if s.len() == 0 {
        0
    } else {
        let before = first_missing(s.drop_last(), e);
        if before < s.len() - 1 {
            before
        } else if s.last().1.values().contains_key(e) {
            s.len() as int
        } else {
            s.len() - 1
        }
    }
}

/// Facts about the first record without a value for an entity.
proof fn lemma_first_missing(s: Seq<(u64, Record)>, e: u64)
    ensures
        0 <= first_missing(s, e) <= s.len(),
        forall|i: int| 0 <= i < first_missing(s, e) ==> #[trigger] s[i].1.values().contains_key(e),
        first_missing(s, e) < s.len() ==> !s[first_missing(s, e)].1.values().contains_key(e),
    decreases s.len(),
{
    if s.len() > 0 {
        let t = s.drop_last();
        lemma_first_missing(t, e);
        assert forall|i: int| 0 <= i < t.len() implies t[i] == s[i] by {}
    }
}

/// The components, by the number of their identifier, and their names.
#[derive(Debug, Clone)]
pub(crate) struct Registry {
    next: RawId,
    records: Table<Record>,
    names: Names<RawId>,
}

/// The error of `cause` about the name `name`.
fn name_error(cause: ErrorCause, name: &str) -> (r: Error)
    ensures
        r.cause_spec() == cause,
{
    ErrorContext::new(cause).adding_info("component.name", name.to_owned())
}

impl Registry {
    /// The components, by the number of their identifier.
    pub closed spec fn records(self) -> Map<u64, Record> {
        self.records.view()
    }

    /// The records in storage order.
    pub closed spec fn record_seq(self) -> Seq<(u64, Record)> {
        self.records.entries()
    }

    /// The components by name.
    pub closed spec fn names(self) -> Map<Seq<char>, RawId> {
        self.names.view()
    }

    /// The number of the identifier that the next component created gets.
    pub closed spec fn next_raw(self) -> u64 {
        self.next.0
    }

    /// The well-formedness of the registry: each record sits under the number
    /// of its identifier, below the next one.
    pub closed spec fn wf(self) -> bool {
        &&& self.records.wf()
        &&& self.names.wf()
        &&& forall|k: u64| #[trigger] self.records.view().contains_key(k) ==> self.records.view()[k].id_spec().raw() == k
            && k < self.next.0 && self.records.view()[k].wf()
    }

    /// Every number of the registry is that of a stored record.
    pub proof fn lemma_record_seq_covers(self, k: u64)
        requires
            self.records().contains_key(k),
        ensures
            exists|i: int| 0 <= i < self.record_seq().len() && self.record_seq()[i].0 == k,
    {
        let s = self.records.entries();
        let i = choose|i: int| 0 <= i < s.len() && #[trigger] s[i].0 == k;
        assert(self.record_seq()[i].0 == k);
    }

    /// Each stored record sits under the number of its identifier.
    pub proof fn lemma_record_seq(self, i: int)
        requires
            self.wf(),
            0 <= i < self.record_seq().len(),
        ensures
            self.records().contains_key(self.record_seq()[i].0),
            self.records()[self.record_seq()[i].0] == self.record_seq()[i].1,
            self.record_seq()[i].1.id_spec().raw() == self.record_seq()[i].0,
            self.record_seq()[i].1.wf(),
    {
        crate::ecs::table::lemma_key_map_at(self.records.entries(), i);
        assert(self.records.view().contains_key(self.record_seq()[i].0));
    }

    /// No component and no name.
    pub fn new() -> (r: Registry)
        ensures
            r.wf(),
            r.records() == Map::<u64, Record>::empty(),
            r.names() == Map::<Seq<char>, RawId>::empty(),
            r.next_raw() == 0,
    {
        Registry { next: RawId(0), records: Table::new(), names: Names::new() }
    }

    /// The number of components.
    pub fn len(&self) -> (r: usize)
        ensures
            r == self.record_seq().len(),
    {
        self.records.len()
    }

    /// Adds the component named `name`, new to the registry.
    fn add_named(&mut self, name: String) -> (r: RawId)
        requires
            old(self).wf(),
            old(self).next_raw() < u64::MAX,
            !old(self).names().contains_key(name@),
        ensures
            final(self).wf(),
            r.raw() == old(self).next_raw(),
            !old(self).records().contains_key(r.raw()),
            final(self).next_raw() == old(self).next_raw() + 1,
            final(self).names() == old(self).names().insert(name@, r),
            final(self).records() == old(self).records().insert(r.raw(), final(self).records()[r.raw()]),
            final(self).records()[r.raw()].id_spec() == r,
            final(self).records()[r.raw()].name_spec() == name@,
            final(self).records()[r.raw()].values() == Map::<u64, AnyValue>::empty(),
    {
        let id = self.next;
        self.names.insert(name.clone(), id);
        self.next = RawId(self.next.0 + 1);
        self.records.push(id.0, Record::new(id, name));
        id
    }

    /// Creates the component named `name`, unless the name is taken.
    pub fn create(&mut self, name: String) -> (r: Result<RawId>)
        requires
            old(self).wf(),
            old(self).next_raw() < u64::MAX,
        ensures
            final(self).wf(),
            match r {
                Ok(id) => {
                    &&& !old(self).names().contains_key(name@)
                    &&& id.raw() == old(self).next_raw()
                    &&& !old(self).records().contains_key(id.raw())
                    &&& final(self).next_raw() == old(self).next_raw() + 1
                    &&& final(self).names() == old(self).names().insert(name@, id)
                    &&& final(self).records() == old(self).records().insert(id.raw(), final(self).records()[id.raw()])
                    &&& final(self).records()[id.raw()].id_spec() == id
                    &&& final(self).records()[id.raw()].name_spec() == name@
                    &&& final(self).records()[id.raw()].values() == Map::<u64, AnyValue>::empty()
                },
                Err(e) => old(self).names().contains_key(name@) && e.cause_spec() == ErrorCause::DuplicateComponentName
                    && *final(self) == *old(self),
            },
    {
        match self.names.get(name.as_str()) {
            Some(existing) => Err(
                ErrorContext::new(ErrorCause::DuplicateComponentName).adding_info("component.name", name).adding_info(
                    "component.conflict.id",
                    existing.to_string(),
                ),
            ),
            None => Ok(self.add_named(name)),
        }
    }

    /// The component named `name`, created when there is none.
    pub fn get_or_create(&mut self, name: String) -> (r: RawId)
        requires
            old(self).wf(),
            !old(self).names().contains_key(name@) ==> old(self).next_raw() < u64::MAX,
        ensures
            final(self).wf(),
            if old(self).names().contains_key(name@) {
                r == old(self).names()[name@] && *final(self) == *old(self)
            } else {
                &&& r.raw() == old(self).next_raw()
                &&& !old(self).records().contains_key(r.raw())
                &&& final(self).next_raw() == old(self).next_raw() + 1
                &&& final(self).names() == old(self).names().insert(name@, r)
                &&& final(self).records() == old(self).records().insert(r.raw(), final(self).records()[r.raw()])
                &&& final(self).records()[r.raw()].id_spec() == r
                &&& final(self).records()[r.raw()].name_spec() == name@
                &&& final(self).records()[r.raw()].values() == Map::<u64, AnyValue>::empty()
            },
    {
        match self.names.get(name.as_str()) {
            Some(existing) => existing,
            None => self.add_named(name),
        }
    }

    /// The component named `name`.
    pub fn id_from_name(&self, name: &str) -> (r: Result<RawId>)
        requires
            self.wf(),
        ensures
            match r {
                Ok(id) => self.names().contains_key(name@) && id == self.names()[name@],
                Err(e) => !self.names().contains_key(name@) && e.cause_spec() == ErrorCause::InvalidComponentName,
            },
    {
        match self.names.get(name) {
            Some(id) => Ok(id),
            None => Err(name_error(ErrorCause::InvalidComponentName, name)),
        }
    }

    /// The record of `component`.
    pub fn get(&self, component: RawId) -> (r: Result<&Record>)
        requires
            self.wf(),
        ensures
            match r {
                Ok(rec) => self.records().contains_key(component.raw()) && *rec == self.records()[component.raw()] && rec.wf(),
                Err(e) => !self.records().contains_key(component.raw()) && e.cause_spec() == ErrorCause::InvalidComponentId,
            },
    {
        match self.records.get(component.0) {
            Some(rec) => {
                assert(self.records.view().contains_key(component.0));
                Ok(rec)
            },
            None => Err(component_error(ErrorCause::InvalidComponentId, component)),
        }
    }

    /// Gives `entity` the value zero of `component`.
    pub fn create_value(&mut self, entity: entity::Id, component: RawId) -> (r: Result<()>)
        requires
            old(self).wf(),
        ensures
            final(self).wf(),
            final(self).names() == old(self).names(),
            final(self).next_raw() == old(self).next_raw(),
            final(self).records().dom() == old(self).records().dom(),
            forall|k: u64| #[trigger] old(self).records().contains_key(k) && k != component.raw() ==> final(self).records()[k]
                == old(self).records()[k],
            old(self).records().contains_key(component.raw()) ==> {
                let before = old(self).records()[component.raw()];
                let after = final(self).records()[component.raw()];
                &&& after.id_spec() == before.id_spec()
                &&& after.name_spec() == before.name_spec()
            },
            match r {
                Ok(()) => old(self).records().contains_key(component.raw()) && !old(self).records()[component.raw()].values().contains_key(
                    entity.raw(),
                ) && final(self).records()[component.raw()].values() == old(self).records()[component.raw()].values().insert(
                    entity.raw(),
                    0,
                ),
                Err(e) => final(self).records() == old(self).records() && if old(self).records().contains_key(component.raw()) {
                    old(self).records()[component.raw()].values().contains_key(entity.raw()) && e.cause_spec()
                        == ErrorCause::EntityAlreadyHasValue
                } else {
                    e.cause_spec() == ErrorCause::InvalidComponentId
                },
            },
    {
        match self.records.find(component.0) {
            None => Err(component_error(ErrorCause::InvalidComponentId, component).adding_info("entity.id", entity.to_string())),
            Some(i) => {
                let ghost s = self.records.entries();
                proof {
                    crate::ecs::table::lemma_key_map_at(s, i as int);
                }
                let mut record = self.records.replace_at(i, Record::new(component, String::new()));
                let r = record.create_value(entity);
                let _ = self.records.replace_at(i, record);
                proof {
                    crate::ecs::table::lemma_key_map_update(s, i as int, record);
                    assert(self.records().dom() =~= old(self).records().dom());
                }
                match r {
                    Ok(()) => Ok(()),
                    Err(e) => {
                        assert(self.records() =~= old(self).records());
                        Err(e.adding_info("component.id", component.to_string()))
                    },
                }
            },
        }
    }

    /// Replaces the value of `component` for `entity`.
    pub fn set_value(&mut self, entity: entity::Id, component: RawId, value: AnyValue) -> (r: Result<()>)
        requires
            old(self).wf(),
        ensures
            final(self).wf(),
            final(self).names() == old(self).names(),
            final(self).next_raw() == old(self).next_raw(),
            final(self).records().dom() == old(self).records().dom(),
            forall|k: u64| #[trigger] old(self).records().contains_key(k) && k != component.raw() ==> final(self).records()[k]
                == old(self).records()[k],
            old(self).records().contains_key(component.raw()) ==> {
                let before = old(self).records()[component.raw()];
                let after = final(self).records()[component.raw()];
                &&& after.id_spec() == before.id_spec()
                &&& after.name_spec() == before.name_spec()
            },
            match r {
                Ok(()) => old(self).records().contains_key(component.raw()) && old(self).records()[component.raw()].values().contains_key(
                    entity.raw(),
                ) && final(self).records()[component.raw()].values() == old(self).records()[component.raw()].values().insert(
                    entity.raw(),
                    value,
                ),
                Err(e) => final(self).records() == old(self).records() && if old(self).records().contains_key(component.raw()) {
                    !old(self).records()[component.raw()].values().contains_key(entity.raw()) && e.cause_spec()
                        == ErrorCause::EntityMissesValue
                } else {
                    e.cause_spec() == ErrorCause::InvalidComponentId
                },
            },
    {
        match self.records.find(component.0) {
            None => Err(component_error(ErrorCause::InvalidComponentId, component).adding_info("entity.id", entity.to_string())),
            Some(i) => {
                let ghost s = self.records.entries();
                proof {
                    crate::ecs::table::lemma_key_map_at(s, i as int);
                }
                let mut record = self.records.replace_at(i, Record::new(component, String::new()));
                let r = record.set(entity, value);
                let _ = self.records.replace_at(i, record);
                proof {
                    crate::ecs::table::lemma_key_map_update(s, i as int, record);
                    assert(self.records().dom() =~= old(self).records().dom());
                }
                match r {
                    Ok(()) => Ok(()),
                    Err(e) => {
                        assert(self.records() =~= old(self).records());
                        Err(e.adding_info("component.id", component.to_string()))
                    },
                }
            },
        }
    }

    /// The record of the component, to change in place; the registry stays
    /// well-formed as long as the record keeps its identifier and its own
    /// well-formedness.
    pub fn get_mut(&mut self, component: RawId) -> (r: Result<&mut Record>)
        requires
            old(self).wf(),
        ensures
            match r {
                Ok(rec) => {
                    &&& old(self).records().contains_key(component.raw())
                    &&& *rec == old(self).records()[component.raw()]
                    &&& final(self).records() == old(self).records().insert(component.raw(), *final(rec))
                    &&& final(self).names() == old(self).names()
                    &&& final(self).next_raw() == old(self).next_raw()
                    &&& (final(rec).id_spec() == old(self).records()[component.raw()].id_spec() && final(rec).wf() ==> final(self).wf())
                },
                Err(e) => !old(self).records().contains_key(component.raw()) && e.cause_spec() == ErrorCause::InvalidComponentId
                    && *final(self) == *old(self),
            },
    {
        match self.records.get_mut(component.0) {
            Some(rec) => Ok(rec),
            None => Err(component_error(ErrorCause::InvalidComponentId, component)),
        }
    }

    /// Removes `component`; its name, if any, stays.
    pub fn remove(&mut self, component: RawId) -> (r: Result<()>)
        requires
            old(self).wf(),
        ensures
            final(self).wf(),
            final(self).names() == old(self).names(),
            final(self).next_raw() == old(self).next_raw(),
            final(self).records() == old(self).records().remove(component.raw()),
            match r {
                Ok(()) => old(self).records().contains_key(component.raw()),
                Err(e) => !old(self).records().contains_key(component.raw()) && e.cause_spec()
                    == ErrorCause::InvalidComponentId,
            },
    {
        match self.records.find(component.0) {
            Some(i) => {
                let _ = self.records.remove_at(i);
                Ok(())
            },
            None => {
                assert(self.records().remove(component.raw()) =~= self.records());
                Err(ErrorContext::new(ErrorCause::InvalidComponentId))
            },
        }
    }

    /// Removes the value of `component` for `entity`.
    pub fn remove_value(&mut self, entity: entity::Id, component: RawId) -> (r: Result<()>)
        requires
            old(self).wf(),
        ensures
            final(self).wf(),
            final(self).names() == old(self).names(),
            final(self).next_raw() == old(self).next_raw(),
            final(self).records().dom() == old(self).records().dom(),
            forall|k: u64| #[trigger] old(self).records().contains_key(k) && k != component.raw() ==> final(self).records()[k]
                == old(self).records()[k],
            old(self).records().contains_key(component.raw()) ==> {
                let before = old(self).records()[component.raw()];
                let after = final(self).records()[component.raw()];
                &&& after.id_spec() == before.id_spec()
                &&& after.name_spec() == before.name_spec()
            },
            match r {
                Ok(()) => old(self).records().contains_key(component.raw()) && old(self).records()[component.raw()].values().contains_key(
                    entity.raw(),
                ) && final(self).records()[component.raw()].values() == old(self).records()[component.raw()].values().remove(
                    entity.raw(),
                ),
                Err(e) => final(self).records() == old(self).records() && if old(self).records().contains_key(component.raw()) {
                    !old(self).records()[component.raw()].values().contains_key(entity.raw()) && e.cause_spec()
                        == ErrorCause::EntityMissesValue
                } else {
                    e.cause_spec() == ErrorCause::InvalidComponentId
                },
            },
    {
        match self.records.find(component.0) {
            None => Err(component_error(ErrorCause::InvalidComponentId, component).adding_info("entity.id", entity.to_string())),
            Some(i) => {
                let ghost s = self.records.entries();
                proof {
                    crate::ecs::table::lemma_key_map_at(s, i as int);
                }
                let mut record = self.records.replace_at(i, Record::new(component, String::new()));
                let r = record.remove_value(entity);
                let _ = self.records.replace_at(i, record);
                proof {
                    crate::ecs::table::lemma_key_map_update(s, i as int, record);
                    assert(self.records().dom() =~= old(self).records().dom());
                }
                match r {
                    Ok(()) => Ok(()),
                    Err(e) => {
                        assert(self.records() =~= old(self).records());
                        Err(e.adding_info("component.id", component.to_string()))
                    },
                }
            },
        }
    }

    /// Removes the value of every component, in storage order, for `entity`,
    /// stopping at the first component that holds none.
    pub fn remove_values(&mut self, entity: entity::Id) -> (r: Result<()>)
        requires
            old(self).wf(),
        ensures
            final(self).wf(),
            final(self).names() == old(self).names(),
            final(self).next_raw() == old(self).next_raw(),
            final(self).record_seq().len() == old(self).record_seq().len(),
            forall|i: int| 0 <= i < old(self).record_seq().len() ==> {
                let before = #[trigger] old(self).record_seq()[i];
                let after = final(self).record_seq()[i];
                &&& after.0 == before.0
                &&& after.1.id_spec() == before.1.id_spec()
                &&& after.1.name_spec() == before.1.name_spec()
                &&& after.1.values() == if i < first_missing(old(self).record_seq(), entity.raw()) {
                    before.1.values().remove(entity.raw())
                } else {
                    before.1.values()
                }
            },
            final(self).records().dom() == old(self).records().dom(),
            0 <= first_missing(old(self).record_seq(), entity.raw()) <= old(self).record_seq().len(),
            forall|i: int| 0 <= i < first_missing(old(self).record_seq(), entity.raw()) ==> #[trigger] old(self).record_seq()[i].1.values().contains_key(entity.raw()),
            first_missing(old(self).record_seq(), entity.raw()) < old(self).record_seq().len() ==> !old(self).record_seq()[first_missing(old(self).record_seq(), entity.raw())].1.values().contains_key(entity.raw()),
            match r {
                Ok(()) => first_missing(old(self).record_seq(), entity.raw()) == old(self).record_seq().len(),
                Err(e) => first_missing(old(self).record_seq(), entity.raw()) < old(self).record_seq().len() && e.cause_spec()
                    == ErrorCause::EntityMissesValue,
            },
    {
        proof {
            lemma_first_missing(self.records.entries(), entity.raw());
        }
        let ghost s = self.records.entries();
        let ghost stop = first_missing(s, entity.raw());
        let mut i: usize = 0;
        while i < self.records.len()
            invariant
                self.wf(),
                self.names() == old(self).names(),
                self.next_raw() == old(self).next_raw(),
                s == old(self).record_seq(),
                stop == first_missing(s, entity.raw()),
                0 <= stop <= s.len(),
                forall|j: int| 0 <= j < stop ==> #[trigger] s[j].1.values().contains_key(entity.raw()),
                stop < s.len() ==> !s[stop].1.values().contains_key(entity.raw()),
                i <= stop,
                self.record_seq().len() == s.len(),
                self.records().dom() == old(self).records().dom(),
                forall|j: int| 0 <= j < s.len() ==> {
                    let before = #[trigger] s[j];
                    let after = self.record_seq()[j];
                    &&& after.0 == before.0
                    &&& after.1.id_spec() == before.1.id_spec()
                    &&& after.1.name_spec() == before.1.name_spec()
                    &&& after.1.values() == if j < i {
                        before.1.values().remove(entity.raw())
                    } else {
                        before.1.values()
                    }
                },
            decreases s.len() - i,
        {
            let ghost t = self.records.entries();
            proof {
                self.lemma_record_seq(i as int);
            }
            let mut record = self.records.replace_at(i, Record::new(RawId(0), String::new()));
            let ghost taken = record;
            let removed = record.remove_value(entity);
            let _ = self.records.replace_at(i, record);
            proof {
                crate::ecs::table::lemma_key_map_update(t, i as int, record);
                crate::ecs::table::lemma_key_map_at(t, i as int);
                assert(self.records().dom() =~= old(self).records().dom());
                assert(self.records.entries() == t.update(i as int, (t[i as int].0, record)));
                assert(taken == t[i as int].1);
            }
            match removed {
                Ok(()) => {
                    proof {
                        assert(s[i as int].1.values().contains_key(entity.raw()));
                        assert(i as int != stop);
                    }
                },
                Err(e) => {
                    proof {
                        assert(!s[i as int].1.values().contains_key(entity.raw()));
                        assert(i as int == stop);
                        assert(self.records.entries() =~= t);
                    }
                    return Err(e);
                },
            }
            i += 1;
        }
        Ok(())
    }

    /// The records, in storage order.
    pub fn iter(&self) -> (r: Vec<&Record>)
        requires
            self.wf(),
        ensures
            r@.len() == self.record_seq().len(),
            forall|i: int| 0 <= i < r@.len() ==> *#[trigger] r@[i] == self.record_seq()[i].1,
    {
        let mut r: Vec<&Record> = Vec::new();
        let mut i: usize = 0;
        while i < self.records.len()
            invariant
                self.wf(),
                i <= self.record_seq().len(),
                r@.len() == i,
                forall|j: int| 0 <= j < r@.len() ==> *#[trigger] r@[j] == self.record_seq()[j].1,
            decreases self.record_seq().len() - i,
        {
            r.push(self.records.at(i).1);
            i += 1;
        }
        r
    }
}

} // verus!
