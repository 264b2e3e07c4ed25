//! Entities: identifiers, optionally named, each with the set of components
//! that it has.
use vstd::prelude::*;
use crate::ecs::component::{self, AnyValue};
use crate::ecs::error::{Error, ErrorCause, ErrorContext, Result, hex_digits, hex_text};
use crate::ecs::names::Names;
use crate::ecs::table::Table;
use crate::ecs::value::Value;

verus! {

/// The identifier of an entity.
#[derive(Debug, Clone, Copy, PartialEq, Eq, Structural, PartialOrd, Ord, Hash)]
pub struct Id(u64);

impl Id {
    /// The number behind the identifier.
    pub closed spec fn raw(self) -> u64 {
        self.0
    }

    /// The identifier with the number `raw`.
    pub(crate) fn from_raw(raw: u64) -> (r: Id)
        ensures
            r.raw() == raw,
    {
        Id(raw)
    }

    /// The number behind the identifier, in executable form.
    pub(crate) fn to_raw(self) -> (r: u64)
        ensures
            r == self.raw(),
    {
        self.0
    }

    /// Two identifiers are equal when their numbers are.
    pub proof fn lemma_raw_injective(a: Id, b: Id)
        ensures
            a.raw() == b.raw() <==> a == b,
    {
    }

    /// The number behind the identifier, as an index.
    pub fn cast_to_index(self) -> (r: usize)
        ensures
            r == self.raw() as usize,
    {
        self.0 as usize
    }

    /// An identifier read from a primitive has that primitive as its number.
    pub proof fn lemma_from_primitive(primitive: AnyValue)
        ensures
            <Id as Value>::from_spec(primitive).raw() == primitive,
    {
    }

    /// The identifier in lowercase hexadecimal.
    pub fn to_string(&self) -> (r: String)
        ensures
            r@ == hex_digits(self.raw() as nat),
    {
        hex_text(self.0)
    }
}

impl Value for Id {
    closed spec fn from_spec(primitive: AnyValue) -> Id {
        Id(primitive)
    }

    open spec fn to_spec(&self) -> AnyValue {
        self.raw()
    }

    fn from_primitive(primitive: AnyValue) -> (r: Id) {
        Id(primitive)
    }

    fn to_primitive(&self) -> (r: AnyValue) {
        self.0
    }
}

/// The error of `cause` about the entity `entity` and the component `component`.
fn entity_component_error(cause: ErrorCause, entity: Id, component: component::RawId) -> (r: Error)
    ensures
        r.cause_spec() == cause,
{
    ErrorContext::new(cause).adding_info("entity.id", entity.to_string()).adding_info(
        "component.id",
        component.to_string(),
    )
}

/// Whether `s` holds no identifier twice.
pub open spec fn no_duplicates(s: Seq<component::RawId>) -> bool {
    forall|i: int, j: int| 0 <= i < j < s.len() ==> s[i] != s[j]
}

/// Appending to a sequence adds to its set.
proof fn lemma_push_to_set(s: Seq<component::RawId>, a: component::RawId)
    ensures
        s.push(a).to_set() == s.to_set().insert(a),
{
    let t = s.push(a);
    assert forall|x: component::RawId| #[trigger] t.to_set().contains(x) <==> s.to_set().insert(a).contains(x) by {
        if t.contains(x) {
            let i = choose|i: int| 0 <= i < t.len() && t[i] == x;
            if i < s.len() {
                assert(s[i] == x);
            }
        }
        if s.contains(x) {
            let i = choose|i: int| 0 <= i < s.len() && s[i] == x;
            assert(t[i] == x);
        }
        if x == a {
            assert(t[s.len() as int] == a);
        }
    }
    assert(t.to_set() =~= s.to_set().insert(a));
}

/// An entity: its identifier and the components it has.
#[derive(Debug, Clone, PartialEq, Eq)]
pub(crate) struct Record {
    id: Id,
    components: Vec<component::RawId>,
}

impl Record {
    /// The identifier.
    pub closed spec fn id_spec(self) -> Id {
        self.id
    }

    /// The components, in the order they were added.
    pub closed spec fn component_seq(self) -> Seq<component::RawId> {
        self.components@
    }

    /// The components.
    pub open spec fn component_set(self) -> Set<component::RawId> {
        self.component_seq().to_set()
    }

    /// The well-formedness of the record: no component twice.
    pub open spec fn wf(self) -> bool {
        no_duplicates(self.component_seq())
    }

    /// An entity with no component.
    pub fn new(id: Id) -> (r: Record)
        ensures
            r.wf(),
            r.id_spec() == id,
            r.component_seq() == Seq::<component::RawId>::empty(),
    {
        Record { id, components: Vec::new() }
    }

    /// The identifier.
    pub fn id(&self) -> (r: Id)
        ensures
            r == self.id_spec(),
    {
        self.id
    }

    /// The components, in the order they were added.
    pub fn components(&self) -> (r: &[component::RawId])
        ensures
            r@ == self.component_seq(),
    {
        self.components.as_slice()
    }

    /// Whether the entity has `component`.
    pub fn has_component(&self, component: component::RawId) -> (r: bool)
        ensures
            r == self.component_set().contains(component),
    {
        let mut i: usize = 0;
        while i < self.components.len()
            invariant
                i <= self.components@.len(),
                forall|j: int| 0 <= j < i ==> self.components@[j] != component,
            decreases self.components@.len() - i,
        {
            if self.components[i] == component {
                assert(self.components@[i as int] == component);
                return true;
            }
            i += 1;
        }
        proof {
            if self.component_set().contains(component) {
                let j = choose|j: int| 0 <= j < self.components@.len() && self.components@[j] == component;
                assert(self.components@[j] != component);
            }
        }
        false
    }

    /// Adds `component`, which the entity must not have yet.
    pub fn add_component(&mut self, component: component::RawId) -> (r: Result<()>)
        requires
            old(self).wf(),
        ensures
            final(self).wf(),
            final(self).id_spec() == old(self).id_spec(),
            match r {
                Ok(()) => !old(self).component_set().contains(component) && final(self).component_seq() == old(self).component_seq().push(component),
                Err(e) => old(self).component_set().contains(component) && e.cause_spec()
                    == ErrorCause::EntityAlreadyHasComponent && *final(self) == *old(self),
            },
    {
        if self.has_component(component) {
            return Err(entity_component_error(ErrorCause::EntityAlreadyHasComponent, self.id, component));
        }
        self.components.push(component);
        proof {
            assert forall|i: int, j: int| 0 <= i < j < self.components@.len() implies self.components@[i]
                != self.components@[j] by {
                if j == self.components@.len() - 1 {
                    assert(old(self).components@.contains(self.components@[i]));
                }
            }
        }
        Ok(())
    }

    /// Removes `component`, which the entity must have.
    pub fn remove_component(&mut self, component: component::RawId) -> (r: Result<()>)
        requires
            old(self).wf(),
        ensures
            final(self).wf(),
            final(self).id_spec() == old(self).id_spec(),
            match r {
                Ok(()) => old(self).component_set().contains(component) && final(self).component_set() == old(self).component_set().remove(component),
                Err(e) => !old(self).component_set().contains(component) && e.cause_spec()
                    == ErrorCause::ComponentNotInEntity && *final(self) == *old(self),
            },
    {
        let mut i: usize = 0;
        while i < self.components.len()
            invariant
                i <= self.components@.len(),
                *self == *old(self),
                no_duplicates(old(self).components@),
                forall|j: int| 0 <= j < i ==> self.components@[j] != component,
            decreases self.components@.len() - i,
        {
            if self.components[i] == component {
                let ghost s = self.components@;
                self.components.remove(i);
                proof {
                    let t = self.components@;
                    assert forall|a: int| 0 <= a < t.len() implies #[trigger] t[a] == if a < i { s[a] } else { s[a + 1] } by {}
                    assert forall|a: int, b: int| 0 <= a < b < t.len() implies t[a] != t[b] by {
                        let sa = if a < i { a } else { a + 1 };
                        let sb = if b < i { b } else { b + 1 };
                        assert(t[a] == s[sa] && t[b] == s[sb]);
                    }
                    assert forall|x: component::RawId| #[trigger] t.to_set().contains(x) <==> s.to_set().remove(
                        component,
                    ).contains(x) by {
                        if t.contains(x) {
                            let a = choose|a: int| 0 <= a < t.len() && t[a] == x;
                            let sa = if a < i { a } else { a + 1 };
                            assert(s[sa] == x);
                            assert(sa != i as int);
                        }
                        if s.contains(x) && x != component {
                            let b = choose|b: int| 0 <= b < s.len() && s[b] == x;
                            assert(b != i as int);
                            if b < i {
                                assert(t[b] == x);
                            } else {
                                assert(t[b - 1] == x);
                            }
                        }
                    }
                    assert(t.to_set() =~= s.to_set().remove(component));
                    assert(s[i as int] == component);
                }
                return Ok(());
            }
            i += 1;
        }
        proof {
            if self.component_set().contains(component) {
                let j = choose|j: int| 0 <= j < self.components@.len() && self.components@[j] == component;
                assert(self.components@[j] != component);
            }
        }
        Err(entity_component_error(ErrorCause::ComponentNotInEntity, self.id, component))
    }
}

/// The place of the first record, in storage order, whose entity lacks
/// `component`; their number when all have it.
pub open spec fn first_lacking(s: Seq<(u64, Record)>, component: component::RawId) -> int
    decreases s.len(),
{
    if s.len() == 0 {
        0
    } else {
        let before = first_lacking(s.drop_last(), component);
        if before < s.len() - 1 {
            before
        } else if s.last().1.component_set().contains(component) {
            s.len() as int
        } else {
            s.len() - 1
        }
    }
}

/// Facts about the first record whose entity lacks a component.
pub proof fn lemma_first_lacking(s: Seq<(u64, Record)>, component: component::RawId)
    ensures
        0 <= first_lacking(s, component) <= s.len(),
        forall|i: int| 0 <= i < first_lacking(s, component) ==> #[trigger] s[i].1.component_set().contains(component),
        first_lacking(s, component) < s.len() ==> !s[first_lacking(s, component)].1.component_set().contains(component),
    decreases s.len(),
{
    if s.len() > 0 {
        let t = s.drop_last();
        lemma_first_lacking(t, component);
        assert forall|i: int| 0 <= i < t.len() implies t[i] == s[i] by {}
    }
}

/// The entities, by the number of their identifier, and their names.
#[derive(Debug, Clone)]
pub(crate) struct Registry {
    next: Id,
    records: Table<Record>,
    names: Names<Id>,
}

/// The error of `cause` about the entity `entity`.
fn entity_error(cause: ErrorCause, entity: Id) -> (r: Error)
    ensures
        r.cause_spec() == cause,
{
    ErrorContext::new(cause).adding_info("entity.id", entity.to_string())
}

/// The error of `cause` about the name `name`.
fn name_error(cause: ErrorCause, name: &str) -> (r: Error)
    ensures
        r.cause_spec() == cause,
{
    ErrorContext::new(cause).adding_info("entity.name", name.to_owned())
}

impl Registry {
    /// The entities, by the number of their identifier.
    pub closed spec fn records(self) -> Map<u64, Record> {
        self.records.view()
    }

    /// The records in storage order.
    pub closed spec fn record_seq(self) -> Seq<(u64, Record)> {
        self.records.entries()
    }

    /// The entities by name.
    pub closed spec fn names(self) -> Map<Seq<char>, Id> {
        self.names.view()
    }

    /// The number of the identifier that the next entity created gets.
    pub closed spec fn next_raw(self) -> u64 {
        self.next.0
    }

    /// The well-formedness of the registry: each record sits under the number
    /// of its identifier, below the next one, with no component twice.
    pub closed spec fn wf(self) -> bool {
        &&& self.records.wf()
        &&& self.names.wf()
        &&& forall|k: u64| #[trigger] self.records.view().contains_key(k) ==> self.records.view()[k].id_spec().raw() == k
            && k < self.next.0 && self.records.view()[k].wf()
    }

    /// Stored records sit under distinct numbers.
    pub proof fn lemma_record_seq_distinct(self, i: int, j: int)
        requires
            self.wf(),
            0 <= i < j < self.record_seq().len(),
        ensures
            self.record_seq()[i].0 != self.record_seq()[j].0,
    {
    }

    /// Every number of the registry is that of a stored record.
    pub proof fn lemma_record_seq_covers(self, k: u64)
        requires
            self.records().contains_key(k),
        ensures
            exists|i: int| 0 <= i < self.record_seq().len() && self.record_seq()[i].0 == k,
    {
        let s = self.records.entries();
        let i = choose|i: int| 0 <= i < s.len() && #[trigger] s[i].0 == k;
        assert(self.record_seq()[i].0 == k);
    }

    /// Each stored record sits under the number of its identifier.
    pub proof fn lemma_record_seq(self, i: int)
        requires
            self.wf(),
            0 <= i < self.record_seq().len(),
        ensures
            self.records().contains_key(self.record_seq()[i].0),
            self.records()[self.record_seq()[i].0] == self.record_seq()[i].1,
            self.record_seq()[i].1.id_spec().raw() == self.record_seq()[i].0,
            self.record_seq()[i].1.wf(),
    {
        crate::ecs::table::lemma_key_map_at(self.records.entries(), i);
        assert(self.records.view().contains_key(self.record_seq()[i].0));
    }

    /// No entity and no name.
    pub fn new() -> (r: Registry)
        ensures
            r.wf(),
            r.records() == Map::<u64, Record>::empty(),
            r.names() == Map::<Seq<char>, Id>::empty(),
            r.next_raw() == 0,
    {
        Registry { next: Id(0), records: Table::new(), names: Names::new() }
    }

    /// The number of entities.
    pub fn len(&self) -> (r: usize)
        ensures
            r == self.record_seq().len(),
    {
        self.records.len()
    }

    /// The record at `index` in storage order.
    pub fn at(&self, index: usize) -> (r: &Record)
        requires
            self.wf(),
            index < self.record_seq().len(),
        ensures
            *r == self.record_seq()[index as int].1,
    {
        self.records.at(index).1
    }

    /// Creates an entity with no component.
    pub fn create(&mut self) -> (r: Id)
        requires
            old(self).wf(),
            old(self).next_raw() < u64::MAX,
        ensures
            final(self).wf(),
            r.raw() == old(self).next_raw(),
            final(self).next_raw() == old(self).next_raw() + 1,
            final(self).records() == old(self).records().insert(r.raw(), final(self).records()[r.raw()]),
            fresh_record(final(self).records()[r.raw()], r),
            !old(self).records().contains_key(r.raw()),
            final(self).names() == old(self).names(),
    {
        let id = self.next;
        self.next = Id(self.next.0 + 1);
        self.records.push(id.0, Record::new(id));
        id
    }

    /// The entity named `name`, created with that name when there is none.
    pub fn get_or_create(&mut self, name: String) -> (r: Id)
        requires
            old(self).wf(),
            old(self).next_raw() < u64::MAX,
        ensures
            final(self).wf(),
            if old(self).names().contains_key(name@) {
                r == old(self).names()[name@] && *final(self) == *old(self)
            } else {
                &&& r.raw() == old(self).next_raw()
                &&& final(self).next_raw() == old(self).next_raw() + 1
                &&& final(self).records() == old(self).records().insert(r.raw(), final(self).records()[r.raw()])
                &&& fresh_record(final(self).records()[r.raw()], r)
                &&& !old(self).records().contains_key(r.raw())
                &&& final(self).names() == old(self).names().insert(name@, r)
            },
    {
        match self.names.get(name.as_str()) {
            Some(id) => id,
            None => {
                let id = self.next;
                self.names.insert(name, id);
                self.next = Id(self.next.0 + 1);
                self.records.push(id.0, Record::new(id));
                id
            },
        }
    }

    /// Names `entity` with `name`, unless the name belongs to another entity.
    pub fn add_name(&mut self, entity: Id, name: String) -> (r: Result<()>)
        requires
            old(self).wf(),
        ensures
            final(self).wf(),
            final(self).records() == old(self).records(),
            final(self).next_raw() == old(self).next_raw(),
            match r {
                Ok(()) => {
                    &&& old(self).records().contains_key(entity.raw()) || old(self).names().contains_key(name@)
                    &&& !old(self).names().contains_key(name@) || old(self).names()[name@] == entity
                    &&& final(self).names() == old(self).names().insert(name@, entity)
                },
                Err(e) => *final(self) == *old(self) && if old(self).names().contains_key(name@) {
                    old(self).names()[name@] != entity && e.cause_spec() == ErrorCause::EntityNameTaken
                } else {
                    !old(self).records().contains_key(entity.raw()) && e.cause_spec() == ErrorCause::InvalidEntityId
                },
            },
    {
        match self.names.get(name.as_str()) {
            None => {
                if self.records.find(entity.0).is_none() {
                    return Err(
                        ErrorContext::new(ErrorCause::InvalidEntityId).adding_info("entity.id", entity.to_string()).adding_info(
                            "entity.name",
                            name,
                        ),
                    );
                }
                self.names.insert(name, entity);
                Ok(())
            },
            Some(existing) => {
                if existing != entity {
                    return Err(
                        ErrorContext::new(ErrorCause::EntityNameTaken).adding_info("entity.id", entity.to_string()).adding_info(
                            "entity.conflict.id",
                            existing.to_string(),
                        ).adding_info("entity.name", name),
                    );
                }
                assert(old(self).names().insert(name@, entity) =~= old(self).names());
                Ok(())
            },
        }
    }

    /// Removes the name `name`, giving back the entity it named.
    pub fn remove_name(&mut self, name: &str) -> (r: Result<Id>)
        requires
            old(self).wf(),
        ensures
            final(self).wf(),
            final(self).records() == old(self).records(),
            final(self).next_raw() == old(self).next_raw(),
            final(self).names() == old(self).names().remove(name@),
            match r {
                Ok(id) => old(self).names().contains_key(name@) && id == old(self).names()[name@],
                Err(e) => !old(self).names().contains_key(name@) && e.cause_spec() == ErrorCause::InvalidEntityName,
            },
    {
        match self.names.remove(name) {
            Some(id) => Ok(id),
            None => Err(name_error(ErrorCause::InvalidEntityName, name)),
        }
    }

    /// The entity named `name`; a missing name is reported as a name taken.
    pub fn id_from_name(&self, name: &str) -> (r: Result<Id>)
        requires
            self.wf(),
        ensures
            match r {
                Ok(id) => self.names().contains_key(name@) && id == self.names()[name@],
                Err(e) => !self.names().contains_key(name@) && e.cause_spec() == ErrorCause::EntityNameTaken,
            },
    {
        match self.names.get(name) {
            Some(id) => Ok(id),
            None => Err(name_error(ErrorCause::EntityNameTaken, name)),
        }
    }

    /// The record of `entity`.
    pub fn get(&self, entity: Id) -> (r: Result<&Record>)
        requires
            self.wf(),
        ensures
            match r {
                Ok(rec) => self.records().contains_key(entity.raw()) && *rec == self.records()[entity.raw()],
                Err(e) => !self.records().contains_key(entity.raw()) && e.cause_spec() == ErrorCause::InvalidEntityId,
            },
    {
        match self.records.get(entity.0) {
            Some(rec) => Ok(rec),
            None => Err(entity_error(ErrorCause::InvalidEntityId, entity)),
        }
    }

    /// Adds `component` to the components of `entity`, which must exist and
    /// not have it yet.
    pub fn add_component(&mut self, entity: Id, component: component::RawId) -> (r: Result<()>)
        requires
            old(self).wf(),
        ensures
            final(self).wf(),
            final(self).names() == old(self).names(),
            final(self).next_raw() == old(self).next_raw(),
            match r {
                Ok(()) => old(self).records().contains_key(entity.raw()) && !old(self).records()[entity.raw()].component_set().contains(
                    component,
                ) && final(self).records().dom() == old(self).records().dom() && final(self).records()[entity.raw()].component_set()
                    == old(self).records()[entity.raw()].component_set().insert(component) && forall|k: u64|
                    #[trigger] old(self).records().contains_key(k) && k != entity.raw() ==> final(self).records()[k] == old(self).records()[k],
                Err(e) => final(self).records() == old(self).records() && if old(self).records().contains_key(entity.raw()) {
                    old(self).records()[entity.raw()].component_set().contains(component) && e.cause_spec()
                        == ErrorCause::EntityAlreadyHasComponent
                } else {
                    e.cause_spec() == ErrorCause::InvalidEntityId
                },
            },
    {
        match self.records.find(entity.0) {
            None => Err(entity_error(ErrorCause::InvalidEntityId, entity).adding_info("component.id", component.to_string())),
            Some(i) => {
                let ghost s = self.records.entries();
                proof {
                    crate::ecs::table::lemma_key_map_at(s, i as int);
                }
                let mut record = self.records.replace_at(i, Record::new(entity));
                match record.add_component(component) {
                    Ok(()) => {
                        let _ = self.records.replace_at(i, record);
                        proof {
                            crate::ecs::table::lemma_key_map_update(s, i as int, record);
                            lemma_push_to_set(s[i as int].1.component_seq(), component);
                            assert(self.records().dom() =~= old(self).records().dom());
                            assert(old(self).records().contains_key(entity.raw()));
                            assert(old(self).records()[entity.raw()] == s[i as int].1);
                            assert(!old(self).records()[entity.raw()].component_set().contains(component));
                            assert(self.records()[entity.raw()] == record);
                            assert(self.records()[entity.raw()].component_set() == old(self).records()[entity.raw()].component_set().insert(component));
                            assert(forall|k: u64| #[trigger] old(self).records().contains_key(k) && k != entity.raw() ==> self.records()[k] == old(self).records()[k]);
                        }
                        Ok(())
                    },
                    Err(e) => {
                        let _ = self.records.replace_at(i, record);
                        proof {
                            crate::ecs::table::lemma_key_map_update(s, i as int, record);
                            assert(self.records.entries() =~= s);
                        }
                        Err(e)
                    },
                }
            },
        }
    }

    /// Removes `component` from the components of `entity`, which must exist
    /// and have it.
    pub fn remove_component(&mut self, entity: Id, component: component::RawId) -> (r: Result<()>)
        requires
            old(self).wf(),
        ensures
            final(self).wf(),
            final(self).names() == old(self).names(),
            final(self).next_raw() == old(self).next_raw(),
            match r {
                Ok(()) => old(self).records().contains_key(entity.raw()) && old(self).records()[entity.raw()].component_set().contains(
                    component,
                ) && final(self).records().dom() == old(self).records().dom() && final(self).records()[entity.raw()].component_set()
                    == old(self).records()[entity.raw()].component_set().remove(component) && forall|k: u64|
                    #[trigger] old(self).records().contains_key(k) && k != entity.raw() ==> final(self).records()[k] == old(self).records()[k],
                Err(e) => final(self).records() == old(self).records() && if old(self).records().contains_key(entity.raw()) {
                    !old(self).records()[entity.raw()].component_set().contains(component) && e.cause_spec()
                        == ErrorCause::ComponentNotInEntity
                } else {
                    e.cause_spec() == ErrorCause::InvalidEntityId
                },
            },
    {
        match self.records.find(entity.0) {
            None => Err(entity_error(ErrorCause::InvalidEntityId, entity).adding_info("component.id", component.to_string())),
            Some(i) => {
                let ghost s = self.records.entries();
                proof {
                    crate::ecs::table::lemma_key_map_at(s, i as int);
                }
                let mut record = self.records.replace_at(i, Record::new(entity));
                match record.remove_component(component) {
                    Ok(()) => {
                        let _ = self.records.replace_at(i, record);
                        proof {
                            crate::ecs::table::lemma_key_map_update(s, i as int, record);
                            assert(self.records().dom() =~= old(self).records().dom());
                        }
                        Ok(())
                    },
                    Err(e) => {
                        let _ = self.records.replace_at(i, record);
                        proof {
                            crate::ecs::table::lemma_key_map_update(s, i as int, record);
                            assert(self.records.entries() =~= s);
                        }
                        Err(e)
                    },
                }
            },
        }
    }

    /// Removes `component` from the components of the entity at `index` in
    /// storage order, which must have it.
    pub fn remove_component_at(&mut self, index: usize, component: component::RawId) -> (r: Result<()>)
        requires
            old(self).wf(),
            index < old(self).record_seq().len(),
        ensures
            final(self).wf(),
            final(self).names() == old(self).names(),
            final(self).next_raw() == old(self).next_raw(),
            final(self).record_seq().len() == old(self).record_seq().len(),
            forall|i: int| 0 <= i < old(self).record_seq().len() && i != index ==> #[trigger] final(self).record_seq()[i]
                == old(self).record_seq()[i],
            final(self).record_seq()[index as int].0 == old(self).record_seq()[index as int].0,
            final(self).record_seq()[index as int].1.id_spec() == old(self).record_seq()[index as int].1.id_spec(),
            final(self).records().dom() == old(self).records().dom(),
            match r {
                Ok(()) => old(self).record_seq()[index as int].1.component_set().contains(component) && final(self).record_seq()[index as int].1.component_set() == old(self).record_seq()[index as int].1.component_set().remove(
                    component,
                ),
                Err(e) => !old(self).record_seq()[index as int].1.component_set().contains(component) && e.cause_spec()
                    == ErrorCause::ComponentNotInEntity && final(self).record_seq()[index as int] == old(self).record_seq()[index as int],
            },
    {
        let ghost s = self.records.entries();
        proof {
            self.lemma_record_seq(index as int);
        }
        let mut record = self.records.replace_at(index, Record::new(Id(0)));
        let r = record.remove_component(component);
        let _ = self.records.replace_at(index, record);
        proof {
            crate::ecs::table::lemma_key_map_update(s, index as int, record);
            crate::ecs::table::lemma_key_map_at(s, index as int);
            assert(self.records().dom() =~= old(self).records().dom());
            assert forall|k: u64| #[trigger] self.records.view().contains_key(k) implies self.records.view()[k].id_spec().raw() == k
                && k < self.next.0 && self.records.view()[k].wf() by {
                if k != s[index as int].0 {
                    assert(old(self).records.view().contains_key(k));
                }
            }
        }
        r
    }

    /// The record of the entity, to change in place; the registry stays
    /// well-formed as long as the record keeps its identifier and its own
    /// well-formedness.
    pub fn get_mut(&mut self, entity: Id) -> (r: Result<&mut Record>)
        requires
            old(self).wf(),
        ensures
            match r {
                Ok(rec) => {
                    &&& old(self).records().contains_key(entity.raw())
                    &&& *rec == old(self).records()[entity.raw()]
                    &&& final(self).records() == old(self).records().insert(entity.raw(), *final(rec))
                    &&& final(self).names() == old(self).names()
                    &&& final(self).next_raw() == old(self).next_raw()
                    &&& (final(rec).id_spec() == old(self).records()[entity.raw()].id_spec() && final(rec).wf() ==> final(self).wf())
                },
                Err(e) => !old(self).records().contains_key(entity.raw()) && e.cause_spec() == ErrorCause::InvalidEntityId
                    && *final(self) == *old(self),
            },
    {
        match self.records.get_mut(entity.0) {
            Some(rec) => Ok(rec),
            None => Err(entity_error(ErrorCause::InvalidEntityId, entity)),
        }
    }

    /// Removes `entity`; its name, if any, stays.
    pub fn remove(&mut self, entity: Id) -> (r: Result<()>)
        requires
            old(self).wf(),
        ensures
            final(self).wf(),
            final(self).names() == old(self).names(),
            final(self).next_raw() == old(self).next_raw(),
            final(self).records() == old(self).records().remove(entity.raw()),
            match r {
                Ok(()) => old(self).records().contains_key(entity.raw()),
                Err(e) => !old(self).records().contains_key(entity.raw()) && e.cause_spec() == ErrorCause::InvalidEntityId
                    && *final(self) == *old(self),
            },
    {
        match self.records.find(entity.0) {
            Some(i) => {
                let _ = self.records.remove_at(i);
                Ok(())
            },
            None => {
                assert(self.records().remove(entity.raw()) =~= self.records());
                Err(entity_error(ErrorCause::InvalidEntityId, entity))
            },
        }
    }

    /// The records, in storage order.
    pub fn iter(&self) -> (r: Vec<&Record>)
        requires
            self.wf(),
        ensures
            r@.len() == self.record_seq().len(),
            forall|i: int| 0 <= i < r@.len() ==> *#[trigger] r@[i] == self.record_seq()[i].1,
    {
        let mut r: Vec<&Record> = Vec::new();
        let mut i: usize = 0;
        while i < self.records.len()
            invariant
                self.wf(),
                i <= self.record_seq().len(),
                r@.len() == i,
                forall|j: int| 0 <= j < r@.len() ==> *#[trigger] r@[j] == self.record_seq()[j].1,
            decreases self.record_seq().len() - i,
        {
            r.push(self.records.at(i).1);
            i += 1;
        }
        r
    }
}

/// Whether `record` is a fresh record of `id`: no component yet.
pub open spec fn fresh_record(record: Record, id: Id) -> bool {
    &&& record.id_spec() == id
    &&& record.component_seq().len() == 0
    &&& record.wf()
}

} // verus!
