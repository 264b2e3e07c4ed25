//! Systems: named runners over a list of components, run each tick on every
//! entity that has all of them.
use vstd::prelude::*;
use std::marker::PhantomData;
use crate::ecs::component::{self, AnyValue, Component};
use crate::ecs::entity;
use crate::ecs::error::{Error, ErrorCause, ErrorContext, Result, hex_digits, hex_text};
use crate::ecs::names::Names;
use crate::ecs::table::Table;
use crate::ecs::value::{Entry, RawEntry};

verus! {

/// What a system is run on: the entity whose values it receives.
#[derive(Debug)]
pub struct Context {
    entity: entity::Id,
}

impl Context {
    /// The entity, in specifications.
    pub closed spec fn entity_spec(self) -> entity::Id {
        self.entity
    }

    /// The context of a run on `entity`.
    pub(crate) fn new(entity: entity::Id) -> (r: Context)
        ensures
            r.entity_spec() == entity,
    {
        Context { entity }
    }

    /// The entity whose values the system receives.
    pub fn entity(&self) -> (r: entity::Id)
        ensures
            r == self.entity_spec(),
    {
        self.entity
    }
}

/// The identifier of a system.
#[derive(Debug, Clone, Copy, PartialEq, Eq, Structural, PartialOrd, Ord, Hash)]
pub struct Id(u64);

impl Id {
    /// The number behind the identifier.
    pub closed spec fn raw(self) -> u64 {
        self.0
    }

    /// The number behind the identifier, as an index.
    pub fn cast_to_index(&self) -> (r: usize)
        ensures
            r == self.raw() as usize,
    {
        self.0 as usize
    }

    /// The identifier in lowercase hexadecimal.
    pub fn to_string(&self) -> (r: String)
        ensures
            r@ == hex_digits(self.raw() as nat),
    {
        hex_text(self.0)
    }
}

/// What a system does with the values of one entity: it receives them, one
/// entry per component of the system in order, and may change them.
pub trait SystemRunner: Send + Sync + 'static {
    /// Whether a run on the entity `entity` whose entries held the primitives
    /// `before` may leave `after` in them and succeed exactly when `ok`: what
    /// each runner does.
    spec fn runs(&self, entity: entity::Id, before: Seq<AnyValue>, after: Seq<AnyValue>, ok: bool) -> bool;

    /// Runs on the values of the entity of `ctx`.
    fn run(&mut self, ctx: &Context, values: &mut [RawEntry]) -> (r: Result<()>)
        ensures
            old(self).runs(ctx.entity_spec(), prims(old(values)@), prims(final(values)@), r is Ok),
            forall|e: entity::Id, b: Seq<AnyValue>, a: Seq<AnyValue>, ok: bool|
                #[trigger] final(self).runs(e, b, a, ok) == old(self).runs(e, b, a, ok),
    ;
}

/// The primitives held by raw entries, in order.
pub open spec fn prims(s: Seq<RawEntry>) -> Seq<AnyValue> {
    s.map_values(|x: RawEntry| x.primitive_spec())
}

/// A list of typed component identifiers, and the entries it is run with.
pub trait TypedComponentList {
    /// The typed entries, one per component of the list.
    type Entries<'b>: TypedEntries<'b>;
}

/// What a typed system does with the typed values of one entity.
pub trait TypedSystemRunner<A: TypedComponentList>: Clone + Send + Sync + 'static {
    /// Whether a run on the entity `entity` whose entries held the primitives
    /// `before` may leave `after` in them and succeed exactly when `ok`: what
    /// each runner does. A runner that does not say so may do anything.
    open spec fn typed_runs(&self, entity: entity::Id, before: Seq<AnyValue>, after: Seq<AnyValue>, ok: bool) -> bool {
        true
    }

    /// Runs on the typed values of the entity of `ctx`.
    fn run<'e>(&mut self, ctx: &Context, entries: A::Entries<'e>) -> (r: Result<()>)
        ensures
            old(self).typed_runs(
                ctx.entity_spec(),
                Seq::new(entries.refs().len(), |i: int| (*entries.refs()[i]).primitive_spec()),
                Seq::new(entries.refs().len(), |i: int| (*final(entries.refs()[i])).primitive_spec()),
                r is Ok,
            ),
            forall|e: entity::Id, b: Seq<AnyValue>, a: Seq<AnyValue>, ok: bool|
                #[trigger] final(self).typed_runs(e, b, a, ok) == old(self).typed_runs(e, b, a, ok),
    ;
}

/// Typed entries made from raw entries.
pub trait TypedEntries<'b>: Sized {
    /// How many raw entries the typed entries take.
    spec fn arity() -> nat;

    /// The raw entries behind the typed entries, in order.
    spec fn refs(&self) -> Seq<&'b mut RawEntry>;

    /// The typed entries over the first raw entries, or an error when there
    /// are too few; what is written through them lands in those raw entries,
    /// and the others stay as they were.
    fn try_from_raw(raw: &'b mut [RawEntry]) -> (r: Result<Self>)
        ensures
            Self::arity() >= 1,
            r is Ok <==> old(raw)@.len() >= Self::arity(),
            r matches Err(e) ==> e.cause_spec() == ErrorCause::MissingEntry && final(raw)@ == old(raw)@,
            r matches Ok(e) ==> {
                &&& e.refs().len() == Self::arity()
                &&& forall|i: int| 0 <= i < Self::arity() ==> *#[trigger] e.refs()[i] == old(raw)@[i]
                &&& final(raw)@.len() == old(raw)@.len()
                &&& forall|i: int| 0 <= i < Self::arity() ==> final(raw)@[i] == *final(#[trigger] e.refs()[i])
                &&& forall|i: int| Self::arity() <= i < old(raw)@.len() ==> #[trigger] final(raw)@[i] == old(raw)@[i]
            },
    ;
}

/// A list of component identifiers whose typed entries are `C`.
pub trait TypedEntriesComponents<C>: IntoComponents {
}

/// A list of component identifiers, as untyped identifiers.
pub trait IntoComponents {
    /// The untyped identifiers, in order.
    spec fn raw_ids(&self) -> Seq<component::RawId>;

    /// The untyped identifiers, in order.
    fn into_components(self) -> (r: Vec<component::RawId>)
        ensures
            r@ == self.raw_ids(),
    ;
}

/// The first raw entry and the rest, or the error of a missing entry.
fn split_first<'b>(raw: &'b mut [RawEntry]) -> (r: Result<(&'b mut RawEntry, &'b mut [RawEntry])>)
    ensures
        match r {
            Ok((first, rest)) => {
                &&& old(raw)@.len() > 0
                &&& *first == old(raw)@[0]
                &&& rest@ == old(raw)@.drop_first()
                &&& final(raw)@ == seq![*final(first)] + final(rest)@
            },
            Err(e) => old(raw)@.len() == 0 && e.cause_spec() == ErrorCause::MissingEntry && final(raw)@ == old(raw)@,
        },
{
    if raw.len() == 0 {
        return Err(ErrorContext::new(ErrorCause::MissingEntry));
    }
    let (head, rest) = raw.split_at_mut(1);
    match head.first_mut() {
        Some(first) => Ok((first, rest)),
        None => Err(ErrorContext::new(ErrorCause::MissingEntry)),
    }
}

impl<S0: Component> TypedComponentList for (component::Id<S0>,) {
    type Entries<'b> = (Entry<'b, S0>,);
}

impl<'b, S0> TypedEntriesComponents<(Entry<'b, S0>,)> for (component::Id<S0>,) {
}

impl<S0> IntoComponents for (component::Id<S0>,) {
    open spec fn raw_ids(&self) -> Seq<component::RawId> {
        seq![self.0.raw_spec()]
    }

    fn into_components(self) -> (r: Vec<component::RawId>)
        ensures
            r@ == seq![self.0.raw_spec()],
    {
        let mut r: Vec<component::RawId> = Vec::new();
        r.push(self.0.raw());
        r
    }
}

impl<'b, S0: Component> TypedEntries<'b> for (Entry<'b, S0>,) {
    open spec fn arity() -> nat {
        1
    }

    open spec fn refs(&self) -> Seq<&'b mut RawEntry> {
        seq![self.0.raw]
    }

    fn try_from_raw(raw: &'b mut [RawEntry]) -> (r: Result<(Entry<'b, S0>,)>)
        ensures
            r is Ok <==> old(raw)@.len() >= 1,
    {
        let (e0, _) = match split_first(raw) {
            Ok(p) => p,
            Err(e) => return Err(e),
        };
        Ok((Entry::from_raw(e0),))
    }
}

impl<S0: Component, S1: Component> TypedComponentList for (component::Id<S0>, component::Id<S1>) {
    type Entries<'b> = (Entry<'b, S0>, Entry<'b, S1>);
}

impl<'b, S0, S1> TypedEntriesComponents<(Entry<'b, S0>, Entry<'b, S1>)> for (component::Id<S0>, component::Id<S1>) {
}

impl<S0, S1> IntoComponents for (component::Id<S0>, component::Id<S1>) {
    open spec fn raw_ids(&self) -> Seq<component::RawId> {
        seq![self.0.raw_spec(), self.1.raw_spec()]
    }

    fn into_components(self) -> (r: Vec<component::RawId>)
        ensures
            r@ == seq![self.0.raw_spec(), self.1.raw_spec()],
    {
        let mut r: Vec<component::RawId> = Vec::new();
        r.push(self.0.raw());
        r.push(self.1.raw());
        r
    }
}

impl<'b, S0: Component, S1: Component> TypedEntries<'b> for (Entry<'b, S0>, Entry<'b, S1>) {
    open spec fn arity() -> nat {
        2
    }

    open spec fn refs(&self) -> Seq<&'b mut RawEntry> {
        seq![self.0.raw, self.1.raw]
    }

    fn try_from_raw(raw: &'b mut [RawEntry]) -> (r: Result<(Entry<'b, S0>, Entry<'b, S1>)>)
        ensures
            r is Ok <==> old(raw)@.len() >= 2,
    {
        let (e0, rest) = match split_first(raw) {
            Ok(p) => p,
            Err(e) => return Err(e),
        };
        let (e1, _) = match split_first(rest) {
            Ok(p) => p,
            Err(e) => return Err(e),
        };
        Ok((Entry::from_raw(e0), Entry::from_raw(e1)))
    }
}

impl<S0: Component, S1: Component, S2: Component> TypedComponentList for (
    component::Id<S0>,
    component::Id<S1>,
    component::Id<S2>,
) {
    type Entries<'b> = (Entry<'b, S0>, Entry<'b, S1>, Entry<'b, S2>);
}

impl<'b, S0, S1, S2> TypedEntriesComponents<(Entry<'b, S0>, Entry<'b, S1>, Entry<'b, S2>)> for (
    component::Id<S0>,
    component::Id<S1>,
    component::Id<S2>,
) {
}

impl<S0, S1, S2> IntoComponents for (component::Id<S0>, component::Id<S1>, component::Id<S2>) {
    open spec fn raw_ids(&self) -> Seq<component::RawId> {
        seq![self.0.raw_spec(), self.1.raw_spec(), self.2.raw_spec()]
    }

    fn into_components(self) -> (r: Vec<component::RawId>)
        ensures
            r@ == seq![self.0.raw_spec(), self.1.raw_spec(), self.2.raw_spec()],
    {
        let mut r: Vec<component::RawId> = Vec::new();
        r.push(self.0.raw());
        r.push(self.1.raw());
        r.push(self.2.raw());
        r
    }
}

impl<'b, S0: Component, S1: Component, S2: Component> TypedEntries<'b> for (
    Entry<'b, S0>,
    Entry<'b, S1>,
    Entry<'b, S2>,
) {
    open spec fn arity() -> nat {
        3
    }

    open spec fn refs(&self) -> Seq<&'b mut RawEntry> {
        seq![self.0.raw, self.1.raw, self.2.raw]
    }

    fn try_from_raw(raw: &'b mut [RawEntry]) -> (r: Result<(Entry<'b, S0>, Entry<'b, S1>, Entry<'b, S2>)>)
        ensures
            r is Ok <==> old(raw)@.len() >= 3,
    {
        let (e0, rest) = match split_first(raw) {
            Ok(p) => p,
            Err(e) => return Err(e),
        };
        let (e1, rest) = match split_first(rest) {
            Ok(p) => p,
            Err(e) => return Err(e),
        };
        let (e2, _) = match split_first(rest) {
            Ok(p) => p,
            Err(e) => return Err(e),
        };
        Ok((Entry::from_raw(e0), Entry::from_raw(e1), Entry::from_raw(e2)))
    }
}

/// A typed runner seen as an untyped one: its raw entries are made typed first.
#[derive(Debug)]
pub struct TypedRunnerAdapter<S, C> {
    runner: S,
    marker: PhantomData<C>,
}

impl<S, C> TypedRunnerAdapter<S, C> where
    S: TypedSystemRunner<C>,
    C: TypedComponentList + Send + Sync + 'static,
 {
    /// The typed `runner` seen as an untyped one.
    pub fn new(runner: S) -> (r: Self)
        ensures
            forall|e: entity::Id, b: Seq<AnyValue>, a: Seq<AnyValue>, ok: bool|
                #[trigger] r.runs(e, b, a, ok) == adapted_runs(
                    runner,
                    <C::Entries<'static> as TypedEntries<'static>>::arity(),
                    e,
                    b,
                    a,
                    ok,
                ),
    {
        TypedRunnerAdapter { runner, marker: PhantomData }
    }
}

/// What a typed runner over `n` components does as an untyped one: too few
/// entries fail and stay; else the typed runner runs on the first `n` and the
/// others stay.
pub open spec fn adapted_runs<S: TypedSystemRunner<C>, C: TypedComponentList>(
    runner: S,
    n: nat,
    entity: entity::Id,
    before: Seq<AnyValue>,
    after: Seq<AnyValue>,
    ok: bool,
) -> bool {
    if before.len() < n {
        !ok && after == before
    } else {
        &&& after.len() == before.len()
        &&& after.skip(n as int) == before.skip(n as int)
        &&& runner.typed_runs(entity, before.take(n as int), after.take(n as int), ok)
    }
}

impl<S, C> SystemRunner for TypedRunnerAdapter<S, C> where
    S: TypedSystemRunner<C>,
    C: TypedComponentList + Send + Sync + 'static,
 {
    closed spec fn runs(&self, entity: entity::Id, before: Seq<AnyValue>, after: Seq<AnyValue>, ok: bool) -> bool {
        adapted_runs(self.runner, <C::Entries<'static> as TypedEntries<'static>>::arity(), entity, before, after, ok)
    }

    fn run(&mut self, ctx: &Context, values: &mut [RawEntry]) -> (r: Result<()>)
        ensures
            old(values)@.len() == 0 ==> (r matches Err(e) && e.cause_spec() == ErrorCause::MissingEntry),
    {
        let ghost v0 = values@;
        let entries = match <C::Entries<'_> as TypedEntries>::try_from_raw(values) {
            Ok(entries) => entries,
            Err(e) => {
                proof {
                    assert(prims(final(values)@) == prims(v0));
                }
                return Err(e);
            },
        };
        let ghost refs = entries.refs();
        let r = self.runner.run(ctx, entries);
        proof {
            let n = <C::Entries<'static> as TypedEntries<'static>>::arity();
            let b = prims(v0);
            let a = prims(final(values)@);
            assert(Seq::new(refs.len(), |i: int| (*refs[i]).primitive_spec()) =~= b.take(n as int));
            assert(Seq::new(refs.len(), |i: int| (*final(refs[i])).primitive_spec()) =~= a.take(n as int));
            assert(a.skip(n as int) =~= b.skip(n as int));
        }
        r
    }
}

/// A system: its identifier, its name, its components and its runner.
pub(crate) struct Record {
    id: Id,
    components: Vec<component::RawId>,
    runner: Box<dyn SystemRunner>,
    name: String,
}

/// A runner that leaves the values as they are and succeeds: what a record
/// holds until its runner is moved in.
struct IdleRunner;

impl SystemRunner for IdleRunner {
    closed spec fn runs(&self, entity: entity::Id, before: Seq<AnyValue>, after: Seq<AnyValue>, ok: bool) -> bool {
        after == before && ok
    }

    fn run(&mut self, _ctx: &Context, _values: &mut [RawEntry]) -> (r: Result<()>) {
        Ok(())
    }
}

impl Record {
    /// The identifier.
    pub closed spec fn id_spec(self) -> Id {
        self.id
    }

    /// The name.
    pub closed spec fn name_spec(self) -> Seq<char> {
        self.name@
    }

    /// The components, in the order the runner receives their values.
    pub closed spec fn components_spec(self) -> Seq<component::RawId> {
        self.components@
    }

    /// What the runner does, by its contract.
    pub closed spec fn runs_spec(self, entity: entity::Id, before: Seq<AnyValue>, after: Seq<AnyValue>, ok: bool) -> bool {
        self.runner.runs(entity, before, after, ok)
    }

    /// A system running over `components` the runner that `runner` held, which
    /// is moved in: `runner` is left holding an idle runner.
    pub fn new(id: Id, name: String, components: Vec<component::RawId>, runner: &mut Box<dyn SystemRunner>) -> (r: Record)
        ensures
            r.id_spec() == id,
            r.name_spec() == name@,
            r.components_spec() == components@,
            forall|e: entity::Id, b: Seq<AnyValue>, a: Seq<AnyValue>, ok: bool|
                #[trigger] r.runs_spec(e, b, a, ok) == old(runner).runs(e, b, a, ok),
    {
        let mut r = Record { id, name, components, runner: Box::new(IdleRunner) };
        std::mem::swap(&mut r.runner, runner);
        r
    }

    /// The identifier.
    pub fn id(&self) -> (r: Id)
        ensures
            r == self.id_spec(),
    {
        self.id
    }

    /// The name.
    pub fn name(&self) -> (r: &str)
        ensures
            r@ == self.name_spec(),
    {
        self.name.as_str()
    }

    /// The components, in the order the runner receives their values.
    pub fn components(&self) -> (r: &[component::RawId])
        ensures
            r@ == self.components_spec(),
    {
        self.components.as_slice()
    }

    /// The runner.
    pub fn runner(&mut self) -> (r: &mut Box<dyn SystemRunner>) {
        &mut self.runner
    }

    /// Runs the runner on `values` for the entity of `ctx`; the system keeps
    /// its identifier, name and components.
    pub fn run(&mut self, ctx: &Context, values: &mut [RawEntry]) -> (r: Result<()>)
        ensures
            final(self).id_spec() == old(self).id_spec(),
            final(self).name_spec() == old(self).name_spec(),
            final(self).components_spec() == old(self).components_spec(),
            old(self).runs_spec(ctx.entity_spec(), prims(old(values)@), prims(final(values)@), r is Ok),
            forall|e: entity::Id, b: Seq<AnyValue>, a: Seq<AnyValue>, ok: bool|
                #[trigger] final(self).runs_spec(e, b, a, ok) == old(self).runs_spec(e, b, a, ok),
    {
        self.runner.run(ctx, values)
    }
}

/// The systems, by the number of their identifier, and their names.
pub(crate) struct Registry {
    next: Id,
    records: Table<Record>,
    names: Names<Id>,
}

/// The error of `cause` about the system `system`.
fn system_error(cause: ErrorCause, system: Id) -> (r: Error)
    ensures
        r.cause_spec() == cause,
{
    ErrorContext::new(cause).adding_info("system.id", system.to_string())
}

/// Whether two registries hold the same systems, whatever the state of their runners.
pub open spec fn same_systems(a: Map<u64, Record>, b: Map<u64, Record>) -> bool {
    &&& a.dom() == b.dom()
    &&& forall|k: u64| #[trigger] a.contains_key(k) ==> {
        &&& a[k].id_spec() == b[k].id_spec()
        &&& a[k].name_spec() == b[k].name_spec()
        &&& a[k].components_spec() == b[k].components_spec()
        &&& forall|e: entity::Id, bv: Seq<AnyValue>, av: Seq<AnyValue>, ok: bool|
            #[trigger] a[k].runs_spec(e, bv, av, ok) == b[k].runs_spec(e, bv, av, ok)
    }
}

impl Registry {
    /// The systems, by the number of their identifier.
    pub closed spec fn records(self) -> Map<u64, Record> {
        self.records.view()
    }

    /// The records in storage order.
    pub closed spec fn record_seq(self) -> Seq<(u64, Record)> {
        self.records.entries()
    }

    /// The systems by name.
    pub closed spec fn names(self) -> Map<Seq<char>, Id> {
        self.names.view()
    }

    /// The number of the identifier that the next system created gets.
    pub closed spec fn next_raw(self) -> u64 {
        self.next.0
    }

    /// The well-formedness of the registry: each record sits under the number
    /// of its identifier, below the next one.
    pub closed spec fn wf(self) -> bool {
        &&& self.records.wf()
        &&& self.names.wf()
        &&& forall|k: u64| #[trigger] self.records.view().contains_key(k) ==> self.records.view()[k].id_spec().raw() == k
            && k < self.next.0
        &&& forall|i: int, j: int|
            0 <= i < j < self.records.entries().len() ==> #[trigger] self.records.entries()[i].0
                < #[trigger] self.records.entries()[j].0
    }

    /// Every number of the registry is that of a stored record.
    pub proof fn lemma_record_seq_covers(self, k: u64)
        requires
            self.records().contains_key(k),
        ensures
            exists|i: int| 0 <= i < self.record_seq().len() && self.record_seq()[i].0 == k,
    {
        let s = self.records.entries();
        let i = choose|i: int| 0 <= i < s.len() && #[trigger] s[i].0 == k;
        assert(self.record_seq()[i].0 == k);
    }

    /// The stored records come in increasing order of their numbers.
    pub proof fn lemma_record_seq_sorted(self, i: int, j: int)
        requires
            self.wf(),
            0 <= i < j < self.record_seq().len(),
        ensures
            self.record_seq()[i].0 < self.record_seq()[j].0,
    {
    }

    /// Each stored record sits under the number of its identifier.
    pub proof fn lemma_record_seq(self, i: int)
        requires
            self.wf(),
            0 <= i < self.record_seq().len(),
        ensures
            self.records().contains_key(self.record_seq()[i].0),
            self.records()[self.record_seq()[i].0] == self.record_seq()[i].1,
            self.record_seq()[i].1.id_spec().raw() == self.record_seq()[i].0,
    {
        crate::ecs::table::lemma_key_map_at(self.records.entries(), i);
        assert(self.records.view().contains_key(self.record_seq()[i].0));
    }

    /// No system and no name.
    pub fn new() -> (r: Registry)
        ensures
            r.wf(),
            r.records() == Map::<u64, Record>::empty(),
            r.names() == Map::<Seq<char>, Id>::empty(),
            r.next_raw() == 0,
    {
        Registry { next: Id(0), records: Table::new(), names: Names::new() }
    }

    /// The number of systems.
    pub fn len(&self) -> (r: usize)
        ensures
            r == self.record_seq().len(),
    {
        self.records.len()
    }

    /// Creates the system named `name`, running over `components` the runner
    /// that `runner` holds, unless the name is taken; the runner is moved in,
    /// leaving an idle one in `runner`.
    pub fn create_boxed(
        &mut self,
        name: String,
        components: Vec<component::RawId>,
        runner: &mut Box<dyn SystemRunner>,
    ) -> (r: Result<Id>)
        requires
            old(self).wf(),
            old(self).next_raw() < u64::MAX,
        ensures
            final(self).wf(),
            match r {
                Ok(id) => {
                    &&& !old(self).names().contains_key(name@)
                    &&& id.raw() == old(self).next_raw()
                    &&& !old(self).records().contains_key(id.raw())
                    &&& final(self).next_raw() == old(self).next_raw() + 1
                    &&& final(self).names() == old(self).names().insert(name@, id)
                    &&& final(self).records() == old(self).records().insert(id.raw(), final(self).records()[id.raw()])
                    &&& final(self).records()[id.raw()].id_spec() == id
                    &&& final(self).records()[id.raw()].name_spec() == name@
                    &&& final(self).records()[id.raw()].components_spec() == components@
                    &&& forall|e: entity::Id, b: Seq<AnyValue>, a: Seq<AnyValue>, ok: bool|
                        #[trigger] final(self).records()[id.raw()].runs_spec(e, b, a, ok) == old(runner).runs(
                            e,
                            b,
                            a,
                            ok,
                        )
                },
                Err(e) => {
                    &&& old(self).names().contains_key(name@)
                    &&& e.cause_spec() == ErrorCause::DuplicateSystemName
                    &&& final(self).records() == old(self).records()
                    &&& final(self).names() == old(self).names()
                    &&& final(self).next_raw() == old(self).next_raw()
                },
            },
    {
        match self.names.get(name.as_str()) {
            Some(existing) => Err(
                ErrorContext::new(ErrorCause::DuplicateSystemName).adding_info("system.name", name).adding_info(
                    "system.conflict.id",
                    existing.to_string(),
                ),
            ),
            None => {
                let id = self.next;
                self.names.insert(name.clone(), id);
                self.next = Id(self.next.0 + 1);
                let ghost s = self.records.entries();
                self.records.push(id.0, Record::new(id, name, components, runner));
                proof {
                    let t = self.records.entries();
                    assert forall|i: int, j: int| 0 <= i < j < t.len() implies #[trigger] t[i].0 < #[trigger] t[j].0 by {
                        assert(t[i] == s[i]);
                        if j == s.len() {
                            crate::ecs::table::lemma_key_map_at(s, i);
                        } else {
                            assert(t[j] == s[j]);
                        }
                    }
                }
                Ok(id)
            },
        }
    }

    /// Creates the system named `name`, running `runner` over `components`,
    /// unless the name is taken. Which runner the new record holds is left
    /// unsaid: boxed here, as a generic value, it is not one that Verus can
    /// tell apart.
    pub fn create_raw<S: SystemRunner>(&mut self, name: String, components: Vec<component::RawId>, runner: S) -> (r: Result<Id>)
        requires
            old(self).wf(),
            old(self).next_raw() < u64::MAX,
        ensures
            final(self).wf(),
            match r {
                Ok(id) => {
                    &&& !old(self).names().contains_key(name@)
                    &&& id.raw() == old(self).next_raw()
                    &&& !old(self).records().contains_key(id.raw())
                    &&& final(self).next_raw() == old(self).next_raw() + 1
                    &&& final(self).names() == old(self).names().insert(name@, id)
                    &&& final(self).records() == old(self).records().insert(id.raw(), final(self).records()[id.raw()])
                    &&& final(self).records()[id.raw()].id_spec() == id
                    &&& final(self).records()[id.raw()].name_spec() == name@
                    &&& final(self).records()[id.raw()].components_spec() == components@
                },
                Err(e) => {
                    &&& old(self).names().contains_key(name@)
                    &&& e.cause_spec() == ErrorCause::DuplicateSystemName
                    &&& final(self).records() == old(self).records()
                    &&& final(self).names() == old(self).names()
                    &&& final(self).next_raw() == old(self).next_raw()
                },
            },
    {
        let mut boxed: Box<dyn SystemRunner> = Box::new(runner);
        self.create_boxed(name, components, &mut boxed)
    }

    /// Creates the system named `name`, running the typed `runner` over the
    /// typed `components`, unless the name is taken. Which runner the new
    /// record holds is left unsaid, as for [`Registry::create_raw`].
    pub fn create_typed<S, A, C>(&mut self, name: String, components: C, runner: S) -> (r: Result<Id>) where
        S: TypedSystemRunner<C>,
        C: IntoComponents + TypedComponentList + TypedEntriesComponents<A> + Send + Sync + 'static,
        requires
            old(self).wf(),
            old(self).next_raw() < u64::MAX,
        ensures
            final(self).wf(),
            match r {
                Ok(id) => {
                    &&& !old(self).names().contains_key(name@)
                    &&& id.raw() == old(self).next_raw()
                    &&& !old(self).records().contains_key(id.raw())
                    &&& final(self).next_raw() == old(self).next_raw() + 1
                    &&& final(self).names() == old(self).names().insert(name@, id)
                    &&& final(self).records() == old(self).records().insert(id.raw(), final(self).records()[id.raw()])
                    &&& final(self).records()[id.raw()].id_spec() == id
                    &&& final(self).records()[id.raw()].name_spec() == name@
                    &&& final(self).records()[id.raw()].components_spec() == components.raw_ids()
                },
                Err(e) => {
                    &&& old(self).names().contains_key(name@)
                    &&& e.cause_spec() == ErrorCause::DuplicateSystemName
                    &&& final(self).records() == old(self).records()
                    &&& final(self).names() == old(self).names()
                    &&& final(self).next_raw() == old(self).next_raw()
                },
            },
    {
        let raw_components = components.into_components();
        self.create_raw(name, raw_components, TypedRunnerAdapter::<S, C>::new(runner))
    }

    /// The system named `name`.
    pub fn id_from_name(&self, name: &str) -> (r: Result<Id>)
        requires
            self.wf(),
        ensures
            match r {
                Ok(id) => self.names().contains_key(name@) && id == self.names()[name@],
                Err(e) => !self.names().contains_key(name@) && e.cause_spec() == ErrorCause::InvalidSystemName,
            },
    {
        match self.names.get(name) {
            Some(id) => Ok(id),
            None => Err(ErrorContext::new(ErrorCause::InvalidSystemName).adding_info("system.name", name.to_owned())),
        }
    }

    /// The record of `system`.
    pub fn get(&self, system: Id) -> (r: Result<&Record>)
        requires
            self.wf(),
        ensures
            match r {
                Ok(rec) => self.records().contains_key(system.raw()) && *rec == self.records()[system.raw()],
                Err(e) => !self.records().contains_key(system.raw()) && e.cause_spec() == ErrorCause::InvalidSystemId,
            },
    {
        match self.records.get(system.0) {
            Some(rec) => Ok(rec),
            None => Err(system_error(ErrorCause::InvalidSystemId, system)),
        }
    }

    /// The record of the system, to change in place; the registry stays
    /// well-formed as long as the record keeps its identifier and its own
    /// well-formedness.
    pub fn get_mut(&mut self, system: Id) -> (r: Result<&mut Record>)
        requires
            old(self).wf(),
        ensures
            match r {
                Ok(rec) => {
                    &&& old(self).records().contains_key(system.raw())
                    &&& *rec == old(self).records()[system.raw()]
                    &&& final(self).records() == old(self).records().insert(system.raw(), *final(rec))
                    &&& final(self).names() == old(self).names()
                    &&& final(self).next_raw() == old(self).next_raw()
                    &&& (final(rec).id_spec() == old(self).records()[system.raw()].id_spec() ==> final(self).wf())
                },
                Err(e) => !old(self).records().contains_key(system.raw()) && e.cause_spec() == ErrorCause::InvalidSystemId
                    && *final(self) == *old(self),
            },
    {
        match self.records.get_mut(system.0) {
            Some(rec) => Ok(rec),
            None => Err(system_error(ErrorCause::InvalidSystemId, system)),
        }
    }

    /// Removes `system`; its name, if any, stays.
    pub fn remove(&mut self, system: Id) -> (r: Result<()>)
        requires
            old(self).wf(),
        ensures
            final(self).wf(),
            final(self).names() == old(self).names(),
            final(self).next_raw() == old(self).next_raw(),
            final(self).records() == old(self).records().remove(system.raw()),
            match r {
                Ok(()) => old(self).records().contains_key(system.raw()),
                Err(e) => !old(self).records().contains_key(system.raw()) && e.cause_spec() == ErrorCause::InvalidSystemId,
            },
    {
        match self.records.find(system.0) {
            Some(i) => {
                let _ = self.records.remove_at(i);
                Ok(())
            },
            None => {
                assert(self.records().remove(system.raw()) =~= self.records());
                Err(system_error(ErrorCause::InvalidSystemId, system))
            },
        }
    }

    /// The record at `index` in storage order.
    pub fn at(&self, index: usize) -> (r: &Record)
        requires
            self.wf(),
            index < self.record_seq().len(),
        ensures
            *r == self.record_seq()[index as int].1,
    {
        self.records.at(index).1
    }

    /// Runs the runner of the system at `index` in storage order.
    pub fn run_at(&mut self, index: usize, ctx: &Context, values: &mut [RawEntry]) -> (r: Result<()>)
        requires
            old(self).wf(),
            index < old(self).record_seq().len(),
        ensures
            final(self).wf(),
            final(self).names() == old(self).names(),
            final(self).next_raw() == old(self).next_raw(),
            same_systems(final(self).records(), old(self).records()),
            old(self).record_seq()[index as int].1.runs_spec(
                ctx.entity_spec(),
                prims(old(values)@),
                prims(final(values)@),
                r is Ok,
            ),
            final(self).record_seq().len() == old(self).record_seq().len(),
            forall|i: int| 0 <= i < old(self).record_seq().len() ==> {
                let before = #[trigger] old(self).record_seq()[i];
                let after = final(self).record_seq()[i];
                &&& after.0 == before.0
                &&& after.1.id_spec() == before.1.id_spec()
                &&& after.1.name_spec() == before.1.name_spec()
                &&& after.1.components_spec() == before.1.components_spec()
            },
    {
        let ghost s = self.records.entries();
        let record = self.records.at_mut(index);
        let r = record.run(ctx, values);
        proof {
            let t = self.records.entries();
            assert(t == s.update(index as int, (s[index as int].0, t[index as int].1)));
            crate::ecs::table::lemma_key_map_update(s, index as int, t[index as int].1);
            crate::ecs::table::lemma_key_map_at(s, index as int);
            assert(self.records().dom() =~= old(self).records().dom());
        }
        r
    }

    /// The records, in storage order.
    pub fn iter(&self) -> (r: Vec<&Record>)
        requires
            self.wf(),
        ensures
            r@.len() == self.record_seq().len(),
            forall|i: int| 0 <= i < r@.len() ==> *#[trigger] r@[i] == self.record_seq()[i].1,
    {
        let mut r: Vec<&Record> = Vec::new();
        let mut i: usize = 0;
        while i < self.records.len()
            invariant
                self.wf(),
                i <= self.record_seq().len(),
                r@.len() == i,
                forall|j: int| 0 <= j < r@.len() ==> *#[trigger] r@[j] == self.record_seq()[j].1,
            decreases self.record_seq().len() - i,
        {
            r.push(self.records.at(i).1);
            i += 1;
        }
        r
    }
}

} // verus!
