//! Errors of the entity component system: a cause, and information about the
//! place where it arose, as keys each with a list of values.
use vstd::prelude::*;
use vstd::std_specs::convert::IntoSpec;
use vstd::string::StringExecFns;

verus! {

/// What went wrong.
#[derive(Debug, Clone, Copy, PartialEq, Eq, Structural)]
pub enum ErrorCause {
    /// A primitive value stands for no value of the requested type.
    InvalidPrimitive,
    /// The entity already has the component.
    EntityAlreadyHasComponent,
    /// The entity does not have the component.
    ComponentNotInEntity,
    /// No entity has the identifier.
    InvalidEntityId,
    /// The name already belongs to another entity.
    EntityNameTaken,
    /// No entity has the name.
    InvalidEntityName,
    /// The component holds no value for the entity.
    EntityMissesValue,
    /// The component already holds a value for the entity.
    EntityAlreadyHasValue,
    /// The name already belongs to another component.
    DuplicateComponentName,
    /// No component has the name.
    InvalidComponentName,
    /// No component has the identifier.
    InvalidComponentId,
    /// The name already belongs to another system.
    DuplicateSystemName,
    /// No system has the name.
    InvalidSystemName,
    /// No system has the identifier.
    InvalidSystemId,
    /// A system was given fewer entries than its components.
    MissingEntry,
}

/// The view of a list of strings.
pub open spec fn strings_view(v: Seq<String>) -> Seq<Seq<char>> {
    v.map_values(|s: String| s@)
}

/// The view of information entries: each key with its values.
pub open spec fn attrs_view(attrs: Seq<(String, Vec<String>)>) -> Seq<(Seq<char>, Seq<Seq<char>>)> {
    attrs.map_values(|e: (String, Vec<String>)| (e.0@, strings_view(e.1@)))
}

/// Whether `i` is the first place of `key` among the entries.
pub open spec fn first_key_at(attrs: Seq<(Seq<char>, Seq<Seq<char>>)>, key: Seq<char>, i: int) -> bool {
    &&& 0 <= i < attrs.len()
    &&& attrs[i].0 == key
    &&& forall|j: int| 0 <= j < i ==> attrs[j].0 != key
}

/// The first place of `key` among the entries, if it is there.
pub open spec fn key_index(attrs: Seq<(Seq<char>, Seq<Seq<char>>)>, key: Seq<char>) -> Option<int> {
    if exists|i: int| first_key_at(attrs, key, i) {
        Some(choose|i: int| first_key_at(attrs, key, i))
    } else {
        None
    }
}

/// A key that is among the entries has a first place.
proof fn lemma_first_key_exists(attrs: Seq<(Seq<char>, Seq<Seq<char>>)>, key: Seq<char>, w: int)
    requires
        0 <= w < attrs.len(),
        attrs[w].0 == key,
    ensures
        exists|i: int| first_key_at(attrs, key, i),
    decreases w,
{
    if exists|j: int| 0 <= j < w && attrs[j].0 == key {
        let j = choose|j: int| 0 <= j < w && attrs[j].0 == key;
        lemma_first_key_exists(attrs, key, j);
    } else {
        assert(first_key_at(attrs, key, w));
    }
}

/// The first place of a key is the only one.
proof fn lemma_first_key_unique(attrs: Seq<(Seq<char>, Seq<Seq<char>>)>, key: Seq<char>, i: int)
    requires
        first_key_at(attrs, key, i),
    ensures
        key_index(attrs, key) == Some(i),
{
    let k = choose|k: int| first_key_at(attrs, key, k);
    assert(first_key_at(attrs, key, k));
    if k < i {
        assert(attrs[k].0 != key);
    } else if i < k {
        assert(attrs[i].0 != key);
    }
}

/// The values of `key`, none when it is absent.
pub open spec fn values_of(attrs: Seq<(Seq<char>, Seq<Seq<char>>)>, key: Seq<char>) -> Seq<Seq<char>> {
    match key_index(attrs, key) {
        Some(i) => attrs[i].1,
        None => Seq::empty(),
    }
}

/// The entries after adding `value` to the values of `key`: at the end of its
/// list, or as a new key at the end.
pub open spec fn attrs_added(
    attrs: Seq<(Seq<char>, Seq<Seq<char>>)>,
    key: Seq<char>,
    value: Seq<char>,
) -> Seq<(Seq<char>, Seq<Seq<char>>)> {
    match key_index(attrs, key) {
        Some(i) => attrs.update(i, (key, attrs[i].1.push(value))),
        None => attrs.push((key, seq![value])),
    }
}

/// The entries after removing `key`.
pub open spec fn attrs_removed(attrs: Seq<(Seq<char>, Seq<Seq<char>>)>, key: Seq<char>) -> Seq<(Seq<char>, Seq<Seq<char>>)> {
    match key_index(attrs, key) {
        Some(i) => attrs.remove(i),
        None => attrs,
    }
}

/// The entries after moving the values of `key` to the end of those of
/// `new_key`, when `key` is there.
pub open spec fn attrs_renamed(
    attrs: Seq<(Seq<char>, Seq<Seq<char>>)>,
    key: Seq<char>,
    new_key: Seq<char>,
) -> Seq<(Seq<char>, Seq<Seq<char>>)> {
    match key_index(attrs, key) {
        Some(i) => {
            let moved = attrs[i].1;
            let rest = attrs.remove(i);
            match key_index(rest, new_key) {
                Some(j) => rest.update(j, (new_key, rest[j].1 + moved)),
                None => rest.push((new_key, moved)),
            }
        },
        None => attrs,
    }
}

/// Every value of every key, each paired with its key, key after key.
pub open spec fn attrs_pairs(attrs: Seq<(Seq<char>, Seq<Seq<char>>)>) -> Seq<(Seq<char>, Seq<char>)>
    decreases attrs.len(),
{
    if attrs.len() == 0 {
        Seq::empty()
    } else {
        let last = attrs.last();
        attrs_pairs(attrs.drop_last()) + last.1.map_values(|v: Seq<char>| (last.0, v))
    }
}

/// Information about where an error arose: keys, each with a list of values.
#[derive(Debug, Clone, Default)]
pub struct ErrorInfo {
    attrs: Vec<(String, Vec<String>)>,
}

/// A copy of each string, in order.
fn clone_strings(v: &Vec<String>) -> (r: Vec<String>)
    ensures
        r@ == v@,
{
    let mut r: Vec<String> = Vec::new();
    let mut i: usize = 0;
    while i < v.len()
        invariant
            i <= v@.len(),
            r@ == v@.take(i as int),
        decreases v@.len() - i,
    {
        r.push(v[i].clone());
        assert(v@.take(i + 1) =~= v@.take(i as int).push(v@[i as int]));
        i += 1;
    }
    assert(v@.take(v@.len() as int) =~= v@);
    r
}

impl ErrorInfo {
    /// The entries, in the order their keys came.
    pub closed spec fn entries(self) -> Seq<(Seq<char>, Seq<Seq<char>>)> {
        attrs_view(self.attrs@)
    }

    /// Information with no key.
    pub fn new() -> (r: ErrorInfo)
        ensures
            r.entries() == Seq::<(Seq<char>, Seq<Seq<char>>)>::empty(),
    {
        let r = ErrorInfo { attrs: Vec::new() };
        assert(r.entries() =~= Seq::<(Seq<char>, Seq<Seq<char>>)>::empty());
        r
    }

    /// The place of `key`, if it is there.
    fn position(&self, key: &str) -> (r: Option<usize>)
        ensures
            match r {
                Some(i) => key_index(self.entries(), key@) == Some(i as int) && i < self.attrs@.len(),
                None => key_index(self.entries(), key@) is None,
            },
    {
        let wanted = key.to_owned();
        assert(wanted@ == key@);
        let mut i: usize = 0;
        while i < self.attrs.len()
            invariant
                i <= self.attrs@.len(),
                wanted@ == key@,
                forall|j: int| 0 <= j < i ==> #[trigger] self.entries()[j].0 != key@,
            decreases self.attrs@.len() - i,
        {
            if self.attrs[i].0 == wanted {
                proof {
                    assert(self.entries()[i as int] == (self.attrs@[i as int].0@, strings_view(self.attrs@[i as int].1@)));
                    lemma_first_key_unique(self.entries(), key@, i as int);
                }
                return Some(i);
            }
            proof {
                assert(self.entries()[i as int] == (self.attrs@[i as int].0@, strings_view(self.attrs@[i as int].1@)));
            }
            i += 1;
        }
        proof {
            if exists|j: int| first_key_at(self.entries(), key@, j) {
                let j = choose|j: int| first_key_at(self.entries(), key@, j);
                assert(self.entries()[j].0 != key@);
            }
        }
        None
    }

    /// The values of `key`, in the order they were added; none when it is absent.
    pub fn get(&self, key: &str) -> (r: Vec<String>)
        ensures
            strings_view(r@) == values_of(self.entries(), key@),
    {
        match self.position(key) {
            Some(i) => {
                let r = clone_strings(&self.attrs[i].1);
                proof {
                    assert(self.entries()[i as int] == (self.attrs@[i as int].0@, strings_view(self.attrs@[i as int].1@)));
                    assert(key_index(self.entries(), key@) == Some(i as int));
                    assert(values_of(self.entries(), key@) == self.entries()[i as int].1);
                }
                r
            },
            None => {
                let r: Vec<String> = Vec::new();
                assert(key_index(self.entries(), key@) is None);
                assert(strings_view(r@) =~= Seq::<Seq<char>>::empty());
                r
            },
        }
    }

    /// Every value with its key, key after key.
    pub fn iter(&self) -> (r: Vec<(String, String)>)
        ensures
            r@.map_values(|p: (String, String)| (p.0@, p.1@)) == attrs_pairs(self.entries()),
    {
        let mut r: Vec<(String, String)> = Vec::new();
        let mut i: usize = 0;
        while i < self.attrs.len()
            invariant
                i <= self.attrs@.len(),
                r@.map_values(|p: (String, String)| (p.0@, p.1@)) == attrs_pairs(self.entries().take(i as int)),
            decreases self.attrs@.len() - i,
        {
            let key = &self.attrs[i].0;
            let values = &self.attrs[i].1;
            let ghost before = r@.map_values(|p: (String, String)| (p.0@, p.1@));
            let mut j: usize = 0;
            while j < values.len()
                invariant
                    i < self.attrs@.len(),
                    key == &self.attrs@[i as int].0,
                    values == &self.attrs@[i as int].1,
                    j <= values@.len(),
                    r@.map_values(|p: (String, String)| (p.0@, p.1@)) == before + strings_view(values@).take(j as int).map_values(
                        |v: Seq<char>| (key@, v),
                    ),
                decreases values@.len() - j,
            {
                let ghost prev = r@;
                let k = key.clone();
                let v = values[j].clone();
                r.push((k, v));
                proof {
                    let f = |p: (String, String)| (p.0@, p.1@);
                    let g = |w: Seq<char>| (key@, w);
                    assert(r@.map_values(f) =~= prev.map_values(f).push((key@, values@[j as int]@)));
                    assert(strings_view(values@).take(j + 1) =~= strings_view(values@).take(j as int).push(values@[j as int]@));
                    assert(strings_view(values@).take(j + 1).map_values(g) =~= strings_view(values@).take(j as int).map_values(g).push(
                        (key@, values@[j as int]@),
                    ));
                }
                j += 1;
            }
            proof {
                let t = self.entries().take(i + 1);
                assert(t.drop_last() =~= self.entries().take(i as int));
                assert(strings_view(values@).take(j as int) =~= strings_view(values@));
                assert(t.last() == (key@, strings_view(values@)));
            }
            i += 1;
        }
        assert(self.entries().take(self.attrs@.len() as int) =~= self.entries());
        r
    }
    /// Adds `value` at the end of the values of `key`.
    pub fn add(&mut self, key: &str, value: String) -> (r: &mut ErrorInfo)
        ensures
            r.entries() == attrs_added(old(self).entries(), key@, value@),
            *final(self) == *final(r),
    {
        self.add_value(key, value);
        self
    }

    /// Adds `value` at the end of the values of `key`, in place.
    fn add_value(&mut self, key: &str, value: String)
        ensures
            final(self).entries() == attrs_added(old(self).entries(), key@, value@),
    {
        let ghost before = self.entries();
        match self.position(key) {
            Some(i) => {
                let (k, mut values) = self.attrs.remove(i);
                let ghost old_values = values@;
                values.push(value);
                self.attrs.insert(i, (k, values));
                proof {
                    assert(before[i as int] == (k@, strings_view(old_values)));
                    assert(strings_view(values@) =~= strings_view(old_values).push(value@));
                    assert(self.entries() =~= before.update(i as int, (key@, before[i as int].1.push(value@))));
                }
            },
            None => {
                let mut values: Vec<String> = Vec::new();
                values.push(value);
                self.attrs.push((key.to_owned(), values));
                proof {
                    assert(strings_view(values@) =~= seq![value@]);
                    assert(self.entries() =~= before.push((key@, seq![value@])));
                }
            },
        }
    }

    /// The information with `value` added at the end of the values of `key`.
    pub fn adding(self, key: &str, value: String) -> (r: ErrorInfo)
        ensures
            r.entries() == attrs_added(self.entries(), key@, value@),
    {
        let mut this = self;
        this.add_value(key, value);
        this
    }

    /// Removes `key`, giving back its values, none when it is absent.
    pub fn remove(&mut self, key: &str) -> (r: Vec<String>)
        ensures
            final(self).entries() == attrs_removed(old(self).entries(), key@),
            strings_view(r@) == values_of(old(self).entries(), key@),
    {
        let ghost before = self.entries();
        match self.position(key) {
            Some(i) => {
                let (_, values) = self.attrs.remove(i);
                proof {
                    assert(self.entries() =~= before.remove(i as int));
                }
                values
            },
            None => {
                let r: Vec<String> = Vec::new();
                assert(strings_view(r@) =~= Seq::<Seq<char>>::empty());
                r
            },
        }
    }

    /// The information without `key`.
    pub fn removing(self, key: &str) -> (r: ErrorInfo)
        ensures
            r.entries() == attrs_removed(self.entries(), key@),
    {
        let mut this = self;
        let _ = this.remove(key);
        this
    }

    /// Moves the values of `key`, when it is there, to the end of those of
    /// `new_key`.
    pub fn rename(&mut self, key: &str, new_key: &str) -> (r: &mut ErrorInfo)
        ensures
            r.entries() == attrs_renamed(old(self).entries(), key@, new_key@),
            *final(self) == *final(r),
    {
        self.rename_key(key, new_key);
        self
    }

    /// Moves the values of `key`, when it is there, to the end of those of
    /// `new_key`, in place.
    fn rename_key(&mut self, key: &str, new_key: &str)
        ensures
            final(self).entries() == attrs_renamed(old(self).entries(), key@, new_key@),
    {
        let ghost before = self.entries();
        if let Some(i) = self.position(key) {
            let (_, mut moved) = self.attrs.remove(i);
            let ghost moved_view = strings_view(moved@);
            let ghost rest = self.entries();
            proof {
                assert(rest =~= before.remove(i as int));
                assert(before[i as int].1 == moved_view);
            }
            match self.position(new_key) {
                Some(j) => {
                    let (k, mut values) = self.attrs.remove(j);
                    let ghost old_values = values@;
                    values.append(&mut moved);
                    self.attrs.insert(j, (k, values));
                    proof {
                        assert(rest[j as int] == (k@, strings_view(old_values)));
                        assert(strings_view(values@) =~= strings_view(old_values) + moved_view);
                        assert(self.entries() =~= rest.update(j as int, (new_key@, rest[j as int].1 + moved_view)));
                    }
                },
                None => {
                    self.attrs.push((new_key.to_owned(), moved));
                    proof {
                        assert(self.entries() =~= rest.push((new_key@, moved_view)));
                    }
                },
            }
        }
    }

    /// The information with the values of `key`, when it is there, moved to
    /// the end of those of `new_key`.
    pub fn renaming(self, key: &str, new_key: &str) -> (r: ErrorInfo)
        ensures
            r.entries() == attrs_renamed(self.entries(), key@, new_key@),
    {
        let mut this = self;
        this.rename_key(key, new_key);
        this
    }
}

/// An error: its cause, and information about where it arose.
#[derive(Debug)]
pub struct ErrorContext<E> {
    info: ErrorInfo,
    cause: E,
}

/// A result whose error carries information about where it arose.
pub type CtxResult<T, E> = std::result::Result<T, ErrorContext<E>>;

/// An error of the entity component system.
pub type Error = ErrorContext<ErrorCause>;

/// A result of the entity component system.
pub type Result<T> = std::result::Result<T, Error>;

impl<E> ErrorContext<E> {
    /// The cause.
    pub closed spec fn cause_spec(self) -> E {
        self.cause
    }

    /// The information.
    pub closed spec fn info_spec(self) -> ErrorInfo {
        self.info
    }

    /// An error with the cause and no information.
    pub fn new(cause: E) -> (r: ErrorContext<E>)
        ensures
            r.cause_spec() == cause,
            r.info_spec().entries() == Seq::<(Seq<char>, Seq<Seq<char>>)>::empty(),
    {
        ErrorContext { info: ErrorInfo::new(), cause }
    }

    /// The information.
    pub fn info(&self) -> (r: &ErrorInfo)
        ensures
            *r == self.info_spec(),
    {
        &self.info
    }

    /// The information, to change.
    pub fn info_mut(&mut self) -> (r: &mut ErrorInfo)
        ensures
            *r == old(self).info_spec(),
            final(self).info_spec() == *final(r),
            final(self).cause_spec() == old(self).cause_spec(),
    {
        &mut self.info
    }

    /// The cause.
    pub fn cause(&self) -> (r: &E)
        ensures
            *r == self.cause_spec(),
    {
        &self.cause
    }

    /// The cause, the information dropped.
    pub fn into_cause(self) -> (r: E)
        ensures
            r == self.cause_spec(),
    {
        self.cause
    }

    /// The error with its cause replaced by what `f` makes of it.
    pub fn map_cause<F, E0>(self, f: F) -> (r: ErrorContext<E0>) where F: FnOnce(E) -> E0
        requires
            call_requires(f, (self.cause_spec(),)),
        ensures
            call_ensures(f, (self.cause_spec(),), r.cause_spec()),
            r.info_spec() == self.info_spec(),
    {
        let ErrorContext { info, cause } = self;
        ErrorContext { info, cause: f(cause) }
    }

    /// The error with its cause converted.
    pub fn cause_into<E0>(self) -> (r: ErrorContext<E0>) where E: Into<E0>
        ensures
            <E as IntoSpec<E0>>::obeys_into_spec() ==> r.cause_spec() == self.cause_spec().into_spec(),
            r.info_spec() == self.info_spec(),
    {
        let ErrorContext { info, cause } = self;
        ErrorContext { info, cause: cause.into() }
    }

    /// The error with its information replaced by what `f` makes of it.
    pub fn map_info<F>(self, f: F) -> (r: ErrorContext<E>) where F: FnOnce(ErrorInfo) -> ErrorInfo
        requires
            call_requires(f, (self.info_spec(),)),
        ensures
            call_ensures(f, (self.info_spec(),), r.info_spec()),
            r.cause_spec() == self.cause_spec(),
    {
        let ErrorContext { info, cause } = self;
        ErrorContext { info: f(info), cause }
    }

    /// The error with `value` added at the end of the values of `key`.
    pub fn adding_info(self, key: &str, value: String) -> (r: ErrorContext<E>)
        ensures
            r.info_spec().entries() == attrs_added(self.info_spec().entries(), key@, value@),
            r.cause_spec() == self.cause_spec(),
    {
        let ErrorContext { info, cause } = self;
        ErrorContext { info: info.adding(key, value), cause }
    }
}

/// The digit of `d`, below sixteen, in lowercase hexadecimal.
pub open spec fn hex_char(d: nat) -> char {
    if d < 10 {
        (48 + d) as char
    } else {
        (87 + d) as char
    }
}

/// The lowercase hexadecimal digits of `v`, without leading zeros.
pub open spec fn hex_digits(v: nat) -> Seq<char>
    decreases v,
{
    if v < 16 {
        seq![hex_char(v)]
    } else {
        hex_digits(v / 16).push(hex_char(v % 16))
    }
}

/// The decimal digits of `v`, without leading zeros.
pub open spec fn dec_digits(v: nat) -> Seq<char>
    decreases v,
{
    if v < 10 {
        seq![hex_char(v)]
    } else {
        dec_digits(v / 10).push(hex_char(v % 10))
    }
}

/// The text of one digit below sixteen.
fn digit_str(d: u64) -> (r: &'static str)
    requires
        d < 16,
    ensures
        r@ == seq![hex_char(d as nat)],
{
    match d {
        0 => {
            proof {
                reveal_strlit("0");
            }
            "0"
        },
        1 => {
            proof {
                reveal_strlit("1");
            }
            "1"
        },
        2 => {
            proof {
                reveal_strlit("2");
            }
            "2"
        },
        3 => {
            proof {
                reveal_strlit("3");
            }
            "3"
        },
        4 => {
            proof {
                reveal_strlit("4");
            }
            "4"
        },
        5 => {
            proof {
                reveal_strlit("5");
            }
            "5"
        },
        6 => {
            proof {
                reveal_strlit("6");
            }
            "6"
        },
        7 => {
            proof {
                reveal_strlit("7");
            }
            "7"
        },
        8 => {
            proof {
                reveal_strlit("8");
            }
            "8"
        },
        9 => {
            proof {
                reveal_strlit("9");
            }
            "9"
        },
        10 => {
            proof {
                reveal_strlit("a");
            }
            "a"
        },
        11 => {
            proof {
                reveal_strlit("b");
            }
            "b"
        },
        12 => {
            proof {
                reveal_strlit("c");
            }
            "c"
        },
        13 => {
            proof {
                reveal_strlit("d");
            }
            "d"
        },
        14 => {
            proof {
                reveal_strlit("e");
            }
            "e"
        },
        _ => {
            proof {
                reveal_strlit("f");
            }
            "f"
        },
    }
}

/// The lowercase hexadecimal digits of `v`, without leading zeros.
pub(crate) fn hex_text(v: u64) -> (r: String)
    ensures
        r@ == hex_digits(v as nat),
    decreases v,
{
    if v < 16 {
        let mut r = String::new();
        r.append(digit_str(v));
        r
    } else {
        let mut r = hex_text(v / 16);
        r.append(digit_str(v % 16));
        r
    }
}

/// The decimal digits of `v`, without leading zeros.
pub(crate) fn dec_text(v: u64) -> (r: String)
    ensures
        r@ == dec_digits(v as nat),
    decreases v,
{
    if v < 10 {
        let mut r = String::new();
        r.append(digit_str(v));
        r
    } else {
        let mut r = dec_text(v / 10);
        r.append(digit_str(v % 10));
        r
    }
}

/// Conversion of an `Option` into a result with context.
pub trait OptionExt: Sized {
    /// The value held.
    type Item;

    /// The value, or an error with `error` as its cause.
    fn ok_or_ctx<E>(self, error: E) -> CtxResult<Self::Item, E>;

    /// The value, or an error with what `f` makes as its cause.
    fn ok_or_else_ctx<F, E>(self, f: F) -> CtxResult<Self::Item, E> where F: FnOnce() -> E
        requires
            call_requires(f, ()),
    ;
}

impl<T> OptionExt for Option<T> {
    type Item = T;

    fn ok_or_ctx<E>(self, error: E) -> (r: CtxResult<T, E>)
        ensures
            match self {
                Some(v) => r == Ok::<T, ErrorContext<E>>(v),
                None => r is Err && r->Err_0.cause_spec() == error && r->Err_0.info_spec().entries().len() == 0,
            },
    {
        match self {
            Some(v) => Ok(v),
            None => Err(ErrorContext::new(error)),
        }
    }

    fn ok_or_else_ctx<F, E>(self, f: F) -> (r: CtxResult<T, E>) where F: FnOnce() -> E {
        match self {
            Some(v) => Ok(v),
            None => Err(ErrorContext::new(f())),
        }
    }
}

/// Conversion of a plain result into a result with context.
pub trait ResultWrapExt: Sized {
    /// The value of success.
    type WrapOk;

    /// The cause of failure.
    type WrapErr;

    /// The result, its error wrapped with no information.
    fn wrap_ctx(self) -> CtxResult<Self::WrapOk, Self::WrapErr>;
}

impl<T, E> ResultWrapExt for std::result::Result<T, E> {
    type WrapOk = T;

    type WrapErr = E;

    fn wrap_ctx(self) -> (r: CtxResult<T, E>)
        ensures
            match self {
                Ok(v) => r == Ok::<T, ErrorContext<E>>(v),
                Err(e) => r is Err && r->Err_0.cause_spec() == e && r->Err_0.info_spec().entries().len() == 0,
            },
    {
        match self {
            Ok(v) => Ok(v),
            Err(e) => Err(ErrorContext::new(e)),
        }
    }
}

/// Changes to the error of a result with context.
pub trait ResultMapExt: Sized {
    /// The value of success.
    type MapOk;

    /// The cause of failure.
    type MapErr;

    /// The result, the cause of its error converted.
    fn cause_into<E0>(self) -> CtxResult<Self::MapOk, E0> where Self::MapErr: Into<E0>;

    /// The result, the information of its error replaced by what `f` makes of it.
    fn map_info<F>(self, f: F) -> CtxResult<Self::MapOk, Self::MapErr> where F: FnOnce(ErrorInfo) -> ErrorInfo
        requires
            forall|i: ErrorInfo| call_requires(f, (i,)),
    ;

    /// The result, `value` added to the values of `key` of its error.
    fn adding_info(self, key: &str, value: String) -> CtxResult<Self::MapOk, Self::MapErr>;

    /// The result, the values of `key` of its error moved to `new_key`.
    fn renaming_info(self, key: &str, new_key: &str) -> CtxResult<Self::MapOk, Self::MapErr>;

    /// The result, `key` removed from its error.
    fn removing_info(self, key: &str) -> CtxResult<Self::MapOk, Self::MapErr>;
}

impl<T, E> ResultMapExt for CtxResult<T, E> {
    type MapOk = T;

    type MapErr = E;

    fn cause_into<E0>(self) -> (r: CtxResult<T, E0>) where E: Into<E0>
        ensures
            match self {
                Ok(v) => r == Ok::<T, ErrorContext<E0>>(v),
                Err(e) => r is Err && r->Err_0.info_spec() == e.info_spec() && (<E as IntoSpec<E0>>::obeys_into_spec()
                    ==> r->Err_0.cause_spec() == e.cause_spec().into_spec()),
            },
    {
        match self {
            Ok(v) => Ok(v),
            Err(e) => Err(e.cause_into()),
        }
    }

    fn map_info<F>(self, f: F) -> (r: CtxResult<T, E>) where F: FnOnce(ErrorInfo) -> ErrorInfo
        ensures
            match self {
                Ok(v) => r == Ok::<T, ErrorContext<E>>(v),
                Err(e) => r is Err && call_ensures(f, (e.info_spec(),), r->Err_0.info_spec()) && r->Err_0.cause_spec()
                    == e.cause_spec(),
            },
    {
        match self {
            Ok(v) => Ok(v),
            Err(e) => {
                assert(call_requires(f, (e.info_spec(),)));
                Err(e.map_info(f))
            },
        }
    }

    fn adding_info(self, key: &str, value: String) -> (r: CtxResult<T, E>)
        ensures
            match self {
                Ok(v) => r == Ok::<T, ErrorContext<E>>(v),
                Err(e) => r is Err && r->Err_0.cause_spec() == e.cause_spec() && r->Err_0.info_spec().entries()
                    == attrs_added(e.info_spec().entries(), key@, value@),
            },
    {
        match self {
            Ok(v) => Ok(v),
            Err(e) => Err(e.adding_info(key, value)),
        }
    }

    fn renaming_info(self, key: &str, new_key: &str) -> (r: CtxResult<T, E>)
        ensures
            match self {
                Ok(v) => r == Ok::<T, ErrorContext<E>>(v),
                Err(e) => r is Err && r->Err_0.cause_spec() == e.cause_spec() && r->Err_0.info_spec().entries()
                    == attrs_renamed(e.info_spec().entries(), key@, new_key@),
            },
    {
        match self {
            Ok(v) => Ok(v),
            Err(e) => {
                let ErrorContext { info, cause } = e;
                Err(ErrorContext { info: info.renaming(key, new_key), cause })
            },
        }
    }

    fn removing_info(self, key: &str) -> (r: CtxResult<T, E>)
        ensures
            match self {
                Ok(v) => r == Ok::<T, ErrorContext<E>>(v),
                Err(e) => r is Err && r->Err_0.cause_spec() == e.cause_spec() && r->Err_0.info_spec().entries()
                    == attrs_removed(e.info_spec().entries(), key@),
            },
    {
        match self {
            Ok(v) => Ok(v),
            Err(e) => {
                let ErrorContext { info, cause } = e;
                Err(ErrorContext { info: info.removing(key), cause })
            },
        }
    }
}

} // verus!
