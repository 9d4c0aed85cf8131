//! Storage: configuration, entities, repositories and queries.

use crate::error::EmberError;
use std::marker::PhantomData;
use vstd::prelude::*;
use vstd::std_specs::convert::FromSpecImpl;

verus! {

/// Where the database is and how to log in.
#[derive(Debug)]
pub struct DbConfig {
    /// Database connection URL.
    pub url: String,
    /// Username for the database.
    pub username: String,
    /// Password for the database.
    pub password: String,
}

/// A configuration that holds a database configuration.
pub trait HasDbConfig {
    /// The database configuration.
    fn db_config(&self) -> &DbConfig;
}

impl DbConfig {
    /// The configuration with these three values.
    pub fn new(url: &str, username: &str, password: &str) -> (c: Self)
        ensures
            c.url@ == url@,
            c.username@ == username@,
            c.password@ == password@,
    {
        DbConfig {
            url: url.to_owned(),
            username: username.to_owned(),
            password: password.to_owned(),
        }
    }
}

/// A database configuration from which connections are made.
#[derive(Debug)]
pub struct DbContext {
    /// Database configuration.
    pub config: DbConfig,
}

impl DbContext {
    /// The context of `config`.
    pub fn new(config: DbConfig) -> (c: Self)
        ensures
            c.config == config,
    {
        DbContext { config }
    }
}

/// A value that may be absent.
#[derive(Debug)]
pub struct Optional<T>(Option<T>);

impl<T> Optional<T> {
    /// The value, if there is one.
    pub closed spec fn value(self) -> Option<T> {
        self.0
    }

    /// The optional without a value.
    pub fn empty() -> (o: Self)
        ensures
            o.value() is None,
    {
        Optional(None)
    }

    /// The optional that holds `value`.
    pub fn of(value: T) -> (o: Self)
        ensures
            o.value() == Some(value),
    {
        Optional(Some(value))
    }

    /// The optional of an option.
    pub fn of_nullable(value: Option<T>) -> (o: Self)
        ensures
            o.value() == value,
    {
        Optional(value)
    }

    /// Whether there is a value.
    pub fn is_present(&self) -> (r: bool)
        ensures
            r == self.value() is Some,
    {
        self.0.is_some()
    }

    /// Whether there is no value.
    pub fn is_empty(&self) -> (r: bool)
        ensures
            r == self.value() is None,
    {
        self.0.is_none()
    }

    /// The value by reference.
    pub fn get(&self) -> (r: Option<&T>)
        ensures
            r is Some <==> self.value() is Some,
            r matches Some(v) ==> *v == self.value()->0,
    {
        self.0.as_ref()
    }

    /// Calls `f` on the value if there is one, and not at all if not.
    pub fn if_present<F>(&self, f: F) where F: FnOnce(&T)
        requires
            self.value() matches Some(v) ==> f.requires((&v,)),
        ensures
            self.value() matches Some(v) ==> f.ensures((&v,), ()),
    {
        match &self.0 {
            Some(value) => {
                f(value);
            },
            None => {},
        }
    }

    /// The optional of what `f` makes of the value.
    pub fn map<U, F>(self, f: F) -> (r: Optional<U>) where F: FnOnce(T) -> U
        requires
            self.value() matches Some(v) ==> f.requires((v,)),
        ensures
            r.value() is Some <==> self.value() is Some,
            self.value() matches Some(v) ==> f.ensures((v,), r.value()->0),
    {
        match self.0 {
            Some(value) => Optional(Some(f(value))),
            None => Optional(None),
        }
    }

    /// The value, or `default` where there is none.
    pub fn unwrap_or(self, default: T) -> (r: T)
        ensures
            r == (match self.value() {
                Some(v) => v,
                None => default,
            }),
    {
        match self.0 {
            Some(value) => value,
            None => default,
        }
    }

    /// The option that the optional stands for.
    pub fn into_option(self) -> (r: Option<T>)
        ensures
            r == self.value(),
    {
        self.0
    }
}

impl<T> From<Option<T>> for Optional<T> {
    fn from(value: Option<T>) -> (r: Self) {
        Optional(value)
    }
}

impl<T> FromSpecImpl<Option<T>> for Optional<T> {
    open spec fn obeys_from_spec() -> bool {
        true
    }

    closed spec fn from_spec(value: Option<T>) -> Self {
        Optional(value)
    }
}

impl<T> From<Optional<T>> for Option<T> {
    fn from(value: Optional<T>) -> (r: Self) {
        value.0
    }
}

impl<T> FromSpecImpl<Optional<T>> for Option<T> {
    open spec fn obeys_from_spec() -> bool {
        true
    }

    closed spec fn from_spec(value: Optional<T>) -> Self {
        value.0
    }
}

/// The value of a queried field.
#[derive(Debug)]
pub enum QueryValue {
    /// String value.
    String(String),
    /// Signed integer value.
    I64(i64),
    /// Unsigned integer value.
    U64(u64),
    /// Boolean value.
    Bool(bool),
}

impl QueryValue {
    /// The text value of `value`.
    pub fn text(value: &str) -> (q: QueryValue)
        ensures
            q matches QueryValue::String(s) && s@ == value@,
    {
        QueryValue::String(value.to_owned())
    }
}

impl From<String> for QueryValue {
    fn from(value: String) -> (r: Self) {
        QueryValue::String(value)
    }
}

impl FromSpecImpl<String> for QueryValue {
    open spec fn obeys_from_spec() -> bool {
        true
    }

    open spec fn from_spec(value: String) -> Self {
        QueryValue::String(value)
    }
}

impl From<i64> for QueryValue {
    fn from(value: i64) -> (r: Self) {
        QueryValue::I64(value)
    }
}

impl FromSpecImpl<i64> for QueryValue {
    open spec fn obeys_from_spec() -> bool {
        true
    }

    open spec fn from_spec(value: i64) -> Self {
        QueryValue::I64(value)
    }
}

impl From<u64> for QueryValue {
    fn from(value: u64) -> (r: Self) {
        QueryValue::U64(value)
    }
}

impl FromSpecImpl<u64> for QueryValue {
    open spec fn obeys_from_spec() -> bool {
        true
    }

    open spec fn from_spec(value: u64) -> Self {
        QueryValue::U64(value)
    }
}

impl From<bool> for QueryValue {
    fn from(value: bool) -> (r: Self) {
        QueryValue::Bool(value)
    }
}

impl FromSpecImpl<bool> for QueryValue {
    open spec fn obeys_from_spec() -> bool {
        true
    }

    open spec fn from_spec(value: bool) -> Self {
        QueryValue::Bool(value)
    }
}

/// A query: the field to look at and the value it must have.
#[derive(Debug)]
pub struct Query {
    /// Field name.
    pub field: &'static str,
    /// Field value.
    pub value: QueryValue,
}

impl Query {
    /// The query for `value` in `field`.
    pub fn new(field: &'static str, value: QueryValue) -> (q: Self)
        ensures
            q.field == field,
            q.value == value,
    {
        Query { field, value }
    }
}

/// What is stored: a value with an identifier.
pub trait Entity {
    /// The primary key type of the entity.
    type Id: Clone + Send + Sync + 'static;

    /// The entity's identifier.
    fn id(&self) -> Self::Id;
}

/// A store of entities.
pub trait Repository<E: Entity> {
    /// Finds an entity by id.
    fn find_by_id(&self, id: E::Id) -> Result<Optional<E>, EmberError>;

    /// Persists an entity.
    fn save(&self, entity: E) -> Result<E, EmberError>;

    /// Deletes an entity by id.
    fn delete_by_id(&self, id: E::Id) -> Result<(), EmberError>;
}

/// A repository that can be searched by the value of a field.
pub trait QueryRepository<E: Entity> {
    /// Finds entities by query.
    fn find_by(&self, query: Query) -> Result<Vec<E>, EmberError>;
}

/// A repository that keeps nothing: it finds no entity, and saving and
/// deleting succeed without effect.
#[derive(Debug)]
pub struct InMemoryRepository<E: Entity> {
    _marker: PhantomData<E>,
}

impl<E: Entity> InMemoryRepository<E> {
    /// A repository.
    pub fn new() -> Self {
        InMemoryRepository { _marker: PhantomData }
    }
}

impl<E: Entity> Repository<E> for InMemoryRepository<E> {
    /// No entity is ever found.
    fn find_by_id(&self, _id: E::Id) -> (r: Result<Optional<E>, EmberError>)
        ensures
            r matches Ok(o) && o.value() is None,
    {
        Ok(Optional::empty())
    }

    /// The entity comes back as it was given.
    fn save(&self, entity: E) -> (r: Result<E, EmberError>)
        ensures
            r matches Ok(e) && e == entity,
    {
        Ok(entity)
    }

    /// Deleting always succeeds.
    fn delete_by_id(&self, _id: E::Id) -> (r: Result<(), EmberError>)
        ensures
            r is Ok,
    {
        Ok(())
    }
}

} // verus!
