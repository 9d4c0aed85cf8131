//! Schema migrations: one `CREATE TABLE IF NOT EXISTS` statement for each
//! entity, derived from its fields, and the registry that hands the
//! statements out in registration order.

use crate::error::EmberError;
use crate::outcome::{all_or_first_err, lemma_all_ok, lemma_first_err_decides};
use crate::text::{chars_of, extend_chars, opt_view, str_eq, string_of, string_views};
use vstd::prelude::*;

verus! {

/// The Unicode lower-casing of `text`, as `str::to_lowercase` computes it.
pub uninterp spec fn lowercased(text: Seq<char>) -> Seq<char>;

/// `str::to_lowercase` maps the text through the Unicode tables; the
/// result depends on the text alone.
pub assume_specification[ str::to_lowercase ](s: &str) -> (r: std::string::String)
    ensures
        r@ == lowercased(s@),
;

/// The column types that a field can map to.
#[derive(Debug, Clone, Copy, PartialEq, Eq, Structural)]
pub enum SqlType {
    Text,
    Boolean,
    BigInt,
    Integer,
}

impl SqlType {
    /// The SQL keyword of the type.
    pub open spec fn keyword(self) -> Seq<char> {
        match self {
            SqlType::Text => "TEXT"@,
            SqlType::Boolean => "BOOLEAN"@,
            SqlType::BigInt => "BIGINT"@,
            SqlType::Integer => "INTEGER"@,
        }
    }

    /// The SQL keyword of the type.
    pub fn as_str(&self) -> (s: &'static str)
        ensures
            s@ == self.keyword(),
    {
        match self {
            SqlType::Text => "TEXT",
            SqlType::Boolean => "BOOLEAN",
            SqlType::BigInt => "BIGINT",
            SqlType::Integer => "INTEGER",
        }
    }
}

/// The column type of a field whose declared type has this name: TEXT for
/// `String`, BOOLEAN for `bool`, BIGINT for the 64-bit and pointer-sized
/// integers, INTEGER for the shorter ones, and TEXT for anything else.
pub open spec fn sql_type_of(name: Seq<char>) -> SqlType {
    if name == "String"@ {
        SqlType::Text
    } else if name == "bool"@ {
        SqlType::Boolean
    } else if name == "i64"@ || name == "u64"@ || name == "isize"@ || name == "usize"@ {
        SqlType::BigInt
    } else if name == "i32"@ || name == "u32"@ || name == "i16"@ || name == "u16"@ || name
        == "i8"@ || name == "u8"@ {
        SqlType::Integer
    } else {
        SqlType::Text
    }
}

/// The column type of a field whose declared type has this name.
pub fn sql_type_named(name: &str) -> (t: SqlType)
    ensures
        t == sql_type_of(name@),
{
    if str_eq(name, "String") {
        SqlType::Text
    } else if str_eq(name, "bool") {
        SqlType::Boolean
    } else if str_eq(name, "i64") || str_eq(name, "u64") || str_eq(name, "isize") || str_eq(
        name,
        "usize",
    ) {
        SqlType::BigInt
    } else if str_eq(name, "i32") || str_eq(name, "u32") || str_eq(name, "i16") || str_eq(
        name,
        "u16",
    ) || str_eq(name, "i8") || str_eq(name, "u8") {
        SqlType::Integer
    } else {
        SqlType::Text
    }
}

/// The declared type of an entity field: a named type, or `Option` around
/// another type.
#[derive(Debug)]
pub enum FieldType {
    Named(String),
    Optional(Box<FieldType>),
}

impl FieldType {
    /// The column type: that of the innermost named type.
    pub open spec fn sql_type(self) -> SqlType
        decreases self,
    {
        match self {
            FieldType::Named(name) => sql_type_of(name@),
            FieldType::Optional(inner) => inner.sql_type(),
        }
    }

    /// Whether the column may hold NULL: where the type is optional.
    pub open spec fn nullable(self) -> bool {
        self is Optional
    }

    /// The type named `name`.
    pub fn named(name: &str) -> (t: FieldType)
        ensures
            t matches FieldType::Named(n) && n@ == name@,
    {
        FieldType::Named(name.to_owned())
    }

    /// `Option` around `inner`.
    pub fn optional(inner: FieldType) -> (t: FieldType)
        ensures
            t == FieldType::Optional(Box::new(inner)),
    {
        FieldType::Optional(Box::new(inner))
    }
}

/// The column type of a field and whether the column is NOT NULL.
pub fn map_sql_type(ty: &FieldType) -> (r: (SqlType, bool))
    ensures
        r.0 == ty.sql_type(),
        r.1 == !ty.nullable(),
    decreases ty,
{
    match ty {
        FieldType::Named(name) => (sql_type_named(name.as_str()), true),
        FieldType::Optional(inner) => {
            let (sql_type, _) = map_sql_type(inner);
            (sql_type, false)
        },
    }
}

/// A field of an entity: its name, the column name where that differs,
/// and its declared type.
#[derive(Debug)]
pub struct FieldDef {
    pub name: String,
    pub column: Option<String>,
    pub ty: FieldType,
}

impl FieldDef {
    /// The name of the field's column: the override where there is one,
    /// else the field's name.
    pub open spec fn column_label(self) -> Seq<char> {
        match self.column {
            Some(c) => c@,
            None => self.name@,
        }
    }
}

/// The name of the field's column.
pub fn column_name(field: &FieldDef) -> (name: String)
    ensures
        name@ == field.column_label(),
{
    match &field.column {
        Some(c) => c.clone(),
        None => field.name.clone(),
    }
}

/// An entity as declared: its name, the name of its id field where that
/// is not `id`, the table name where that is given, and its fields in
/// order.
#[derive(Debug)]
pub struct EntityDef {
    pub name: String,
    pub id: Option<String>,
    pub table: Option<String>,
    pub fields: Vec<FieldDef>,
}

/// Why an entity has no migration.
#[derive(Debug)]
pub enum EntityError {
    /// The entity has no field of the name that its id is to have.
    IdNotFound(String),
}

/// An [`EntityError`] as plain values.
pub enum EntityErrorView {
    IdNotFound(Seq<char>),
}

impl View for EntityError {
    type V = EntityErrorView;

    open spec fn view(&self) -> EntityErrorView {
        match self {
            EntityError::IdNotFound(id) => EntityErrorView::IdNotFound(id@),
        }
    }
}

impl EntityErrorView {
    /// The text of the error.
    pub open spec fn text(self) -> Seq<char> {
        match self {
            EntityErrorView::IdNotFound(id) => "id field '"@ + id + "' not found"@,
        }
    }
}

impl EntityError {

    /// The text of the error.
    pub fn message(&self) -> (s: String)
        ensures
            s@ == self@.text(),
    {
        match self {
            EntityError::IdNotFound(id) => {
                let mut out = chars_of("id field '");
                extend_chars(&mut out, &chars_of(id.as_str()));
                extend_chars(&mut out, &chars_of("' not found"));
                string_of(&out)
            },
        }
    }
}

/// A column of an entity's table.
#[derive(Debug)]
pub struct ColumnDefinition {
    pub name: String,
    pub sql_type: SqlType,
    pub nullable: bool,
    pub primary_key: bool,
}

/// A [`ColumnDefinition`] as plain values.
pub struct ColumnView {
    pub name: Seq<char>,
    pub sql_type: SqlType,
    pub nullable: bool,
    pub primary_key: bool,
}

impl View for ColumnDefinition {
    type V = ColumnView;

    open spec fn view(&self) -> ColumnView {
        ColumnView {
            name: self.name@,
            sql_type: self.sql_type,
            nullable: self.nullable,
            primary_key: self.primary_key,
        }
    }
}

/// The columns of a table, as plain values.
pub open spec fn column_views(columns: Seq<ColumnDefinition>) -> Seq<ColumnView> {
    Seq::new(columns.len(), |i: int| columns[i]@)
}

/// The schema of one entity: its table and the table's columns.
#[derive(Debug)]
pub struct EntityMigration {
    pub table: String,
    pub columns: Vec<ColumnDefinition>,
}

/// An [`EntityMigration`] as plain values.
pub struct MigrationView {
    pub table: Seq<char>,
    pub columns: Seq<ColumnView>,
}

impl View for EntityMigration {
    type V = MigrationView;

    open spec fn view(&self) -> MigrationView {
        MigrationView { table: self.table@, columns: column_views(self.columns@) }
    }
}

impl MigrationView {
    /// Exactly one column is the primary key.
    pub open spec fn wf(self) -> bool {
        exists|k: int| is_only_key(self.columns, k)
    }
}

/// Whether the `k`-th column is the primary key and no other is.
pub open spec fn is_only_key(columns: Seq<ColumnView>, k: int) -> bool {
    &&& 0 <= k < columns.len()
    &&& forall|i: int| 0 <= i < columns.len() ==> ((#[trigger] columns[i]).primary_key <==> i == k)
}

/// The index of the first field named `id`, or the number of fields.
pub open spec fn id_position(fields: Seq<FieldDef>, id: Seq<char>) -> int
    decreases fields.len(),
{
    if fields.len() == 0 || fields[0].name@ == id {
        0
    } else {
        1 + id_position(fields.drop_first(), id)
    }
}

/// The index of the first field named `id` is the least such index.
pub proof fn lemma_id_position(fields: Seq<FieldDef>, id: Seq<char>)
    ensures
        0 <= id_position(fields, id) <= fields.len(),
        forall|j: int| 0 <= j < id_position(fields, id) ==> (#[trigger] fields[j]).name@ != id,
        id_position(fields, id) < fields.len() ==> fields[id_position(fields, id)].name@ == id,
    decreases fields.len(),
{
    if fields.len() == 0 || fields[0].name@ == id {
    } else {
        let rest = fields.drop_first();
        lemma_id_position(rest, id);
        assert forall|j: int| 0 <= j < id_position(fields, id) implies (#[trigger] fields[j]).name@
            != id by {
            if j > 0 {
                assert(fields[j] == rest[j - 1]);
            }
        }
        if id_position(fields, id) < fields.len() {
            assert(fields[id_position(fields, id)] == rest[id_position(rest, id)]);
        }
    }
}

/// An index that is the least one of a field named `id` is `id_position`.
pub proof fn lemma_id_position_unique(fields: Seq<FieldDef>, id: Seq<char>, i: int)
    requires
        0 <= i <= fields.len(),
        forall|j: int| 0 <= j < i ==> (#[trigger] fields[j]).name@ != id,
        i < fields.len() ==> fields[i].name@ == id,
    ensures
        id_position(fields, id) == i,
{
    lemma_id_position(fields, id);
    let p = id_position(fields, id);
    if p < i {
        assert(fields[p].name@ != id);
    } else if i < p {
        assert(fields[i].name@ != id);
    }
}

/// The column of the `i`-th field, where the `key`-th field is the id.
pub open spec fn column_of(fields: Seq<FieldDef>, key: int, i: int) -> ColumnView {
    ColumnView {
        name: fields[i].column_label(),
        sql_type: fields[i].ty.sql_type(),
        nullable: fields[i].ty.nullable(),
        primary_key: i == key,
    }
}

/// The table name of an entity: the given one, else the entity's name in
/// lower case.
pub open spec fn table_name(name: Seq<char>, table: Option<Seq<char>>) -> Seq<char> {
    match table {
        Some(t) => t,
        None => lowercased(name),
    }
}

/// The name of the id field: the given one, else `id`.
pub open spec fn id_name(id: Option<Seq<char>>) -> Seq<char> {
    match id {
        Some(name) => name,
        None => "id"@,
    }
}

/// The migration of an entity: one column for each field, in order, with
/// the first field of the id's name as the primary key. An entity whose
/// id names no field has none.
pub open spec fn migration_of(def: EntityDef) -> Result<MigrationView, EntityErrorView> {
    let id = id_name(opt_view(def.id));
    let key = id_position(def.fields@, id);
    if key >= def.fields@.len() {
        Err(EntityErrorView::IdNotFound(id))
    } else {
        Ok(
            MigrationView {
                table: table_name(def.name@, opt_view(def.table)),
                columns: Seq::new(def.fields@.len(), |i: int| column_of(def.fields@, key, i)),
            },
        )
    }
}

/// Derives the migration of an entity; see [`migration_of`].
pub fn entity(def: &EntityDef) -> (r: Result<EntityMigration, EntityError>)
    ensures
        match r {
            Ok(m) => migration_of(*def) == Ok::<MigrationView, EntityErrorView>(m@) && m@.wf(),
            Err(e) => migration_of(*def) == Err::<MigrationView, EntityErrorView>(e@),
        },
{
    let id = match &def.id {
        Some(id) => id.clone(),
        None => "id".to_owned(),
    };
    assert(id@ == id_name(opt_view(def.id)));
    let n = def.fields.len();
    let mut key: usize = 0;
    while key < n && !str_eq(def.fields[key].name.as_str(), id.as_str())
        invariant
            key <= n,
            n == def.fields@.len(),
            forall|j: int| 0 <= j < key ==> (#[trigger] def.fields@[j]).name@ != id@,
        decreases n - key,
    {
        key += 1;
    }
    proof {
        lemma_id_position_unique(def.fields@, id@, key as int);
    }
    if key == n {
        return Err(EntityError::IdNotFound(id));
    }
    let table = match &def.table {
        Some(t) => t.clone(),
        None => def.name.as_str().to_lowercase(),
    };
    let mut columns: Vec<ColumnDefinition> = Vec::new();
    let mut i: usize = 0;
    while i < n
        invariant
            i <= n,
            n == def.fields@.len(),
            columns@.len() == i,
            forall|j: int|
                0 <= j < i ==> (#[trigger] columns@[j])@ == column_of(def.fields@, key as int, j),
        decreases n - i,
    {
        let field = &def.fields[i];
        let (sql_type, not_null) = map_sql_type(&field.ty);
        columns.push(
            ColumnDefinition {
                name: column_name(field),
                sql_type,
                nullable: !not_null,
                primary_key: i == key,
            },
        );
        i += 1;
    }
    let m = EntityMigration { table, columns };
    proof {
        assert(m@.columns =~= Seq::new(
            def.fields@.len(),
            |k: int| column_of(def.fields@, key as int, k),
        ));
        assert(is_only_key(m@.columns, key as int));
    }
    Ok(m)
}

/// The definition of one column: name and type, then `PRIMARY KEY` for the
/// key, else `NOT NULL` unless the column is nullable.
pub open spec fn column_sql(c: ColumnView) -> Seq<char> {
    c.name + " "@ + c.sql_type.keyword() + (if c.primary_key {
        " PRIMARY KEY"@
    } else if !c.nullable {
        " NOT NULL"@
    } else {
        Seq::<char>::empty()
    })
}

/// The definitions of the first `n` columns, separated by `, `.
pub open spec fn columns_sql(columns: Seq<ColumnView>, n: int) -> Seq<char>
    decreases n,
{
    if n <= 0 {
        Seq::empty()
    } else if n == 1 {
        column_sql(columns[0])
    } else {
        columns_sql(columns, n - 1) + ", "@ + column_sql(columns[n - 1])
    }
}

/// The statement that creates the table unless it exists.
pub open spec fn create_table_sql(m: MigrationView) -> Seq<char> {
    "CREATE TABLE IF NOT EXISTS "@ + m.table + " ("@ + columns_sql(
        m.columns,
        m.columns.len() as int,
    ) + ")"@
}

impl EntityMigration {
    /// The statement that creates the entity's table unless it exists.
    pub fn sql(&self) -> (s: String)
        ensures
            s@ == create_table_sql(self@),
    {
        let mut list: Vec<char> = Vec::new();
        let mut i: usize = 0;
        while i < self.columns.len()
            invariant
                i <= self.columns@.len(),
                list@ == columns_sql(column_views(self.columns@), i as int),
            decreases self.columns@.len() - i,
        {
            let c = &self.columns[i];
            let ghost before = list@;
            assert(column_views(self.columns@)[i as int] == c@);
            if i > 0 {
                extend_chars(&mut list, &chars_of(", "));
            }
            extend_chars(&mut list, &chars_of(c.name.as_str()));
            extend_chars(&mut list, &chars_of(" "));
            extend_chars(&mut list, &chars_of(c.sql_type.as_str()));
            if c.primary_key {
                extend_chars(&mut list, &chars_of(" PRIMARY KEY"));
            } else if !c.nullable {
                extend_chars(&mut list, &chars_of(" NOT NULL"));
            }
            proof {
                if i > 0 {
                    assert(list@ =~= before + ", "@ + column_sql(c@));
                } else {
                    assert(before =~= Seq::<char>::empty());
                    assert(list@ =~= column_sql(c@));
                }
            }
            i += 1;
        }
        let mut out = chars_of("CREATE TABLE IF NOT EXISTS ");
        extend_chars(&mut out, &chars_of(self.table.as_str()));
        extend_chars(&mut out, &chars_of(" ("));
        extend_chars(&mut out, &list);
        extend_chars(&mut out, &chars_of(")"));
        string_of(&out)
    }
}

/// The migrations of a process, in registration order.
#[derive(Debug)]
pub struct MigrationRegistry {
    migrations: Vec<EntityMigration>,
}

impl View for MigrationRegistry {
    type V = Seq<MigrationView>;

    /// The registered migrations, oldest first.
    closed spec fn view(&self) -> Seq<MigrationView> {
        Seq::new(self.migrations@.len(), |i: int| self.migrations@[i]@)
    }
}

/// The migration of each entity of a list, or why it has none.
pub open spec fn migrations_of(entities: Seq<EntityDef>) -> Seq<
    Result<MigrationView, EntityErrorView>,
> {
    Seq::new(entities.len(), |i: int| migration_of(entities[i]))
}

/// The statements of a list of migrations, in order.
pub open spec fn statements_of(migrations: Seq<MigrationView>) -> Seq<Seq<char>> {
    Seq::new(migrations.len(), |i: int| create_table_sql(migrations[i]))
}

impl MigrationRegistry {
    /// A registry without migrations.
    pub fn new() -> (r: Self)
        ensures
            r@ == Seq::<MigrationView>::empty(),
    {
        let r = MigrationRegistry { migrations: Vec::new() };
        assert(r@ =~= Seq::<MigrationView>::empty());
        r
    }

    /// Registers a migration after those already there.
    pub fn register(&mut self, migration: EntityMigration)
        ensures
            final(self)@ == old(self)@.push(migration@),
    {
        self.migrations.push(migration);
        assert(self@ =~= old(self)@.push(migration@));
    }

    /// The number of registered migrations.
    pub fn len(&self) -> (n: usize)
        ensures
            n == self@.len(),
    {
        self.migrations.len()
    }

    /// The registry of the given entities, registered in the order in
    /// which they are given. The first entity without a migration fails
    /// the whole.
    pub fn from_entities(entities: &Vec<EntityDef>) -> (r: Result<Self, EntityError>)
        ensures
            match r {
                Ok(registry) => all_or_first_err(migrations_of(entities@)) == Ok::<
                    Seq<MigrationView>,
                    EntityErrorView,
                >(registry@),
                Err(e) => all_or_first_err(migrations_of(entities@)) == Err::<
                    Seq<MigrationView>,
                    EntityErrorView,
                >(e@),
            },
    {
        let ghost each = migrations_of(entities@);
        let mut registry = MigrationRegistry::new();
        let mut i: usize = 0;
        while i < entities.len()
            invariant
                i <= entities@.len(),
                each == migrations_of(entities@),
                registry@.len() == i,
                forall|j: int| 0 <= j < i ==> (#[trigger] each[j]) is Ok,
                forall|j: int| 0 <= j < i ==> (#[trigger] registry@[j]) == each[j]->Ok_0,
            decreases entities@.len() - i,
        {
            match entity(&entities[i]) {
                Ok(m) => {
                    registry.register(m);
                },
                Err(e) => {
                    proof {
                        lemma_first_err_decides(each, i as int);
                    }
                    return Err(e);
                },
            }
            i += 1;
        }
        proof {
            lemma_all_ok(each);
            assert(registry@ =~= Seq::new(each.len(), |k: int| each[k]->Ok_0));
        }
        Ok(registry)
    }

    /// Hands the registry over to the run that executes its statements.
    /// The registry is used up: its statements are executed once.
    pub fn into_run(self) -> (run: MigrationRun)
        ensures
            run@ == (RunView { statements: statements_of(self@), done: 0, failure: None }),
    {
        MigrationRun::start(self.registered_entity_migrations())
    }

    /// The statements of all registered migrations, in registration
    /// order.
    pub fn registered_entity_migrations(&self) -> (out: Vec<String>)
        ensures
            string_views(out@) == statements_of(self@),
    {
        let mut out: Vec<String> = Vec::new();
        let mut i: usize = 0;
        while i < self.migrations.len()
            invariant
                i <= self.migrations@.len(),
                out@.len() == i,
                forall|j: int|
                    0 <= j < i ==> (#[trigger] out@[j])@ == create_table_sql(
                        self.migrations@[j]@,
                    ),
            decreases self.migrations@.len() - i,
        {
            out.push(self.migrations[i].sql());
            i += 1;
        }
        assert(string_views(out@) =~= statements_of(self@));
        out
    }
}

/// What the caller of a migration run is to do next.
#[derive(Debug)]
pub enum MigrationAction {
    /// Execute this statement and report how it went.
    Execute(String),
    /// Every statement was executed.
    Finished,
    /// A statement failed; startup is over.
    Aborted(EmberError),
}

/// A [`MigrationAction`] as plain values.
pub enum ActionView {
    Execute(Seq<char>),
    Finished,
    Aborted(Seq<char>),
}

impl View for MigrationAction {
    type V = ActionView;

    open spec fn view(&self) -> ActionView {
        match self {
            MigrationAction::Execute(sql) => ActionView::Execute(sql@),
            MigrationAction::Finished => ActionView::Finished,
            MigrationAction::Aborted(e) => ActionView::Aborted(e@),
        }
    }
}

/// The state of a migration run as plain values: the statements, how many
/// of them were executed, and the failure that ended the run, if any.
pub struct RunView {
    pub statements: Seq<Seq<char>>,
    pub done: int,
    pub failure: Option<Seq<char>>,
}

impl RunView {
    /// What is to be done in this state: nothing more after a failure;
    /// else the next statement, if one is left.
    pub open spec fn action(self) -> ActionView {
        match self.failure {
            Some(message) => ActionView::Aborted(message),
            None => if 0 <= self.done < self.statements.len() {
                ActionView::Execute(self.statements[self.done])
            } else {
                ActionView::Finished
            },
        }
    }

    /// The state after the statement in turn was executed with `outcome`.
    /// A success moves on to the next statement; a failure ends the run
    /// with its text. A report in a state that executes nothing changes
    /// nothing.
    pub open spec fn after(self, outcome: Result<(), Seq<char>>) -> RunView {
        if self.action() is Execute {
            match outcome {
                Ok(_) => RunView { done: self.done + 1, ..self },
                Err(text) => RunView { failure: Some("db execute failed: "@ + text), ..self },
            }
        } else {
            self
        }
    }
}

/// The state after the outcomes were reported one after the other.
pub open spec fn after_all(s: RunView, outcomes: Seq<Result<(), Seq<char>>>) -> RunView
    decreases outcomes.len(),
{
    if outcomes.len() == 0 {
        s
    } else {
        after_all(s.after(outcomes[0]), outcomes.drop_first())
    }
}

/// A run over the statements of a registry: they are handed out once
/// each, in registration order, until one fails.
#[derive(Debug)]
pub struct MigrationRun {
    statements: Vec<String>,
    done: usize,
    failure: Option<EmberError>,
}

impl View for MigrationRun {
    type V = RunView;

    closed spec fn view(&self) -> RunView {
        RunView {
            statements: string_views(self.statements@),
            done: self.done as int,
            failure: match self.failure {
                Some(e) => Some(e@),
                None => None,
            },
        }
    }
}

impl MigrationRun {
    /// A run over `statements` of which none is executed yet.
    pub fn start(statements: Vec<String>) -> (r: Self)
        ensures
            r@ == (RunView { statements: string_views(statements@), done: 0, failure: None }),
    {
        MigrationRun { statements, done: 0, failure: None }
    }

    /// What is to be done next; see [`RunView::action`].
    pub fn action(&self) -> (a: MigrationAction)
        ensures
            a@ == self@.action(),
    {
        match &self.failure {
            Some(e) => MigrationAction::Aborted(EmberError::msg(e.to_string().as_str())),
            None => {
                if self.done < self.statements.len() {
                    assert(string_views(self.statements@)[self.done as int]
                        == self.statements@[self.done as int]@);
                    MigrationAction::Execute(self.statements[self.done].clone())
                } else {
                    MigrationAction::Finished
                }
            },
        }
    }

    /// Takes the outcome of the statement in turn; see [`RunView::after`].
    pub fn report(self, outcome: Result<(), String>) -> (r: Self)
        ensures
            r@ == self@.after(
                match outcome {
                    Ok(_) => Ok(()),
                    Err(text) => Err(text@),
                },
            ),
    {
        if self.failure.is_some() || self.done >= self.statements.len() {
            return self;
        }
        match outcome {
            Ok(_) => MigrationRun {
                statements: self.statements,
                done: self.done + 1,
                failure: None,
            },
            Err(text) => MigrationRun {
                statements: self.statements,
                done: self.done,
                failure: Some(EmberError::with_detail("db execute failed: ", text.as_str())),
            },
        }
    }
}

/// While every statement succeeds they are executed in order: after `k`
/// successes the statement in turn is the `k`-th.
pub proof fn lemma_statements_run_in_order(statements: Seq<Seq<char>>, k: int)
    requires
        0 <= k <= statements.len(),
    ensures
        after_all(
            RunView { statements, done: 0, failure: None },
            Seq::new(k as nat, |i: int| Ok::<(), Seq<char>>(())),
        ) == (RunView { statements, done: k, failure: None }),
{
    lemma_successes_move_on(statements, 0, k);
}

/// From `done` statements executed, `k` successes lead to `done + k`.
pub proof fn lemma_successes_move_on(statements: Seq<Seq<char>>, done: int, k: int)
    requires
        0 <= done,
        0 <= k,
        done + k <= statements.len(),
    ensures
        after_all(
            RunView { statements, done, failure: None },
            Seq::new(k as nat, |i: int| Ok::<(), Seq<char>>(())),
        ) == (RunView { statements, done: done + k, failure: None }),
    decreases k,
{
    let outcomes = Seq::new(k as nat, |i: int| Ok::<(), Seq<char>>(()));
    if k > 0 {
        assert(outcomes.drop_first() =~= Seq::new((k - 1) as nat, |i: int| Ok::<(), Seq<char>>(())));
        lemma_successes_move_on(statements, done + 1, k - 1);
    }
}

/// After a failure no statement is executed, whatever is reported.
pub proof fn lemma_failure_ends_run(s: RunView, outcomes: Seq<Result<(), Seq<char>>>)
    requires
        s.failure is Some,
    ensures
        after_all(s, outcomes) == s,
    decreases outcomes.len(),
{
    if outcomes.len() > 0 {
        lemma_failure_ends_run(s, outcomes.drop_first());
    }
}

/// The arguments of an entity declaration: the name of the id field and
/// the name of the table, each the last one given.
pub struct EntityArgsView {
    pub id: Option<Seq<char>>,
    pub table: Option<Seq<char>>,
}

/// The arguments that the first `k` of `pairs` give: `id` and `table` are
/// the only keys; any other key is an error.
pub open spec fn entity_args_of(pairs: Seq<(Seq<char>, Seq<char>)>, k: int) -> Option<
    EntityArgsView,
>
    decreases k,
{
    if k <= 0 {
        Some(EntityArgsView { id: None, table: None })
    } else {
        match entity_args_of(pairs, k - 1) {
            None => None,
            Some(args) => if pairs[k - 1].0 == "id"@ {
                Some(EntityArgsView { id: Some(pairs[k - 1].1), ..args })
            } else if pairs[k - 1].0 == "table"@ {
                Some(EntityArgsView { table: Some(pairs[k - 1].1), ..args })
            } else {
                None
            },
        }
    }
}

/// Once a key is refused, the arguments stay refused.
pub proof fn lemma_entity_args_fail(pairs: Seq<(Seq<char>, Seq<char>)>, k: int, n: int)
    requires
        0 <= k <= n,
        entity_args_of(pairs, k) is None,
    ensures
        entity_args_of(pairs, n) is None,
    decreases n - k,
{
    if k < n {
        lemma_entity_args_fail(pairs, k, n - 1);
    }
}

/// The key-value pairs of a declaration, as plain values.
pub open spec fn pair_views(pairs: Seq<(String, String)>) -> Seq<(Seq<char>, Seq<char>)> {
    Seq::new(pairs.len(), |i: int| (pairs[i].0@, pairs[i].1@))
}

/// Reads the arguments of an entity declaration, `id = "..."` and
/// `table = "..."`; see [`entity_args_of`]. Any other key is refused with
/// `unsupported argument`.
pub fn parse_entity_args(pairs: &Vec<(String, String)>) -> (r: Result<
    (Option<String>, Option<String>),
    EmberError,
>)
    ensures
        match r {
            Ok((id, table)) => entity_args_of(pair_views(pairs@), pairs@.len() as int) == Some(
                EntityArgsView { id: opt_view(id), table: opt_view(table) },
            ),
            Err(e) => entity_args_of(pair_views(pairs@), pairs@.len() as int) is None && e@
                == "unsupported argument"@,
        },
{
    let ghost ps = pair_views(pairs@);
    let mut id: Option<String> = None;
    let mut table: Option<String> = None;
    let mut k: usize = 0;
    while k < pairs.len()
        invariant
            k <= pairs@.len(),
            ps == pair_views(pairs@),
            entity_args_of(ps, k as int) == Some(
                EntityArgsView { id: opt_view(id), table: opt_view(table) },
            ),
        decreases pairs@.len() - k,
    {
        assert(ps[k as int] == (pairs@[k as int].0@, pairs@[k as int].1@));
        if str_eq(pairs[k].0.as_str(), "id") {
            id = Some(pairs[k].1.clone());
        } else if str_eq(pairs[k].0.as_str(), "table") {
            table = Some(pairs[k].1.clone());
        } else {
            proof {
                lemma_entity_args_fail(ps, k + 1, pairs@.len() as int);
            }
            return Err(EmberError::msg("unsupported argument"));
        }
        k += 1;
    }
    Ok((id, table))
}

/// Reads the argument of a column declaration, `name = "..."`: the
/// column's name. Any other key is refused.
pub fn parse_column_args(key: &str, value: &str) -> (r: Result<String, EmberError>)
    ensures
        match r {
            Ok(name) => key@ == "name"@ && name@ == value@,
            Err(e) => key@ != "name"@ && e@ == "expected name = \"column\""@,
        },
{
    if str_eq(key, "name") {
        Ok(value.to_owned())
    } else {
        Err(EmberError::msg("expected name = \"column\""))
    }
}

} // verus!
