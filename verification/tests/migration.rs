use ember::json::generate_openapi;
use ember::migration::{
    column_name, entity, map_sql_type, parse_column_args, parse_entity_args, sql_type_named,
    ColumnDefinition, EntityDef, EntityError, EntityMigration, FieldDef, FieldType,
    MigrationAction, MigrationRegistry, MigrationRun, SqlType,
};

fn field(name: &str, ty: &str) -> FieldDef {
    FieldDef { name: name.to_string(), column: None, ty: FieldType::named(ty) }
}

fn book() -> EntityDef {
    EntityDef {
        name: "Book".to_string(),
        id: Some("id".to_string()),
        table: None,
        fields: vec![field("id", "i64"), field("title", "String"), field("author", "String")],
    }
}

#[test]
fn book_entity_gives_its_create_table_statement() {
    let m = entity(&book()).unwrap();
    assert_eq!(m.table, "book");
    assert_eq!(
        m.sql(),
        "CREATE TABLE IF NOT EXISTS book (id BIGINT PRIMARY KEY, title TEXT NOT NULL, author TEXT NOT NULL)"
    );
}

#[test]
fn entity_takes_table_and_column_names_as_given() {
    let def = EntityDef {
        name: "BookEntity".to_string(),
        id: Some("id".to_string()),
        table: Some("books".to_string()),
        fields: vec![
            field("id", "BookId"),
            FieldDef {
                name: "year".to_string(),
                column: Some("published".to_string()),
                ty: FieldType::named("u16"),
            },
            FieldDef {
                name: "note".to_string(),
                column: None,
                ty: FieldType::optional(FieldType::named("String")),
            },
            FieldDef {
                name: "pages".to_string(),
                column: None,
                ty: FieldType::optional(FieldType::optional(FieldType::named("i32"))),
            },
            field("lent", "bool"),
        ],
    };
    let m = entity(&def).unwrap();
    assert_eq!(
        m.sql(),
        "CREATE TABLE IF NOT EXISTS books (id TEXT PRIMARY KEY, published INTEGER NOT NULL, note TEXT, pages INTEGER, lent BOOLEAN NOT NULL)"
    );
    assert_eq!(m.columns.iter().filter(|c| c.primary_key).count(), 1);
    assert!(m.columns[2].nullable);
    assert!(!m.columns[1].nullable);
}

#[test]
fn entity_key_is_the_first_field_of_the_id_name() {
    let def = EntityDef {
        name: "Pair".to_string(),
        id: Some("k".to_string()),
        table: None,
        fields: vec![field("a", "u8"), field("k", "u64"), field("k", "u64")],
    };
    let m = entity(&def).unwrap();
    let keys: Vec<bool> = m.columns.iter().map(|c| c.primary_key).collect();
    assert_eq!(keys, vec![false, true, false]);
    assert_eq!(
        m.sql(),
        "CREATE TABLE IF NOT EXISTS pair (a INTEGER NOT NULL, k BIGINT PRIMARY KEY, k BIGINT NOT NULL)"
    );
}

#[test]
fn entity_key_goes_by_the_field_name() {
    let def = EntityDef {
        name: "T".to_string(),
        id: Some("id".to_string()),
        table: None,
        fields: vec![FieldDef {
            name: "id".to_string(),
            column: Some("t_id".to_string()),
            ty: FieldType::optional(FieldType::named("i64")),
        }],
    };
    assert_eq!(entity(&def).unwrap().sql(), "CREATE TABLE IF NOT EXISTS t (t_id BIGINT PRIMARY KEY)");
}

#[test]
fn entity_table_name_is_lower_cased_by_unicode() {
    let def = EntityDef {
        name: "ÉtéBook".to_string(),
        id: Some("id".to_string()),
        table: None,
        fields: vec![field("id", "i64")],
    };
    assert_eq!(entity(&def).unwrap().table, "étébook");
}

#[test]
fn entity_without_explicit_id_takes_the_field_named_id() {
    let mut def = book();
    def.id = None;
    assert_eq!(
        entity(&def).unwrap().sql(),
        "CREATE TABLE IF NOT EXISTS book (id BIGINT PRIMARY KEY, title TEXT NOT NULL, author TEXT NOT NULL)"
    );
    def.fields.remove(0);
    assert_eq!(entity(&def).unwrap_err().message(), "id field 'id' not found");
}

#[test]
fn entity_with_explicit_id_takes_that_field() {
    let mut def = book();
    def.id = Some("title".to_string());
    assert_eq!(
        entity(&def).unwrap().sql(),
        "CREATE TABLE IF NOT EXISTS book (id BIGINT NOT NULL, title TEXT PRIMARY KEY, author TEXT NOT NULL)"
    );
}

#[test]
fn entity_whose_id_names_no_field_is_refused() {
    let mut def = book();
    def.id = Some("isbn".to_string());
    let e = entity(&def).unwrap_err();
    assert!(matches!(&e, EntityError::IdNotFound(id) if id == "isbn"));
    assert_eq!(e.message(), "id field 'isbn' not found");
    def.fields.clear();
    def.id = Some("id".to_string());
    assert_eq!(entity(&def).unwrap_err().message(), "id field 'id' not found");
}

#[test]
fn field_types_map_to_column_types() {
    for name in ["String", "Uuid", "Vec", "", "string", "I64", "f64"] {
        assert_eq!(sql_type_named(name), SqlType::Text);
    }
    assert_eq!(sql_type_named("bool"), SqlType::Boolean);
    for name in ["i64", "u64", "isize", "usize"] {
        assert_eq!(sql_type_named(name), SqlType::BigInt);
    }
    for name in ["i32", "u32", "i16", "u16", "i8", "u8"] {
        assert_eq!(sql_type_named(name), SqlType::Integer);
    }
    assert_eq!(SqlType::Text.as_str(), "TEXT");
    assert_eq!(SqlType::Boolean.as_str(), "BOOLEAN");
    assert_eq!(SqlType::BigInt.as_str(), "BIGINT");
    assert_eq!(SqlType::Integer.as_str(), "INTEGER");
    assert_eq!(map_sql_type(&FieldType::named("u64")), (SqlType::BigInt, true));
    assert_eq!(
        map_sql_type(&FieldType::optional(FieldType::named("bool"))),
        (SqlType::Boolean, false)
    );
    assert_eq!(map_sql_type(&FieldType::named("Option")), (SqlType::Text, true));
}

#[test]
fn column_name_is_the_override_where_given() {
    assert_eq!(column_name(&field("title", "String")), "title");
    let f = FieldDef {
        name: "title".to_string(),
        column: Some("book_title".to_string()),
        ty: FieldType::named("String"),
    };
    assert_eq!(column_name(&f), "book_title");
    assert_eq!(parse_column_args("name", "book_title").unwrap(), "book_title");
    assert_eq!(
        parse_column_args("Name", "x").unwrap_err().to_string(),
        "expected name = \"column\""
    );
}

#[test]
fn entity_arguments_are_id_and_table() {
    let pair = |k: &str, v: &str| (k.to_string(), v.to_string());
    assert_eq!(parse_entity_args(&vec![]).unwrap(), (None, None));
    assert_eq!(
        parse_entity_args(&vec![pair("id", "id"), pair("table", "books")]).unwrap(),
        (Some("id".to_string()), Some("books".to_string()))
    );
    assert_eq!(
        parse_entity_args(&vec![pair("table", "a"), pair("id", "x"), pair("table", "b")]).unwrap(),
        (Some("x".to_string()), Some("b".to_string()))
    );
    assert_eq!(
        parse_entity_args(&vec![pair("id", "x"), pair("schema", "s"), pair("table", "b")])
            .unwrap_err()
            .to_string(),
        "unsupported argument"
    );
}

#[test]
fn statement_without_columns_is_still_printed() {
    let m = EntityMigration { table: "t".to_string(), columns: vec![] };
    assert_eq!(m.sql(), "CREATE TABLE IF NOT EXISTS t ()");
    let one = EntityMigration {
        table: "t".to_string(),
        columns: vec![ColumnDefinition {
            name: "a".to_string(),
            sql_type: SqlType::Boolean,
            nullable: true,
            primary_key: false,
        }],
    };
    assert_eq!(one.sql(), "CREATE TABLE IF NOT EXISTS t (a BOOLEAN)");
}

#[test]
fn registry_hands_statements_out_in_registration_order() {
    let mut registry = MigrationRegistry::new();
    assert_eq!(registry.len(), 0);
    assert!(registry.registered_entity_migrations().is_empty());
    for name in ["Zebra", "Apple", "Mango"] {
        let mut def = book();
        def.name = name.to_string();
        registry.register(entity(&def).unwrap());
    }
    assert_eq!(registry.len(), 3);
    let statements = registry.registered_entity_migrations();
    assert!(statements[0].starts_with("CREATE TABLE IF NOT EXISTS zebra ("));
    assert!(statements[1].starts_with("CREATE TABLE IF NOT EXISTS apple ("));
    assert!(statements[2].starts_with("CREATE TABLE IF NOT EXISTS mango ("));
}

#[test]
fn registry_is_made_of_entities_in_the_order_given() {
    let mut second = book();
    second.name = "Author".to_string();
    let registry = MigrationRegistry::from_entities(&vec![book(), second]).unwrap();
    assert_eq!(registry.len(), 2);
    let mut run = registry.into_run();
    assert!(matches!(run.action(), MigrationAction::Execute(s) if s.contains(" book (")));
    run = run.report(Ok(()));
    assert!(matches!(run.action(), MigrationAction::Execute(s) if s.contains(" author (")));
    run = run.report(Ok(()));
    assert!(matches!(run.action(), MigrationAction::Finished));
    let mut broken = book();
    broken.id = Some("y".to_string());
    let mut missing = book();
    missing.id = Some("x".to_string());
    let e = MigrationRegistry::from_entities(&vec![book(), missing, broken]).unwrap_err();
    assert_eq!(e.message(), "id field 'x' not found");
    assert_eq!(MigrationRegistry::from_entities(&vec![]).unwrap().len(), 0);
}

#[test]
fn run_executes_each_statement_once_in_order() {
    let mut run = MigrationRun::start(vec!["a".to_string(), "b".to_string()]);
    assert!(matches!(run.action(), MigrationAction::Execute(s) if s == "a"));
    assert!(matches!(run.action(), MigrationAction::Execute(s) if s == "a"));
    run = run.report(Ok(()));
    assert!(matches!(run.action(), MigrationAction::Execute(s) if s == "b"));
    run = run.report(Ok(()));
    assert!(matches!(run.action(), MigrationAction::Finished));
    run = run.report(Err("late".to_string()));
    assert!(matches!(run.action(), MigrationAction::Finished));
    assert!(matches!(MigrationRun::start(vec![]).action(), MigrationAction::Finished));
}

#[test]
fn run_stops_at_the_first_failure() {
    let mut run = MigrationRun::start(vec!["a".to_string(), "b".to_string(), "c".to_string()]);
    run = run.report(Ok(()));
    run = run.report(Err("relation exists".to_string()));
    match run.action() {
        MigrationAction::Aborted(e) => {
            assert_eq!(e.to_string(), "db execute failed: relation exists")
        }
        other => panic!("unexpected action: {:?}", other),
    }
    run = run.report(Ok(()));
    assert!(matches!(run.action(), MigrationAction::Aborted(_)));
}

#[test]
fn openapi_document_names_the_api() {
    let doc = generate_openapi().unwrap();
    assert_eq!(doc["openapi"], "3.0.0");
    assert_eq!(doc["info"]["title"], "Ember API");
    assert_eq!(doc["info"]["version"], "0.1.0");
    assert!(doc["paths"].as_object().unwrap().is_empty());
    assert_eq!(doc.as_object().unwrap().len(), 3);
}
