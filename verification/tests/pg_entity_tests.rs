//! `#[derive(PgEntity)]`: the constants, key shape and SQL planned for the
//! entities of the framework's own examples.

use gearbox::entity::parse_entity;
use gearbox::repository::{generate_pg_entity, BatchStrategy, KeyShape, PgEntityPlan, PkBind, RowInit};
use gearbox::sql::{
    generate_count_sql, generate_delete_sql, generate_exists_sql, generate_find_page_sql,
    generate_insert_sql, generate_select_by_id_sql, generate_update_sql, generate_upsert_sql,
};
use gearbox::syntax::{AttrInfo, DataShape, ErrorSite, FieldInput, StructInput, TypeInfo};

fn ty(text: &str) -> TypeInfo {
    TypeInfo { text: text.to_string(), last_segment: Some(text.to_string()), type_arg_count: 0, first_type_arg: None }
}

fn marker(name: &str) -> AttrInfo {
    AttrInfo { ident: Some(name.to_string()), args: None }
}

fn with_args(name: &str, args: &str) -> AttrInfo {
    AttrInfo { ident: Some(name.to_string()), args: Some(args.to_string()) }
}

fn field(name: &str, t: &str, markers: &[&str]) -> FieldInput {
    FieldInput { ident: name.to_string(), ty: ty(t), attrs: markers.iter().map(|m| marker(m)).collect() }
}

fn entity(name: &str, table: &str, fields: Vec<FieldInput>) -> StructInput {
    StructInput {
        ident: name.to_string(),
        attrs: vec![with_args("table", &format!("\"{}\"", table))],
        data: DataShape::Named(fields),
    }
}

fn plan(input: &StructInput) -> PgEntityPlan {
    match generate_pg_entity(input) {
        Ok(p) => p,
        Err(e) => panic!("unexpected error: {}", e.message),
    }
}

/// The value the generated `id()` returns, given the field values of an
/// instance: the key field's value, or the tuple of the key fields' values.
fn id_of(p: &PgEntityPlan, values: &[(&str, &str)]) -> Vec<String> {
    let lookup = |n: &str| values.iter().find(|(k, _)| *k == n).map(|(_, v)| v.to_string()).unwrap();
    match &p.id_fn {
        KeyShape::Single(n) => vec![lookup(n)],
        KeyShape::Tuple(ns) => ns.iter().map(|n| lookup(n)).collect(),
    }
}

fn user() -> StructInput {
    entity("User", "users", vec![
        field("id", "String", &["primary_key"]),
        field("name", "String", &[]),
        field("email", "String", &[]),
    ])
}

fn product() -> StructInput {
    entity("Product", "public.products", vec![
        field("id", "i64", &["primary_key"]),
        field("name", "String", &[]),
        field("price", "f64", &[]),
    ])
}

fn document() -> StructInput {
    entity("Document", "documents", vec![
        field("id", "String", &["primary_key"]),
        field("content", "String", &[]),
        field("computed_hash", "String", &["skip"]),
    ])
}

fn order_item() -> StructInput {
    entity("OrderItem", "order_items", vec![
        field("order_id", "i64", &["primary_key"]),
        field("product_id", "i64", &["primary_key"]),
        field("quantity", "i32", &[]),
    ])
}

fn counter() -> StructInput {
    entity("Counter", "counters", vec![
        field("id", "String", &["primary_key"]),
        field("value", "i64", &[]),
        field("created_at", "String", &["skip_upsert"]),
    ])
}

fn user_role() -> StructInput {
    entity("UserRole", "user_roles", vec![
        field("user_id", "i64", &["primary_key"]),
        field("role_name", "String", &["primary_key"]),
        field("granted_at", "String", &[]),
    ])
}

fn complex_entity() -> StructInput {
    entity("ComplexEntity", "complex_entities", vec![
        field("pk1", "String", &["primary_key"]),
        field("pk2", "i32", &["primary_key"]),
        field("regular_field", "String", &[]),
        field("immutable_field", "String", &["skip_upsert"]),
        field("computed", "Vec<u8>", &["skip"]),
    ])
}

#[test]
fn test_user_entity_constants() {
    let p = plan(&user());
    assert_eq!(p.table, "users");
    assert_eq!(p.columns, vec!["id", "name", "email"]);
    assert_eq!(p.pk_columns, vec!["id"]);
}

#[test]
fn test_user_id_extraction() {
    let p = plan(&user());
    let values = [("id", "user-123"), ("name", "Test User"), ("email", "test@example.com")];
    assert_eq!(id_of(&p, &values), vec!["user-123"]);
}

#[test]
fn test_product_schema_qualified_table() {
    let p = plan(&product());
    assert_eq!(p.table, "public.products");
    assert_eq!(p.pk_columns, vec!["id"]);
}

#[test]
fn test_skip_field_excluded_from_columns() {
    let p = plan(&document());
    assert_eq!(p.columns, vec!["id", "content"]);
    assert!(!p.columns.contains(&"computed_hash".to_string()));
}

#[test]
fn test_skip_field_defaults() {
    let p = plan(&document());
    // The skipped field stays on the struct (one initialiser per field), is
    // never written by an insert, and takes its default when a row is read.
    let doc = [("id", "doc-1"), ("content", "Hello"), ("computed_hash", "should-be-empty-from-db")];
    let value_of = |f: &str| doc.iter().find(|(n, _)| *n == f).map(|(_, v)| v.to_string()).unwrap();
    let stored: Vec<(String, String)> =
        p.repository.insert_binds.iter().map(|b| (b.field.clone(), value_of(&b.field))).collect();
    let read_back: Vec<(String, String)> = p
        .repository
        .from_row
        .iter()
        .map(|r| match r {
            RowInit::Column(n) => (n.clone(), stored.iter().find(|(c, _)| c == n).unwrap().1.clone()),
            RowInit::Default(n) => (n.clone(), String::new()),
        })
        .collect();
    assert_eq!(value_of("computed_hash"), "should-be-empty-from-db");
    assert_eq!(
        read_back,
        vec![
            ("id".to_string(), "doc-1".to_string()),
            ("content".to_string(), "Hello".to_string()),
            ("computed_hash".to_string(), String::new()),
        ]
    );
    assert_eq!(p.repository.from_row.len(), 3);
    assert!(matches!(&p.repository.from_row[2], RowInit::Default(n) if n == "computed_hash"));
    assert!(matches!(&p.repository.from_row[0], RowInit::Column(n) if n == "id"));
    assert!(matches!(&p.repository.from_row[1], RowInit::Column(n) if n == "content"));
}

#[test]
fn test_composite_key_columns() {
    let p = plan(&order_item());
    assert_eq!(p.table, "order_items");
    assert_eq!(p.columns, vec!["order_id", "product_id", "quantity"]);
    assert_eq!(p.pk_columns, vec!["order_id", "product_id"]);
}

#[test]
fn test_composite_key_extraction() {
    let p = plan(&order_item());
    let values = [("order_id", "100"), ("product_id", "42"), ("quantity", "5")];
    assert_eq!(id_of(&p, &values), vec!["100", "42"]);
    assert!(matches!(&p.id_type, KeyShape::Tuple(ts) if ts == &vec!["i64".to_string(), "i64".to_string()]));
}

#[test]
fn test_skip_upsert_still_in_columns() {
    let p = plan(&counter());
    assert_eq!(p.columns, vec!["id", "value", "created_at"]);
}

#[test]
fn test_mixed_type_composite_key() {
    let p = plan(&user_role());
    let values = [("user_id", "1"), ("role_name", "admin"), ("granted_at", "2024-01-01")];
    assert_eq!(id_of(&p, &values), vec!["1", "admin"]);
    assert!(matches!(&p.id_type, KeyShape::Tuple(ts) if ts == &vec!["i64".to_string(), "String".to_string()]));
}

#[test]
fn test_complex_entity() {
    let p = plan(&complex_entity());
    assert_eq!(p.table, "complex_entities");
    assert_eq!(p.columns, vec!["pk1", "pk2", "regular_field", "immutable_field"]);
    assert_eq!(p.pk_columns, vec!["pk1", "pk2"]);
}

#[test]
fn user_sql_statements() {
    let e = parse_entity(&user()).ok().unwrap();
    assert_eq!(generate_insert_sql(&e), "INSERT INTO users (id, name, email) VALUES ($1, $2, $3)");
    assert_eq!(
        generate_upsert_sql(&e),
        "INSERT INTO users (id, name, email) VALUES ($1, $2, $3) ON CONFLICT (id) DO UPDATE SET name = EXCLUDED.name, email = EXCLUDED.email"
    );
    assert_eq!(generate_update_sql(&e), "UPDATE users SET name = $1, email = $2 WHERE id = $3");
    assert_eq!(generate_select_by_id_sql(&e), "SELECT id, name, email FROM users WHERE id = $1");
    assert_eq!(generate_delete_sql(&e), "DELETE FROM users WHERE id = $1");
    assert_eq!(generate_count_sql(&e), "SELECT COUNT(*) FROM users");
    assert_eq!(generate_exists_sql(&e), "SELECT EXISTS(SELECT 1 FROM users WHERE id = $1)");
    assert_eq!(generate_find_page_sql(&e), "SELECT id, name, email FROM users ORDER BY id LIMIT $1 OFFSET $2");
}

#[test]
fn composite_key_sql_numbers_key_after_values() {
    let e = parse_entity(&order_item()).ok().unwrap();
    assert_eq!(
        generate_update_sql(&e),
        "UPDATE order_items SET quantity = $1 WHERE order_id = $2 AND product_id = $3"
    );
    assert_eq!(
        generate_select_by_id_sql(&e),
        "SELECT order_id, product_id, quantity FROM order_items WHERE order_id = $1 AND product_id = $2"
    );
    let p = plan(&order_item());
    assert_eq!(p.repository.pk_bind, PkBind::Components(2));
    assert!(matches!(p.repository.batch, BatchStrategy::PerKey));
}

#[test]
fn skip_upsert_field_not_overwritten() {
    let e = parse_entity(&counter()).ok().unwrap();
    assert_eq!(
        generate_upsert_sql(&e),
        "INSERT INTO counters (id, value, created_at) VALUES ($1, $2, $3) ON CONFLICT (id) DO UPDATE SET value = EXCLUDED.value"
    );
}

#[test]
fn upsert_with_nothing_to_update_does_nothing() {
    let input = entity("Tag", "tags", vec![field("name", "String", &["primary_key"])]);
    let e = parse_entity(&input).ok().unwrap();
    assert_eq!(generate_upsert_sql(&e), "INSERT INTO tags (name) VALUES ($1) ON CONFLICT (name) DO NOTHING");
}

#[test]
fn binds_follow_columns_and_casts() {
    let mut input = user();
    if let DataShape::Named(fs) = &mut input.data {
        fs[1].attrs.push(with_args("pg_type", "Text"));
    }
    let p = plan(&input);
    let r = &p.repository;
    let names: Vec<&str> = r.insert_binds.iter().map(|b| b.field.as_str()).collect();
    assert_eq!(names, vec!["id", "name", "email"]);
    assert_eq!(r.insert_binds[1].cast.as_deref(), Some("Text"));
    assert_eq!(r.insert_binds[0].cast, None);
    let names: Vec<&str> = r.update_binds.iter().map(|b| b.field.as_str()).collect();
    assert_eq!(names, vec!["name", "email", "id"]);
    assert_eq!(r.pk_bind, PkBind::Whole);
    assert!(matches!(&r.batch, BatchStrategy::InList(c) if c == "id"));
    assert_eq!(r.columns_list, "id, name, email");
}

#[test]
fn missing_table_is_an_error() {
    let mut input = user();
    input.attrs.clear();
    let e = generate_pg_entity(&input).err().unwrap();
    assert_eq!(e.site, ErrorSite::Input);
    assert_eq!(e.message, "#[table(\"name\")] attribute is required");
}

#[test]
fn tuple_struct_is_an_error() {
    let mut input = user();
    input.data = DataShape::Unnamed;
    let e = generate_pg_entity(&input).err().unwrap();
    assert_eq!(e.message, "PgEntity can only be derived for structs with named fields");
    input.data = DataShape::Enum;
    let e = generate_pg_entity(&input).err().unwrap();
    assert_eq!(e.message, "PgEntity can only be derived for structs");
}

#[test]
fn schema_attribute_is_read() {
    let mut input = user();
    input.attrs.push(with_args("schema", "\"analytics\""));
    let p = plan(&input);
    assert_eq!(p.schema.as_deref(), Some("analytics"));
}

#[test]
fn table_attribute_must_be_a_string_literal() {
    let mut input = user();
    input.attrs = vec![with_args("table", "users")];
    assert!(generate_pg_entity(&input).is_err());
    input.attrs = vec![with_args("table", "users"), with_args("table", "\"people\"")];
    assert_eq!(plan(&input).table, "people");
}
