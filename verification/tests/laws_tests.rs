//! The library's laws on concrete values.

use gearbox::attrs::ArgToken;
use gearbox::crud::{generate_crud_internal, HandlerKind};
use gearbox::queries::{validate_placeholders, QueryParam};
use gearbox::repository::{generate_pg_entity, KeyShape, PgEntityPlan, PkBind};
use gearbox::syntax::{AttrInfo, DataShape, ErrorSite, FieldInput, StructInput, TypeInfo};

fn ty(text: &str) -> TypeInfo {
    TypeInfo { text: text.to_string(), last_segment: Some(text.to_string()), type_arg_count: 0, first_type_arg: None }
}

fn field(name: &str, t: &str, markers: &[&str]) -> FieldInput {
    FieldInput {
        ident: name.to_string(),
        ty: ty(t),
        attrs: markers.iter().map(|m| AttrInfo { ident: Some(m.to_string()), args: None }).collect(),
    }
}

fn entity(name: &str, table: &str, fields: Vec<FieldInput>) -> StructInput {
    StructInput {
        ident: name.to_string(),
        attrs: vec![AttrInfo { ident: Some("table".to_string()), args: Some(format!("\"{}\"", table)) }],
        data: DataShape::Named(fields),
    }
}

fn params(n: usize) -> Vec<QueryParam> {
    (0..n).map(|i| QueryParam { name: format!("p{}", i), ty: ty("i64") }).collect()
}

/// Whether the largest `$N` of `sql` is `n`, as `pg_queries!` checks it.
fn numbered_up_to(sql: &str, n: usize) -> bool {
    validate_placeholders("q", &params(n), sql, ErrorSite::CallSite).is_ok()
}

fn key_values(b: PkBind) -> usize {
    match b {
        PkBind::Whole => 1,
        PkBind::Components(n) => n,
    }
}

fn complex() -> PgEntityPlan {
    let input = entity("ComplexEntity", "complex_entities", vec![
        field("pk1", "String", &["primary_key"]),
        field("pk2", "i32", &["primary_key"]),
        field("regular_field", "String", &[]),
        field("immutable_field", "String", &["skip_upsert"]),
        field("computed", "Vec<u8>", &["skip"]),
    ]);
    generate_pg_entity(&input).ok().unwrap()
}

#[test]
fn statements_bind_every_placeholder() {
    let p = complex();
    let r = &p.repository;
    assert!(numbered_up_to(&r.insert_sql, r.insert_binds.len()));
    assert!(numbered_up_to(&r.upsert_sql, r.insert_binds.len()));
    assert!(numbered_up_to(&r.update_sql, r.update_binds.len()));
    assert!(numbered_up_to(&r.select_by_id_sql, key_values(r.pk_bind)));
    assert!(numbered_up_to(&r.delete_sql, key_values(r.pk_bind)));
    assert!(numbered_up_to(&r.exists_sql, key_values(r.pk_bind)));
    assert!(numbered_up_to(&r.find_page_sql, 2));
    assert!(numbered_up_to(&r.count_sql, 0));
    assert_eq!(r.insert_binds.len(), 4);
    assert_eq!(r.update_binds.len(), 4);
}

#[test]
fn binds_follow_columns() {
    let p = complex();
    let inserted: Vec<&str> = p.repository.insert_binds.iter().map(|b| b.field.as_str()).collect();
    assert_eq!(inserted, p.columns.iter().map(|c| c.as_str()).collect::<Vec<_>>());
    let updated: Vec<&str> = p.repository.update_binds.iter().map(|b| b.field.as_str()).collect();
    assert_eq!(updated, vec!["regular_field", "immutable_field", "pk1", "pk2"]);
}

#[test]
fn id_matches_key_columns() {
    let p = complex();
    assert!(matches!(&p.id_fn, KeyShape::Tuple(v) if v == &p.pk_columns));
    assert!(matches!(&p.id_type, KeyShape::Tuple(v) if v.len() == p.pk_columns.len()));
}

#[test]
fn skipped_and_skip_upsert_fields() {
    let p = complex();
    assert!(!p.columns.contains(&"computed".to_string()));
    assert!(p.columns.contains(&"immutable_field".to_string()));
    assert!(!p.repository.upsert_sql.contains("immutable_field = EXCLUDED"));
    assert!(p.repository.upsert_sql.contains("regular_field = EXCLUDED.regular_field"));
}

#[test]
fn handlers_fill_into_entity() {
    let input = entity("Event", "events", vec![
        field("id", "Uuid", &["primary_key", "auto_generated"]),
        field("seq", "i64", &["auto_generated"]),
        field("title", "String", &[]),
    ]);
    let p = generate_crud_internal(&input, &vec![]).ok().unwrap();
    let into = p.dtos.conversions.into_entity.as_ref().unwrap();
    for h in &p.routes.handlers {
        if h.kind == HandlerKind::Create || h.kind == HandlerKind::Put {
            assert_eq!(h.auto_values.as_ref().unwrap().len(), into.params.len());
        }
    }
    assert_eq!(into.params.len(), 2);
}

#[test]
fn read_only_config_keeps_reads_only() {
    let input = entity("Log", "logs", vec![field("id", "i64", &["primary_key"])]);
    let args = vec![ArgToken::Ident("read_only".to_string()), ArgToken::Punct(','), ArgToken::Ident("skip_delete".to_string())];
    let p = generate_crud_internal(&input, &args).ok().unwrap();
    let kinds: Vec<HandlerKind> = p.routes.handlers.iter().map(|h| h.kind).collect();
    assert_eq!(kinds, vec![HandlerKind::List, HandlerKind::Get]);
}

#[test]
fn plain_sql_takes_no_parameters() {
    assert!(numbered_up_to("SELECT COUNT(*) FROM users", 0));
    assert!(!numbered_up_to("SELECT COUNT(*) FROM users", 1));
}
