//! `#[derive(Crud)]`: the DTOs, conversions and handlers planned for the
//! entities of the framework's own examples.

use gearbox::attrs::ArgToken;
use gearbox::crud::{
    generate_crud_internal, operation_id, parse_crud_config, Assignment, AutoValue, CrudPlan,
    HandlerKind, PatchUpdate,
};
use gearbox::syntax::{AttrInfo, DataShape, ErrorSite, FieldInput, StructInput, TypeInfo};

fn ty(text: &str) -> TypeInfo {
    let last = text.split('<').next().unwrap_or(text).rsplit("::").next().unwrap_or(text);
    TypeInfo { text: text.to_string(), last_segment: Some(last.to_string()), type_arg_count: 0, first_type_arg: None }
}

fn marker(name: &str) -> AttrInfo {
    AttrInfo { ident: Some(name.to_string()), args: None }
}

fn field(name: &str, t: &str, markers: &[&str]) -> FieldInput {
    FieldInput { ident: name.to_string(), ty: ty(t), attrs: markers.iter().map(|m| marker(m)).collect() }
}

fn entity(name: &str, table: &str, fields: Vec<FieldInput>) -> StructInput {
    StructInput {
        ident: name.to_string(),
        attrs: vec![AttrInfo { ident: Some("table".to_string()), args: Some(format!("\"{}\"", table)) }],
        data: DataShape::Named(fields),
    }
}

fn ident(s: &str) -> ArgToken {
    ArgToken::Ident(s.to_string())
}

fn lit(s: &str) -> ArgToken {
    ArgToken::Literal(format!("\"{}\"", s))
}

fn user() -> StructInput {
    entity("User", "users", vec![
        field("id", "String", &["primary_key", "auto_generated"]),
        field("name", "String", &[]),
        field("email", "String", &[]),
        field("password_hash", "String", &["writeonly"]),
        field("created_at", "i64", &["readonly"]),
        field("active", "bool", &[]),
    ])
}

fn user_args() -> Vec<ArgToken> {
    vec![ident("path"), ArgToken::Punct('='), lit("/users")]
}

fn audit_log() -> StructInput {
    entity("AuditLog", "audit_logs", vec![
        field("id", "String", &["primary_key", "auto_generated"]),
        field("action", "String", &[]),
        field("timestamp", "i64", &["readonly"]),
    ])
}

fn audit_args() -> Vec<ArgToken> {
    vec![ident("path"), ArgToken::Punct('='), lit("/logs"), ArgToken::Punct(','), ident("read_only")]
}

fn product() -> StructInput {
    entity("Product", "products", vec![
        field("id", "String", &["primary_key", "auto_generated"]),
        field("name", "String", &[]),
        field("price", "i64", &[]),
        field("stock", "i32", &[]),
    ])
}

fn plan(input: &StructInput, args: Vec<ArgToken>) -> CrudPlan {
    match generate_crud_internal(input, &args) {
        Ok(p) => p,
        Err(e) => panic!("unexpected error: {}", e.message),
    }
}

fn names(fields: &[(String, String)]) -> Vec<&str> {
    fields.iter().map(|(n, _)| n.as_str()).collect()
}

/// Field values of a DTO instance, checked against the DTO's field names.
fn instance<'a>(fields: &[(String, String)], values: &[(&'a str, &'a str)]) -> Vec<(String, &'a str)> {
    assert_eq!(names(fields), values.iter().map(|(n, _)| *n).collect::<Vec<_>>());
    values.iter().map(|(n, v)| (n.to_string(), *v)).collect()
}

fn value_of<'a>(inst: &[(String, &'a str)], name: &str) -> &'a str {
    inst.iter().find(|(n, _)| n == name).map(|(_, v)| *v).unwrap()
}

#[test]
fn test_user_create_dto_generated() {
    let p = plan(&user(), user_args());
    let create = p.dtos.create.as_ref().unwrap();
    assert_eq!(create.name, "UserCreate");
    let c = instance(&create.fields, &[
        ("name", "Test User"),
        ("email", "test@example.com"),
        ("password_hash", "hash123"),
        ("active", "true"),
    ]);
    assert_eq!(value_of(&c, "name"), "Test User");
}

#[test]
fn test_user_update_dto_generated() {
    let p = plan(&user(), user_args());
    let update = p.dtos.update.as_ref().unwrap();
    assert_eq!(update.name, "UserUpdate");
    assert_eq!(update.fields, vec![
        ("name".to_string(), "Option<String>".to_string()),
        ("email".to_string(), "Option<String>".to_string()),
        ("password_hash".to_string(), "Option<String>".to_string()),
        ("active".to_string(), "Option<bool>".to_string()),
    ]);
    let u = instance(&update.fields, &[("name", "Updated Name"), ("email", ""), ("password_hash", ""), ("active", "")]);
    assert_eq!(value_of(&u, "name"), "Updated Name");
}

#[test]
fn test_user_query_dto_generated() {
    let p = plan(&user(), user_args());
    assert_eq!(p.dtos.query.name, "UserQuery");
    assert_eq!(p.dtos.query.fields, vec![
        ("limit".to_string(), "Option<i64>".to_string()),
        ("offset".to_string(), "Option<i64>".to_string()),
    ]);
    let q = instance(&p.dtos.query.fields, &[("limit", "10"), ("offset", "0")]);
    assert_eq!(value_of(&q, "limit"), "10");
    assert_eq!(value_of(&q, "offset"), "0");
}

#[test]
fn test_user_response_dto_generated() {
    let p = plan(&user(), user_args());
    let user = [
        ("id", "123"),
        ("name", "Test"),
        ("email", "test@example.com"),
        ("password_hash", "secret"),
        ("created_at", "1234567890"),
        ("active", "true"),
    ];
    assert_eq!(p.dtos.response.name, "UserResponse");
    let conv = &p.dtos.conversions.response_fields;
    assert_eq!(conv, &vec!["id", "name", "email", "created_at", "active"]);
    let response: Vec<(&str, &str)> = conv
        .iter()
        .map(|n| *user.iter().find(|(k, _)| k == n).unwrap())
        .collect();
    assert_eq!(response[0], ("id", "123"));
    assert_eq!(response[1], ("name", "Test"));
    assert!(!names(&p.dtos.response.fields).contains(&"password_hash"));
}

#[test]
fn test_user_create_into_entity() {
    let p = plan(&user(), user_args());
    let into = p.dtos.conversions.into_entity.as_ref().unwrap();
    assert_eq!(into.params, vec![("id".to_string(), "String".to_string())]);
    let create = instance(&p.dtos.create.as_ref().unwrap().fields, &[
        ("name", "Test User"),
        ("email", "test@example.com"),
        ("password_hash", "hash123"),
        ("active", "true"),
    ]);
    let params = [("id", "generated-id")];
    let entity: Vec<(&str, &str)> = into
        .assignments
        .iter()
        .map(|a| match a {
            Assignment::Param(n) => (n.as_str(), params.iter().find(|(k, _)| k == n).unwrap().1),
            Assignment::FromCreate(n) => (n.as_str(), value_of(&create, n)),
            Assignment::Default(n) => (n.as_str(), ""),
        })
        .collect();
    assert_eq!(entity[0], ("id", "generated-id"));
    assert_eq!(entity[1], ("name", "Test User"));
    assert_eq!(entity[4], ("created_at", ""));
}

#[test]
fn user_routes_are_all_generated() {
    let p = plan(&user(), user_args());
    assert_eq!(p.routes.path, "/users");
    let kinds: Vec<HandlerKind> = p.routes.handlers.iter().map(|h| h.kind).collect();
    assert_eq!(kinds, vec![
        HandlerKind::List,
        HandlerKind::Get,
        HandlerKind::Create,
        HandlerKind::Put,
        HandlerKind::Patch,
        HandlerKind::Delete,
    ]);
    let routes: Vec<(&str, &str, &str)> = p
        .routes
        .handlers
        .iter()
        .map(|h| (h.method.as_str(), h.path.as_str(), h.handler_name.as_str()))
        .collect();
    assert_eq!(routes, vec![
        ("GET", "/users", "__crud_user_list"),
        ("GET", "/users/{id}", "__crud_user_get"),
        ("POST", "/users", "__crud_user_create"),
        ("PUT", "/users/{id}", "__crud_user_update"),
        ("PATCH", "/users/{id}", "__crud_user_patch"),
        ("DELETE", "/users/{id}", "__crud_user_delete"),
    ]);
    assert_eq!(p.routes.handlers[1].id_type.as_deref(), Some("String"));
    assert_eq!(p.routes.handlers[0].id_type, None);
    assert_eq!(p.routes.handlers[2].auto_values, Some(vec![AutoValue::Default]));
    assert_eq!(p.routes.handlers[3].auto_values, Some(vec![AutoValue::PathId]));
    let patch: Vec<&str> = p.routes.handlers[4]
        .patch_updates
        .iter()
        .map(|u| match u {
            PatchUpdate::UnwrapSome(n) => n.as_str(),
            PatchUpdate::ReplaceIfSome(n) => n.as_str(),
        })
        .collect();
    assert_eq!(patch, vec!["name", "email", "password_hash", "active"]);
}

#[test]
fn read_only_entity_gets_only_reads() {
    let p = plan(&audit_log(), audit_args());
    assert_eq!(p.routes.path, "/logs");
    let kinds: Vec<HandlerKind> = p.routes.handlers.iter().map(|h| h.kind).collect();
    assert_eq!(kinds, vec![HandlerKind::List, HandlerKind::Get]);
}

#[test]
fn default_path_is_plural_snake_case() {
    let p = plan(&product(), vec![]);
    assert_eq!(p.routes.path, "/products");
    let input = entity("OrderLine", "order_lines", vec![field("id", "uuid::Uuid", &["primary_key", "auto_generated"]), field("qty", "i32", &[])]);
    let p = plan(&input, vec![]);
    assert_eq!(p.routes.path, "/order_lines");
    assert_eq!(p.routes.handlers[0].handler_name, "__crud_order_line_list");
    assert_eq!(p.routes.handlers[2].auto_values, Some(vec![AutoValue::NewUuid]));
}

#[test]
fn skip_create_and_skip_delete() {
    let args = vec![ident("skip_create"), ArgToken::Punct(','), ident("skip_delete")];
    let p = plan(&product(), args);
    let kinds: Vec<HandlerKind> = p.routes.handlers.iter().map(|h| h.kind).collect();
    assert_eq!(kinds, vec![HandlerKind::List, HandlerKind::Get, HandlerKind::Put, HandlerKind::Patch]);
}

#[test]
fn optional_fields_stay_single_optional() {
    let input = entity("Note", "notes", vec![
        field("id", "i64", &["primary_key"]),
        field("body", "Option<String>", &[]),
    ]);
    let p = plan(&input, vec![]);
    let update = p.dtos.update.unwrap();
    assert_eq!(update.fields[1], ("body".to_string(), "Option<String>".to_string()));
    assert_eq!(update.fields[0], ("id".to_string(), "Option<i64>".to_string()));
    assert!(matches!(&p.routes.handlers[4].patch_updates[1], PatchUpdate::ReplaceIfSome(n) if n == "body"));
    assert!(matches!(&p.routes.handlers[4].patch_updates[0], PatchUpdate::UnwrapSome(n) if n == "id"));
    assert_eq!(p.routes.handlers[2].auto_values, Some(vec![]));
}

#[test]
fn no_writable_fields_means_no_create_dto() {
    let input = entity("Stamp", "stamps", vec![
        field("id", "i64", &["primary_key", "auto_generated"]),
        field("at", "i64", &["readonly"]),
    ]);
    let p = plan(&input, vec![]);
    assert!(p.dtos.create.is_none());
    assert!(p.dtos.update.is_none());
    assert!(p.dtos.conversions.into_entity.is_none());
}

#[test]
fn malformed_crud_arguments_are_rejected() {
    let e = generate_crud_internal(&user(), &vec![ident("path")]).err().unwrap();
    assert_eq!(e.site, ErrorSite::Args);
    assert_eq!(e.message, "expected `path = \"...\"`, `read_only`, `skip_create` or `skip_delete`");
    assert!(parse_crud_config(&vec![ident("read_only"), ident("skip_create")]).is_err());
    assert!(parse_crud_config(&vec![ident("other")]).is_err());
    let c = parse_crud_config(&vec![ident("read_only"), ArgToken::Punct(',')]).ok().unwrap();
    assert!(c.read_only);
}

#[test]
fn crud_entity_errors() {
    let mut input = user();
    input.attrs.clear();
    let e = generate_crud_internal(&input, &vec![]).err().unwrap();
    assert_eq!(e.message, "#[table(\"name\")] attribute is required");
    let mut input = user();
    input.data = DataShape::Enum;
    let e = generate_crud_internal(&input, &vec![]).err().unwrap();
    assert_eq!(e.site, ErrorSite::Input);
    assert_eq!(e.message, "Crud can only be derived for structs with named fields");
}

#[test]
fn openapi_operation_ids() {
    assert_eq!(operation_id("User", "list"), "list_user");
    assert_eq!(operation_id("AuditLog", "get"), "get_auditlog");
}
