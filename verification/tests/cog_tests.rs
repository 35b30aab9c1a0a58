//! `#[cog]` and `#[cog_config(..)]`: field initialisation, hooks, the
//! configuration key and the checks on their arguments.

use gearbox::attrs::{generate_cog_config, ArgToken, CogConfigArgs};
use gearbox::cog::{extract_arc_inner, generate_cog_internal, parse_field, FieldKind};
use gearbox::syntax::{AttrInfo, DataShape, ErrorSite, FieldInput, StructInput, TypeInfo};

fn lit(s: &str) -> ArgToken {
    ArgToken::Literal(format!("\"{}\"", s))
}

fn plain(text: &str) -> TypeInfo {
    TypeInfo { text: text.to_string(), last_segment: Some(text.to_string()), type_arg_count: 0, first_type_arg: None }
}

fn arc(inner: &str) -> TypeInfo {
    TypeInfo {
        text: format!("Arc < {} >", inner),
        last_segment: Some("Arc".to_string()),
        type_arg_count: 1,
        first_type_arg: Some(inner.to_string()),
    }
}

fn attr(name: &str, args: Option<&str>) -> AttrInfo {
    AttrInfo { ident: Some(name.to_string()), args: args.map(|a| a.to_string()) }
}

fn field(name: &str, ty: TypeInfo, attrs: Vec<AttrInfo>) -> FieldInput {
    FieldInput { ident: name.to_string(), ty, attrs }
}

#[test]
fn test_cog_config_macro() {
    let p = generate_cog_config(&vec![lit("test-config")], "TestConfig").ok().unwrap();
    assert_eq!(p.key, "test-config");
    assert_eq!(p.type_id_fn, "__config_type_id_testconfig");
    assert_eq!(p.validate_fn, None);
}

#[test]
fn test_cog_config_macro_database() {
    let p = generate_cog_config(&vec![lit("database")], "DbConfig").ok().unwrap();
    assert_eq!(p.key, "database");
    assert_eq!(p.struct_name, "DbConfig");
}

#[test]
fn pg_config_key_is_postgres() {
    let p = generate_cog_config(&vec![lit("postgres")], "PgConfig").ok().unwrap();
    assert_eq!(p.key, "postgres");
    assert_eq!(p.type_id_fn, "__config_type_id_pgconfig");
}

#[test]
fn cog_config_with_validate() {
    let ts = vec![
        lit("server"),
        ArgToken::Punct(','),
        ArgToken::Ident("validate".to_string()),
        ArgToken::Punct('='),
        lit("check_server"),
    ];
    let p = generate_cog_config(&ts, "ServerConfig").ok().unwrap();
    assert_eq!(p.validate_fn.as_deref(), Some("check_server"));
}

#[test]
fn cog_config_argument_errors() {
    let e = CogConfigArgs::parse(&vec![ArgToken::Ident("key".to_string())]).err().unwrap();
    assert_eq!(e.message, "expected string literal");
    assert_eq!(e.site, ErrorSite::Args);
    let e = CogConfigArgs::parse(&vec![lit("k"), lit("x")]).err().unwrap();
    assert_eq!(e.message, "unexpected token");
    let e = CogConfigArgs::parse(&vec![lit("k"), ArgToken::Punct(',')]).err().unwrap();
    assert_eq!(e.message, "unexpected end of input, expected identifier");
    let e = CogConfigArgs::parse(&vec![lit("k"), ArgToken::Punct(','), lit("validate")]).err().unwrap();
    assert_eq!(e.message, "expected identifier");
    let e = CogConfigArgs::parse(&vec![lit("k"), ArgToken::Punct(','), ArgToken::Ident("fn".to_string())])
        .err()
        .unwrap();
    assert_eq!(e.message, "expected identifier, found keyword `fn`");
    let e = CogConfigArgs::parse(&vec![]).err().unwrap();
    assert_eq!(e.message, "unexpected end of input, expected string literal");
    let e = CogConfigArgs::parse(&vec![lit("k"), ArgToken::Punct(','), ArgToken::Ident("check".to_string())])
        .err()
        .unwrap();
    assert_eq!(e.message, "expected `validate`");
    let e = CogConfigArgs::parse(&vec![lit("k"), ArgToken::Punct(','), ArgToken::Ident("validate".to_string())])
        .err()
        .unwrap();
    assert_eq!(e.message, "expected `=`");
    let e = CogConfigArgs::parse(&vec![
        lit("k"),
        ArgToken::Punct(','),
        ArgToken::Ident("validate".to_string()),
        ArgToken::Punct('='),
    ])
    .err()
    .unwrap();
    assert_eq!(e.message, "unexpected end of input, expected string literal");
    let e = CogConfigArgs::parse(&vec![
        lit("k"),
        ArgToken::Punct(','),
        ArgToken::Ident("validate".to_string()),
        ArgToken::Punct('='),
        lit("f"),
        ArgToken::Punct(','),
    ])
    .err()
    .unwrap();
    assert_eq!(e.message, "unexpected token");
}

#[test]
fn cog_field_kinds() {
    let input = StructInput {
        ident: "UserService".to_string(),
        attrs: vec![attr("on_start", Some("warm_up")), attr("derive", Some("Clone"))],
        data: DataShape::Named(vec![
            field("db", arc("Database"), vec![attr("inject", None)]),
            field("settings", plain("UserServiceConfig"), vec![attr("config", None), attr("allow", Some("dead_code"))]),
            field("users", plain("Vec<String>"), vec![attr("default", Some("empty_users"))]),
            field("pool", plain("PgPool"), vec![attr("default_async", Some("create_pool"))]),
            field("request_count", plain("u64"), vec![]),
        ]),
    };
    let p = generate_cog_internal(&input).ok().unwrap();
    assert_eq!(p.struct_name, "UserService");
    assert_eq!(p.factory_name, "__UserServiceFactory");
    assert_eq!(p.on_start.as_deref(), Some("warm_up"));
    assert_eq!(p.on_shutdown, None);
    assert!(matches!(&p.fields[0].kind, FieldKind::Inject(t) if t == "Database"));
    assert!(matches!(&p.fields[1].kind, FieldKind::Config));
    assert!(matches!(&p.fields[2].kind, FieldKind::DefaultFn(f) if f == "empty_users"));
    assert!(matches!(&p.fields[3].kind, FieldKind::DefaultAsyncFn(f) if f == "create_pool"));
    assert!(matches!(&p.fields[4].kind, FieldKind::Default));
    assert_eq!(p.inject_types, vec!["Database"]);
    assert_eq!(p.kept_attrs, vec![1]);
    assert_eq!(p.kept_field_attrs, vec![vec![], vec![1], vec![], vec![], vec![]]);
}

#[test]
fn conflicting_field_attributes() {
    let f = field("x", plain("u32"), vec![attr("config", None), attr("default", Some("zero"))]);
    let e = parse_field(&f, 3).err().unwrap();
    assert_eq!(e.site, ErrorSite::Field(3));
    assert_eq!(
        e.message,
        "field 'x' has conflicting attributes. Use only one of: #[inject], #[config], #[default(fn)], #[default_async(fn)]"
    );
}

#[test]
fn inject_requires_arc() {
    let f = field("db", plain("Database"), vec![attr("inject", None)]);
    let e = parse_field(&f, 0).err().unwrap();
    assert_eq!(e.site, ErrorSite::FieldType(0));
    assert_eq!(e.message, "#[inject] field 'db' must be Arc<T>");
}

#[test]
fn default_requires_a_path() {
    let f = field("users", plain("Vec<String>"), vec![attr("allow", None), attr("default", Some("\"x\""))]);
    let e = parse_field(&f, 2).err().unwrap();
    assert_eq!(e.site, ErrorSite::FieldAttr(2, 1));
    assert_eq!(
        e.message,
        "#[default] on field 'users' requires a function path. Expected: #[default(my_function)] where my_function: fn() -> Vec<String>"
    );
    let f = field("pool", plain("PgPool"), vec![attr("default_async", None)]);
    let e = parse_field(&f, 0).err().unwrap();
    assert_eq!(e.site, ErrorSite::FieldAttr(0, 0));
    assert!(e.message.starts_with("#[default_async] on field 'pool' requires a function path."));
}

#[test]
fn hook_requires_a_method_name() {
    let input = StructInput {
        ident: "S".to_string(),
        attrs: vec![attr("on_shutdown", Some("\"stop\""))],
        data: DataShape::Named(vec![]),
    };
    let e = generate_cog_internal(&input).err().unwrap();
    assert_eq!(e.site, ErrorSite::ItemAttr(0));
    assert_eq!(e.message, "#[on_shutdown] requires a method name, e.g. #[on_shutdown(my_method)]");
}

#[test]
fn cog_on_non_struct() {
    let mut input = StructInput { ident: "S".to_string(), attrs: vec![], data: DataShape::Enum };
    let e = generate_cog_internal(&input).err().unwrap();
    assert_eq!(e.message, "#[cog] can only be applied to structs");
    input.data = DataShape::Unnamed;
    let e = generate_cog_internal(&input).err().unwrap();
    assert_eq!(e.message, "#[cog] only supports structs with named fields");
}

#[test]
fn arc_inner_type() {
    assert_eq!(extract_arc_inner(&arc("Hub")).as_deref(), Some("Hub"));
    assert_eq!(extract_arc_inner(&plain("Hub")), None);
}

#[test]
fn arc_inner_needs_exactly_one_type_argument() {
    let ty = |text: &str, last: &str, count: usize, first: Option<&str>| TypeInfo {
        text: text.to_string(),
        last_segment: Some(last.to_string()),
        type_arg_count: count,
        first_type_arg: first.map(|f| f.to_string()),
    };
    assert_eq!(extract_arc_inner(&ty("Arc < UserRepo >", "Arc", 1, Some("UserRepo"))).as_deref(), Some("UserRepo"));
    assert_eq!(extract_arc_inner(&ty("std :: sync :: Arc < Db >", "Arc", 1, Some("Db"))).as_deref(), Some("Db"));
    assert_eq!(extract_arc_inner(&ty("Arc < A , B >", "Arc", 2, Some("A"))), None);
    assert_eq!(extract_arc_inner(&ty("Arc", "Arc", 0, None)), None);
    assert_eq!(extract_arc_inner(&ty("String", "String", 0, None)), None);
    assert_eq!(extract_arc_inner(&ty("Rc < T >", "Rc", 1, Some("T"))), None);
    assert_eq!(extract_arc_inner(&ty("Option < Arc < T > >", "Option", 1, Some("Arc < T >"))), None);
    let f = field("repo", ty("Arc < A , B >", "Arc", 2, Some("A")), vec![attr("inject", None)]);
    assert_eq!(parse_field(&f, 0).err().unwrap().message, "#[inject] field 'repo' must be Arc<T>");
}
