//! `pg_queries!`: the trait, the methods planned for each query and the
//! checks on return types and placeholders.

use gearbox::queries::{
    extract_generic, generate_impl_method, is_scalar_type, parse_return_kind, pascal_case, pg_queries,
    trait_name, validate_placeholders, QueriesPlan, QueryInput, QueryParam, ReturnKind, RunMode,
    SchemaHeader,
};
use gearbox::block::{parse_params, pg_queries_block, BlockToken, Delim};
use gearbox::syntax::{ErrorSite, TypeInfo};
use proc_macro2::{Delimiter, Spacing, TokenStream, TokenTree};

fn ty(text: &str) -> TypeInfo {
    TypeInfo { text: text.to_string(), last_segment: None, type_arg_count: 0, first_type_arg: None }
}

fn query(name: &str, params: &[(&str, &str)], ret: Option<&str>, sql: &str) -> QueryInput {
    QueryInput {
        name: name.to_string(),
        params: params.iter().map(|(n, t)| QueryParam { name: n.to_string(), ty: ty(t) }).collect(),
        ret: ret.map(ty),
        sql: sql.to_string(),
    }
}

fn block() -> Vec<QueryInput> {
    vec![
        query("find_user_by_id", &[("id", "&str")], Some("Option<User>"), "SELECT * FROM users WHERE id = $1"),
        query("find_users_by_status", &[("status", "&str")], Some("Vec<User>"), "SELECT * FROM users WHERE status = $1"),
        query(
            "find_users_by_status_and_role",
            &[("status", "&str"), ("role", "&str")],
            Some("Vec<User>"),
            "SELECT * FROM users WHERE status = $1 AND role = $2",
        ),
        query("get_user_summary", &[("id", "&str")], Some("Option<UserSummary>"), "SELECT id, name FROM users WHERE id = $1"),
        query("get_user_or_fail", &[("id", "&str")], Some("User"), "SELECT * FROM users WHERE id = $1"),
        query("count_users", &[], Some("i64"), "SELECT COUNT(*) FROM users"),
        query("count_users_by_status", &[("status", "&str")], Some("i64"), "SELECT COUNT(*) FROM users WHERE status = $1"),
        query("deactivate_user", &[("id", "&str")], Some("bool"), "UPDATE users SET active = false WHERE id = $1"),
        query("delete_inactive_users", &[], Some("u64"), "DELETE FROM users WHERE active = false"),
        query(
            "log_user_action",
            &[("user_id", "&str"), ("action", "&str")],
            None,
            "INSERT INTO audit_log (user_id, action, created_at) VALUES ($1, $2, NOW())",
        ),
        query("find_all_users", &[], Some("Vec<User>"), "SELECT * FROM users"),
    ]
}

fn plan() -> QueriesPlan {
    match pg_queries(SchemaHeader::Absent, block(), None) {
        Ok(p) => p,
        Err(e) => panic!("unexpected error: {}", e.message),
    }
}

fn method(p: &QueriesPlan, name: &str) -> gearbox::queries::MethodPlan {
    let q = p.queries.iter().find(|q| q.name == name).unwrap();
    generate_impl_method(q, &p.schema)
}

fn block_tokens(ts: TokenStream) -> Vec<BlockToken> {
    ts.into_iter()
        .map(|t| match t {
            TokenTree::Ident(i) => BlockToken::Ident(i.to_string()),
            TokenTree::Punct(p) => BlockToken::Punct(p.as_char(), p.spacing() == Spacing::Joint),
            TokenTree::Literal(l) => BlockToken::Literal(l.to_string()),
            TokenTree::Group(g) => {
                let d = match g.delimiter() {
                    Delimiter::Parenthesis => Delim::Paren,
                    Delimiter::Brace => Delim::Brace,
                    Delimiter::Bracket => Delim::Bracket,
                    Delimiter::None => Delim::Invisible,
                };
                BlockToken::Group(d, g.to_string(), block_tokens(g.stream()))
            }
        })
        .collect()
}

fn tokens(text: &str) -> Vec<BlockToken> {
    block_tokens(text.parse::<TokenStream>().unwrap())
}

const BLOCK: &str = r#"
    fn find_user_by_id(id: &str) -> Option<User> {
        "SELECT * FROM users WHERE id = $1"
    }
    fn find_users_by_status(status: &str) -> Vec<User> {
        "SELECT * FROM users WHERE status = $1"
    }
    fn find_users_by_status_and_role(status: &str, role: &str) -> Vec<User> {
        "SELECT * FROM users WHERE status = $1 AND role = $2"
    }
    fn get_user_summary(id: &str) -> Option<UserSummary> {
        "SELECT id, name FROM users WHERE id = $1"
    }
    fn get_user_or_fail(id: &str) -> User {
        "SELECT * FROM users WHERE id = $1"
    }
    fn count_users() -> i64 {
        "SELECT COUNT(*) FROM users"
    }
    fn count_users_by_status(status: &str) -> i64 {
        "SELECT COUNT(*) FROM users WHERE status = $1"
    }
    fn deactivate_user(id: &str) -> bool {
        "UPDATE users SET active = false WHERE id = $1"
    }
    fn delete_inactive_users() -> u64 {
        "DELETE FROM users WHERE active = false"
    }
    fn log_user_action(user_id: &str, action: &str) {
        "INSERT INTO audit_log (user_id, action, created_at) VALUES ($1, $2, NOW())"
    }
    fn find_all_users() -> Vec<User> {
        "SELECT * FROM users"
    }
"#;

#[test]
fn test_trait_generated() {
    let p = pg_queries_block(&tokens(BLOCK)).ok().unwrap();
    assert_eq!(p.trait_name, "PgQueries");
    assert_eq!(p.schema, "default");
    assert_eq!(p.queries.len(), 11);
    let direct = plan();
    for (a, b) in p.queries.iter().zip(direct.queries.iter()) {
        assert_eq!(a.name, b.name);
        assert_eq!(a.sql, b.sql);
        assert_eq!(a.params.len(), b.params.len());
        let (ma, mb) = (generate_impl_method(a, "default"), generate_impl_method(b, "default"));
        assert_eq!(ma.value_type, mb.value_type);
        assert_eq!(ma.mode, mb.mode);
        let strip = |ps: &Vec<(String, String)>| -> Vec<(String, String)> {
            ps.iter().map(|(n, t)| (n.clone(), t.replace(' ', ""))).collect()
        };
        assert_eq!(strip(&ma.params), strip(&mb.params));
    }
}

#[test]
fn block_with_schema_header() {
    let text = format!("schema = \"accounts\"; {}", BLOCK);
    let p = pg_queries_block(&tokens(&text)).ok().unwrap();
    assert_eq!(p.schema, "accounts");
    assert_eq!(p.trait_name, "PgQueriesAccounts");
}

#[test]
fn block_syntax_errors() {
    let e = pg_queries_block(&tokens("scheme = \"x\";")).err().unwrap();
    assert_eq!(e.site, ErrorSite::Header);
    assert_eq!(e.message, "Expected 'schema' or 'fn'");
    let e = pg_queries_block(&tokens("schema \"x\";")).err().unwrap();
    assert_eq!(e.message, "expected `=`");
    let e = pg_queries_block(&tokens("fn q() -> i64")).err().unwrap();
    assert_eq!(e.message, "unexpected end of input, expected curly braces");
    let e = pg_queries_block(&tokens("fn q() -> i64 {}")).err().unwrap();
    assert_eq!(e.message, "unexpected end of input, expected string literal");
    let e = pg_queries_block(&tokens("fn q(a i64) {\"SELECT $1\"}")).err().unwrap();
    assert_eq!(e.message, "expected `:`");
    let e = pg_queries_block(&tokens("fn q {\"SELECT 1\"}")).err().unwrap();
    assert_eq!(e.message, "expected parentheses");
    let e = pg_queries_block(&tokens("fn q() { \"SELECT 1\" \"x\" }")).err().unwrap();
    assert_eq!(e.message, "unexpected token");
}

#[test]
fn block_errors_come_in_order() {
    // The mismatch in the first query is reported before the syntax error in the second.
    let e = pg_queries_block(&tokens("fn a(x: i64) -> i64 { \"SELECT 1\" } fn b")).err().unwrap();
    assert_eq!(e.site, ErrorSite::Query(0));
    // A return type that is not accepted is reported before the syntax error after it.
    let e = pg_queries_block(&tokens("fn a() -> Option<&'a str>")).err().unwrap();
    assert_eq!(e.site, ErrorSite::CallSite);
    assert!(!e.message.contains("curly braces"));
}

#[test]
fn generic_parameter_types_keep_their_commas() {
    let ps = parse_params(&tokens("m: std::collections::HashMap<String, i64>, d: chrono::NaiveDate, t: (i64, String),"))
        .ok()
        .unwrap();
    let names: Vec<&str> = ps.iter().map(|p| p.name.as_str()).collect();
    assert_eq!(names, vec!["m", "d", "t"]);
    assert_eq!(ps[0].ty.text, "std :: collections :: HashMap < String , i64 >");
    assert_eq!(ps[1].ty.text, "chrono :: NaiveDate");
    assert_eq!(ps[2].ty.text, "(i64 , String)");
}

#[test]
fn test_impl_for_pg_client() {
    let p = plan();
    for q in &p.queries {
        let m = generate_impl_method(q, &p.schema);
        assert_eq!(m.schema, "default");
        assert_eq!(m.sql, q.sql);
    }
}

#[test]
fn test_method_signatures_compile() {
    let p = plan();
    let expected = [
        ("find_user_by_id", "Option<User>", RunMode::FetchOptional),
        ("find_users_by_status", "Vec<User>", RunMode::FetchAll),
        ("find_users_by_status_and_role", "Vec<User>", RunMode::FetchAll),
        ("get_user_summary", "Option<UserSummary>", RunMode::FetchOptional),
        ("get_user_or_fail", "User", RunMode::FetchOne),
        ("count_users", "i64", RunMode::FetchScalar),
        ("count_users_by_status", "i64", RunMode::FetchScalar),
        ("deactivate_user", "bool", RunMode::ExecuteAny),
        ("delete_inactive_users", "u64", RunMode::ExecuteCount),
        ("log_user_action", "()", RunMode::Execute),
        ("find_all_users", "Vec<User>", RunMode::FetchAll),
    ];
    for (name, value_type, mode) in expected {
        let m = method(&p, name);
        assert_eq!(m.value_type, value_type, "{}", name);
        assert_eq!(m.mode, mode, "{}", name);
    }
    let m = method(&p, "find_user_by_id");
    assert_eq!(m.params, vec![("id".to_string(), "&str".to_string())]);
    assert_eq!(m.row_type.as_deref(), Some("User"));
}

#[test]
fn test_no_params_query() {
    let p = plan();
    assert!(method(&p, "find_all_users").params.is_empty());
    assert!(method(&p, "count_users").binds.is_empty());
}

#[test]
fn test_multiple_params_query() {
    let p = plan();
    assert_eq!(method(&p, "find_users_by_status_and_role").binds, vec!["status", "role"]);
    assert_eq!(method(&p, "log_user_action").binds, vec!["user_id", "action"]);
}

#[test]
fn schema_header_names_the_trait() {
    let header = SchemaHeader::Present { ident: "schema".to_string(), rest: Ok("read_replica".to_string()) };
    let p = pg_queries(header, block(), None).ok().unwrap();
    assert_eq!(p.trait_name, "PgQueriesReadReplica");
    assert_eq!(method(&p, "count_users").schema, "read_replica");
    assert_eq!(trait_name("default"), "PgQueries");
    assert_eq!(trait_name("analytics-db_v2"), "PgQueriesAnalyticsDbV2");
    assert_eq!(pascal_case("__a__b"), "AB");
}

#[test]
fn bad_schema_header() {
    let header = SchemaHeader::Present { ident: "fn_x".to_string(), rest: Ok("x".to_string()) };
    let e = pg_queries(header, block(), None).err().unwrap();
    assert_eq!(e.site, ErrorSite::Header);
    assert_eq!(e.message, "Expected 'schema' or 'fn'");
    let header = SchemaHeader::Present { ident: "schema".to_string(), rest: Err("expected `=`".to_string()) };
    let e = pg_queries(header, block(), None).err().unwrap();
    assert_eq!(e.site, ErrorSite::CallSite);
    assert_eq!(e.message, "expected `=`");
}

#[test]
fn placeholder_count_mismatch() {
    let mut qs = block();
    qs.push(query("broken", &[("a", "i32")], Some("i64"), "SELECT $1 + $2"));
    let e = pg_queries(SchemaHeader::Absent, qs, None).err().unwrap();
    assert_eq!(e.site, ErrorSite::Query(11));
    assert_eq!(e.message, "Parameter count mismatch in query 'broken': found 1 parameters but SQL has 2 placeholders");
}

#[test]
fn placeholders_use_the_largest_number() {
    let params = vec![
        QueryParam { name: "a".to_string(), ty: ty("i32") },
        QueryParam { name: "b".to_string(), ty: ty("i32") },
    ];
    assert!(validate_placeholders("q", &params, "SELECT $2, $1, $2", ErrorSite::CallSite).is_ok());
    assert!(validate_placeholders("q", &params, "SELECT $2 || '$' || $", ErrorSite::CallSite).is_ok());
    let e = validate_placeholders("q", &params, "SELECT $10", ErrorSite::CallSite).err().unwrap();
    assert_eq!(e.message, "Parameter count mismatch in query 'q': found 2 parameters but SQL has 10 placeholders");
    assert!(validate_placeholders("q", &vec![], "SELECT 1", ErrorSite::CallSite).is_ok());
}

#[test]
fn return_kinds() {
    assert!(matches!(parse_return_kind(&ty("Option < User >")), Ok(ReturnKind::Option(t)) if t == "User"));
    assert!(matches!(parse_return_kind(&ty("Vec<my::Row>")), Ok(ReturnKind::Vec(t)) if t == "my::Row"));
    assert!(matches!(parse_return_kind(&ty("( )")), Ok(ReturnKind::Unit)));
    assert!(matches!(parse_return_kind(&ty("bool")), Ok(ReturnKind::Bool)));
    assert!(matches!(parse_return_kind(&ty("u64")), Ok(ReturnKind::RowsAffected)));
    assert!(matches!(parse_return_kind(&ty("String")), Ok(ReturnKind::Scalar(t)) if t == "String"));
    assert!(matches!(parse_return_kind(&ty("Summary")), Ok(ReturnKind::Single(t)) if t == "Summary"));
    let e = parse_return_kind(&ty("Option<+>")).err().unwrap();
    assert_eq!(e.site, ErrorSite::CallSite);
}

#[test]
fn generic_and_scalar_helpers() {
    assert_eq!(extract_generic("Option<Foo>", "Option").as_deref(), Some("Foo"));
    assert_eq!(extract_generic("Option<>", "Option").as_deref(), Some(""));
    assert_eq!(extract_generic("Vec<Foo>", "Option"), None);
    assert_eq!(extract_generic("Option<Foo", "Option"), None);
    assert!(is_scalar_type("i64"));
    assert!(is_scalar_type("&str"));
    assert!(!is_scalar_type("u64x"));
}
