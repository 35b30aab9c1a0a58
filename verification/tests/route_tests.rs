//! The route attributes and `#[gearbox_app]`: registration path and
//! method, handler renaming and the injection of `Arc<T>` parameters.

use gearbox::attrs::{
    found_to_tokens, generate_gearbox_app, generate_route, resolve_crate, ArgToken, CratePath, FnInput,
    FnParam, FoundCrate, ParamPlan, RoutePlan,
};
use gearbox::syntax::{ErrorSite, TypeInfo};

fn lit(s: &str) -> ArgToken {
    ArgToken::Literal(format!("\"{}\"", s))
}

fn arc(inner: &str) -> TypeInfo {
    TypeInfo {
        text: format!("Arc < {} >", inner),
        last_segment: Some("Arc".to_string()),
        type_arg_count: 1,
        first_type_arg: Some(inner.to_string()),
    }
}

fn plain(text: &str, last: &str) -> TypeInfo {
    TypeInfo { text: text.to_string(), last_segment: Some(last.to_string()), type_arg_count: 0, first_type_arg: None }
}

fn typed(binding: &str, ty: TypeInfo) -> FnParam {
    FnParam::Typed { binding: Some(binding.to_string()), ty }
}

fn handler(name: &str, params: Vec<FnParam>) -> FnInput {
    FnInput { name: name.to_string(), params }
}

fn route(method: &str, path: &str, item: FnInput) -> RoutePlan {
    match generate_route(method, &vec![lit(path)], &item) {
        Ok(p) => p,
        Err(e) => panic!("unexpected error: {}", e.message),
    }
}

/// The registrations of the handlers of the framework's route examples.
fn registrations() -> Vec<RoutePlan> {
    let service = || typed("_service", arc("TestService"));
    vec![
        route("GET", "/test-get", handler("test_get_handler", vec![])),
        route("POST", "/test-post", handler("test_post_handler", vec![])),
        route("PUT", "/test-put", handler("test_put_handler", vec![])),
        route("DELETE", "/test-delete", handler("test_delete_handler", vec![])),
        route("PATCH", "/test-patch", handler("test_patch_handler", vec![])),
        route("GET", "/with-arc", handler("handler_with_arc", vec![typed("service", arc("TestService"))])),
        route(
            "GET",
            "/with-multiple-arcs",
            handler("handler_with_multiple_arcs", vec![
                typed("_service1", arc("TestService")),
                typed("_service2", arc("TestService")),
            ]),
        ),
        route(
            "GET",
            "/mixed-params",
            handler("handler_mixed_params", vec![service(), typed("_query", plain("Query < QueryParams >", "Query"))]),
        ),
        route(
            "POST",
            "/with-json",
            handler("handler_with_json", vec![service(), typed("_body", plain("Json < QueryParams >", "Json"))]),
        ),
        route(
            "GET",
            "/users/:id",
            handler("handler_with_path_param", vec![
                typed("_path", plain("gearbox_rs_core :: Path < String >", "Path")),
                service(),
            ]),
        ),
        route("GET", "/health", handler("health_check", vec![])),
        route("GET", "/returns-json", handler("returns_json", vec![])),
        route("GET", "/returns-result", handler("returns_result", vec![])),
    ]
}

fn paths() -> Vec<String> {
    registrations().into_iter().map(|r| r.path).collect()
}

#[test]
fn test_route_registration_exists() {
    let paths = paths();
    assert!(paths.contains(&"/test-get".to_string()), "GET route not registered");
    assert!(paths.contains(&"/test-post".to_string()), "POST route not registered");
    assert!(paths.contains(&"/test-put".to_string()), "PUT route not registered");
    assert!(paths.contains(&"/test-delete".to_string()), "DELETE route not registered");
    assert!(paths.contains(&"/test-patch".to_string()), "PATCH route not registered");
}

#[test]
fn test_route_methods_correct() {
    for route in registrations() {
        match route.path.as_str() {
            "/test-get" => assert_eq!(route.method, "GET"),
            "/test-post" => assert_eq!(route.method, "POST"),
            "/test-put" => assert_eq!(route.method, "PUT"),
            "/test-delete" => assert_eq!(route.method, "DELETE"),
            "/test-patch" => assert_eq!(route.method, "PATCH"),
            _ => {}
        }
        assert_eq!(route.method_fn, route.method.to_lowercase());
    }
}

#[test]
fn test_arc_routes_registered() {
    let paths = paths();
    assert!(paths.contains(&"/with-arc".to_string()));
    assert!(paths.contains(&"/with-multiple-arcs".to_string()));
    let r = &registrations()[5];
    assert_eq!(r.handler_name, "__handler_handler_with_arc");
    assert!(matches!(&r.params[0], ParamPlan::Inject { binding: Some(b), inner } if b == "service" && inner == "TestService"));
}

#[test]
fn test_mixed_params_routes_registered() {
    let paths = paths();
    assert!(paths.contains(&"/mixed-params".to_string()));
    assert!(paths.contains(&"/with-json".to_string()));
    let r = &registrations()[7];
    assert!(matches!(&r.params[0], ParamPlan::Inject { .. }));
    assert!(matches!(&r.params[1], ParamPlan::Keep));
}

#[test]
fn test_path_param_route_registered() {
    assert!(paths().contains(&"/users/:id".to_string()));
}

#[test]
fn test_no_params_route_registered() {
    assert!(paths().contains(&"/health".to_string()));
}

#[test]
fn test_return_type_routes_registered() {
    let paths = paths();
    assert!(paths.contains(&"/returns-json".to_string()));
    assert!(paths.contains(&"/returns-result".to_string()));
}

#[test]
fn route_path_must_be_one_string_literal() {
    let item = handler("h", vec![]);
    let e = generate_route("GET", &vec![ArgToken::Ident("path".to_string())], &item).err().unwrap();
    assert_eq!(e.site, ErrorSite::Args);
    assert_eq!(e.message, "expected string literal");
    let e = generate_route("GET", &vec![lit("/a"), lit("/b")], &item).err().unwrap();
    assert_eq!(e.message, "unexpected token");
    let e = generate_route("GET", &vec![], &item).err().unwrap();
    assert_eq!(e.message, "unexpected end of input, expected string literal");
}

#[test]
fn receiver_and_patterns_are_kept_or_injected() {
    let item = handler("h", vec![
        FnParam::Receiver,
        FnParam::Typed { binding: None, ty: arc("Hub") },
    ]);
    let r = route("GET", "/x", item);
    assert!(matches!(&r.params[0], ParamPlan::Keep));
    assert!(matches!(&r.params[1], ParamPlan::Inject { binding: None, inner } if inner == "Hub"));
}

#[test]
fn gearbox_app_requires_main() {
    assert!(generate_gearbox_app("main").is_ok());
    let e = generate_gearbox_app("start").err().unwrap();
    assert_eq!(e.site, ErrorSite::Name);
    assert_eq!(e.message, "#[gearbox_app] can only be applied to fn main()");
}

#[test]
fn crate_paths() {
    assert!(matches!(found_to_tokens(FoundCrate::Itself), CratePath::This));
    let p = resolve_crate(None, Some(FoundCrate::Name("gearbox_rs_core".to_string())), "gearbox_rs_core");
    assert!(matches!(p, CratePath::Named(n) if n == "gearbox_rs_core"));
    let p = resolve_crate(Some(FoundCrate::Name("gearbox".to_string())), Some(FoundCrate::Itself), "x");
    assert!(matches!(p, CratePath::Named(n) if n == "gearbox"));
    let p = resolve_crate(None, None, "gearbox_rs_postgres");
    assert!(matches!(p, CratePath::Named(n) if n == "gearbox_rs_postgres"));
}
