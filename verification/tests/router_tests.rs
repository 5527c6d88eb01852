use forge::router::{HttpMethod, Routable, Route, Router, RouterError};

fn routable(path: &str, method: HttpMethod, handler: u32) -> Routable<u32> {
    Routable { path: path.to_string(), method, handler }
}

#[test]
fn test_basic_static_route_match() {
    let mut router: Router<u32> = Router::new();
    router.register(routable("/ping", HttpMethod::GET, 1));

    let result = router.get_route("/ping", &HttpMethod::GET);
    assert!(result.is_some());

    let match_data = result.unwrap();
    assert!(match_data.params.is_empty());
}

#[test]
fn test_route_not_found() {
    let mut router: Router<u32> = Router::new();
    router.register(routable("/ping", HttpMethod::GET, 1));

    let result = router.get_route("/pong", &HttpMethod::GET);
    assert!(result.is_none());
}

#[test]
fn test_method_mismatch() {
    let mut router: Router<u32> = Router::new();
    router.register(routable("/data", HttpMethod::GET, 1));

    let result_get = router.get_route("/data", &HttpMethod::GET);
    assert!(result_get.is_some());

    let result_post = router.get_route("/data", &HttpMethod::POST);
    assert!(result_post.is_none());
}

#[test]
fn test_single_parameter_extraction() {
    let mut router: Router<u32> = Router::new();
    router.register(routable("/users/:id", HttpMethod::GET, 1));

    let result = router.get_route("/users/123", &HttpMethod::GET);
    assert!(result.is_some());

    let match_data = result.unwrap();
    assert_eq!(match_data.params.len(), 1);
    assert_eq!(match_data.params[0], ("id".to_string(), "123".to_string()));
}

#[test]
fn test_multiple_parameters_extraction() {
    let mut router: Router<u32> = Router::new();
    router.register(routable("/store/:store_id/customer/:customer_id", HttpMethod::GET, 1));

    let result = router.get_route("/store/99/customer/500", &HttpMethod::GET);
    assert!(result.is_some());

    let match_data = result.unwrap();
    assert_eq!(match_data.params.len(), 2);

    assert!(match_data.params.contains(&("store_id".to_string(), "99".to_string())));
    assert!(match_data.params.contains(&("customer_id".to_string(), "500".to_string())));
}

#[test]
fn test_path_sanitization_and_trailing_slashes() {
    let mut router: Router<u32> = Router::new();
    router.register(routable("/api/v1/status", HttpMethod::GET, 1));

    let paths_to_test: Vec<&str> = vec![
        "/api/v1/status",
        "api/v1/status",
        "/api/v1/status/",
        "//api/v1/status//",
    ];

    for path in paths_to_test {
        let result = router.get_route(path, &HttpMethod::GET);
        assert!(result.is_some(), "Failed to match path: {path}");
    }
}

#[test]
fn test_deep_nested_static_routes() {
    let mut router: Router<u32> = Router::new();
    router.register(routable("/a/b/c/d", HttpMethod::GET, 1));

    let result = router.get_route("/a/b/c/d", &HttpMethod::GET);
    assert!(result.is_some());

    let partial = router.get_route("/a/b/c", &HttpMethod::GET);
    assert!(partial.is_none());
}

#[test]
fn test_mixed_exact_and_param_segments() {
    let mut router: Router<u32> = Router::new();
    router.register(routable("/files/:type/recent", HttpMethod::GET, 1));

    let result = router.get_route("/files/images/recent", &HttpMethod::GET);
    assert!(result.is_some());
    assert_eq!(
        result.unwrap().params[0],
        ("type".to_string(), "images".to_string())
    );

    let result_fail = router.get_route("/files/images/old", &HttpMethod::GET);
    assert!(result_fail.is_none());
}

#[test]
fn test_overlapping_routes_precedence() {
    let mut router: Router<u32> = Router::new();
    router.register(routable("/users/:id", HttpMethod::GET, 1));
    router.register(routable("/users/all", HttpMethod::GET, 2));

    let exact_match = router.get_route("/users/all", &HttpMethod::GET);
    assert!(exact_match.is_some());
    assert!(exact_match.unwrap().params.is_empty());

    let param_match = router.get_route("/users/123", &HttpMethod::GET);
    assert!(param_match.is_some());
    assert_eq!(
        param_match.unwrap().params[0],
        ("id".to_string(), "123".to_string())
    );
}

#[test]
fn test_handler_values_come_back() {
    let mut router: Router<u32> = Router::new();
    router.register(routable("/users/:id", HttpMethod::GET, 1));
    router.register(routable("/users/all", HttpMethod::GET, 2));

    assert_eq!(*router.get_route("/users/all", &HttpMethod::GET).unwrap().value, 2);
    assert_eq!(*router.get_route("/users/7", &HttpMethod::GET).unwrap().value, 1);
}

#[test]
fn test_duplicate_route_reported_by_add_route() {
    let mut router: Router<u32> = Router::new();
    let first = router.add_route(Route {
        path: "/duplicate".to_string(),
        method: HttpMethod::GET,
        handler: 1,
    });
    assert!(first.is_ok());
    let second = router.add_route(Route {
        path: "/duplicate".to_string(),
        method: HttpMethod::GET,
        handler: 2,
    });
    match second {
        Err(RouterError::DuplicateRoute(rendered)) => {
            assert_eq!(rendered, "[GET] - \"/duplicate\"");
        }
        _ => panic!("expected a duplicate-route error"),
    }
}

#[test]
fn test_sanitize_path_components() {
    assert_eq!(
        Router::<u32>::sanitize_path("//a//b/c/"),
        vec!["a".to_string(), "b".to_string(), "c".to_string()]
    );
    assert_eq!(Router::<u32>::sanitize_path(""), Vec::<String>::new());
    assert_eq!(Router::<u32>::sanitize_path("///"), Vec::<String>::new());
}

#[test]
fn test_root_path_matches_empty_pattern() {
    let mut router: Router<u32> = Router::new();
    router.register(routable("/", HttpMethod::GET, 7));
    let result = router.get_route("/", &HttpMethod::GET);
    assert!(result.is_some());
    assert_eq!(*result.unwrap().value, 7);
}
