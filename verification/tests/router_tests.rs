use vice::http::HeaderField;
use vice::http::RequestHead;
use vice::router::FixedResponse;
use vice::router::NotFound;
use vice::router::RequestMatcher;
use vice::router::Router;
use vice::router::Service;

fn head(method: &[u8], path: &[u8]) -> RequestHead {
    RequestHead {
        method: method.to_vec(),
        path: path.to_vec(),
        minor_version: 1,
        headers: Vec::<HeaderField>::new(),
        body_offset: 0,
    }
}

#[test]
fn not_found_answers_with_the_fallback_status() {
    let r = NotFound.call(&head(b"GET", b"/nowhere"), &Vec::new());
    assert_eq!(r, b"HTTP/1.1 404 Not Found\r\nContent-Length: 0\r\n\r\n".to_vec());
}

#[test]
fn router_delegates_to_a_matching_branch() {
    let router = Router::new().route(
        RequestMatcher::for_path(b"/hello".to_vec()),
        FixedResponse::new(b"hi".to_vec()),
    );
    assert_eq!(router.call(&head(b"GET", b"/hello"), &Vec::new()), b"hi".to_vec());
    assert_eq!(
        router.call(&head(b"GET", b"/other"), &Vec::new()),
        b"HTTP/1.1 404 Not Found\r\nContent-Length: 0\r\n\r\n".to_vec()
    );
}

#[test]
fn later_routes_shadow_the_fallback_chain() {
    let router = Router::new()
        .route(RequestMatcher::for_path(b"/a".to_vec()), FixedResponse::new(b"A".to_vec()))
        .route(RequestMatcher::for_path(b"/b".to_vec()), FixedResponse::new(b"B".to_vec()));
    assert_eq!(router.call(&head(b"GET", b"/a"), &Vec::new()), b"A".to_vec());
    assert_eq!(router.call(&head(b"GET", b"/b"), &Vec::new()), b"B".to_vec());
}

#[test]
fn route_checked_matches_by_path_alone() {
    let router = Router::new().route_checked(b"/c".to_vec(), FixedResponse::new(b"C".to_vec()));
    assert_eq!(router.call(&head(b"GET", b"/c"), &Vec::new()), b"C".to_vec());
    assert_eq!(router.call(&head(b"POST", b"/c"), &Vec::new()), b"C".to_vec());
    assert_eq!(
        router.call(&head(b"GET", b"/d"), &Vec::new()),
        b"HTTP/1.1 404 Not Found\r\nContent-Length: 0\r\n\r\n".to_vec()
    );
}

#[test]
fn custom_fallback_catches_everything_unmatched() {
    let router = Router::new_with_fallback(FixedResponse::new(b"fallback".to_vec()));
    assert_eq!(router.call(&head(b"GET", b"/x"), &Vec::new()), b"fallback".to_vec());
}

#[test]
fn matcher_checks_each_constrained_part() {
    let path_only = RequestMatcher::for_path(b"/p".to_vec());
    assert!(path_only.matches(&head(b"GET", b"/p")));
    assert!(path_only.matches(&head(b"POST", b"/p")));
    assert!(!path_only.matches(&head(b"GET", b"/q")));

    let both = RequestMatcher::new(Some(b"/p".to_vec()), Some(b"POST".to_vec()));
    assert!(both.matches(&head(b"POST", b"/p")));
    assert!(!both.matches(&head(b"GET", b"/p")));

    let anything = RequestMatcher::new(None, None);
    assert!(anything.matches(&head(b"PUT", b"/whatever")));
}

#[test]
fn default_router_is_the_bare_fallback() {
    let router: Router<NotFound> = Default::default();
    assert_eq!(
        router.call(&head(b"GET", b"/"), &Vec::new()),
        b"HTTP/1.1 404 Not Found\r\nContent-Length: 0\r\n\r\n".to_vec()
    );
}

#[test]
fn fixed_response_echoes_its_bytes_not_its_input() {
    let svc = FixedResponse::new(b"payload".to_vec());
    let r = svc.call(&head(b"GET", b"/"), &b"request-body".to_vec());
    assert_eq!(r, b"payload".to_vec());
}
