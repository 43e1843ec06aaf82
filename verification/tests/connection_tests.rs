use http_library::{plan_request, Plan, Request, Response, Router};

type Handler = fn(&Request) -> Response;

fn handler_a(_req: &Request) -> Response {
    Response::new(200, "hi")
}

fn table() -> Router<Handler> {
    let mut r: Router<Handler> = Router::new("127.0.0.1:4221");
    r.handle_func("/", handler_a, vec!["GET"]);
    r
}

#[test]
fn get_root_resolves_to_the_registered_handler() {
    let r = table();
    match plan_request(&r.routes, b"GET / HTTP/1.1\r\nHost: x\r\n\r\n") {
        Plan::Invoke(req, i) => {
            assert_eq!(i, 0);
            let res = (r.routes[i].handler)(&req);
            assert_eq!(res.code(), 200);
            assert!(res.encode().ends_with("\r\nhi\r\n"));
        },
        other => panic!("expected the handler to be invoked, got {:?}", other),
    }
}

#[test]
fn post_to_a_get_route_yields_405() {
    let r = table();
    match plan_request(&r.routes, b"POST / HTTP/1.1\r\nHost: x\r\n\r\n") {
        Plan::Respond(res) => {
            assert_eq!(res.code(), 405);
            assert!(res.encode().contains("method not allowed"));
        },
        other => panic!("expected a finished 405 response, got {:?}", other),
    }
}

#[test]
fn a_missing_path_yields_404() {
    let r = table();
    match plan_request(&r.routes, b"GET /missing HTTP/1.1\r\nHost: x\r\n\r\n") {
        Plan::Respond(res) => {
            assert_eq!(res.code(), 404);
            assert!(res.encode().contains("page not found"));
        },
        other => panic!("expected a finished 404 response, got {:?}", other),
    }
}

#[test]
fn an_empty_read_abandons_the_connection() {
    let r = table();
    assert!(matches!(plan_request(&r.routes, b""), Plan::Abandon));
}

#[test]
fn undecodable_bytes_yield_400() {
    let r = table();
    match plan_request(&r.routes, &[0xff, 0xfe, 0xfd]) {
        Plan::Respond(res) => {
            assert_eq!(res.code(), 400);
            assert!(res.encode().starts_with("HTTP/1.1 400  \r\n"));
        },
        other => panic!("expected a finished 400 response, got {:?}", other),
    }
}

#[test]
fn a_request_without_a_path_yields_400_instead_of_crashing() {
    let r = table();
    match plan_request(&r.routes, b"GET\r\n\r\n") {
        Plan::Respond(res) => assert_eq!(res.code(), 400),
        other => panic!("expected a finished 400 response, got {:?}", other),
    }
}
