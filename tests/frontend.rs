use tls_proxy::{client_head, decide, rule, same_text, Decision, ForwardError, Header, ResponseHead, RoutingTable};

fn pairs(hs: &[Header]) -> Vec<(String, Vec<u8>)> {
    hs.iter().map(|x| (x.name.clone(), x.value.clone())).collect()
}

fn forward_url(d: Decision) -> String {
    match d {
        Decision::Forward(u) => u,
        Decision::Reply(h) => panic!("expected a forward, got a reply with status {}", h.status),
    }
}

fn reply(d: Decision) -> ResponseHead {
    match d {
        Decision::Reply(h) => h,
        Decision::Forward(u) => panic!("expected a reply, got a forward to {}", u),
    }
}

#[test]
fn get_and_list_forward_with_path_and_query() {
    let table = RoutingTable::reference();
    assert_eq!(
        forward_url(decide(&table, "GET", "/get/42", Some("v=1"))),
        "http://localhost:8444/get/42?v=1"
    );
    assert_eq!(forward_url(decide(&table, "POST", "/list", None)), "http://localhost:8444/list");
}

#[test]
fn put_and_ui_forward_to_their_ports() {
    let table = RoutingTable::reference();
    assert_eq!(
        forward_url(decide(&table, "PUT", "/put/k", Some("x=%41"))),
        "http://localhost:8445/put/k?x=%41"
    );
    assert_eq!(forward_url(decide(&table, "GET", "/ui/index.js", None)), "http://localhost:3000/ui/index.js");
}

#[test]
fn unmatched_path_gets_cacheable_bad_request() {
    let table = RoutingTable::reference();
    let head = reply(decide(&table, "GET", "/nonexistent", None));
    assert_eq!(head.status, 400);
    assert_eq!(
        pairs(&head.headers),
        vec![("Cache-Control".to_string(), b"public, max-age=86400".to_vec())]
    );
}

#[test]
fn root_get_redirects_whatever_the_table() {
    let catch_all = RoutingTable::new(vec![rule("/", "http://backend:1")]);
    for table in [RoutingTable::reference(), RoutingTable::new(Vec::new()), catch_all] {
        let head = reply(decide(&table, "GET", "/", Some("a=b")));
        assert_eq!(head.status, 302);
        assert_eq!(pairs(&head.headers), vec![("Location".to_string(), b"/index.html".to_vec())]);
    }
}

#[test]
fn root_with_other_method_goes_through_the_table() {
    let catch_all = RoutingTable::new(vec![rule("/", "http://backend:1")]);
    assert_eq!(forward_url(decide(&catch_all, "POST", "/", None)), "http://backend:1/");
    let head = reply(decide(&RoutingTable::reference(), "HEAD", "/", None));
    assert_eq!(head.status, 400);
}

#[test]
fn earlier_overlapping_rule_decides() {
    let table = RoutingTable::new(vec![rule("/get", "http://first:1"), rule("/getx", "http://second:2")]);
    assert_eq!(forward_url(decide(&table, "GET", "/getx", None)), "http://first:1/getx");
}

#[test]
fn backend_head_loses_connection_only() {
    let backend = ResponseHead {
        status: 201,
        headers: vec![
            Header::new("connection".to_string(), b"close".to_vec()),
            Header::new("vary".to_string(), b"a".to_vec()),
            Header::new("vary".to_string(), b"b".to_vec()),
        ],
    };
    let head = client_head(Ok(backend));
    assert_eq!(head.status, 201);
    assert_eq!(
        pairs(&head.headers),
        vec![("vary".to_string(), b"a".to_vec()), ("vary".to_string(), b"b".to_vec())]
    );
}

#[test]
fn relay_failures_are_server_errors() {
    let unreachable = client_head(Err(ForwardError::Unreachable));
    assert_eq!(unreachable.status, 502);
    assert!(unreachable.headers.is_empty());
    assert_eq!(client_head(Err(ForwardError::ConnectTimeout)).status, 504);
    assert_eq!(client_head(Err(ForwardError::Failed)).status, 500);
}

#[test]
fn proxy_keeps_serving_after_a_failure() {
    let table = RoutingTable::reference();
    let failed = client_head(Err(ForwardError::Unreachable));
    assert!(failed.status >= 500 && failed.status <= 599);
    assert_eq!(forward_url(decide(&table, "GET", "/get/next", None)), "http://localhost:8444/get/next");
}

#[test]
fn same_text_compares_whole_strings() {
    assert!(same_text("GET", "GET"));
    assert!(!same_text("GET", "get"));
    assert!(!same_text("GET", "GETS"));
    assert!(same_text("", ""));
}
