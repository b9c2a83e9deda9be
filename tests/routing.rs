use tls_proxy::{rule, target_url, RouteNotFound, RoutingTable};

#[test]
fn get_and_list_go_to_port_8444() {
    let table = RoutingTable::reference();
    assert_eq!(table.route("/get/item"), Ok("http://localhost:8444".to_string()));
    assert_eq!(table.route("/list"), Ok("http://localhost:8444".to_string()));
    assert_eq!(table.route("/listing?x"), Ok("http://localhost:8444".to_string()));
}

#[test]
fn put_and_ui_targets() {
    let table = RoutingTable::reference();
    assert_eq!(table.route("/put/a/b"), Ok("http://localhost:8445".to_string()));
    assert_eq!(table.route("/ui"), Ok("http://localhost:3000".to_string()));
    assert_eq!(table.route("/ui/app.js"), Ok("http://localhost:3000".to_string()));
}

#[test]
fn prefix_match_has_no_segment_boundary() {
    let table = RoutingTable::reference();
    assert_eq!(table.route("/getX"), Ok("http://localhost:8444".to_string()));
}

#[test]
fn unmatched_path_is_not_found() {
    let table = RoutingTable::reference();
    assert_eq!(table.route("/nonexistent"), Err(RouteNotFound));
    assert_eq!(table.route(""), Err(RouteNotFound));
    assert_eq!(table.route("/ge"), Err(RouteNotFound));
    assert_eq!(table.route("/GET"), Err(RouteNotFound));
}

#[test]
fn empty_table_routes_nothing() {
    let table = RoutingTable::new(Vec::new());
    assert_eq!(table.route("/get"), Err(RouteNotFound));
    assert_eq!(table.match_index("/"), None);
}

#[test]
fn earlier_rule_wins_on_overlap() {
    let table = RoutingTable::new(vec![
        rule("/get", "http://a:1"),
        rule("/getx", "http://b:2"),
    ]);
    assert_eq!(table.route("/getx/1"), Ok("http://a:1".to_string()));
    assert_eq!(table.match_index("/getx/1"), Some(0));

    let reversed = RoutingTable::new(vec![
        rule("/getx", "http://b:2"),
        rule("/get", "http://a:1"),
    ]);
    assert_eq!(reversed.route("/getx/1"), Ok("http://b:2".to_string()));
    assert_eq!(reversed.route("/gety"), Ok("http://a:1".to_string()));
    assert_eq!(reversed.match_index("/gety"), Some(1));
}

#[test]
fn empty_prefix_matches_everything() {
    let table = RoutingTable::new(vec![rule("/api", "http://a:1"), rule("", "http://fallback:9")]);
    assert_eq!(table.route("/other"), Ok("http://fallback:9".to_string()));
    assert_eq!(table.route(""), Ok("http://fallback:9".to_string()));
}

#[test]
fn target_url_appends_path_and_query() {
    assert_eq!(
        target_url("http://localhost:8444", "/get/x", Some("a=1&b=%20")),
        "http://localhost:8444/get/x?a=1&b=%20"
    );
    assert_eq!(target_url("http://localhost:8445", "/put", None), "http://localhost:8445/put");
    assert_eq!(target_url("http://h:1", "/p", Some("")), "http://h:1/p?");
}

#[test]
fn target_url_keeps_non_ascii_verbatim() {
    assert_eq!(target_url("http://h:1", "/ui/é%2F", Some("q=ü")), "http://h:1/ui/é%2F?q=ü");
}
