use vstd::prelude::*;
use vstd::string::*;

use crate::headers::{filter_hop_by_hop, headers_view, relayed, Header, HeaderView};
use crate::router::{
    first_match_from, is_prefix_of, lemma_earlier_rule_wins, reference_rules, route_of,
    RoutingTable, RuleView,
};

verus! {

/// The query string as the contracts see it.
pub open spec fn query_view(query: Option<&str>) -> Option<Seq<char>> {
    match query {
        Some(q) => Some(q@),
        None => None,
    }
}

/// The outbound target: origin, then the path, then `?` and the query when
/// there is one, all copied verbatim.
pub open spec fn target_url_of(origin: Seq<char>, path: Seq<char>, query: Option<Seq<char>>) -> Seq<
    char,
> {
    match query {
        Some(q) => origin + path + "?"@ + q,
        None => origin + path,
    }
}

/// Builds the URL of the outbound request from the selected origin and the
/// inbound path and query, without re-encoding anything.
pub fn target_url(origin: &str, path: &str, query: Option<&str>) -> (r: String)
    ensures
        r@ == target_url_of(origin@, path@, query_view(query)),
{
    let mut url = String::from_str(origin);
    url.append(path);
    match query {
        Some(q) => {
            url.append("?");
            url.append(q);
        },
        None => {},
    }
    url
}

/// Status and headers of a response to the client.
pub struct ResponseHead {
    pub status: u16,
    pub headers: Vec<Header>,
}

/// A response head as seen by the contracts.
pub type ResponseHeadView = (u16, Seq<HeaderView>);

impl View for ResponseHead {
    type V = ResponseHeadView;

    open spec fn view(&self) -> ResponseHeadView {
        (self.status, headers_view(self.headers@))
    }
}

/// Why a request could not be relayed to its backend. Each kind is answered
/// with a server error; none is retried.
#[derive(Debug, Clone, Copy, PartialEq, Eq, Structural)]
pub enum ForwardError {
    /// Connecting to the backend took too long.
    ConnectTimeout,
    /// The backend could not be reached (refused, unknown host, TLS failure).
    Unreachable,
    /// The request could not be sent or the response head could not be read.
    Failed,
}

/// What to do with an inbound request.
pub enum Decision {
    /// Answer at once with this head and an empty body.
    Reply(ResponseHead),
    /// Send the request, with its method, headers and body unchanged, to this
    /// URL.
    Forward(String),
}

/// A decision as seen by the contracts.
pub enum DecisionView {
    Reply(ResponseHeadView),
    Forward(Seq<char>),
}

impl View for Decision {
    type V = DecisionView;

    open spec fn view(&self) -> DecisionView {
        match self {
            Decision::Reply(h) => DecisionView::Reply(h@),
            Decision::Forward(u) => DecisionView::Forward(u@),
        }
    }
}

/// The redirect that answers `GET /`.
pub open spec fn redirect_head() -> ResponseHeadView {
    (302, seq![("Location"@, "/index.html".spec_bytes())])
}

/// The answer to a request whose path matches no rule.
pub open spec fn not_found_head() -> ResponseHeadView {
    (400, seq![("Cache-Control"@, "public, max-age=86400".spec_bytes())])
}

/// True for the fixed route `GET /`, which never reaches the table.
pub open spec fn is_root_get(method: Seq<char>, path: Seq<char>) -> bool {
    method == "GET"@ && path == "/"@
}

/// The decision for a request with this method, path and query.
pub open spec fn decision_of(
    rules: Seq<RuleView>,
    method: Seq<char>,
    path: Seq<char>,
    query: Option<Seq<char>>,
) -> DecisionView {
    if is_root_get(method, path) {
        DecisionView::Reply(redirect_head())
    } else {
        match route_of(rules, path) {
            Some(origin) => DecisionView::Forward(target_url_of(origin, path, query)),
            None => DecisionView::Reply(not_found_head()),
        }
    }
}

/// The status that answers a failed relay: 504 when connecting timed out,
/// 502 when the backend could not be reached, 500 otherwise.
pub open spec fn failure_status(e: ForwardError) -> u16 {
    match e {
        ForwardError::ConnectTimeout => 504,
        ForwardError::Unreachable => 502,
        ForwardError::Failed => 500,
    }
}

/// The head sent to the client once the backend has answered, or failed to.
pub open spec fn client_head_of(backend: Result<ResponseHeadView, ForwardError>) -> ResponseHeadView {
    match backend {
        Ok(h) => (h.0, relayed(h.1)),
        Err(e) => (failure_status(e), Seq::empty()),
    }
}

/// Under the reference configuration, a path that starts with `/get` or
/// `/list` is sent to `http://localhost:8444`, one that starts with `/put` to
/// `http://localhost:8445` and one that starts with `/ui` to
/// `http://localhost:3000`, each with its path and query unchanged.
pub proof fn lemma_reference_targets(method: Seq<char>, path: Seq<char>, query: Option<Seq<char>>)
    ensures
        is_prefix_of("/get"@, path) || is_prefix_of("/list"@, path) ==> decision_of(
            reference_rules(),
            method,
            path,
            query,
        ) == DecisionView::Forward(target_url_of("http://localhost:8444"@, path, query)),
        is_prefix_of("/put"@, path) ==> decision_of(reference_rules(), method, path, query)
            == DecisionView::Forward(target_url_of("http://localhost:8445"@, path, query)),
        is_prefix_of("/ui"@, path) ==> decision_of(reference_rules(), method, path, query)
            == DecisionView::Forward(target_url_of("http://localhost:3000"@, path, query)),
{
    reveal_strlit("/get");
    reveal_strlit("/list");
    reveal_strlit("/put");
    reveal_strlit("/ui");
    reveal_strlit("/");
    reveal_with_fuel(first_match_from, 5);
    let rules = reference_rules();
    if path.len() >= 2 {
        let c = path[1];
        assert(is_prefix_of("/get"@, path) ==> c == 'g') by {
            if is_prefix_of("/get"@, path) {
                assert(path.subrange(0, 4)[1] == c);
            }
        }
        assert(is_prefix_of("/list"@, path) ==> c == 'l') by {
            if is_prefix_of("/list"@, path) {
                assert(path.subrange(0, 5)[1] == c);
            }
        }
        assert(is_prefix_of("/put"@, path) ==> c == 'p') by {
            if is_prefix_of("/put"@, path) {
                assert(path.subrange(0, 4)[1] == c);
            }
        }
        assert(is_prefix_of("/ui"@, path) ==> c == 'u') by {
            if is_prefix_of("/ui"@, path) {
                assert(path.subrange(0, 3)[1] == c);
            }
        }
        assert(!is_root_get(method, path));
    }
}

/// Whatever the table holds, `GET /` is answered with a redirect to
/// `/index.html`.
pub proof fn lemma_root_redirect(rules: Seq<RuleView>, query: Option<Seq<char>>)
    ensures
        decision_of(rules, "GET"@, "/"@, query) == DecisionView::Reply(redirect_head()),
{
}

/// Of two matching rules the earlier one decides where a request goes: the
/// request is forwarded, never to a rule listed after both.
pub proof fn lemma_earlier_rule_decides(
    rules: Seq<RuleView>,
    method: Seq<char>,
    path: Seq<char>,
    query: Option<Seq<char>>,
    a: int,
    b: int,
)
    requires
        a < b,
        0 <= a,
        b < rules.len(),
        is_prefix_of(rules[a].0, path),
        is_prefix_of(rules[b].0, path),
        !is_root_get(method, path),
    ensures
        exists|k: int|
            0 <= k <= a && decision_of(rules, method, path, query) == DecisionView::Forward(
                target_url_of(#[trigger] rules[k].1, path, query),
            ),
{
    lemma_earlier_rule_wins(rules, path, a, b);
    let k = crate::router::first_match(rules, path)->Some_0;
    assert(decision_of(rules, method, path, query) == DecisionView::Forward(
        target_url_of(rules[k].1, path, query),
    ));
}

/// A relay that fails, for whatever reason, is answered with a server error
/// (a status from 500 to 599) and no headers.
pub proof fn lemma_failure_is_server_error(e: ForwardError)
    ensures
        500 <= client_head_of(Err(e)).0 <= 599,
        client_head_of(Err(e)).1.len() == 0,
{
}

/// Decides whether two strings hold the same characters.
pub fn same_text(a: &str, b: &str) -> (r: bool)
    ensures
        r == (a@ == b@),
{
    let n = a.unicode_len();
    if n != b.unicode_len() {
        return false;
    }
    let mut i: usize = 0;
    while i < n
        invariant
            n == a@.len(),
            n == b@.len(),
            i <= n,
            forall|k: int| 0 <= k < i ==> a@[k] == b@[k],
        decreases n - i,
    {
        if a.get_char(i) != b.get_char(i) {
            return false;
        }
        i = i + 1;
    }
    assert(a@ =~= b@);
    true
}

fn fixed_head(status: u16, name: &str, value: &str) -> (r: ResponseHead)
    ensures
        r@ == (status, seq![(name@, value.spec_bytes())]),
{
    let mut headers: Vec<Header> = Vec::new();
    headers.push(Header::new(String::from_str(name), value.as_bytes_vec()));
    let r = ResponseHead { status, headers };
    assert(r@.1 =~= seq![(name@, value.spec_bytes())]);
    r
}

/// Decides what happens to an inbound request: `GET /` is redirected to
/// `/index.html`; otherwise the routing table picks the backend, and a path
/// that no rule matches is answered with 400 and a day-long `Cache-Control`.
pub fn decide(table: &RoutingTable, method: &str, path: &str, query: Option<&str>) -> (d: Decision)
    ensures
        d@ == decision_of(table@, method@, path@, query_view(query)),
{
    if same_text(method, "GET") && same_text(path, "/") {
        return Decision::Reply(fixed_head(302, "Location", "/index.html"));
    }
    match table.route(path) {
        Ok(origin) => Decision::Forward(target_url(origin.as_str(), path, query)),
        Err(_) => Decision::Reply(fixed_head(400, "Cache-Control", "public, max-age=86400")),
    }
}

/// The head of the client-facing response: the backend's status with its
/// headers stripped of `Connection`, or a server error with no headers when
/// the backend could not be reached or read.
pub fn client_head(backend: Result<ResponseHead, ForwardError>) -> (r: ResponseHead)
    ensures
        r@ == client_head_of(match backend {
            Ok(h) => Ok(h@),
            Err(e) => Err(e),
        }),
{
    match backend {
        Ok(h) => ResponseHead { status: h.status, headers: filter_hop_by_hop(&h.headers) },
        Err(e) => {
            let status: u16 = match e {
                ForwardError::ConnectTimeout => 504,
                ForwardError::Unreachable => 502,
                ForwardError::Failed => 500,
            };
            let r = ResponseHead { status, headers: Vec::new() };
            assert(r@.1 =~= Seq::<HeaderView>::empty());
            r
        },
    }
}

} // verus!
