use vstd::prelude::*;

verus! {

/// True when `prefix` is a literal prefix of `s`, character by character.
pub open spec fn is_prefix_of(prefix: Seq<char>, s: Seq<char>) -> bool {
    prefix.len() <= s.len() && s.subrange(0, prefix.len() as int) == prefix
}

/// A rule as seen by the contracts: its prefix and its target origin.
pub type RuleView = (Seq<char>, Seq<char>);

/// True when rule `i` of `rules` exists and its prefix matches `path`.
pub open spec fn rule_matches(rules: Seq<RuleView>, path: Seq<char>, i: int) -> bool {
    0 <= i < rules.len() && is_prefix_of(rules[i].0, path)
}

/// The index of the first rule at or after `start` whose prefix matches `path`.
pub open spec fn first_match_from(rules: Seq<RuleView>, path: Seq<char>, start: int) -> Option<int>
    decreases rules.len() - start,
{
    if start < 0 || start >= rules.len() {
        None
    } else if is_prefix_of(rules[start].0, path) {
        Some(start)
    } else {
        first_match_from(rules, path, start + 1)
    }
}

/// The index of the rule that handles `path`: the first one in table order
/// whose prefix matches.
pub open spec fn first_match(rules: Seq<RuleView>, path: Seq<char>) -> Option<int> {
    first_match_from(rules, path, 0)
}

/// The origin that handles `path`, if any rule matches it.
pub open spec fn route_of(rules: Seq<RuleView>, path: Seq<char>) -> Option<Seq<char>> {
    match first_match(rules, path) {
        Some(i) => Some(rules[i].1),
        None => None,
    }
}

proof fn lemma_first_match_from(rules: Seq<RuleView>, path: Seq<char>, start: int)
    requires
        0 <= start,
    ensures
        first_match_from(rules, path, start) matches Some(k) ==> {
            &&& start <= k < rules.len()
            &&& is_prefix_of(rules[k].0, path)
            &&& forall|j: int| start <= j < k ==> !is_prefix_of(#[trigger] rules[j].0, path)
        },
        first_match_from(rules, path, start) is None ==> forall|j: int|
            start <= j < rules.len() ==> !is_prefix_of(#[trigger] rules[j].0, path),
    decreases rules.len() - start,
{
    if start < rules.len() && !is_prefix_of(rules[start].0, path) {
        lemma_first_match_from(rules, path, start + 1);
    }
}

/// The rule that handles a path is the one of least index among those whose
/// prefix matches it; when none matches, no rule handles the path.
pub proof fn lemma_first_match(rules: Seq<RuleView>, path: Seq<char>)
    ensures
        first_match(rules, path) matches Some(k) ==> {
            &&& rule_matches(rules, path, k)
            &&& forall|j: int| 0 <= j < k ==> !rule_matches(rules, path, j)
        },
        first_match(rules, path) is None <==> forall|j: int|
            0 <= j < rules.len() ==> !rule_matches(rules, path, j),
{
    lemma_first_match_from(rules, path, 0);
    if let Some(k) = first_match(rules, path) {
        assert(rule_matches(rules, path, k));
    }
}

/// When two rules both match a path, the one listed earlier is preferred:
/// the rule that handles the path stands no later than the earlier of the two.
pub proof fn lemma_earlier_rule_wins(rules: Seq<RuleView>, path: Seq<char>, a: int, b: int)
    requires
        a < b,
        rule_matches(rules, path, a),
        rule_matches(rules, path, b),
    ensures
        first_match(rules, path) matches Some(k) && 0 <= k <= a,
        route_of(rules, path) is Some,
{
    lemma_first_match(rules, path);
}

/// One routing rule: requests whose path starts with `prefix` go to `origin`
/// (scheme, host and port, e.g. `http://localhost:8444`).
pub struct RouteRule {
    pub prefix: String,
    pub origin: String,
}

impl View for RouteRule {
    type V = RuleView;

    open spec fn view(&self) -> RuleView {
        (self.prefix@, self.origin@)
    }
}

/// No rule of the table matches the request path.
#[derive(Debug, PartialEq, Eq, Structural)]
pub struct RouteNotFound;

/// An ordered list of rules, evaluated first match wins. It is built once and
/// only read afterwards.
pub struct RoutingTable {
    pub rules: Vec<RouteRule>,
}

impl View for RoutingTable {
    type V = Seq<RuleView>;

    open spec fn view(&self) -> Seq<RuleView> {
        self.rules@.map_values(|r: RouteRule| r@)
    }
}

/// Decides whether `prefix` is a literal prefix of `s`.
pub fn starts_with(s: &str, prefix: &str) -> (r: bool)
    ensures
        r == is_prefix_of(prefix@, s@),
{
    let n = prefix.unicode_len();
    if n > s.unicode_len() {
        return false;
    }
    let mut i: usize = 0;
    while i < n
        invariant
            n == prefix@.len(),
            n <= s@.len(),
            i <= n,
            forall|k: int| 0 <= k < i ==> s@[k] == prefix@[k],
        decreases n - i,
    {
        if s.get_char(i) != prefix.get_char(i) {
            assert(s@.subrange(0, n as int)[i as int] != prefix@[i as int]);
            return false;
        }
        i = i + 1;
    }
    assert(s@.subrange(0, n as int) =~= prefix@);
    true
}

/// The reference configuration: `/get` and `/list` to port 8444, `/put` to
/// port 8445, `/ui` to port 3000, all on localhost.
pub open spec fn reference_rules() -> Seq<RuleView> {
    seq![
        ("/get"@, "http://localhost:8444"@),
        ("/list"@, "http://localhost:8444"@),
        ("/put"@, "http://localhost:8445"@),
        ("/ui"@, "http://localhost:3000"@),
    ]
}

/// A rule built from two string slices.
pub fn rule(prefix: &str, origin: &str) -> (r: RouteRule)
    ensures
        r@ == (prefix@, origin@),
{
    RouteRule { prefix: String::from_str(prefix), origin: String::from_str(origin) }
}

impl RoutingTable {
    /// The table of the reference configuration.
    pub fn reference() -> (t: RoutingTable)
        ensures
            t@ == reference_rules(),
    {
        let mut rules: Vec<RouteRule> = Vec::new();
        rules.push(rule("/get", "http://localhost:8444"));
        rules.push(rule("/list", "http://localhost:8444"));
        rules.push(rule("/put", "http://localhost:8445"));
        rules.push(rule("/ui", "http://localhost:3000"));
        let t = RoutingTable { rules };
        assert(t@ =~= reference_rules());
        t
    }

    /// A table holding `rules` in the given order.
    pub fn new(rules: Vec<RouteRule>) -> (t: RoutingTable)
        ensures
            t@ == rules@.map_values(|r: RouteRule| r@),
    {
        RoutingTable { rules }
    }

    /// The index of the rule that handles `path`: the first one, in table
    /// order, whose prefix is a literal prefix of `path`.
    pub fn match_index(&self, path: &str) -> (r: Option<usize>)
        ensures
            r matches Some(i) ==> first_match(self@, path@) == Some(i as int),
            r is None ==> first_match(self@, path@) is None,
    {
        let mut i: usize = 0;
        while i < self.rules.len()
            invariant
                i <= self.rules@.len(),
                first_match(self@, path@) == first_match_from(self@, path@, i as int),
            decreases self.rules@.len() - i,
        {
            if starts_with(path, self.rules[i].prefix.as_str()) {
                assert(self@[i as int] == self.rules@[i as int]@);
                return Some(i);
            }
            assert(self@[i as int] == self.rules@[i as int]@);
            i = i + 1;
        }
        None
    }

    /// The origin of the first rule whose prefix is a literal prefix of
    /// `path`, or `RouteNotFound` when no rule matches.
    pub fn route(&self, path: &str) -> (r: Result<String, RouteNotFound>)
        ensures
            r matches Ok(o) ==> route_of(self@, path@) == Some(o@),
            r is Err <==> route_of(self@, path@) is None,
    {
        proof {
            lemma_first_match(self@, path@);
        }
        match self.match_index(path) {
            Some(i) => {
                assert(self@[i as int] == self.rules@[i as int]@);
                Ok(self.rules[i].origin.clone())
            },
            None => Err(RouteNotFound),
        }
    }
}

} // verus!
