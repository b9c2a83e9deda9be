use vstd::prelude::*;

verus! {

/// One header line: its name and its raw value bytes.
pub struct Header {
    pub name: String,
    pub value: Vec<u8>,
}

/// A header as seen by the contracts: name characters and value bytes.
pub type HeaderView = (Seq<char>, Seq<u8>);

impl View for Header {
    type V = HeaderView;

    open spec fn view(&self) -> HeaderView {
        (self.name@, self.value@)
    }
}

/// The views of a list of headers, in order.
pub open spec fn headers_view(hs: Seq<Header>) -> Seq<HeaderView> {
    hs.map_values(|h: Header| h@)
}

/// The code of `c` with ASCII upper-case letters mapped to lower case.
pub open spec fn ascii_lower_code(c: char) -> u32 {
    if 65 <= (c as u32) && (c as u32) <= 90 {
        ((c as u32) + 32) as u32
    } else {
        c as u32
    }
}

/// The name of the hop-by-hop `Connection` header, in lower case.
pub open spec fn connection_name() -> Seq<char> {
    seq!['c', 'o', 'n', 'n', 'e', 'c', 't', 'i', 'o', 'n']
}

/// True when `name` is `Connection`, compared without regard to ASCII case.
pub open spec fn is_connection_name(name: Seq<char>) -> bool {
    &&& name.len() == connection_name().len()
    &&& forall|i: int|
        0 <= i < name.len() ==> ascii_lower_code(#[trigger] name[i]) == connection_name()[i] as u32
}

/// True when a header may be relayed to the client.
pub open spec fn is_end_to_end(h: HeaderView) -> bool {
    !is_connection_name(h.0)
}

/// The headers that reach the client: every one but `Connection`, in order,
/// duplicates kept.
pub open spec fn relayed(hs: Seq<HeaderView>) -> Seq<HeaderView> {
    hs.filter(|h: HeaderView| is_end_to_end(h))
}

/// No header that reaches the client is `Connection`, and a header list
/// without one reaches the client whole, in its order, duplicates included.
pub proof fn lemma_relayed(hs: Seq<HeaderView>)
    ensures
        forall|i: int|
            0 <= i < relayed(hs).len() ==> !is_connection_name(#[trigger] relayed(hs)[i].0),
        (forall|i: int| 0 <= i < hs.len() ==> !is_connection_name(#[trigger] hs[i].0))
            ==> relayed(hs) == hs,
    decreases hs.len(),
{
    broadcast use vstd::seq_lib::group_filter_ensures;

    if hs.len() > 0 {
        lemma_relayed(hs.drop_last());
        reveal(Seq::filter);
        if forall|i: int| 0 <= i < hs.len() ==> !is_connection_name(#[trigger] hs[i].0) {
            assert(forall|i: int|
                0 <= i < hs.drop_last().len() ==> !is_connection_name(
                    #[trigger] hs.drop_last()[i].0,
                )) by {
                assert(forall|i: int| 0 <= i < hs.drop_last().len() ==> hs.drop_last()[i] == hs[i]);
            }
            assert(!is_connection_name(hs.last().0));
            assert(hs.drop_last().push(hs.last()) =~= hs);
        }
    }
}

fn ascii_lower(c: char) -> (r: u32)
    ensures
        r == ascii_lower_code(c),
{
    let code = c as u32;
    if 65 <= code && code <= 90 {
        code + 32
    } else {
        code
    }
}

/// Decides whether `name` is `Connection`, ignoring ASCII case.
pub fn is_connection(name: &str) -> (r: bool)
    ensures
        r == is_connection_name(name@),
{
    let target = "connection";
    proof {
        reveal_strlit("connection");
        assert(target@ =~= connection_name());
    }
    let n = target.unicode_len();
    if name.unicode_len() != n {
        return false;
    }
    let mut i: usize = 0;
    while i < n
        invariant
            n == connection_name().len(),
            name@.len() == n,
            target@ == connection_name(),
            i <= n,
            forall|k: int| 0 <= k < i ==> ascii_lower_code(#[trigger] name@[k]) == connection_name()[k] as u32,
        decreases n - i,
    {
        if ascii_lower(name.get_char(i)) != target.get_char(i) as u32 {
            return false;
        }
        i = i + 1;
    }
    true
}

/// The headers of a backend response that may be relayed to the client:
/// every header but `Connection` (any ASCII case), with the others and
/// their duplicates kept in their original order.
pub fn filter_hop_by_hop(headers: &Vec<Header>) -> (r: Vec<Header>)
    ensures
        headers_view(r@) == relayed(headers_view(headers@)),
{
    let ghost hv = headers_view(headers@);
    let mut out: Vec<Header> = Vec::new();
    let mut i: usize = 0;
    while i < headers.len()
        invariant
            i <= headers@.len(),
            hv == headers_view(headers@),
            headers_view(out@) == relayed(hv.subrange(0, i as int)),
        decreases headers@.len() - i,
    {
        let ghost before = out@;
        proof {
            let prefix = hv.subrange(0, i as int + 1);
            assert(prefix.drop_last() =~= hv.subrange(0, i as int));
            assert(prefix.last() == headers@[i as int]@);
            reveal(Seq::filter);
        }
        if !is_connection(headers[i].name.as_str()) {
            out.push(headers[i].duplicate());
            assert(headers_view(out@) =~= headers_view(before).push(headers@[i as int]@));
        }
        i = i + 1;
    }
    assert(hv.subrange(0, headers@.len() as int) =~= hv);
    out
}

impl Header {
    /// A header with the given name and value.
    pub fn new(name: String, value: Vec<u8>) -> (h: Header)
        ensures
            h@ == (name@, value@),
    {
        Header { name, value }
    }

    /// A copy of this header, with the same name and value.
    pub fn duplicate(&self) -> (h: Header)
        ensures
            h@ == self@,
    {
        let value = self.value.clone();
        assert(value@ =~= self.value@);
        Header { name: self.name.clone(), value }
    }
}

} // verus!
