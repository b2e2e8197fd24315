//! Which headers pass from the client to the upstream, and from the upstream back.

use vstd::prelude::*;

use crate::strings;

verus! {

/// The declaration of `http::HeaderMap`.
#[verifier::external_type_specification]
#[verifier::external_body]
#[verifier::reject_recursive_types(T)]
pub struct ExHeaderMap<T>(axum::http::HeaderMap<T>);

/// The declaration of `http::HeaderValue`.
#[verifier::external_type_specification]
#[verifier::external_body]
pub struct ExHeaderValue(axum::http::HeaderValue);

/// The names and values that a `HeaderMap` holds, in the order in which it yields them.
pub uninterp spec fn headers_of(map: axum::http::HeaderMap) -> Seq<(Seq<char>, Seq<u8>)>;

/// One header line. The name is in lower case, as a `HeaderMap` has it.
pub struct Header {
    pub name: String,
    pub value: Vec<u8>,
}

impl View for Header {
    type V = (Seq<char>, Seq<u8>);

    open spec fn view(&self) -> (Seq<char>, Seq<u8>) {
        (self.name@, self.value@)
    }
}

/// What each of a row of headers says.
pub open spec fn lines_of(headers: Seq<Header>) -> Seq<(Seq<char>, Seq<u8>)> {
    headers.map_values(|header: Header| header@)
}

/// `http::HeaderMap::iter`: each name once for each value that it has.
#[verifier::external_body]
fn entries(map: &axum::http::HeaderMap) -> (headers: Vec<Header>)
    ensures
        lines_of(headers@) == headers_of(*map),
{
    map.iter()
        .map(
            |(name, value)| Header {
                name: name.as_str().to_string(),
                value: value.as_bytes().to_vec(),
            },
        )
        .collect()
}

/// The headers that a client's request takes along to the upstream.
pub open spec fn goes_upstream(name: Seq<char>) -> bool {
    ||| name == "authorization"@
    ||| name == "content-type"@
    ||| name == "user-agent"@
    ||| name == "accept"@
    ||| "x-"@.is_prefix_of(name)
}

/// The headers of the upstream's reply that do not fit the reply to the client, whose body
/// may have another length and is framed anew.
pub open spec fn stays_upstream(name: Seq<char>) -> bool {
    ||| name == "transfer-encoding"@
    ||| name == "content-encoding"@
    ||| name == "content-length"@
}

/// Of a request's headers, those that go to the upstream, in their order.
pub open spec fn request_lines(lines: Seq<(Seq<char>, Seq<u8>)>) -> Seq<(Seq<char>, Seq<u8>)> {
    lines.filter(|line: (Seq<char>, Seq<u8>)| goes_upstream(line.0))
}

/// Of the upstream's headers, those that go to the client, in their order.
pub open spec fn reply_lines(lines: Seq<(Seq<char>, Seq<u8>)>) -> Seq<(Seq<char>, Seq<u8>)> {
    lines.filter(|line: (Seq<char>, Seq<u8>)| !stays_upstream(line.0))
}

/// Does a header of this name go to the upstream?
pub fn forwards_to_upstream(name: &str) -> (forwards: bool)
    ensures
        forwards == goes_upstream(name@),
{
    if *name == *"host" || *name == *"content-length" || *name == *"connection" {
        proof {
            lemma_own_headers_stay(name@);
        }
        return false;
    }
    *name == *"authorization" || *name == *"content-type" || *name == *"user-agent" || *name
        == *"accept" || strings::strip_prefix(name, "x-").is_some()
}

/// The headers of the proxy's own connection are none of those that go to the upstream.
pub(crate) proof fn lemma_own_headers_stay(name: Seq<char>)
    requires
        name == "host"@ || name == "content-length"@ || name == "connection"@,
    ensures
        !goes_upstream(name),
{
    reveal_strlit("host");
    reveal_strlit("content-length");
    reveal_strlit("connection");
    reveal_strlit("authorization");
    reveal_strlit("content-type");
    reveal_strlit("user-agent");
    reveal_strlit("accept");
    reveal_strlit("x-");
    assert("host"@[0] == 'h' && "content-length"@.len() == 14 && "connection"@.len() == 10);
    assert("content-length"@[0] == 'c' && "connection"@[0] == 'c');
    assert("authorization"@[0] == 'a' && "content-type"@[0] == 'c' && "user-agent"@[0] == 'u');
    assert("accept"@[0] == 'a' && "content-type"@.len() == 12 && "x-"@[0] == 'x');
    if "x-"@.is_prefix_of(name) {
        assert(name.subrange(0, "x-"@.len() as int)[0] == name[0]);
    }
}

/// Does a header of this name go to the client?
pub fn forwards_to_client(name: &str) -> (forwards: bool)
    ensures
        forwards == !stays_upstream(name@),
{
    !(*name == *"transfer-encoding" || *name == *"content-encoding" || *name == *"content-length")
}

impl Header {
    /// The same header line once more.
    fn copied(&self) -> (header: Header)
        ensures
            header@ == self@,
    {
        let value = self.value.clone();
        assert(value@ =~= self.value@);
        Header { name: self.name.clone(), value }
    }
}

/// Of no headers, none are kept.
proof fn lemma_select_none(
    headers: Seq<Header>,
    selected: Seq<Header>,
    keep: spec_fn((Seq<char>, Seq<u8>)) -> bool,
)
    requires
        selected.len() == 0,
    ensures
        lines_of(selected) == lines_of(headers).take(0).filter(keep),
{
    reveal(Seq::filter);
    assert(lines_of(selected) =~= lines_of(headers).take(0).filter(keep));
}

/// One more header is kept or passed over.
proof fn lemma_select_one(
    headers: Seq<Header>,
    i: int,
    before: Seq<Header>,
    after: Seq<Header>,
    keep: spec_fn((Seq<char>, Seq<u8>)) -> bool,
)
    requires
        0 <= i < headers.len(),
        lines_of(before) == lines_of(headers).take(i).filter(keep),
        keep(headers[i]@) ==> after =~= before.push(after.last()) && after.last()@ == headers[i]@,
        !keep(headers[i]@) ==> after == before,
    ensures
        lines_of(after) == lines_of(headers).take(i + 1).filter(keep),
{
    reveal(Seq::filter);
    let lines = lines_of(headers);
    assert(lines.take(i + 1).drop_last() =~= lines.take(i));
    if keep(headers[i]@) {
        assert(lines_of(after) =~= lines_of(before).push(headers[i]@));
    }
}

/// The headers that pass in one of the two directions, in their order.
fn select(headers: &Vec<Header>, to_upstream: bool) -> (selected: Vec<Header>)
    ensures
        lines_of(selected@) == if to_upstream {
            request_lines(lines_of(headers@))
        } else {
            reply_lines(lines_of(headers@))
        },
{
    let mut selected: Vec<Header> = Vec::new();
    let ghost keep = if to_upstream {
        |line: (Seq<char>, Seq<u8>)| goes_upstream(line.0)
    } else {
        |line: (Seq<char>, Seq<u8>)| !stays_upstream(line.0)
    };
    proof {
        lemma_select_none(headers@, selected@, keep);
    }
    let mut i: usize = 0;
    while i < headers.len()
        invariant
            i <= headers.len(),
            forall|line: (Seq<char>, Seq<u8>)| #[trigger]
                keep(line) == if to_upstream {
                    goes_upstream(line.0)
                } else {
                    !stays_upstream(line.0)
                },
            lines_of(selected@) == lines_of(headers@).take(i as int).filter(keep),
        decreases headers.len() - i,
    {
        let ghost before = selected@;
        let name = headers[i].name.as_str();
        let keeps = if to_upstream {
            forwards_to_upstream(name)
        } else {
            forwards_to_client(name)
        };
        if keeps {
            selected.push(headers[i].copied());
        }
        proof {
            lemma_select_one(headers@, i as int, before, selected@, keep);
        }
        i = i + 1;
    }
    proof {
        assert(lines_of(headers@).take(headers.len() as int) =~= lines_of(headers@));
    }
    selected
}

/// Of a request's headers, those that go to the upstream, in their order.
pub fn select_for_upstream(headers: &Vec<Header>) -> (selected: Vec<Header>)
    ensures
        lines_of(selected@) == request_lines(lines_of(headers@)),
{
    select(headers, true)
}

/// Of the upstream's headers, those that go to the client, in their order.
pub fn select_for_client(headers: &Vec<Header>) -> (selected: Vec<Header>)
    ensures
        lines_of(selected@) == reply_lines(lines_of(headers@)),
{
    select(headers, false)
}

/// The headers of a client's request that go to the upstream.
pub fn prepare_upstream_headers(headers: &axum::http::HeaderMap) -> (selected: Vec<Header>)
    ensures
        lines_of(selected@) == request_lines(headers_of(*headers)),
{
    select_for_upstream(&entries(headers))
}

/// The headers of the upstream's reply that go to the client.
pub fn copy_response_headers(headers: &axum::http::HeaderMap) -> (selected: Vec<Header>)
    ensures
        lines_of(selected@) == reply_lines(headers_of(*headers)),
{
    select_for_client(&entries(headers))
}

} // verus!
