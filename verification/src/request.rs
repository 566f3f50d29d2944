//! The request as a handler sees it: method, path, headers, query parameters
//! and the address of the peer.
//!
//! The query string is what follows the first `?` of the path. It is cut at
//! each `&`, and each piece at its first `=` into a name and a value; a piece
//! without `=` is dropped. Nothing is percent-decoded. Where a name comes
//! again, the later value replaces the earlier one.

use crate::assoc::{
    as_map, assoc_collect, assoc_insert, distinct_keys, last_wins, lemma_collect_last_wins,
    lemma_key_index_is, lemma_key_index_none,
};
use crate::datum::{Datum, DatumView};
use crate::text::{chars_of, find_between, first_index_of, split_on, text_between};
use vstd::prelude::*;

verus! {

/// The views of a list of pairs of strings.
pub open spec fn pair_views(pairs: Seq<(String, String)>) -> Seq<(Seq<char>, Seq<char>)> {
    Seq::new(pairs.len(), |i: int| (pairs[i].0@, pairs[i].1@))
}

/// The query string of `url`: what follows its first `?`, or nothing.
pub open spec fn query_string(url: Seq<char>) -> Seq<char> {
    if first_index_of(url, '?') < 0 {
        Seq::empty()
    } else {
        url.skip(first_index_of(url, '?') + 1)
    }
}

/// The name and the value of one piece of a query string, cut at its first
/// `=`; `None` for a piece without `=`.
pub open spec fn query_pair(piece: Seq<char>) -> Option<(Seq<char>, Seq<char>)> {
    if first_index_of(piece, '=') < 0 {
        None
    } else {
        Some((piece.take(first_index_of(piece, '=')), piece.skip(first_index_of(piece, '=') + 1)))
    }
}

/// The pairs of the pieces that have one, in order.
pub open spec fn query_pairs(pieces: Seq<Seq<char>>) -> Seq<(Seq<char>, Seq<char>)>
    decreases pieces.len(),
{
    if pieces.len() == 0 {
        Seq::empty()
    } else {
        match query_pair(pieces.last()) {
            Some(pair) => query_pairs(pieces.drop_last()).push(pair),
            None => query_pairs(pieces.drop_last()),
        }
    }
}

/// The query parameters of `url`: each name once, at the place where it came
/// first, with the value that came last.
pub open spec fn query_of(url: Seq<char>) -> Seq<(Seq<char>, Seq<char>)> {
    assoc_collect(query_pairs(split_on(query_string(url), '&')))
}

/// The query parameters name each parameter once, and give each name the
/// value of the last piece of the query string that has that name.
pub proof fn lemma_query_last_wins(url: Seq<char>)
    ensures
        distinct_keys(query_of(url)),
        as_map(query_of(url)) == last_wins(query_pairs(split_on(query_string(url), '&'))),
{
    lemma_collect_last_wins(query_pairs(split_on(query_string(url), '&')));
}

/// Gives `key` the value `value` in `entries`.
fn put(entries: &mut Vec<(String, String)>, key: String, value: String)
    ensures
        pair_views(final(entries)@) == assoc_insert(pair_views(old(entries)@), key@, value@),
{
    let ghost before = pair_views(entries@);
    let mut i: usize = 0;
    while i < entries.len()
        invariant
            i <= entries.len(),
            entries@ == old(entries)@,
            before == pair_views(entries@),
            forall|j: int| 0 <= j < i ==> (#[trigger] before[j]).0 != key@,
        decreases entries.len() - i,
    {
        if entries[i].0 == key {
            proof {
                assert(before[i as int].0 == key@);
                lemma_key_index_is(before, key@, i as int);
            }
            let ghost k = key@;
            let ghost v = value@;
            entries.set(i, (key, value));
            proof {
                assert(pair_views(entries@) =~= before.update(i as int, (k, v)));
            }
            return ;
        }
        i = i + 1;
    }
    proof {
        lemma_key_index_none(before, key@);
    }
    let ghost k = key@;
    let ghost v = value@;
    entries.push((key, value));
    proof {
        assert(pair_views(entries@) =~= before.push((k, v)));
    }
}

/// The query parameters of `url`.
pub fn parse_query(url: &str) -> (query: Vec<(String, String)>)
    ensures
        pair_views(query@) == query_of(url@),
{
    let chars = chars_of(url);
    let n = chars.len();
    let mut query: Vec<(String, String)> = Vec::new();
    proof {
        assert(chars@.subrange(0, n as int) =~= url@);
        assert(pair_views(query@) =~= Seq::empty());
    }
    let start: usize = match find_between(&chars, 0, n, '?') {
        Some(mark) => mark + 1,
        None => {
            proof {
                let pieces = split_on(Seq::<char>::empty(), '&');
                assert(pieces =~= seq![Seq::<char>::empty()]);
                assert(pieces.drop_last() =~= Seq::empty());
                assert(query_pairs(pieces.drop_last()) =~= Seq::empty());
                assert(query_pair(pieces.last()) is None);
                assert(query_pairs(pieces) =~= Seq::empty());
            }
            return query;
        },
    };
    let ghost whole = chars@.skip(start as int);
    let ghost mut done: Seq<Seq<char>> = Seq::empty();
    let mut pos: usize = start;
    assert(split_on(whole, '&') =~= done + split_on(chars@.skip(pos as int), '&'));
    loop
        invariant_except_break
            start <= pos <= n,
            split_on(whole, '&') == done + split_on(chars@.skip(pos as int), '&'),
            pair_views(query@) == assoc_collect(query_pairs(done)),
        invariant
            n == chars.len(),
        ensures
            pair_views(query@) == assoc_collect(query_pairs(split_on(whole, '&'))),
        decreases n - pos,
    {
        let ghost rest = chars@.skip(pos as int);
        proof {
            assert(chars@.subrange(pos as int, n as int) =~= rest);
        }
        let next = find_between(&chars, pos, n, '&');
        let end: usize = match next {
            Some(k) => k,
            None => n,
        };
        let ghost piece = chars@.subrange(pos as int, end as int);
        let ghost grown = done.push(piece);
        proof {
            assert(grown.drop_last() =~= done);
            assert(grown.last() == piece);
        }
        match find_between(&chars, pos, end, '=') {
            Some(eq) => {
                let key = text_between(&chars, pos, eq);
                let value = text_between(&chars, eq + 1, end);
                let ghost pair = (key@, value@);
                proof {
                    assert(piece.take(eq - pos) =~= key@);
                    assert(piece.skip(eq - pos + 1) =~= value@);
                    assert(query_pair(piece) == Some(pair));
                    assert(query_pairs(grown) == query_pairs(done).push(pair));
                    assert(query_pairs(grown).drop_last() =~= query_pairs(done));
                    assert(query_pairs(grown).last() == pair);
                }
                put(&mut query, key, value);
            },
            None => {
                proof {
                    assert(query_pair(piece) is None);
                    assert(query_pairs(grown) == query_pairs(done));
                }
            },
        }
        proof {
            if next is Some {
                assert(rest.take(end - pos) =~= piece);
                assert(rest.skip(end - pos + 1) =~= chars@.skip(end + 1));
                assert(done + split_on(rest, '&') =~= grown + split_on(chars@.skip(end + 1), '&'));
            } else {
                assert(rest =~= piece);
                assert(done + split_on(rest, '&') =~= grown);
            }
            done = grown;
        }
        if next.is_none() {
            break ;
        }
        pos = end + 1;
    }
    query
}

/// One request, as it was received. It does not change once made, and its
/// query parameters are always those that its path spells.
#[derive(Debug, PartialEq, Eq)]
pub struct IncomingRequest {
    method: String,
    path: String,
    headers: Vec<(String, String)>,
    query: Vec<(String, String)>,
    remote_addr: Option<String>,
}

/// The mathematical value of an [`IncomingRequest`].
pub struct IncomingRequestView {
    /// The request method, as received.
    pub method: Seq<char>,
    /// The request target: the path and, if there is one, the query string.
    pub path: Seq<char>,
    /// The header fields in the order received; a name may come more than once.
    pub headers: Seq<(Seq<char>, Seq<char>)>,
    /// The query parameters, each name once.
    pub query: Seq<(Seq<char>, Seq<char>)>,
    /// The address of the peer; none on a Unix socket.
    pub remote_addr: Option<Seq<char>>,
}

/// The view of an optional string.
pub open spec fn option_view(text: Option<String>) -> Option<Seq<char>> {
    match text {
        Some(t) => Some(t@),
        None => None,
    }
}

impl View for IncomingRequest {
    type V = IncomingRequestView;

    closed spec fn view(&self) -> IncomingRequestView {
        IncomingRequestView {
            method: self.method@,
            path: self.path@,
            headers: pair_views(self.headers@),
            query: pair_views(self.query@),
            remote_addr: option_view(self.remote_addr),
        }
    }
}

impl IncomingRequest {
    #[verifier::type_invariant]
    spec fn query_matches_path(self) -> bool {
        pair_views(self.query@) == query_of(self.path@)
    }

    /// A request with the given method, path, header fields and peer address.
    /// The query parameters are read from the path.
    pub fn new(
        method: String,
        path: String,
        headers: Vec<(String, String)>,
        remote_addr: Option<String>,
    ) -> (request: IncomingRequest)
        ensures
            request@ == (IncomingRequestView {
                method: method@,
                path: path@,
                headers: pair_views(headers@),
                query: query_of(path@),
                remote_addr: option_view(remote_addr),
            }),
    {
        let query = parse_query(path.as_str());
        IncomingRequest { method, path, headers, query, remote_addr }
    }

    /// The request method.
    pub fn method(&self) -> (method: &String)
        ensures
            method@ == self@.method,
    {
        &self.method
    }

    /// The request target: the path and, if there is one, the query string.
    pub fn path(&self) -> (path: &String)
        ensures
            path@ == self@.path,
    {
        &self.path
    }

    /// The header fields, in the order received.
    pub fn headers(&self) -> (headers: &Vec<(String, String)>)
        ensures
            pair_views(headers@) == self@.headers,
    {
        &self.headers
    }

    /// The query parameters, each name once.
    pub fn query(&self) -> (query: &Vec<(String, String)>)
        ensures
            pair_views(query@) == self@.query,
            self@.query == query_of(self@.path),
    {
        proof {
            use_type_invariant(self);
        }
        &self.query
    }

    /// The address of the peer; none on a Unix socket.
    pub fn remote_addr(&self) -> (remote_addr: &Option<String>)
        ensures
            option_view(*remote_addr) == self@.remote_addr,
    {
        &self.remote_addr
    }
}

/// The fields of a record whose values are the texts of `pairs`, in order.
pub open spec fn text_fields(pairs: Seq<(Seq<char>, Seq<char>)>) -> Seq<(Seq<char>, DatumView)> {
    Seq::new(pairs.len(), |i: int| (pairs[i].0, DatumView::Text(pairs[i].1)))
}

/// The fields of the record that stands for a request, but for the peer address.
pub open spec fn request_fields(r: IncomingRequestView) -> Seq<(Seq<char>, DatumView)> {
    seq![
        ("method"@, DatumView::Text(r.method)),
        ("path"@, DatumView::Text(r.path)),
        ("headers"@, DatumView::Record(text_fields(r.headers))),
        ("query"@, DatumView::Record(text_fields(r.query))),
    ]
}

/// The record that stands for a request: `method`, `path`, `headers` and
/// `query`, and `remote_addr` where the peer address is known.
pub open spec fn request_record(r: IncomingRequestView) -> DatumView {
    match r.remote_addr {
        Some(addr) => DatumView::Record(
            request_fields(r).push(("remote_addr"@, DatumView::Text(addr))),
        ),
        None => DatumView::Record(request_fields(r)),
    }
}

/// The record whose fields are the texts of `pairs`, in order.
fn text_record(pairs: &Vec<(String, String)>) -> (record: Datum)
    ensures
        record@ == DatumView::Record(text_fields(pair_views(pairs@))),
{
    let mut fields: Vec<(String, Datum)> = Vec::new();
    let mut i: usize = 0;
    while i < pairs.len()
        invariant
            i <= pairs.len(),
            fields@.len() == i,
            forall|k: int|
                0 <= k < i ==> (#[trigger] fields@[k]).0@ == pairs@[k].0@ && fields@[k].1@
                    == DatumView::Text(pairs@[k].1@),
        decreases pairs.len() - i,
    {
        fields.push((pairs[i].0.clone(), Datum::Text(pairs[i].1.clone())));
        i = i + 1;
    }
    let record = Datum::Record(fields);
    proof {
        assert(record@->Record_0 =~= text_fields(pair_views(pairs@)));
    }
    record
}

/// The structured value that a handler receives for `request`.
pub fn request_to_value(request: &IncomingRequest) -> (value: Datum)
    ensures
        value@ == request_record(request@),
{
    let mut fields: Vec<(String, Datum)> = Vec::new();
    let method = Datum::Text(request.method.clone());
    let path = Datum::Text(request.path.clone());
    assert(method@ == DatumView::Text(request@.method));
    assert(path@ == DatumView::Text(request@.path));
    fields.push(("method".to_string(), method));
    fields.push(("path".to_string(), path));
    fields.push(("headers".to_string(), text_record(&request.headers)));
    fields.push(("query".to_string(), text_record(&request.query)));
    match &request.remote_addr {
        Some(addr) => {
            let peer = Datum::Text(addr.clone());
            assert(peer@ == DatumView::Text(addr@));
            fields.push(("remote_addr".to_string(), peer));
        },
        None => {},
    }
    let value = Datum::Record(fields);
    proof {
        let got = value@->Record_0;
        let want = request_record(request@)->Record_0;
        assert(got.len() == want.len());
        assert(got[0] == want[0]);
        assert(got[1] == want[1]);
        assert(got[2] == want[2]);
        assert(got[3] == want[3]);
        assert(got =~= want);
    }
    value
}

} // verus!
