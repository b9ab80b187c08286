use vstd::prelude::*;

use crate::address::IpAddress;
use crate::method::Method;

verus! {

/// What the service tells a client about itself.
#[derive(Clone, Debug, PartialEq, Eq)]
pub struct ClientInfo {
    pub host: Option<String>,
    pub client_ip: IpAddress,
    pub forwarded_for: Vec<IpAddress>,
    pub referer: Option<String>,
    pub user_agent: Option<String>,
    pub method: Method,
}

/// Unicode white space, as `char::is_whitespace` documents it.
pub open spec fn is_white(c: char) -> bool {
    let u = c as u32;
    (9 <= u <= 13) || u == 0x20 || u == 0x85 || u == 0xa0 || u == 0x1680 || (0x2000 <= u
        <= 0x200a) || u == 0x2028 || u == 0x2029 || u == 0x202f || u == 0x205f || u == 0x3000
}

/// `s` without the white space that begins it.
pub open spec fn trim_start(s: Seq<char>) -> Seq<char>
    decreases s.len(),
{
    if s.len() > 0 && is_white(s[0]) {
        trim_start(s.drop_first())
    } else {
        s
    }
}

/// `s` without the white space that ends it.
pub open spec fn trim_end(s: Seq<char>) -> Seq<char>
    decreases s.len(),
{
    if s.len() > 0 && is_white(s.last()) {
        trim_end(s.drop_last())
    } else {
        s
    }
}

/// `s` without white space at either end.
pub open spec fn trim(s: Seq<char>) -> Seq<char> {
    trim_end(trim_start(s))
}

/// The pieces of `s` between commas, in order: one more than it has commas.
pub open spec fn split_commas(s: Seq<char>) -> Seq<Seq<char>>
    decreases s.len(),
{
    if s.len() == 0 {
        seq![Seq::empty()]
    } else {
        let prev = split_commas(s.drop_last());
        if s.last() == ',' {
            prev.push(Seq::empty())
        } else {
            prev.update(prev.len() - 1, prev.last().push(s.last()))
        }
    }
}

/// The entries of a proxy chain header: its pieces between commas, trimmed.
pub open spec fn forwarded_entries(s: Seq<char>) -> Seq<Seq<char>> {
    split_commas(s).map_values(|p: Seq<char>| trim(p))
}

/// How many commas `s` holds.
pub open spec fn comma_count(s: Seq<char>) -> nat
    decreases s.len(),
{
    if s.len() == 0 {
        0
    } else {
        comma_count(s.drop_last()) + if s.last() == ',' { 1nat } else { 0nat }
    }
}

/// The addresses that were read, in order; the entries that were not are left out.
pub open spec fn kept_addresses(p: Seq<Option<IpAddress>>) -> Seq<IpAddress>
    decreases p.len(),
{
    if p.len() == 0 {
        Seq::empty()
    } else {
        let prev = kept_addresses(p.drop_last());
        match p.last() {
            Some(a) => prev.push(a),
            None => prev,
        }
    }
}

/// How many entries were read as addresses.
pub open spec fn parsed_count(p: Seq<Option<IpAddress>>) -> nat
    decreases p.len(),
{
    if p.len() == 0 {
        0
    } else {
        parsed_count(p.drop_last()) + if p.last() is Some { 1nat } else { 0nat }
    }
}

/// The client's address: the first address of the proxy chain, else the
/// address of `X-Real-IP`, else the transport's peer address.
pub open spec fn resolved_ip(
    forwarded: Seq<IpAddress>,
    real_ip: Option<IpAddress>,
    peer: Option<IpAddress>,
) -> Option<IpAddress> {
    if forwarded.len() > 0 {
        Some(forwarded[0])
    } else if real_ip is Some {
        real_ip
    } else {
        peer
    }
}

/// The optional text of a header, as a sequence of characters.
pub open spec fn opt_view(s: Option<String>) -> Option<Seq<char>> {
    match s {
        Some(t) => Some(t@),
        None => None,
    }
}

/// Whether `c` is Unicode white space.
pub fn is_whitespace(c: char) -> (r: bool)
    ensures
        r == is_white(c),
{
    let u = c as u32;
    (9 <= u && u <= 13) || u == 0x20 || u == 0x85 || u == 0xa0 || u == 0x1680 || (0x2000 <= u
        && u <= 0x200a) || u == 0x2028 || u == 0x2029 || u == 0x202f || u == 0x205f || u == 0x3000
}

/// The characters `s[a..b]` without white space at either end.
fn trimmed_piece(s: &str, a: usize, b: usize) -> (r: String)
    requires
        a <= b <= s@.len(),
    ensures
        r@ == trim(s@.subrange(a as int, b as int)),
{
    let mut lo = a;
    while lo < b && is_whitespace(s.get_char(lo))
        invariant
            a <= lo <= b <= s@.len(),
            trim_start(s@.subrange(a as int, b as int)) == trim_start(
                s@.subrange(lo as int, b as int),
            ),
        decreases b - lo,
    {
        assert(s@.subrange(lo as int, b as int).drop_first() =~= s@.subrange(lo + 1, b as int));
        lo = lo + 1;
    }
    let mut hi = b;
    while hi > lo && is_whitespace(s.get_char(hi - 1))
        invariant
            a <= lo <= hi <= b <= s@.len(),
            trim_end(s@.subrange(lo as int, b as int)) == trim_end(
                s@.subrange(lo as int, hi as int),
            ),
        decreases hi - lo,
    {
        assert(s@.subrange(lo as int, hi as int).drop_last() =~= s@.subrange(
            lo as int,
            hi - 1,
        ));
        hi = hi - 1;
    }
    String::from_str(s.substring_char(lo, hi))
}

/// Splits a proxy chain header into its entries: the pieces between commas,
/// without white space at either end, in the order the header gives them.
pub fn forwarded_pieces(value: &str) -> (r: Vec<String>)
    ensures
        r@.len() == forwarded_entries(value@).len(),
        r@.len() == comma_count(value@) + 1,
        forall|k: int| 0 <= k < r@.len() ==> #[trigger] r@[k]@ == forwarded_entries(value@)[k],
{
    let ghost s = value@;
    let n = value.unicode_len();
    let mut out: Vec<String> = Vec::new();
    let ghost mut raw: Seq<Seq<char>> = Seq::empty();
    let mut start: usize = 0;
    let mut i: usize = 0;
    proof {
        assert(s.subrange(0, 0) =~= Seq::<char>::empty());
        assert(raw.push(s.subrange(0, 0)) =~= seq![Seq::<char>::empty()]);
    }
    while i < n
        invariant
            n == s.len(),
            s == value@,
            start <= i <= n,
            split_commas(s.subrange(0, i as int)) == raw.push(s.subrange(start as int, i as int)),
            raw.len() == comma_count(s.subrange(0, i as int)),
            out@.len() == raw.len(),
            forall|k: int| 0 <= k < raw.len() ==> #[trigger] out@[k]@ == trim(raw[k]),
        decreases n - i,
    {
        let c = value.get_char(i);
        proof {
            assert(s.subrange(0, i + 1).drop_last() =~= s.subrange(0, i as int));
        }
        if c == ',' {
            let piece = trimmed_piece(value, start, i);
            out.push(piece);
            proof {
                raw = raw.push(s.subrange(start as int, i as int));
                assert(s.subrange(i + 1, i + 1) =~= Seq::<char>::empty());
            }
            start = i + 1;
        } else {
            proof {
                assert(s.subrange(start as int, i as int).push(c) =~= s.subrange(
                    start as int,
                    i + 1,
                ));
                assert(raw.push(s.subrange(start as int, i as int)).update(
                    raw.len() as int,
                    s.subrange(start as int, i + 1),
                ) =~= raw.push(s.subrange(start as int, i + 1)));
            }
        }
        i = i + 1;
    }
    let piece = trimmed_piece(value, start, n);
    out.push(piece);
    proof {
        assert(s.subrange(0, n as int) =~= s);
        let full = raw.push(s.subrange(start as int, n as int));
        assert forall|k: int| 0 <= k < out@.len() implies #[trigger] out@[k]@
            == forwarded_entries(value@)[k] by {
            assert(full[k] == split_commas(s)[k]);
        }
    }
    out
}

/// Keeps the entries that were read as addresses, in their order.
pub fn kept_entries(parsed: &Vec<Option<IpAddress>>) -> (r: Vec<IpAddress>)
    ensures
        r@ == kept_addresses(parsed@),
{
    let mut out: Vec<IpAddress> = Vec::new();
    let mut i: usize = 0;
    while i < parsed.len()
        invariant
            i <= parsed@.len(),
            out@ == kept_addresses(parsed@.subrange(0, i as int)),
        decreases parsed@.len() - i,
    {
        proof {
            assert(parsed@.subrange(0, i + 1).drop_last() =~= parsed@.subrange(0, i as int));
        }
        match parsed[i] {
            Some(a) => out.push(a),
            None => {},
        }
        i = i + 1;
    }
    proof {
        assert(parsed@.subrange(0, parsed@.len() as int) =~= parsed@);
    }
    out
}

/// Resolves what a request tells of its client.
///
/// `parsed` holds, for each entry of the `X-Forwarded-For` header in order, the
/// address it was read as, if any (empty where the header is absent);
/// `real_ip` the address of `X-Real-IP`, if present and readable; `peer` the
/// transport's peer address, if the transport gives one. The client's address
/// is the first of them that is there; one of them must be. The record keeps
/// the request's method.
pub fn client_info(
    host: Option<String>,
    parsed: Vec<Option<IpAddress>>,
    real_ip: Option<IpAddress>,
    referer: Option<String>,
    user_agent: Option<String>,
    peer: Option<IpAddress>,
    method: Method,
) -> (r: ClientInfo)
    requires
        resolved_ip(kept_addresses(parsed@), real_ip, peer) is Some,
    ensures
        r.forwarded_for@ == kept_addresses(parsed@),
        Some(r.client_ip) == resolved_ip(kept_addresses(parsed@), real_ip, peer),
        opt_view(r.host) == opt_view(host),
        opt_view(r.referer) == opt_view(referer),
        opt_view(r.user_agent) == opt_view(user_agent),
        r.method == method,
{
    let forwarded_for = kept_entries(&parsed);
    let client_ip = if forwarded_for.len() > 0 {
        forwarded_for[0]
    } else if let Some(a) = real_ip {
        a
    } else {
        peer.unwrap()
    };
    ClientInfo { host, client_ip, forwarded_for, referer, user_agent, method }
}

/// Whether a request gives enough to resolve its client's address.
pub fn can_resolve(
    parsed: &Vec<Option<IpAddress>>,
    real_ip: &Option<IpAddress>,
    peer: &Option<IpAddress>,
) -> (r: bool)
    ensures
        r == resolved_ip(kept_addresses(parsed@), *real_ip, *peer) is Some,
{
    let kept = kept_entries(parsed);
    kept.len() > 0 || real_ip.is_some() || peer.is_some()
}

/// Reading a proxy chain keeps the order of the header: the addresses kept
/// from two consecutive parts of the chain are those of the first part, then
/// those of the second; and as many are kept as entries were read as
/// addresses.
pub proof fn law_forwarded_order_and_count(p: Seq<Option<IpAddress>>, q: Seq<Option<IpAddress>>)
    ensures
        kept_addresses(p + q) == kept_addresses(p) + kept_addresses(q),
        kept_addresses(p).len() == parsed_count(p),
    decreases q.len(),
{
    if q.len() == 0 {
        assert(p + q =~= p);
        assert(kept_addresses(p) + kept_addresses(q) =~= kept_addresses(p));
        lemma_kept_len(p);
    } else {
        law_forwarded_order_and_count(p, q.drop_last());
        assert((p + q).drop_last() =~= p + q.drop_last());
        assert((p + q).last() == q.last());
        match q.last() {
            Some(a) => {
                assert(kept_addresses(p) + kept_addresses(q) =~= (kept_addresses(p)
                    + kept_addresses(q.drop_last())).push(a));
            },
            None => {},
        }
    }
}

proof fn lemma_kept_len(p: Seq<Option<IpAddress>>)
    ensures
        kept_addresses(p).len() == parsed_count(p),
    decreases p.len(),
{
    if p.len() > 0 {
        lemma_kept_len(p.drop_last());
    }
}

/// A proxy chain header with `n` commas has `n + 1` entries, before any is read.
pub proof fn law_entry_count(s: Seq<char>)
    ensures
        forwarded_entries(s).len() == comma_count(s) + 1,
    decreases s.len(),
{
    if s.len() > 0 {
        law_entry_count(s.drop_last());
    }
}

/// Every address kept from a proxy chain is one of its entries.
pub proof fn law_kept_from_entries(p: Seq<Option<IpAddress>>, k: int)
    requires
        0 <= k < kept_addresses(p).len(),
    ensures
        exists|i: int| 0 <= i < p.len() && p[i] == Some(#[trigger] kept_addresses(p)[k]),
    decreases p.len(),
{
    let prev = kept_addresses(p.drop_last());
    if k < prev.len() {
        law_kept_from_entries(p.drop_last(), k);
        let i = choose|i: int| 0 <= i < p.drop_last().len() && p.drop_last()[i] == Some(prev[k]);
        assert(p[i] == Some(kept_addresses(p)[k]));
    } else {
        assert(p[p.len() - 1] == Some(kept_addresses(p)[k]));
    }
}

} // verus!
