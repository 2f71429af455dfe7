//! The endpoints that an OpenEngine server advertises for KV events.

use vstd::prelude::*;

use crate::endpoints::address_parts;
use crate::endpoints::behind_prefix;
use crate::endpoints::is_bracket;
use crate::endpoints::is_wildcard;
use crate::endpoints::lemma_brackets_come_off;
use crate::endpoints::lemma_port_is_replaced;
use crate::endpoints::lemma_unbracketed;
use crate::endpoints::offset_endpoint;
use crate::endpoints::offset_fits;
use crate::endpoints::parse_address;
use crate::endpoints::publisher_address;
use crate::endpoints::scheme_place;
use crate::endpoints::shows_rank;
use crate::endpoints::strip_prefix;
use crate::endpoints::unbracketed;
use crate::endpoints::wildcard;
use crate::openengine::messages::KvEndpoint;
use crate::openengine::output::saturating_sum;
use crate::text::begins_with;
use crate::text::contains_char;
use crate::text::decimal;
use crate::text::decimal_holds_digits;
use crate::text::decimal_reads_back;
use crate::text::decimal_text;
use crate::text::join3;
use crate::text::join5;
use crate::text::parse_u32;
use crate::text::parsed_u32;
use crate::text::parts_split_again;
use crate::text::rsplit_once;
use crate::text::split_at_last;

verus! {

/// The KV blocks of one rank where `dp_size` ranks share the aggregate evenly. A size of zero
/// counts as one, and a rank has at least one block where there are any.
pub open spec fn blocks_per_rank(aggregate: u64, dp_size: u64) -> u64 {
    let ranks = if dp_size == 0 {
        1
    } else {
        dp_size
    };
    if aggregate == 0 {
        0
    } else if aggregate / ranks == 0 {
        1
    } else {
        aggregate / ranks
    }
}

/// Shares KV blocks among ranks.
pub fn per_rank_kv_blocks(aggregate: u64, dp_size: u64) -> (blocks: u64)
    ensures
        blocks == blocks_per_rank(aggregate, dp_size),
{
    let ranks: u64 = if dp_size == 0 {
        1
    } else {
        dp_size
    };
    let share: u64 = aggregate / ranks;
    if aggregate > 0 && share == 0 {
        1
    } else {
        share
    }
}

/// The endpoint of a publisher that binds one port per rank: the rank is added to the port of a
/// TCP endpoint, up to the largest 32-bit number, and to the name of an in-process one.
pub open spec fn rank_endpoint(endpoint: Seq<char>, rank: u32) -> Seq<char> {
    if rank == 0 || endpoint.len() == 0 {
        endpoint
    } else if "inproc://"@.is_prefix_of(endpoint) {
        endpoint + "_dp"@ + decimal(rank as nat)
    } else if "tcp://"@.is_prefix_of(endpoint) && split_at_last(endpoint, ':') is Some
        && parsed_u32(split_at_last(endpoint, ':')->Some_0.1) is Some {
        let (address, port) = split_at_last(endpoint, ':')->Some_0;
        address + ":"@ + decimal(saturating_sum(parsed_u32(port)->Some_0, rank) as nat)
    } else {
        endpoint
    }
}

/// Adds the rank to the endpoint of a publisher.
pub fn offset_endpoint_port(endpoint: &str, rank: u32) -> (shifted: String)
    ensures
        shifted@ == rank_endpoint(endpoint@, rank),
{
    if rank == 0 || endpoint.is_empty() {
        return endpoint.to_string();
    }
    if begins_with(endpoint, "inproc://") {
        return join3(endpoint, "_dp", decimal_text(rank as u64).as_str());
    }
    if begins_with(endpoint, "tcp://") {
        if let Some((address, port)) = rsplit_once(endpoint, ':') {
            if let Some(port) = parse_u32(port) {
                return join3(
                    address,
                    ":",
                    decimal_text(port.saturating_add(rank) as u64).as_str(),
                );
            }
        }
    }
    endpoint.to_string()
}

/// The host that subscribers are told to connect to: the configured one, or the one that was
/// discovered where the configured one stands for every address.
pub open spec fn advertised_host(configured: Seq<char>, discovered: Seq<char>) -> Seq<char> {
    if is_wildcard(configured) {
        discovered
    } else {
        configured
    }
}

/// Picks the host that subscribers are told to connect to.
pub fn routable_host(configured: &str, discovered: &str) -> (host: String)
    ensures
        host@ == advertised_host(configured@, discovered@),
{
    if wildcard(configured) {
        discovered.to_string()
    } else {
        configured.to_string()
    }
}

/// The host and the port of a TCP endpoint.
pub open spec fn tcp_address(endpoint: Seq<char>, advertise_host: Seq<char>) -> Option<
    (Seq<char>, u32),
> {
    match behind_prefix(endpoint, "tcp://"@) {
        Some(rest) => address_parts(rest, advertise_host),
        None => None,
    }
}

/// The endpoint has this host and this port.
pub open spec fn is_tcp_endpoint(endpoint: KvEndpoint, address: (Seq<char>, u32)) -> bool {
    &&& endpoint.host@ == address.0
    &&& endpoint.port == address.1
    &&& endpoint.protocol@ == "tcp"@
}

/// Reads a TCP endpoint as one that a subscriber can connect to. A host that stands for every
/// address of the machine becomes `advertise_host`.
pub fn parse_zmq_endpoint(endpoint: &str, advertise_host: &str) -> (address: Option<KvEndpoint>)
    ensures
        match address {
            Some(found) => tcp_address(endpoint@, advertise_host@) is Some && is_tcp_endpoint(
                found,
                tcp_address(endpoint@, advertise_host@)->Some_0,
            ),
            None => tcp_address(endpoint@, advertise_host@) is None,
        },
{
    match strip_prefix(endpoint, "tcp://") {
        None => None,
        Some(rest) => match parse_address(rest, advertise_host) {
            None => None,
            Some(found) => Some(
                KvEndpoint { host: found.host, port: found.port, protocol: "tcp".to_string() },
            ),
        },
    }
}

/// A host as it stands in a URI: an IPv6 address has brackets around it.
pub open spec fn uri_host(host: Seq<char>) -> Seq<char> {
    if host.contains(':') {
        "["@ + host + "]"@
    } else {
        host
    }
}

/// The URI that a subscriber connects to.
pub open spec fn tcp_uri(address: (Seq<char>, u32)) -> Seq<char> {
    "tcp"@ + "://"@ + uri_host(address.0) + ":"@ + decimal(address.1 as nat)
}

/// Spells a TCP endpoint as a URI that a subscriber can connect to.
pub fn connectable_zmq_uri(endpoint: &str, advertise_host: &str) -> (uri: Option<String>)
    ensures
        match uri {
            Some(uri) => tcp_address(endpoint@, advertise_host@) is Some && uri@ == tcp_uri(
                tcp_address(endpoint@, advertise_host@)->Some_0,
            ),
            None => tcp_address(endpoint@, advertise_host@) is None,
        },
{
    match parse_zmq_endpoint(endpoint, advertise_host) {
        None => None,
        Some(found) => {
            let host = if contains_char(found.host.as_str(), ':') {
                join3("[", found.host.as_str(), "]")
            } else {
                found.host
            };
            Some(
                join5(
                    found.protocol.as_str(),
                    "://",
                    host.as_str(),
                    ":",
                    decimal_text(found.port as u64).as_str(),
                ),
            )
        },
    }
}

/// The URI that a subscriber is told names the same host and port that the endpoint does.
pub proof fn connectable_uri_reads_back(
    endpoint: Seq<char>,
    advertise_host: Seq<char>,
    other_host: Seq<char>,
)
    requires
        tcp_address(endpoint, advertise_host) is Some,
        !is_wildcard(advertise_host),
        unbracketed(advertise_host) == advertise_host,
    ensures
        tcp_address(
            tcp_uri(tcp_address(endpoint, advertise_host)->Some_0),
            other_host,
        ) == tcp_address(endpoint, advertise_host),
{
    reveal_strlit("tcp");
    reveal_strlit("://");
    reveal_strlit("tcp://");
    reveal_strlit(":");
    reveal_strlit("[");
    reveal_strlit("]");
    reveal_strlit("");
    let rest = behind_prefix(endpoint, "tcp://"@)->Some_0;
    let (given, _) = split_at_last(rest, ':')->Some_0;
    let (host, port) = tcp_address(endpoint, advertise_host)->Some_0;
    lemma_unbracketed(given);
    lemma_unbracketed(advertise_host);
    assert(host.len() > 0) by {
        assert(!is_wildcard(host));
        if host.len() == 0 {
            assert(host == ""@);
        }
    }
    assert(!is_bracket(host[0]) && !is_bracket(host.last()));
    lemma_unbracketed(host);
    lemma_brackets_come_off(host);
    let digits = decimal(port as nat);
    let spelled = uri_host(host);
    let uri = tcp_uri((host, port));
    assert("tcp"@ + "://"@ == "tcp://"@);
    assert(uri.skip("tcp://"@.len() as int) == spelled + seq![':'] + digits);
    assert(uri.take("tcp://"@.len() as int) == "tcp://"@);
    assert("tcp://"@.is_prefix_of(uri));
    assert forall|i: int| 0 <= i < digits.len() implies digits[i] != ':' by {
        decimal_holds_digits(port as nat, i);
    }
    parts_split_again(spelled, ':', digits);
    decimal_reads_back(port as nat);
    assert("["@ + host + "]"@ == seq!['['] + host + seq![']']);
    assert(unbracketed(spelled) == host);
}

/// No more blocks are said to be there than the ranks share, where there is one for each.
pub proof fn shares_fit_the_aggregate(aggregate: u64, dp_size: u64)
    requires
        aggregate >= dp_size,
        dp_size > 0,
    ensures
        blocks_per_rank(aggregate, dp_size) * dp_size <= aggregate,
        aggregate > 0 ==> blocks_per_rank(aggregate, dp_size) > 0,
{
    assert(aggregate / dp_size >= 1) by (nonlinear_arith)
        requires
            aggregate >= dp_size,
            dp_size > 0,
    ;
    assert((aggregate / dp_size) * dp_size <= aggregate) by (nonlinear_arith)
        requires
            dp_size > 0,
    ;
}

/// A host that is advertised can be reached: it never stands for every address.
pub proof fn advertised_host_is_routable(endpoint: Seq<char>, advertise_host: Seq<char>)
    requires
        !is_wildcard(advertise_host),
    ensures
        tcp_address(endpoint, advertise_host) matches Some((host, _)) ==> !is_wildcard(host),
        publisher_address(endpoint, advertise_host) matches Some((host, _)) ==> !is_wildcard(host),
{
}

/// Two ranks never publish on the same endpoint.
pub proof fn ranks_publish_apart(endpoint: Seq<char>, a: u32, b: u32)
    requires
        shows_rank(endpoint, scheme_place(endpoint)),
        offset_fits(endpoint, a),
        offset_fits(endpoint, b),
        a != b,
    ensures
        rank_endpoint(endpoint, a) != rank_endpoint(endpoint, b),
{
    assert(rank_endpoint(endpoint, a) == offset_endpoint(endpoint, a));
    assert(rank_endpoint(endpoint, b) == offset_endpoint(endpoint, b));
    crate::endpoints::ranks_publish_apart(endpoint, a, b);
}

/// The address of a rank is that of the configured TCP endpoint, with the rank added to its port;
/// a port that does not fit is the largest 32-bit number.
pub proof fn rank_moves_the_port(endpoint: Seq<char>, advertise_host: Seq<char>, rank: u32)
    requires
        tcp_address(endpoint, advertise_host) is Some,
    ensures
        tcp_address(rank_endpoint(endpoint, rank), advertise_host) is Some,
        ({
            let (host, port) = tcp_address(endpoint, advertise_host)->Some_0;
            let (shown, moved) = tcp_address(
                rank_endpoint(endpoint, rank),
                advertise_host,
            )->Some_0;
            &&& shown == host
            &&& port + rank <= u32::MAX ==> moved == port + rank
            &&& port + rank > u32::MAX ==> moved == u32::MAX
        }),
{
    reveal_strlit("tcp://");
    reveal_strlit("inproc://");
    let (host, port) = tcp_address(endpoint, advertise_host)->Some_0;
    let moved = if port + rank <= u32::MAX {
        (port + rank) as u32
    } else {
        u32::MAX
    };
    lemma_port_is_replaced(endpoint, advertise_host, moved);
    if "inproc://"@.is_prefix_of(endpoint) {
        assert(endpoint[0] == "inproc://"@[0]);
        assert(endpoint[0] == "tcp://"@[0]);
    }
}

/// Only a TCP endpoint has an address, and it is the one behind the scheme.
pub proof fn only_tcp_endpoints_are_reached(endpoint: Seq<char>, advertise_host: Seq<char>)
    ensures
        !"tcp://"@.is_prefix_of(endpoint) ==> tcp_address(endpoint, advertise_host) is None,
        tcp_address("tcp://"@ + endpoint, advertise_host) == address_parts(
            endpoint,
            advertise_host,
        ),
{
    let whole = "tcp://"@ + endpoint;
    assert("tcp://"@.is_prefix_of(whole));
    assert(whole.skip("tcp://"@.len() as int) == endpoint);
}

/// The rank of an in-process endpoint shows behind its name, and an endpoint of another scheme is
/// the same for every rank.
pub proof fn other_schemes_are_not_moved(endpoint: Seq<char>, rank: u32)
    requires
        !"tcp://"@.is_prefix_of(endpoint),
    ensures
        rank_endpoint(endpoint, rank) == offset_endpoint(endpoint, rank),
        !"inproc://"@.is_prefix_of(endpoint) ==> rank_endpoint(endpoint, rank) == endpoint,
{
}

/// The blocks are shared evenly: no rank is told fewer than its whole share, none more than it,
/// and none is told that there are none where there are any. A size of zero counts as one rank.
pub proof fn shares_are_even(aggregate: u64, dp_size: u64)
    ensures
        dp_size == 0 ==> blocks_per_rank(aggregate, dp_size) == aggregate,
        0 < aggregate < dp_size ==> blocks_per_rank(aggregate, dp_size) == 1,
        aggregate == 0 ==> blocks_per_rank(aggregate, dp_size) == 0,
        0 < dp_size <= aggregate ==> blocks_per_rank(aggregate, dp_size) * dp_size <= aggregate
            < (blocks_per_rank(aggregate, dp_size) + 1) * dp_size,
{
    if 0 < aggregate < dp_size {
        assert(aggregate / dp_size == 0) by (nonlinear_arith)
            requires
                aggregate < dp_size,
        ;
    }
    if 0 < dp_size <= aggregate {
        assert(aggregate / dp_size >= 1) by (nonlinear_arith)
            requires
                0 < dp_size <= aggregate,
        ;
        assert((aggregate / dp_size) * dp_size <= aggregate < (aggregate / dp_size + 1) * dp_size)
            by (nonlinear_arith)
            requires
                0 < dp_size,
        ;
    }
}

/// A configured host is what subscribers are told, unless it stands for every address.
pub proof fn configured_host_goes_first(configured: Seq<char>, discovered: Seq<char>)
    ensures
        configured != ""@ && configured != "*"@ && configured != "0.0.0.0"@ && configured != "::"@
            ==> advertised_host(configured, discovered) == configured,
        configured == ""@ || configured == "*"@ || configured == "0.0.0.0"@ || configured == "::"@
            ==> advertised_host(configured, discovered) == discovered,
{
}

/// An endpoint that is told to clients has the host and the port of its address, over TCP.
pub proof fn endpoints_keep_the_address(endpoint: KvEndpoint, host: Seq<char>, port: u32)
    requires
        is_tcp_endpoint(endpoint, (host, port)),
    ensures
        endpoint.host@ == host,
        endpoint.port == port,
        endpoint.protocol@ == seq!['t', 'c', 'p'],
{
    reveal_strlit("tcp");
    assert(endpoint.protocol@ =~= seq!['t', 'c', 'p']);
}

} // verus!
