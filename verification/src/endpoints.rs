//! ZeroMQ endpoints: how a publisher spells them and how a subscriber reaches them.

use vstd::prelude::*;

use crate::text::begins_with;
use crate::text::chars_of;
use crate::text::decimal;
use crate::text::decimal_holds_digits;
use crate::text::decimal_is_injective;
use crate::text::decimal_reads_back;
use crate::text::decimal_text;
use crate::text::is_digit;
use crate::text::join3;
use crate::text::lemma_last_position;
use crate::text::lemma_split_joins;
use crate::text::parse_u32;
use crate::text::parsed_u32;
use crate::text::parts_split_again;
use crate::text::rsplit_once;
use crate::text::same;
use crate::text::split_at_last;

verus! {

/// A TCP endpoint that a subscriber can connect to.
#[derive(Debug)]
pub struct TcpEndpoint {
    pub host: String,
    pub port: u32,
}

/// A host that stands for every address of the machine.
pub open spec fn is_wildcard(host: Seq<char>) -> bool {
    host == ""@ || host == "*"@ || host == "0.0.0.0"@ || host == "::"@
}

/// Whether a host stands for every address of the machine.
pub fn wildcard(host: &str) -> (found: bool)
    ensures
        found == is_wildcard(host@),
{
    same(host, "") || same(host, "*") || same(host, "0.0.0.0") || same(host, "::")
}

/// The bracket of an IPv6 address.
pub open spec fn is_bracket(c: char) -> bool {
    c == '[' || c == ']'
}

/// A text without the brackets that it begins with.
pub open spec fn without_front_brackets(s: Seq<char>) -> Seq<char>
    decreases s.len(),
{
    if s.len() > 0 && is_bracket(s[0]) {
        without_front_brackets(s.skip(1))
    } else {
        s
    }
}

/// A text without the brackets that it ends with.
pub open spec fn without_back_brackets(s: Seq<char>) -> Seq<char>
    decreases s.len(),
{
    if s.len() > 0 && is_bracket(s.last()) {
        without_back_brackets(s.drop_last())
    } else {
        s
    }
}

/// A host without the brackets around it.
pub open spec fn unbracketed(s: Seq<char>) -> Seq<char> {
    without_back_brackets(without_front_brackets(s))
}

/// Takes the brackets around a host off.
pub fn trim_brackets<'a>(s: &'a str) -> (trimmed: &'a str)
    ensures
        trimmed@ == unbracketed(s@),
{
    let chars = chars_of(s);
    let len: usize = chars.len();
    let mut from: usize = 0;
    assert(s@.skip(0) == s@);
    while from < len && (chars[from] == '[' || chars[from] == ']')
        invariant
            from <= len,
            len == s@.len(),
            chars@ == s@,
            without_front_brackets(s@.skip(from as int)) == without_front_brackets(s@),
        decreases len - from,
    {
        assert(s@.skip(from as int).skip(1) == s@.skip(from + 1));
        from += 1;
    }
    let ghost front = s@.skip(from as int);
    assert(without_front_brackets(s@) == front);
    let mut to: usize = len;
    assert(s@.subrange(from as int, len as int) == front);
    while to > from && (chars[to - 1] == '[' || chars[to - 1] == ']')
        invariant
            from <= to <= len,
            len == s@.len(),
            chars@ == s@,
            without_back_brackets(s@.subrange(from as int, to as int)) == without_back_brackets(
                front,
            ),
        decreases to - from,
    {
        assert(s@.subrange(from as int, to as int).drop_last() == s@.subrange(
            from as int,
            to - 1,
        ));
        to -= 1;
    }
    s.substring_char(from, to)
}

/// An endpoint without the scheme in front of it; nothing where that scheme is not there.
pub open spec fn behind_prefix(endpoint: Seq<char>, prefix: Seq<char>) -> Option<Seq<char>> {
    if prefix.is_prefix_of(endpoint) {
        Some(endpoint.skip(prefix.len() as int))
    } else {
        None
    }
}

/// Takes the scheme in front of an endpoint off.
pub fn strip_prefix<'a>(endpoint: &'a str, prefix: &str) -> (rest: Option<&'a str>)
    ensures
        match rest {
            Some(rest) => behind_prefix(endpoint@, prefix@) == Some(rest@),
            None => behind_prefix(endpoint@, prefix@) is None,
        },
{
    if begins_with(endpoint, prefix) {
        let from: usize = prefix.unicode_len();
        let to: usize = endpoint.unicode_len();
        Some(endpoint.substring_char(from, to))
    } else {
        None
    }
}

/// The host and the port of an address, split at its last colon. The host has no brackets around
/// it, and one that stands for every address becomes `routable`.
pub open spec fn address_parts(address: Seq<char>, routable: Seq<char>) -> Option<
    (Seq<char>, u32),
> {
    match split_at_last(address, ':') {
        None => None,
        Some((host, port)) => match parsed_u32(port) {
            None => None,
            Some(port) => Some(
                (
                    if is_wildcard(unbracketed(host)) {
                        routable
                    } else {
                        unbracketed(host)
                    },
                    port,
                ),
            ),
        },
    }
}

/// The host and the port of an optional endpoint.
pub open spec fn endpoint_view(endpoint: Option<TcpEndpoint>) -> Option<(Seq<char>, u32)> {
    match endpoint {
        Some(endpoint) => Some((endpoint.host@, endpoint.port)),
        None => None,
    }
}

/// Reads the host and the port of an address.
pub fn parse_address(address: &str, routable: &str) -> (endpoint: Option<TcpEndpoint>)
    ensures
        endpoint_view(endpoint) == address_parts(address@, routable@),
{
    match rsplit_once(address, ':') {
        None => None,
        Some((host, port)) => match parse_u32(port) {
            None => None,
            Some(port) => {
                let host = trim_brackets(host);
                let host = if wildcard(host) {
                    routable.to_string()
                } else {
                    host.to_string()
                };
                Some(TcpEndpoint { host, port })
            },
        },
    }
}

/// How an endpoint takes the rank of its publisher.
#[derive(Clone, Copy, Debug, PartialEq, Eq, Structural)]
pub enum RankPlace {
    /// It is added to the name.
    Name,
    /// It is added to the port, where there is one.
    Port,
    /// It is not added.
    Nowhere,
}

/// The endpoint of a publisher with its rank added. Rank 0 and an empty endpoint change nothing.
pub open spec fn with_rank(endpoint: Seq<char>, place: RankPlace, rank: u32) -> Seq<char> {
    if rank == 0 || endpoint.len() == 0 {
        endpoint
    } else {
        match place {
            RankPlace::Name => endpoint + "_dp"@ + decimal(rank as nat),
            RankPlace::Port => match split_at_last(endpoint, ':') {
                Some((address, port)) => match parsed_u32(port) {
                    Some(port) => address + ":"@ + decimal((port + rank) as nat),
                    None => endpoint,
                },
                None => endpoint,
            },
            RankPlace::Nowhere => endpoint,
        }
    }
}

/// The rank can be added to the port of the endpoint, where there is a port that it is added to.
pub open spec fn port_fits(endpoint: Seq<char>, place: RankPlace, rank: u32) -> bool {
    place == RankPlace::Port ==> (split_at_last(endpoint, ':') matches Some((_, port))
        && parsed_u32(port) matches Some(port) ==> port + rank <= u32::MAX)
}

/// Adds a rank to an endpoint.
pub fn add_rank(endpoint: &str, place: RankPlace, rank: u32) -> (shifted: String)
    requires
        port_fits(endpoint@, place, rank),
    ensures
        shifted@ == with_rank(endpoint@, place, rank),
{
    if rank == 0 || endpoint.is_empty() {
        return endpoint.to_string();
    }
    match place {
        RankPlace::Name => {
            return join3(endpoint, "_dp", decimal_text(rank as u64).as_str());
        },
        RankPlace::Port => {
            if let Some((address, port)) = rsplit_once(endpoint, ':') {
                if let Some(port) = parse_u32(port) {
                    return join3(address, ":", decimal_text((port + rank) as u64).as_str());
                }
            }
        },
        RankPlace::Nowhere => {},
    }
    endpoint.to_string()
}

/// The scheme of an endpoint decides where the rank goes: to the name of an in-process endpoint,
/// to the port of a TCP endpoint, and nowhere for any other.
pub open spec fn scheme_place(endpoint: Seq<char>) -> RankPlace {
    if "inproc://"@.is_prefix_of(endpoint) {
        RankPlace::Name
    } else if "tcp://"@.is_prefix_of(endpoint) {
        RankPlace::Port
    } else {
        RankPlace::Nowhere
    }
}

/// The endpoint of a publisher that binds one port per rank: the rank is added to the port of a
/// TCP endpoint and to the name of an in-process one.
pub open spec fn offset_endpoint(endpoint: Seq<char>, data_parallel_rank: u32) -> Seq<char> {
    with_rank(endpoint, scheme_place(endpoint), data_parallel_rank)
}

/// The rank can be added to the port of the endpoint, where there is a port that it is added to.
pub open spec fn offset_fits(endpoint: Seq<char>, data_parallel_rank: u32) -> bool {
    port_fits(endpoint, scheme_place(endpoint), data_parallel_rank)
}

/// Adds the data-parallel rank to the endpoint of a publisher. Rank 0 and an empty endpoint leave
/// it as it is, and so does a scheme other than TCP and in-process.
pub fn offset_endpoint_port(endpoint: &str, data_parallel_rank: u32) -> (shifted: String)
    requires
        offset_fits(endpoint@, data_parallel_rank),
    ensures
        shifted@ == offset_endpoint(endpoint@, data_parallel_rank),
{
    let place = if begins_with(endpoint, "inproc://") {
        RankPlace::Name
    } else if begins_with(endpoint, "tcp://") {
        RankPlace::Port
    } else {
        RankPlace::Nowhere
    };
    add_rank(endpoint, place, data_parallel_rank)
}

/// The host and the port of a publisher endpoint, with or without a TCP scheme.
pub open spec fn publisher_address(endpoint: Seq<char>, routable: Seq<char>) -> Option<
    (Seq<char>, u32),
> {
    match behind_prefix(endpoint, "tcp://"@) {
        Some(rest) => address_parts(rest, routable),
        None => address_parts(endpoint, routable),
    }
}

/// Reads the endpoint of a publisher as one that a subscriber can connect to. A host that stands
/// for every address of the machine becomes `advertise_host`.
pub fn kv_endpoint_from_zmq(endpoint: &str, advertise_host: &str) -> (address: Option<TcpEndpoint>)
    ensures
        endpoint_view(address) == publisher_address(endpoint@, advertise_host@),
{
    match strip_prefix(endpoint, "tcp://") {
        Some(rest) => parse_address(rest, advertise_host),
        None => parse_address(endpoint, advertise_host),
    }
}

/// The rank shows in the port or in the name of the endpoint.
pub open spec fn shows_rank(endpoint: Seq<char>, place: RankPlace) -> bool {
    &&& endpoint.len() > 0
    &&& match place {
        RankPlace::Name => true,
        RankPlace::Port => split_at_last(endpoint, ':') matches Some((_, port)) && parsed_u32(
            port,
        ) is Some,
        RankPlace::Nowhere => false,
    }
}

/// Two ranks never publish on the same endpoint, wherever the rank goes.
pub proof fn places_keep_ranks_apart(endpoint: Seq<char>, place: RankPlace, a: u32, b: u32)
    requires
        shows_rank(endpoint, place),
        port_fits(endpoint, place, a),
        port_fits(endpoint, place, b),
        a != b,
    ensures
        with_rank(endpoint, place, a) != with_rank(endpoint, place, b),
{
    if a == 0 {
        lemma_rank_shows(endpoint, place, b);
    } else if b == 0 {
        lemma_rank_shows(endpoint, place, a);
    } else {
        let (front, m, n) = if place == RankPlace::Name {
            (endpoint + "_dp"@, a as nat, b as nat)
        } else {
            let (address, port) = split_at_last(endpoint, ':')->Some_0;
            let port = parsed_u32(port)->Some_0;
            (address + ":"@, (port + a) as nat, (port + b) as nat)
        };
        if front + decimal(m) == front + decimal(n) {
            assert(decimal(m) == (front + decimal(m)).skip(front.len() as int));
            assert(decimal(n) == (front + decimal(n)).skip(front.len() as int));
            decimal_is_injective(m, n);
        }
    }
}

proof fn lemma_rank_shows(endpoint: Seq<char>, place: RankPlace, rank: u32)
    requires
        shows_rank(endpoint, place),
        port_fits(endpoint, place, rank),
        rank != 0,
    ensures
        with_rank(endpoint, place, rank) != endpoint,
{
    if place == RankPlace::Name {
        reveal_strlit("_dp");
        assert((endpoint + "_dp"@ + decimal(rank as nat)).len() > endpoint.len());
    } else {
        reveal_strlit(":");
        let (address, port) = split_at_last(endpoint, ':')->Some_0;
        let n = (parsed_u32(port)->Some_0 + rank) as nat;
        decimal_reads_back(n);
        assert forall|i: int| 0 <= i < decimal(n).len() implies decimal(n)[i] != ':' by {
            decimal_holds_digits(n, i);
        }
        parts_split_again(address, ':', decimal(n));
        assert(":"@ == seq![':']);
        if address + ":"@ + decimal(n) == endpoint {
            assert(decimal(n) == port);
        }
    }
}

/// Two ranks never publish on the same endpoint.
pub proof fn ranks_publish_apart(endpoint: Seq<char>, a: u32, b: u32)
    requires
        shows_rank(endpoint, scheme_place(endpoint)),
        offset_fits(endpoint, a),
        offset_fits(endpoint, b),
        a != b,
    ensures
        offset_endpoint(endpoint, a) != offset_endpoint(endpoint, b),
{
    places_keep_ranks_apart(endpoint, scheme_place(endpoint), a, b);
}

/// A text that begins and ends with something else than a bracket has no brackets around it.
pub proof fn lemma_unbracketed(s: Seq<char>)
    ensures
        unbracketed(s).len() > 0 ==> !is_bracket(unbracketed(s)[0]) && !is_bracket(
            unbracketed(s).last(),
        ),
        s.len() == 0 || (!is_bracket(s[0]) && !is_bracket(s.last())) ==> unbracketed(s) == s,
{
    lemma_without_front_brackets(s);
    lemma_without_back_brackets(without_front_brackets(s));
}

proof fn lemma_without_front_brackets(s: Seq<char>)
    ensures
        without_front_brackets(s).len() > 0 ==> !is_bracket(without_front_brackets(s)[0]),
    decreases s.len(),
{
    if s.len() > 0 && is_bracket(s[0]) {
        lemma_without_front_brackets(s.skip(1));
    }
}

proof fn lemma_without_back_brackets(s: Seq<char>)
    ensures
        without_back_brackets(s).len() > 0 ==> !is_bracket(without_back_brackets(s).last())
            && without_back_brackets(s)[0] == s[0] && s.len() > 0,
    decreases s.len(),
{
    if s.len() > 0 && is_bracket(s.last()) {
        lemma_without_back_brackets(s.drop_last());
    }
}

/// A host in brackets loses them again.
pub proof fn lemma_brackets_come_off(s: Seq<char>)
    requires
        s.len() > 0,
        !is_bracket(s[0]),
        !is_bracket(s.last()),
    ensures
        unbracketed(seq!['['] + s + seq![']']) == s,
{
    let whole = seq!['['] + s + seq![']'];
    assert(whole.skip(1) == s + seq![']']);
    assert(!is_bracket((s + seq![']'])[0]));
    assert(without_front_brackets(whole) == without_front_brackets(whole.skip(1)));
    assert((s + seq![']']).drop_last() == s);
    assert(without_back_brackets(s + seq![']']) == without_back_brackets(s));
}

/// A TCP endpoint with another port in place of its own names the same host and that port.
pub proof fn lemma_port_is_replaced(endpoint: Seq<char>, routable: Seq<char>, port: u32)
    requires
        "tcp://"@.is_prefix_of(endpoint),
        address_parts(endpoint.skip(6), routable) is Some,
    ensures
        split_at_last(endpoint, ':') is Some,
        parsed_u32(split_at_last(endpoint, ':')->Some_0.1) == Some(
            address_parts(endpoint.skip(6), routable)->Some_0.1,
        ),
        ({
            let moved = split_at_last(endpoint, ':')->Some_0.0 + ":"@ + decimal(port as nat);
            &&& "tcp://"@.is_prefix_of(moved)
            &&& address_parts(moved.skip(6), routable) == Some(
                (address_parts(endpoint.skip(6), routable)->Some_0.0, port),
            )
        }),
{
    reveal_strlit("tcp://");
    reveal_strlit(":");
    let rest = endpoint.skip(6);
    let (name, digits) = split_at_last(rest, ':')->Some_0;
    lemma_split_joins(rest, ':');
    lemma_literal_holds_no_colon(digits);
    let front = "tcp://"@ + name;
    assert(endpoint == front + seq![':'] + digits) by {
        assert(endpoint == endpoint.take(6) + rest);
        assert(endpoint.take(6) == "tcp://"@);
    }
    parts_split_again(front, ':', digits);
    let moved = front + ":"@ + decimal(port as nat);
    assert forall|i: int| 0 <= i < decimal(port as nat).len() implies decimal(port as nat)[i]
        != ':' by {
        decimal_holds_digits(port as nat, i);
    }
    assert(":"@ == seq![':']);
    assert(moved.skip(6) == name + seq![':'] + decimal(port as nat));
    assert(moved.take(6) == "tcp://"@);
    parts_split_again(name, ':', decimal(port as nat));
    decimal_reads_back(port as nat);
}

proof fn lemma_literal_holds_no_colon(digits: Seq<char>)
    requires
        parsed_u32(digits) is Some,
    ensures
        !digits.contains(':'),
{
    assert forall|i: int| 0 <= i < digits.len() implies digits[i] != ':' by {
        if digits[0] == '+' {
            if i > 0 {
                assert(is_digit(digits.skip(1)[i - 1]));
            }
        } else {
            assert(is_digit(digits[i]));
        }
    }
}

/// The address of a rank is that of the configured TCP endpoint, with the rank added to its port.
pub proof fn rank_moves_the_port(endpoint: Seq<char>, routable: Seq<char>, rank: u32)
    requires
        "tcp://"@.is_prefix_of(endpoint),
        publisher_address(endpoint, routable) is Some,
        publisher_address(endpoint, routable)->Some_0.1 + rank <= u32::MAX,
    ensures
        ({
            let (host, port) = publisher_address(endpoint, routable)->Some_0;
            publisher_address(offset_endpoint(endpoint, rank), routable) == Some(
                (host, (port + rank) as u32),
            )
        }),
        ({
            let (host, port) = publisher_address(endpoint, routable)->Some_0;
            publisher_address(with_rank(endpoint, RankPlace::Port, rank), routable) == Some(
                (host, (port + rank) as u32),
            )
        }),
{
    reveal_strlit("tcp://");
    reveal_strlit("inproc://");
    let (host, port) = publisher_address(endpoint, routable)->Some_0;
    lemma_port_is_replaced(endpoint, routable, (port + rank) as u32);
    if "inproc://"@.is_prefix_of(endpoint) {
        assert(endpoint[0] == "inproc://"@[0]);
        assert(endpoint[0] == "tcp://"@[0]);
    }
}

/// An endpoint of another scheme, or of none, is the same for every rank, unless it is an
/// in-process one.
pub proof fn other_schemes_take_no_rank(endpoint: Seq<char>, rank: u32)
    requires
        !"tcp://"@.is_prefix_of(endpoint),
        !"inproc://"@.is_prefix_of(endpoint),
    ensures
        offset_endpoint(endpoint, rank) == endpoint,
{
}

/// An in-process endpoint is one for rank 0, and for every other rank one of its own that begins
/// with the configured name and ends with the digits of the rank.
pub proof fn in_process_names_end_with_the_rank(endpoint: Seq<char>, rank: u32)
    requires
        "inproc://"@.is_prefix_of(endpoint),
    ensures
        rank == 0 ==> offset_endpoint(endpoint, rank) == endpoint,
        rank > 0 ==> endpoint.is_prefix_of(offset_endpoint(endpoint, rank)),
        rank > 0 ==> offset_endpoint(endpoint, rank).skip(endpoint.len() as int) == seq!['_', 'd', 'p']
            + decimal(rank as nat),
{
    reveal_strlit("inproc://");
    reveal_strlit("_dp");
    assert("_dp"@ == seq!['_', 'd', 'p']);
    if rank > 0 {
        assert(endpoint.len() > 0);
        assert(offset_endpoint(endpoint, rank) == endpoint + "_dp"@ + decimal(rank as nat));
        assert(offset_endpoint(endpoint, rank).skip(endpoint.len() as int) =~= seq!['_', 'd', 'p']
            + decimal(rank as nat));
    }
}

/// An address is read as the host and the port that it was written from. Brackets around the host
/// come off, and a host that stands for every address is replaced by one that can be reached.
pub proof fn written_addresses_read_back(host: Seq<char>, port: u32, routable: Seq<char>)
    ensures
        host.len() > 0 && host[0] != '[' && host[0] != ']' && host.last() != '[' && host.last()
            != ']' && !is_wildcard(host) ==> {
            &&& address_parts(host + seq![':'] + decimal(port as nat), routable) == Some(
                (host, port),
            )
            &&& address_parts(
                seq!['['] + host + seq![']'] + seq![':'] + decimal(port as nat),
                routable,
            ) == Some((host, port))
        },
        host == Seq::<char>::empty() || host == seq!['*'] || host == "0.0.0.0"@ || host == seq![
            '[',
            ':',
            ':',
            ']',
        ] ==> address_parts(host + seq![':'] + decimal(port as nat), routable) == Some(
            (routable, port),
        ),
{
    let digits = decimal(port as nat);
    assert forall|i: int| 0 <= i < digits.len() implies digits[i] != ':' by {
        decimal_holds_digits(port as nat, i);
    }
    decimal_reads_back(port as nat);
    parts_split_again(host, ':', digits);
    parts_split_again(seq!['['] + host + seq![']'], ':', digits);
    lemma_unbracketed(host);
    if host.len() > 0 && !is_bracket(host[0]) && !is_bracket(host.last()) {
        lemma_brackets_come_off(host);
    }
    reveal_strlit("");
    reveal_strlit("*");
    reveal_strlit("0.0.0.0");
    reveal_strlit("::");
    assert(Seq::<char>::empty() == ""@);
    assert(seq!['*'] == "*"@);
    if host == seq!['[', ':', ':', ']'] {
        lemma_brackets_come_off(seq![':', ':']);
        assert(host == seq!['['] + seq![':', ':'] + seq![']']);
        assert(seq![':', ':'] == "::"@);
    }
}

/// What has no port behind a last colon is no address.
pub proof fn addresses_need_a_port(address: Seq<char>, routable: Seq<char>)
    ensures
        !address.contains(':') ==> address_parts(address, routable) is None,
        forall|front: Seq<char>, back: Seq<char>|
            #![trigger front + seq![':'] + back]
            address == front + seq![':'] + back && !back.contains(':') && parsed_u32(back) is None
                ==> address_parts(address, routable) is None,
{
    lemma_last_position(address, ':');
    assert forall|front: Seq<char>, back: Seq<char>|
        #![trigger front + seq![':'] + back]
        address == front + seq![':'] + back && !back.contains(':') && parsed_u32(back)
            is None implies address_parts(address, routable) is None by {
        parts_split_again(front, ':', back);
    }
}

} // verus!
