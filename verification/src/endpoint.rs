//! The control-plane endpoint: `<host>:<port>`.

use vstd::prelude::*;

use crate::text::{
    cat2, chars_of, contains_char, decimal, is_blank, joined, law_decimal, law_joined_splits_up,
    law_pieces_join_up, lemma_piece_added, lemma_single_piece, numeric, pieces, same, split, text_of, trim, trimmed,
};

verus! {

/// The port that an endpoint without one stands for.
pub const DEFAULT_PORT: &'static str = ":6443";

/// `endpoint` with the default port where it names none.
pub open spec fn with_port(endpoint: Seq<char>) -> Seq<char> {
    if endpoint.contains(':') {
        endpoint
    } else {
        endpoint + DEFAULT_PORT@
    }
}

/// The endpoint of a cluster: the configured one, or the address of the
/// primary node where none is configured.
pub open spec fn cluster_endpoint(configured: Option<Seq<char>>, primary_ip: Seq<char>) -> Seq<char> {
    match configured {
        Some(endpoint) => if trimmed(endpoint).len() > 0 {
            with_port(trimmed(endpoint))
        } else {
            primary_ip + DEFAULT_PORT@
        },
        None => primary_ip + DEFAULT_PORT@,
    }
}

/// The host of an endpoint: an IPv6 address as a whole, else what stands before
/// the first colon.
pub open spec fn host_of(endpoint: Seq<char>) -> Seq<char> {
    if is_ipv6(endpoint) {
        endpoint
    } else {
        pieces(endpoint, ':')[0]
    }
}

/// Whether an endpoint points at the node with the address `ip`: the address is
/// its host, or it is the address with the default port.
pub open spec fn points_at(endpoint: Seq<char>, ip: Seq<char>) -> bool {
    host_of(endpoint) == ip || endpoint == ip + DEFAULT_PORT@
}

/// Whether `c` is a decimal digit.
pub open spec fn is_digit(c: char) -> bool {
    '0' <= c && c <= '9'
}

/// The number that a text of decimal digits stands for.
pub open spec fn value_of(s: Seq<char>) -> int
    decreases s.len(),
{
    if s.len() == 0 {
        0
    } else {
        10 * value_of(s.drop_last()) + (s.last() as int - '0' as int)
    }
}

/// Whether `s` is a number from 0 to 255 in at most three digits, without a
/// leading zero.
pub open spec fn is_octet(s: Seq<char>) -> bool {
    &&& 1 <= s.len() <= 3
    &&& forall|i: int| 0 <= i < s.len() ==> is_digit(#[trigger] s[i])
    &&& s.len() > 1 ==> s[0] != '0'
    &&& value_of(s) <= 255
}

/// Whether `s` is an IPv4 address in dotted decimal form.
pub open spec fn is_ipv4(s: Seq<char>) -> bool {
    let parts = pieces(s, '.');
    parts.len() == 4 && is_octet(parts[0]) && is_octet(parts[1]) && is_octet(parts[2]) && is_octet(parts[3])
}

/// Whether `c` is a hexadecimal digit.
pub open spec fn is_hex(c: char) -> bool {
    is_digit(c) || 'a' <= c <= 'f' || 'A' <= c <= 'F'
}

/// Whether `s` is one group of an IPv6 address: one to four hexadecimal digits.
pub open spec fn is_group(s: Seq<char>) -> bool {
    1 <= s.len() <= 4 && forall|i: int| 0 <= i < s.len() ==> is_hex(#[trigger] s[i])
}

/// Whether the first `n` of `parts` are groups.
pub open spec fn are_groups(parts: Seq<Seq<char>>, n: int) -> bool {
    forall|i: int| 0 <= i < n ==> is_group(#[trigger] parts[i])
}

/// How many groups `s` spells, with colons between them; an IPv4 address at the
/// end, where `dotted` lets it stand there, counts as two.
pub open spec fn group_count(s: Seq<char>, dotted: bool) -> Option<nat> {
    let parts = pieces(s, ':');
    if s.len() == 0 {
        Some(0)
    } else if are_groups(parts, parts.len() as int) {
        Some(parts.len())
    } else if dotted && are_groups(parts, parts.len() - 1) && is_ipv4(parts.last()) {
        Some(parts.len() + 1)
    } else {
        None
    }
}

/// Whether `s` has two colons at `i` that stand for the groups that the rest
/// leaves out, which is at least one.
pub open spec fn shortened_at(s: Seq<char>, i: int) -> bool {
    &&& 0 <= i < s.len() - 1
    &&& s[i] == ':'
    &&& s[i + 1] == ':'
    &&& match (group_count(s.take(i), false), group_count(s.skip(i + 2), true)) {
        (Some(before), Some(after)) => before + after <= 7,
        _ => false,
    }
}

/// Whether `s` is an IPv6 address: eight groups, or fewer with two colons for
/// those that are left out.
pub open spec fn is_ipv6(s: Seq<char>) -> bool {
    group_count(s, true) == Some(8nat) || exists|i: int| shortened_at(s, i)
}

// ---------------------------------------------------------------------------
// Laws
// ---------------------------------------------------------------------------

/// What follows the first `sep` does not change the first piece.
proof fn lemma_first_piece(s: Seq<char>, rest: Seq<char>, sep: char)
    requires
        !s.contains(sep),
    ensures
        pieces(s + seq![sep] + rest, sep)[0] == s,
        pieces(s + seq![sep] + rest, sep).len() > 1,
    decreases rest.len(),
{
    lemma_single_piece(s, sep);
    let all = s + seq![sep] + rest;
    if rest.len() == 0 {
        assert(all.drop_last() =~= s);
        assert(all.last() == sep);
    } else {
        assert(all.drop_last() =~= s + seq![sep] + rest.drop_last());
        lemma_first_piece(s, rest.drop_last(), sep);
    }
}

/// A cluster's endpoint always names a port, and naming the port again
/// changes nothing.
pub proof fn law_endpoint_has_port(configured: Option<Seq<char>>, primary_ip: Seq<char>)
    ensures
        cluster_endpoint(configured, primary_ip).contains(':'),
        with_port(cluster_endpoint(configured, primary_ip)) == cluster_endpoint(configured, primary_ip),
{
    reveal_strlit(":6443");
    let base = match configured {
        Some(endpoint) => if trimmed(endpoint).len() > 0 {
            trimmed(endpoint)
        } else {
            primary_ip
        },
        None => primary_ip,
    };
    let full = base + DEFAULT_PORT@;
    assert(full[base.len() as int] == ':');
}

/// The host of an endpoint that was given without a port is what was given.
pub proof fn law_host_of_bare_endpoint(endpoint: Seq<char>)
    requires
        !endpoint.contains(':'),
    ensures
        host_of(with_port(endpoint)) == endpoint,
{
    reveal_strlit(":6443");
    reveal_strlit("6443");
    assert(endpoint + DEFAULT_PORT@ =~= endpoint + seq![':'] + "6443"@);
    lemma_first_piece(endpoint, "6443"@, ':');
    lemma_one_colon(endpoint, "6443"@);
}

/// A text with one colon is no IPv6 address.
proof fn lemma_one_colon(host: Seq<char>, port: Seq<char>)
    requires
        !host.contains(':'),
        !port.contains(':'),
    ensures
        !is_ipv6(host + seq![':'] + port),
{
    let s = host + seq![':'] + port;
    lemma_single_piece(host, ':');
    lemma_piece_added(host, port, ':');
    assert(pieces(s, ':').len() == 2);
    assert forall|i: int| !shortened_at(s, i) by {
        if 0 <= i < s.len() - 1 && s[i] == ':' && s[i + 1] == ':' {
            if i < host.len() {
                assert(host.contains(host[i]));
            } else {
                assert(s[i + 1] == port[i - host.len()]);
                assert(port.contains(port[i - host.len()]));
            }
        }
    }
}

/// A host and a port make an endpoint with that host.
pub proof fn law_host_of_endpoint(host: Seq<char>, port: Seq<char>)
    requires
        !host.contains(':'),
        !port.contains(':'),
    ensures
        host_of(host + seq![':'] + port) == host,
{
    lemma_first_piece(host, port, ':');
    lemma_one_colon(host, port);
}

/// An endpoint that was not configured points at the primary node.
pub proof fn law_default_endpoint_is_own(primary_ip: Seq<char>)
    ensures
        points_at(cluster_endpoint(None, primary_ip), primary_ip),
{
}

/// For an address without a colon, only the host of an endpoint counts.
pub proof fn law_points_by_host(endpoint: Seq<char>, ip: Seq<char>)
    requires
        !ip.contains(':'),
    ensures
        points_at(endpoint, ip) <==> host_of(endpoint) == ip,
{
    reveal_strlit(":6443");
    law_host_of_bare_endpoint(ip);
}

/// The endpoint of a cluster is the configured one without the white space
/// around it; port 6443 is added where it names none. It is the address of the
/// primary node at that port where none is configured, or a blank one.
pub proof fn law_cluster_endpoint(host: Seq<char>, primary_ip: Seq<char>)
    ensures
        cluster_endpoint(None, primary_ip) == primary_ip + ":6443"@,
        trimmed(host).len() == 0 ==> cluster_endpoint(Some(host), primary_ip) == primary_ip + ":6443"@,
        trimmed(host).len() > 0 && trimmed(host).contains(':') ==> cluster_endpoint(Some(host), primary_ip)
            == trimmed(host),
        trimmed(host).len() > 0 && !trimmed(host).contains(':') ==> cluster_endpoint(Some(host), primary_ip)
            == trimmed(host) + ":6443"@,
        with_port(host) == (if host.contains(':') {
            host
        } else {
            host + ":6443"@
        }),
{
}

proof fn lemma_octet_value(s: Seq<char>)
    ensures
        value_of(s) == numeric(s),
    decreases s.len(),
{
    if s.len() > 0 {
        lemma_octet_value(s.drop_last());
    }
}

proof fn lemma_octet_of(n: nat)
    requires
        n <= 255,
    ensures
        is_octet(decimal(n)),
        !decimal(n).contains('.'),
{
    let s = decimal(n);
    law_decimal(n);
    lemma_octet_value(s);
    reveal_with_fuel(decimal, 4);
    assert forall|i: int| 0 <= i < s.len() implies is_digit(#[trigger] s[i]) && s[i] != '.' by {
        assert('0' <= decimal(n)[i] <= '9');
    }
}

/// Four numbers up to 255 with dots between them are an IPv4 address.
pub proof fn law_dotted_numbers_are_an_address(a: nat, b: nat, c: nat, d: nat)
    requires
        a <= 255,
        b <= 255,
        c <= 255,
        d <= 255,
    ensures
        is_ipv4(decimal(a) + seq!['.'] + decimal(b) + seq!['.'] + decimal(c) + seq!['.'] + decimal(d)),
{
    lemma_octet_of(a);
    lemma_octet_of(b);
    lemma_octet_of(c);
    lemma_octet_of(d);
    lemma_single_piece(decimal(a), '.');
    lemma_piece_added(decimal(a), decimal(b), '.');
    let two = decimal(a) + seq!['.'] + decimal(b);
    lemma_piece_added(two, decimal(c), '.');
    let three = two + seq!['.'] + decimal(c);
    lemma_piece_added(three, decimal(d), '.');
}

/// An IPv4 address is four numbers up to 255 with dots between them, each in
/// digits and without a leading zero, and nothing else is.
pub proof fn law_address_is_dotted_numbers(s: Seq<char>, i: int)
    requires
        is_ipv4(s),
        0 <= i < 4,
    ensures
        pieces(s, '.').len() == 4,
        0 <= numeric(pieces(s, '.')[i]) <= 255,
        1 <= pieces(s, '.')[i].len() <= 3,
        pieces(s, '.')[i].len() > 1 ==> pieces(s, '.')[i][0] != '0',
        forall|k: int| 0 <= k < pieces(s, '.')[i].len() ==> '0' <= #[trigger] pieces(s, '.')[i][k] <= '9',
{
    let part = pieces(s, '.')[i];
    assert(is_octet(part));
    lemma_octet_value(part);
    lemma_numeric_not_negative(part);
    assert forall|k: int| 0 <= k < part.len() implies '0' <= #[trigger] pieces(s, '.')[i][k] <= '9' by {
        assert(is_digit(part[k]));
    }
}

proof fn lemma_numeric_not_negative(s: Seq<char>)
    requires
        forall|i: int| 0 <= i < s.len() ==> is_digit(#[trigger] s[i]),
    ensures
        numeric(s) >= 0,
    decreases s.len(),
{
    if s.len() > 0 {
        let front = s.drop_last();
        assert forall|i: int| 0 <= i < front.len() implies is_digit(#[trigger] front[i]) by {
            assert(front[i] == s[i]);
        }
        assert(is_digit(s[s.len() - 1]));
        lemma_numeric_not_negative(front);
    }
}

/// Eight groups of one to four hexadecimal digits with colons between them are
/// an IPv6 address.
pub proof fn law_eight_groups_are_an_address(groups: Seq<Seq<char>>)
    requires
        groups.len() == 8,
        forall|i: int| 0 <= i < 8 ==> is_group(#[trigger] groups[i]),
    ensures
        is_ipv6(joined(groups, seq![':'])),
{
    let s = joined(groups, seq![':']);
    assert forall|i: int| 0 <= i < groups.len() implies !(#[trigger] groups[i]).contains(':') by {
        assert(is_group(groups[i]));
        assert forall|k: int| 0 <= k < groups[i].len() implies groups[i][k] != ':' by {
            assert(is_hex(groups[i][k]));
        }
    }
    law_joined_splits_up(groups, ':');
    assert(s.len() > 0) by {
        assert(is_group(groups[7]));
        assert(s == joined(groups.drop_last(), seq![':']) + seq![':'] + groups.last());
    }
    assert(are_groups(pieces(s, ':'), 8));
}

/// A group of an IPv6 address is one to four hexadecimal digits, of either case.
pub proof fn law_group_is_hexadecimal(s: Seq<char>)
    ensures
        is_group(s) <==> 1 <= s.len() <= 4 && forall|i: int|
            0 <= i < s.len() ==> '0' <= #[trigger] s[i] <= '9' || 'a' <= s[i] <= 'f' || 'A' <= s[i] <= 'F',
{
    if is_group(s) {
        assert forall|i: int| 0 <= i < s.len() implies '0' <= #[trigger] s[i] <= '9' || 'a' <= s[i] <= 'f' || 'A'
            <= s[i] <= 'F' by {
            assert(is_hex(s[i]));
        }
    }
    if 1 <= s.len() <= 4 && forall|i: int|
        0 <= i < s.len() ==> '0' <= #[trigger] s[i] <= '9' || 'a' <= s[i] <= 'f' || 'A' <= s[i] <= 'F' {
        assert forall|i: int| 0 <= i < s.len() implies is_hex(#[trigger] s[i]) by {}
    }
}

proof fn lemma_groups_counted(groups: Seq<Seq<char>>, dotted: bool)
    requires
        forall|i: int| 0 <= i < groups.len() ==> is_group(#[trigger] groups[i]),
    ensures
        group_count(joined(groups, seq![':']), dotted) == Some(groups.len()),
        groups.len() > 0 ==> joined(groups, seq![':']).len() > 0 && joined(groups, seq![':']).last() != ':',
        forall|i: int|
            0 <= i < joined(groups, seq![':']).len() - 1 ==> !(#[trigger] joined(groups, seq![':'])[i] == ':' && joined(
                groups,
                seq![':'],
            )[i + 1] == ':'),
    decreases groups.len(),
{
    let s = joined(groups, seq![':']);
    if groups.len() > 0 {
        let front = groups.drop_last();
        let last = groups.last();
        let head = joined(front, seq![':']);
        assert forall|i: int| 0 <= i < front.len() implies is_group(#[trigger] front[i]) by {
            assert(front[i] == groups[i]);
        }
        lemma_groups_counted(front, dotted);
        assert forall|i: int| 0 <= i < groups.len() implies !(#[trigger] groups[i]).contains(':') by {
            assert(is_group(groups[i]));
            assert forall|k: int| 0 <= k < groups[i].len() implies groups[i][k] != ':' by {
                assert(is_hex(groups[i][k]));
            }
        }
        assert(is_group(groups[groups.len() - 1]));
        assert(!groups[groups.len() - 1].contains(':'));
        assert forall|k: int| 0 <= k < last.len() implies last[k] != ':' by {
            assert(last.contains(last[k]));
        }
        law_joined_splits_up(groups, ':');
        if front.len() == 0 {
            assert(s =~= last);
        } else {
            assert(s =~= head + seq![':'] + last);
            assert(s.last() == last[last.len() - 1]);
            assert(head[head.len() - 1] != ':');
            assert forall|i: int| 0 <= i < s.len() - 1 implies !(#[trigger] s[i] == ':' && s[i + 1] == ':') by {
                if i < head.len() - 1 {
                    assert(s[i] == head[i] && s[i + 1] == head[i + 1]);
                } else if i == head.len() - 1 {
                    assert(s[i] == head[i]);
                } else {
                    assert(s[i + 1] == last[i - head.len()]);
                }
            }
        }
        assert(are_groups(pieces(s, ':'), pieces(s, ':').len() as int));
    }
}

/// Groups with colons between them are an IPv6 address if and only if there are
/// eight of them.
pub proof fn law_only_eight_groups_are_an_address(groups: Seq<Seq<char>>)
    requires
        forall|i: int| 0 <= i < groups.len() ==> is_group(#[trigger] groups[i]),
    ensures
        is_ipv6(joined(groups, seq![':'])) <==> groups.len() == 8,
{
    let s = joined(groups, seq![':']);
    lemma_groups_counted(groups, true);
    assert forall|i: int| !shortened_at(s, i) by {
        if 0 <= i < s.len() - 1 {
            assert(!(s[i] == ':' && s[i + 1] == ':'));
        }
    }
}

/// Up to seven groups with two colons somewhere between, before or behind them
/// are an IPv6 address: the colons stand for the groups that are left out.
pub proof fn law_left_out_groups_are_understood(front: Seq<Seq<char>>, back: Seq<Seq<char>>)
    requires
        forall|i: int| 0 <= i < front.len() ==> is_group(#[trigger] front[i]),
        forall|i: int| 0 <= i < back.len() ==> is_group(#[trigger] back[i]),
        front.len() + back.len() <= 7,
    ensures
        is_ipv6(joined(front, seq![':']) + seq![':', ':'] + joined(back, seq![':'])),
{
    let head = joined(front, seq![':']);
    let tail = joined(back, seq![':']);
    let s = head + seq![':', ':'] + tail;
    lemma_groups_counted(front, false);
    lemma_groups_counted(back, true);
    let i = head.len() as int;
    assert(s.take(i) =~= head);
    assert(s.skip(i + 2) =~= tail);
    assert(s[i] == ':' && s[i + 1] == ':');
    assert(shortened_at(s, i));
}

/// Whether every character of a text may stand in an IPv6 address.
pub open spec fn is_spelled(s: Seq<char>) -> bool {
    forall|i: int|
        0 <= i < s.len() ==> '0' <= #[trigger] s[i] <= '9' || 'a' <= s[i] <= 'f' || 'A' <= s[i] <= 'F' || s[i] == ':'
            || s[i] == '.'
}

proof fn lemma_joined_is_spelled(parts: Seq<Seq<char>>, sep: char)
    requires
        sep == ':' || sep == '.',
        forall|i: int| 0 <= i < parts.len() ==> is_spelled(#[trigger] parts[i]),
    ensures
        is_spelled(joined(parts, seq![sep])),
    decreases parts.len(),
{
    if parts.len() > 0 {
        let front = parts.drop_last();
        assert forall|i: int| 0 <= i < front.len() implies is_spelled(#[trigger] front[i]) by {
            assert(front[i] == parts[i]);
        }
        assert(is_spelled(parts[parts.len() - 1]));
        lemma_joined_is_spelled(front, sep);
        let head = joined(front, seq![sep]);
        let last = parts.last();
        let s = joined(parts, seq![sep]);
        if front.len() > 0 {
            assert(s =~= head + seq![sep] + last);
            assert forall|i: int| 0 <= i < s.len() implies '0' <= #[trigger] s[i] <= '9' || 'a' <= s[i] <= 'f' || 'A'
                <= s[i] <= 'F' || s[i] == ':' || s[i] == '.' by {
                if i < head.len() {
                    assert(s[i] == head[i]);
                } else if i > head.len() {
                    assert(s[i] == last[i - head.len() - 1]);
                }
            }
        } else {
            assert(s =~= last);
        }
    }
}

proof fn lemma_group_is_spelled(s: Seq<char>)
    ensures
        is_group(s) ==> is_spelled(s),
        is_octet(s) ==> is_spelled(s),
{
    if is_group(s) {
        law_group_is_hexadecimal(s);
    }
    if is_octet(s) {
        assert forall|i: int| 0 <= i < s.len() implies '0' <= #[trigger] s[i] <= '9' || 'a' <= s[i] <= 'f' || 'A'
            <= s[i] <= 'F' || s[i] == ':' || s[i] == '.' by {
            assert(is_digit(s[i]));
        }
    }
}

proof fn lemma_counted_is_spelled(s: Seq<char>, dotted: bool)
    ensures
        group_count(s, dotted) is Some ==> is_spelled(s),
{
    let parts = pieces(s, ':');
    if s.len() > 0 && group_count(s, dotted) is Some {
        law_pieces_join_up(s, ':');
        assert forall|i: int| 0 <= i < parts.len() implies is_spelled(#[trigger] parts[i]) by {
            lemma_group_is_spelled(parts[i]);
            if !is_group(parts[i]) {
                let quad = parts[i];
                let octets = pieces(quad, '.');
                law_pieces_join_up(quad, '.');
                assert forall|k: int| 0 <= k < octets.len() implies is_spelled(#[trigger] octets[k]) by {
                    lemma_group_is_spelled(octets[k]);
                }
                lemma_joined_is_spelled(octets, '.');
            }
        }
        lemma_joined_is_spelled(parts, ':');
    }
}

/// An IPv6 address is spelled with hexadecimal digits, colons and dots alone.
pub proof fn law_ipv6_is_spelled(s: Seq<char>)
    requires
        is_ipv6(s),
    ensures
        is_spelled(s),
{
    if group_count(s, true) == Some(8nat) {
        lemma_counted_is_spelled(s, true);
    } else {
        let i = choose|i: int| shortened_at(s, i);
        let head = s.take(i);
        let tail = s.skip(i + 2);
        lemma_counted_is_spelled(head, false);
        lemma_counted_is_spelled(tail, true);
        assert forall|k: int| 0 <= k < s.len() implies '0' <= #[trigger] s[k] <= '9' || 'a' <= s[k] <= 'f' || 'A'
            <= s[k] <= 'F' || s[k] == ':' || s[k] == '.' by {
            if k < i {
                assert(s[k] == head[k]);
            } else if k > i + 1 {
                assert(s[k] == tail[k - i - 2]);
            }
        }
    }
}

// ---------------------------------------------------------------------------
// Code
// ---------------------------------------------------------------------------

/// `endpoint` with the default port where it names none.
pub fn add_port(endpoint: &str) -> (r: String)
    ensures
        r@ == with_port(endpoint@),
{
    if contains_char(endpoint, ':') {
        endpoint.to_owned()
    } else {
        cat2(endpoint, DEFAULT_PORT)
    }
}

/// The endpoint of a cluster.
pub fn control_plane_endpoint(configured: &Option<String>, primary_ip: &str) -> (r: String)
    ensures
        r@ == cluster_endpoint(configured.deep_view(), primary_ip@),
{
    match configured {
        Some(endpoint) => if is_blank(endpoint.as_str()) {
            cat2(primary_ip, DEFAULT_PORT)
        } else {
            add_port(trim(endpoint.as_str()).as_str())
        },
        None => cat2(primary_ip, DEFAULT_PORT),
    }
}

/// The host of an endpoint.
pub fn endpoint_host(endpoint: &str) -> (r: String)
    ensures
        r@ == host_of(endpoint@),
{
    if ipv6(endpoint) {
        return endpoint.to_owned();
    }
    let parts = split(endpoint, ':');
    assert(parts.deep_view()[0] == parts@[0]@);
    parts[0].clone()
}

/// Whether `s` is a number from 0 to 255 without a leading zero.
fn octet(s: &str) -> (r: bool)
    ensures
        r == is_octet(s@),
{
    let chars = chars_of(s);
    if chars.len() == 0 || chars.len() > 3 {
        return false;
    }
    let mut value: u32 = 0;
    let mut i: usize = 0;
    assert(s@.take(0).len() == 0);
    while i < chars.len()
        invariant
            chars@ == s@,
            1 <= chars@.len() <= 3,
            i <= chars@.len(),
            forall|j: int| 0 <= j < i ==> is_digit(#[trigger] s@[j]),
            value == value_of(s@.take(i as int)),
            i == 0 ==> value == 0,
            i == 1 ==> value <= 9,
            i == 2 ==> value <= 99,
            i == 3 ==> value <= 999,
        decreases chars@.len() - i,
    {
        let c = chars[i];
        if c < '0' || c > '9' {
            assert(!is_digit(s@[i as int]));
            return false;
        }
        assert(s@.take(i + 1).drop_last() =~= s@.take(i as int));
        assert(s@.take(i + 1).last() == c);
        value = 10 * value + (c as u32 - 48);
        i = i + 1;
    }
    assert(s@.take(i as int) =~= s@);
    if chars.len() > 1 && chars[0] == '0' {
        return false;
    }
    value <= 255
}

/// Whether `s` is an IPv4 address in dotted decimal form.
pub fn ipv4(s: &str) -> (r: bool)
    ensures
        r == is_ipv4(s@),
{
    let parts = split(s, '.');
    if parts.len() != 4 {
        return false;
    }
    assert(forall|i: int| 0 <= i < 4 ==> parts.deep_view()[i] == (#[trigger] parts@[i])@);
    octet(parts[0].as_str()) && octet(parts[1].as_str()) && octet(parts[2].as_str()) && octet(
        parts[3].as_str(),
    )
}

/// Whether an endpoint points at the node with the address `ip`.
pub fn endpoint_is(endpoint: &str, ip: &str) -> (r: bool)
    ensures
        r == points_at(endpoint@, ip@),
{
    same(endpoint_host(endpoint).as_str(), ip) || same(endpoint, cat2(ip, DEFAULT_PORT).as_str())
}

/// Whether `s` is one group of an IPv6 address.
fn group(s: &str) -> (r: bool)
    ensures
        r == is_group(s@),
{
    let chars = chars_of(s);
    if chars.len() == 0 || chars.len() > 4 {
        return false;
    }
    let mut i: usize = 0;
    while i < chars.len()
        invariant
            chars@ == s@,
            i <= chars@.len(),
            forall|j: int| 0 <= j < i ==> is_hex(#[trigger] s@[j]),
        decreases chars@.len() - i,
    {
        let c = chars[i];
        if !('0' <= c && c <= '9' || 'a' <= c && c <= 'f' || 'A' <= c && c <= 'F') {
            assert(!is_hex(s@[i as int]));
            return false;
        }
        i = i + 1;
    }
    true
}

/// How many groups `s` spells.
fn count_groups(s: &str, dotted: bool) -> (r: Option<usize>)
    ensures
        match r {
            Some(n) => group_count(s@, dotted) == Some(n as nat),
            None => group_count(s@, dotted) is None || group_count(s@, dotted)->0 > 8,
        },
{
    if s.is_empty() {
        return Some(0);
    }
    let parts = split(s, ':');
    let ghost all = parts.deep_view();
    assert(all.len() == parts@.len());
    if parts.len() > 8 {
        return None;
    }
    let mut i: usize = 0;
    while i < parts.len() - 1
        invariant
            i <= parts@.len() - 1,
            all == parts.deep_view(),
            all == pieces(s@, ':'),
            all.len() == parts@.len(),
            are_groups(all, i as int),
            s@.len() > 0,
        decreases parts@.len() - i,
    {
        assert(all[i as int] == parts@[i as int]@);
        if !group(parts[i].as_str()) {
            assert(!is_group(all[i as int]));
            return None;
        }
        i = i + 1;
    }
    let last = parts[i].as_str();
    assert(all[i as int] == last@);
    assert(all.last() == last@);
    if group(last) {
        Some(parts.len())
    } else if dotted && ipv4(last) {
        assert(!is_group(all[i as int]));
        Some(parts.len() + 1)
    } else {
        assert(!is_group(all[i as int]));
        None
    }
}

/// Whether `s` is an IPv6 address.
pub fn ipv6(s: &str) -> (r: bool)
    ensures
        r == is_ipv6(s@),
{
    if let Some(n) = count_groups(s, true) {
        if n == 8 {
            return true;
        }
    }
    let chars = chars_of(s);
    let mut i: usize = 0;
    while i < chars.len()
        invariant
            chars@ == s@,
            i <= chars@.len(),
            group_count(s@, true) != Some(8nat),
            forall|k: int| 0 <= k < i ==> !shortened_at(s@, k),
        decreases chars@.len() - i,
    {
        if i + 1 < chars.len() && chars[i] == ':' && chars[i + 1] == ':' {
            let before = text_of(&chars, 0, i);
            let after = text_of(&chars, i + 2, chars.len());
            assert(before@ =~= s@.take(i as int));
            assert(after@ =~= s@.skip(i + 2));
            if let (Some(a), Some(b)) = (
                count_groups(before.as_str(), false),
                count_groups(after.as_str(), true),
            ) {
                if a <= 7 && b <= 7 - a {
                    assert(shortened_at(s@, i as int));
                    return true;
                }
            }
        }
        i = i + 1;
    }
    false
}

} // verus!
