//! Reading the text of a network address gives the address back.

use vstd::prelude::*;
use crate::status_models::network_address::{
    address_parsed, address_text, all_hex_groups, colons_at, double_colon, groups_parsed,
    groups_text, hex_values, host_port_parsed, ipv4_parsed, ipv4_text, ipv6_parsed, ipv6_text,
    is_ipv4_mapped, is_octet_text, lemma_double_colon, lemma_double_colon_is,
    lemma_longest_zero_run, longest_zero_run, mapped_octets, port_parsed, quad_groups,
    scope_parsed, scope_text, scoped_parsed, socket_parsed, socket_v4_parsed, socket_v6_parsed,
    NetworkAddressView, ParseError,
};
use crate::text::{
    decimal_text, decimal_value, hex_text, hex_value, is_decimal, is_digit, is_hex_digit,
    is_hex_group, is_lower_hex_digit, is_plain_decimal, is_plain_hex, join, lemma_decimal_text,
    lemma_hex_text, lemma_hex_value_bound, lemma_index_of_absent, lemma_index_of_first_is,
    lemma_index_of_last_is, lemma_plain_decimal, lemma_plain_hex, lemma_split_first,
    lemma_split_join, lemma_split_one, split,
};

verus! {

/// The text of an IPv4 address spells that address; it starts with a digit
/// and holds only digits and dots.
pub proof fn lemma_ipv4_text(octets: Seq<u8>)
    requires
        octets.len() == 4,
    ensures
        ipv4_parsed(ipv4_text(octets)) == Some(octets),
        ipv4_text(octets).len() > 0,
        is_digit(ipv4_text(octets)[0]),
        forall|j: int|
            0 <= j < ipv4_text(octets).len() ==> is_digit(#[trigger] ipv4_text(octets)[j])
                || ipv4_text(octets)[j] == '.',
{
    let a = decimal_text(octets[0] as nat);
    let b = decimal_text(octets[1] as nat);
    let c = decimal_text(octets[2] as nat);
    let d = decimal_text(octets[3] as nat);
    lemma_decimal_text(octets[0] as nat);
    lemma_decimal_text(octets[1] as nat);
    lemma_decimal_text(octets[2] as nat);
    lemma_decimal_text(octets[3] as nat);
    let t = ipv4_text(octets);
    let r2 = c + seq!['.'] + d;
    let r1 = b + seq!['.'] + r2;
    assert(t =~= a + seq!['.'] + r1);
    lemma_split_first(a, r1, '.');
    lemma_split_first(b, r2, '.');
    lemma_split_first(c, d, '.');
    lemma_split_one(d, '.');
    assert(split(t, '.') =~= seq![a, b, c, d]);
    assert(is_octet_text(a));
    assert(is_octet_text(b));
    assert(is_octet_text(c));
    assert(is_octet_text(d));
    assert(ipv4_parsed(t)->0 =~= octets);
    assert(t[0] == a[0]);
}

/// The text of groups holds only hexadecimal digits and colons, never two
/// colons side by side; where there are groups it starts and ends with a
/// digit, and it splits at its colons into the texts of the groups.
pub proof fn lemma_groups_text(groups: Seq<u16>)
    ensures
        forall|j: int|
            0 <= j < groups_text(groups).len() ==> is_hex_digit(#[trigger] groups_text(groups)[j])
                || groups_text(groups)[j] == ':',
        forall|j: int| !colons_at(groups_text(groups), j),
        groups.len() > 0 ==> groups_text(groups).len() > 0 && is_hex_digit(groups_text(groups)[0])
            && is_hex_digit(groups_text(groups).last()),
        groups.len() > 0 ==> split(groups_text(groups), ':') == Seq::new(
            groups.len(),
            |i: int| hex_text(groups[i] as nat),
        ),
    decreases groups.len(),
{
    let t = groups_text(groups);
    if groups.len() == 0 {
    } else if groups.len() == 1 {
        lemma_hex_text(groups[0] as nat);
        lemma_split_one(t, ':');
        assert(split(t, ':') =~= Seq::new(groups.len(), |i: int| hex_text(groups[i] as nat)));
    } else {
        let h = hex_text(groups[0] as nat);
        let rest = groups.drop_first();
        let r = groups_text(rest);
        lemma_hex_text(groups[0] as nat);
        lemma_groups_text(rest);
        assert(t == h + seq![':'] + r);
        assert forall|j: int| 0 <= j < t.len() implies is_hex_digit(#[trigger] t[j]) || t[j]
            == ':' by {
            if j < h.len() {
                assert(t[j] == h[j]);
            } else if j > h.len() {
                assert(t[j] == r[j - h.len() - 1]);
            }
        }
        assert forall|j: int| !colons_at(t, j) by {
            if colons_at(t, j) {
                if j < h.len() {
                    assert(t[j] == h[j]);
                } else if j == h.len() {
                    assert(t[j + 1] == r[0]);
                } else {
                    assert(t[j] == r[j - h.len() - 1]);
                    assert(t[j + 1] == r[j - h.len()]);
                    assert(colons_at(r, j - h.len() - 1));
                }
            }
        }
        assert(t[0] == h[0]);
        assert(t.last() == r.last());
        lemma_split_first(h, r, ':');
        assert(split(t, ':') =~= Seq::new(groups.len(), |i: int| hex_text(groups[i] as nat))) by {
            let want = Seq::new(groups.len(), |i: int| hex_text(groups[i] as nat));
            let got = seq![h] + split(r, ':');
            assert(got.len() == want.len());
            assert forall|i: int| 0 <= i < want.len() implies got[i] == want[i] by {
                if i > 0 {
                    assert(got[i] == split(r, ':')[i - 1]);
                    assert(rest[i - 1] == groups[i]);
                }
            }
        }
    }
}

/// The text of groups spells those groups, whether or not an IPv4 address
/// may end the list.
pub proof fn lemma_groups_parsed(groups: Seq<u16>, quad: bool)
    ensures
        groups_parsed(groups_text(groups), quad) == Some(groups),
{
    let t = groups_text(groups);
    lemma_groups_text(groups);
    if groups.len() == 0 {
        assert(groups =~= Seq::empty());
    } else {
        let parts = split(t, ':');
        assert(parts.len() == groups.len());
        assert forall|i: int| 0 <= i < parts.len() implies is_hex_group(#[trigger] parts[i]) by {
            lemma_hex_text(groups[i] as nat);
        }
        assert(all_hex_groups(parts));
        let last = parts.last();
        assert(last == hex_text(groups.last() as nat));
        lemma_hex_text(groups.last() as nat);
        lemma_split_one(last, '.');
        assert(ipv4_parsed(last) is None);
        assert(hex_values(parts) =~= groups) by {
            assert forall|i: int| 0 <= i < groups.len() implies hex_values(parts)[i]
                == groups[i] by {
                lemma_hex_text(groups[i] as nat);
            }
        }
    }
}

/// In a text made of a first part, `::` and a second part, where the first
/// part has no two colons side by side and does not end with a colon, the
/// first two colons side by side are the ones in the middle.
pub proof fn lemma_double_colon_between(a: Seq<char>, b: Seq<char>)
    requires
        forall|j: int| !colons_at(a, j),
        a.len() == 0 || a.last() != ':',
    ensures
        double_colon(a + seq![':', ':'] + b) == Some(a.len() as int),
        (a + seq![':', ':'] + b).take(a.len() as int) == a,
        (a + seq![':', ':'] + b).skip(a.len() as int + 2) == b,
{
    let s = a + seq![':', ':'] + b;
    let k = a.len() as int;
    assert(colons_at(s, k));
    assert forall|j: int| 0 <= j < k implies !colons_at(s, j) by {
        if colons_at(s, j) {
            if j + 1 < k {
                assert(s[j] == a[j]);
                assert(s[j + 1] == a[j + 1]);
                assert(colons_at(a, j));
            } else {
                assert(s[j] == a.last());
            }
        }
    }
    lemma_double_colon_is(s, k);
    assert(s.take(k) =~= a);
    assert(s.skip(k + 2) =~= b);
}

/// A text of hexadecimal digits, colons and dots, as the text of an IPv6
/// address is.
pub open spec fn is_ipv6_chars(t: Seq<char>) -> bool {
    forall|j: int| 0 <= j < t.len() ==> is_hex_digit(#[trigger] t[j]) || t[j] == ':' || t[j] == '.'
}

/// Two texts of such characters with `::` between them are such a text.
proof fn lemma_ipv6_chars_between(a: Seq<char>, b: Seq<char>)
    requires
        is_ipv6_chars(a),
        is_ipv6_chars(b),
    ensures
        is_ipv6_chars(a + seq![':', ':'] + b),
{
    let t = a + seq![':', ':'] + b;
    assert forall|j: int| 0 <= j < t.len() implies is_hex_digit(#[trigger] t[j]) || t[j] == ':'
        || t[j] == '.' by {
        if j < a.len() {
            assert(t[j] == a[j]);
        } else if j >= a.len() + 2 {
            assert(t[j] == b[j - a.len() - 2]);
        }
    }
}

/// Groups, `::` and more groups spell the address that starts with the
/// first, ends with the last and has zero groups between them.
proof fn lemma_ipv6_between(a: Seq<char>, b: Seq<char>, head: Seq<u16>, tail: Seq<u16>)
    requires
        forall|j: int| !colons_at(a, j),
        a.len() == 0 || a.last() != ':',
        groups_parsed(a, false) == Some(head),
        groups_parsed(b, true) == Some(tail),
        head.len() + tail.len() <= 7,
    ensures
        ipv6_parsed(a + seq![':', ':'] + b) == Some(
            head + Seq::new((8 - head.len() - tail.len()) as nat, |i: int| 0u16) + tail,
        ),
{
    lemma_double_colon_between(a, b);
}

/// The group of all ones, a colon and an IPv4 address spell three groups.
proof fn lemma_mapped_tail(octets: Seq<u8>)
    requires
        octets.len() == 4,
    ensures
        groups_parsed(hex_text(0xffff) + seq![':'] + ipv4_text(octets), true) == Some(
            seq![0xffffu16] + quad_groups(octets),
        ),
{
    let quad = ipv4_text(octets);
    let ffff = hex_text(0xffff);
    let tail = ffff + seq![':'] + quad;
    lemma_ipv4_text(octets);
    lemma_hex_text(0xffff);
    lemma_split_first(ffff, quad, ':');
    lemma_split_one(quad, ':');
    let parts = split(tail, ':');
    assert(parts =~= seq![ffff, quad]);
    assert(parts.last() == quad);
    assert(parts.drop_last() =~= seq![ffff]);
    assert(all_hex_groups(parts.drop_last()));
    assert(hex_values(parts.drop_last()) =~= seq![0xffffu16]);
    assert(tail.len() > 0);
}

/// `::ffff:` and an IPv4 address spell the IPv6 address that stands for it.
proof fn lemma_ipv6_mapped(groups: Seq<u16>)
    requires
        groups.len() == 8,
        is_ipv4_mapped(groups),
    ensures
        ipv6_parsed(
            seq![':', ':'] + hex_text(0xffff) + seq![':'] + ipv4_text(mapped_octets(groups)),
        ) == Some(groups),
{
    let octets = mapped_octets(groups);
    let tail = hex_text(0xffff) + seq![':'] + ipv4_text(octets);
    let t = seq![':', ':'] + hex_text(0xffff) + seq![':'] + ipv4_text(octets);
    let empty = Seq::<char>::empty();
    let got = seq![0xffffu16] + quad_groups(octets);
    lemma_mapped_tail(octets);
    assert(quad_groups(octets) =~= seq![groups[6], groups[7]]);
    assert forall|j: int| !colons_at(empty, j) by {}
    assert(groups_parsed(empty, false) == Some(Seq::<u16>::empty()));
    lemma_ipv6_between(empty, tail, Seq::<u16>::empty(), got);
    assert(t =~= empty + seq![':', ':'] + tail);
    assert(Seq::<u16>::empty() + Seq::new(5, |i: int| 0u16) + got =~= groups);
}

/// The groups before a run of zero groups, `::` and the groups after the
/// run spell the whole address.
proof fn lemma_ipv6_compressed(groups: Seq<u16>, start: int, len: int)
    requires
        groups.len() == 8,
        0 <= start,
        1 <= len,
        start + len <= 8,
        forall|j: int| start <= j < start + len ==> groups[j] == 0,
    ensures
        ipv6_parsed(
            groups_text(groups.take(start)) + seq![':', ':'] + groups_text(
                groups.skip(start + len),
            ),
        ) == Some(groups),
{
    let head = groups.take(start);
    let tail = groups.skip(start + len);
    lemma_groups_text(head);
    lemma_groups_parsed(head, false);
    lemma_groups_parsed(tail, true);
    lemma_ipv6_between(groups_text(head), groups_text(tail), head, tail);
    assert(head + Seq::new((8 - head.len() - tail.len()) as nat, |i: int| 0u16) + tail =~= groups);
}

/// Eight groups written out spell the address.
proof fn lemma_ipv6_plain(groups: Seq<u16>)
    requires
        groups.len() == 8,
    ensures
        ipv6_parsed(groups_text(groups)) == Some(groups),
{
    let t = groups_text(groups);
    lemma_groups_text(groups);
    lemma_groups_parsed(groups, true);
    lemma_double_colon(t);
    assert(double_colon(t) is None);
}

/// The text of an IPv6 address holds only hexadecimal digits, colons and
/// dots.
pub proof fn lemma_ipv6_text_chars(groups: Seq<u16>)
    requires
        groups.len() == 8,
    ensures
        is_ipv6_chars(ipv6_text(groups)),
{
    let run = longest_zero_run(groups, 8);
    if is_ipv4_mapped(groups) {
        let quad = ipv4_text(mapped_octets(groups));
        let ffff = hex_text(0xffff);
        let tail = ffff + seq![':'] + quad;
        lemma_ipv4_text(mapped_octets(groups));
        lemma_hex_text(0xffff);
        assert(is_ipv6_chars(tail)) by {
            assert forall|j: int| 0 <= j < tail.len() implies is_hex_digit(#[trigger] tail[j])
                || tail[j] == ':' || tail[j] == '.' by {
                if j < ffff.len() {
                    assert(tail[j] == ffff[j]);
                } else if j > ffff.len() {
                    assert(tail[j] == quad[j - ffff.len() - 1]);
                }
            }
        }
        lemma_ipv6_chars_between(Seq::<char>::empty(), tail);
        assert(ipv6_text(groups) =~= Seq::<char>::empty() + seq![':', ':'] + tail);
    } else if run.1 >= 2 {
        lemma_groups_text(groups.take(run.0));
        lemma_groups_text(groups.skip(run.0 + run.1));
        lemma_ipv6_chars_between(
            groups_text(groups.take(run.0)),
            groups_text(groups.skip(run.0 + run.1)),
        );
    } else {
        lemma_groups_text(groups);
    }
}

/// The text of an IPv6 address spells that address.
pub proof fn lemma_ipv6_text(groups: Seq<u16>)
    requires
        groups.len() == 8,
    ensures
        ipv6_parsed(ipv6_text(groups)) == Some(groups),
{
    let run = longest_zero_run(groups, 8);
    lemma_longest_zero_run(groups, 8);
    if is_ipv4_mapped(groups) {
        lemma_ipv6_mapped(groups);
    } else if run.1 >= 2 {
        lemma_ipv6_compressed(groups, run.0, run.1 as int);
    } else {
        lemma_ipv6_plain(groups);
    }
}

/// A text that spells an IPv4 address starts with a digit.
pub proof fn lemma_ipv4_starts_with_digit(s: Seq<char>)
    requires
        ipv4_parsed(s) is Some,
    ensures
        s.len() > 0,
        is_digit(s[0]),
{
    s.index_of_first_ensures('.');
    let first = split(s, '.')[0];
    assert(is_octet_text(first));
    assert(first[0] == s[0]);
}

/// The text of a port spells that port, and ends with a digit.
pub proof fn lemma_port_text(port: u16)
    ensures
        port_parsed(decimal_text(port as nat)) == Some(port),
        host_port_parsed(decimal_text(port as nat)) == Some(port),
        is_decimal(decimal_text(port as nat)),
{
    lemma_decimal_text(port as nat);
}

/// The text of an IPv4 socket address spells that address.
pub proof fn lemma_socket_v4_text(octets: Seq<u8>, port: u16)
    requires
        octets.len() == 4,
    ensures
        socket_parsed(address_text(NetworkAddressView::Ipv4 { octets, port })) == Some(
            NetworkAddressView::Ipv4 { octets, port },
        ),
{
    let q = ipv4_text(octets);
    let p = decimal_text(port as nat);
    let t = q + seq![':'] + p;
    lemma_ipv4_text(octets);
    lemma_port_text(port);
    assert forall|j: int| 0 <= j < q.len() implies t[j] != ':' by {
        assert(t[j] == q[j]);
    }
    lemma_index_of_first_is(t, ':', q.len() as int);
    assert(t.take(q.len() as int) =~= q);
    assert(t.skip(q.len() as int + 1) =~= p);
}

/// The text between the brackets of an IPv6 socket address spells the
/// address and its scope.
pub proof fn lemma_scoped_text(segments: Seq<u16>, scope_id: u32)
    requires
        segments.len() == 8,
    ensures
        scoped_parsed(ipv6_text(segments) + scope_text(scope_id)) == Some((segments, scope_id)),
{
    let x = ipv6_text(segments);
    let t = x + scope_text(scope_id);
    lemma_ipv6_text(segments);
    lemma_ipv6_text_chars(segments);
    if scope_id == 0 {
        assert(t =~= x);
        lemma_index_of_absent(x, '%');
    } else {
        let d = decimal_text(scope_id as nat);
        lemma_decimal_text(scope_id as nat);
        assert(t =~= x + seq!['%'] + d);
        assert forall|j: int| 0 <= j < x.len() implies t[j] != '%' by {
            assert(t[j] == x[j]);
        }
        lemma_index_of_first_is(t, '%', x.len() as int);
        assert(t.take(x.len() as int) =~= x);
        assert(t.skip(x.len() as int + 1) =~= d);
        assert(scope_parsed(d) == Some(scope_id));
    }
}

/// In the text of an IPv6 socket address the first closing bracket is the
/// one after the address and its scope; between the brackets stand the
/// address and the scope, and after the bracket and a colon the port.
proof fn lemma_socket_v6_shape(segments: Seq<u16>, port: u16, scope_id: u32)
    requires
        segments.len() == 8,
    ensures
        ({
            let t = address_text(NetworkAddressView::Ipv6 { segments, port, scope_id });
            let inner = ipv6_text(segments) + scope_text(scope_id);
            let k = 1 + inner.len() as int;
            &&& t.index_of_first(']') == Some(k)
            &&& t[0] == '['
            &&& k + 1 < t.len()
            &&& t[k + 1] == ':'
            &&& t.subrange(1, k) == inner
            &&& t.skip(k + 2) == decimal_text(port as nat)
        }),
{
    let x = ipv6_text(segments);
    let sc = scope_text(scope_id);
    let inner = x + sc;
    let p = decimal_text(port as nat);
    let t = seq!['['] + x + sc + seq![']', ':'] + p;
    lemma_ipv6_text_chars(segments);
    lemma_decimal_text(scope_id as nat);
    assert(t =~= seq!['['] + inner + seq![']', ':'] + p);
    let k = 1 + inner.len() as int;
    assert forall|j: int| 0 <= j < k implies t[j] != ']' by {
        if 1 <= j && j < 1 + x.len() {
            assert(t[j] == x[j - 1]);
        } else if j >= 1 + x.len() {
            assert(t[j] == sc[j - 1 - x.len()]);
            if j > 1 + x.len() {
                assert(sc[j - 1 - x.len()] == decimal_text(scope_id as nat)[j - 2 - x.len()]);
            }
        }
    }
    lemma_index_of_first_is(t, ']', k);
    assert(t.subrange(1, k) =~= inner);
    assert(t.skip(k + 2) =~= p);
}

/// The text of an IPv6 socket address spells that address.
pub proof fn lemma_socket_v6_text(segments: Seq<u16>, port: u16, scope_id: u32)
    requires
        segments.len() == 8,
    ensures
        socket_parsed(address_text(NetworkAddressView::Ipv6 { segments, port, scope_id })) == Some(
            NetworkAddressView::Ipv6 { segments, port, scope_id },
        ),
{
    let t = address_text(NetworkAddressView::Ipv6 { segments, port, scope_id });
    lemma_socket_v6_shape(segments, port, scope_id);
    lemma_scoped_text(segments, scope_id);
    lemma_port_text(port);
    // no IPv4 socket address starts with a bracket
    assert(socket_v4_parsed(t) is None) by {
        t.index_of_first_ensures(':');
        let c = t.index_of_first(':');
        if c is Some {
            if ipv4_parsed(t.take(c->0)) is Some {
                lemma_ipv4_starts_with_digit(t.take(c->0));
                assert(t.take(c->0)[0] == t[0]);
            }
        }
    }
}

/// The text of a DNS address that is well formed spells that address.
pub proof fn lemma_dns_text(hostname: Seq<char>, port: u16)
    requires
        (NetworkAddressView::Dns { hostname, port }).well_formed(),
    ensures
        address_parsed(address_text(NetworkAddressView::Dns { hostname, port })) == Ok::<
            _,
            ParseError,
        >(NetworkAddressView::Dns { hostname, port }),
{
    let p = decimal_text(port as nat);
    let t = hostname + seq![':'] + p;
    lemma_port_text(port);
    let k = hostname.len() as int;
    assert forall|j: int| k < j < t.len() implies t[j] != ':' by {
        assert(t[j] == p[j - k - 1]);
    }
    lemma_index_of_last_is(t, ':', k);
    assert(t.skip(k + 1) =~= p);
    assert(t.take(k) =~= hostname);
}

/// Reading the text of a well-formed address gives the address back, and
/// the text ends with a digit.
pub proof fn lemma_address_round_trip(a: NetworkAddressView)
    requires
        a.well_formed(),
    ensures
        address_parsed(address_text(a)) == Ok::<_, ParseError>(a),
        address_text(a).len() > 0,
        is_digit(address_text(a).last()),
{
    match a {
        NetworkAddressView::Ipv4 { octets, port } => {
            lemma_socket_v4_text(octets, port);
            lemma_port_text(port);
            assert(address_text(a).last() == decimal_text(port as nat).last());
        },
        NetworkAddressView::Ipv6 { segments, port, scope_id } => {
            lemma_socket_v6_text(segments, port, scope_id);
            lemma_port_text(port);
            assert(address_text(a).last() == decimal_text(port as nat).last());
        },
        NetworkAddressView::Dns { hostname, port } => {
            lemma_dns_text(hostname, port);
            lemma_port_text(port);
            assert(address_text(a).last() == decimal_text(port as nat).last());
        },
    }
}

/// What stands after the last colon of a text: the port, in the text of a
/// network address.
pub open spec fn port_part(t: Seq<char>) -> Seq<char> {
    match t.index_of_last(':') {
        Some(k) => t.skip(k + 1),
        None => Seq::empty(),
    }
}

/// Every text that spells an IPv4 address is the text of that address.
pub proof fn lemma_ipv4_parsed_text(s: Seq<char>)
    requires
        ipv4_parsed(s) is Some,
    ensures
        ipv4_text(ipv4_parsed(s)->0) == s,
{
    let parts = split(s, '.');
    let octets = ipv4_parsed(s)->0;
    lemma_plain_decimal(parts[0]);
    lemma_plain_decimal(parts[1]);
    lemma_plain_decimal(parts[2]);
    lemma_plain_decimal(parts[3]);
    lemma_split_join(s, '.');
    let after_first = parts.drop_first();
    let after_second = after_first.drop_first();
    let after_third = after_second.drop_first();
    assert(after_first[0] == parts[1]);
    assert(after_second[0] == parts[2]);
    assert(after_third[0] == parts[3]);
    assert(join(after_third, '.') == parts[3]);
    assert(join(after_second, '.') == parts[2] + seq!['.'] + join(after_third, '.'));
    assert(join(after_first, '.') == parts[1] + seq!['.'] + join(after_second, '.'));
    assert(join(parts, '.') == parts[0] + seq!['.'] + join(after_first, '.'));
    assert(ipv4_text(octets) =~= join(parts, '.'));
}

/// A text in which only digits stand after a colon has its last colon
/// there.
proof fn lemma_last_colon_before_digits(t: Seq<char>, k: int)
    requires
        0 <= k < t.len(),
        t[k] == ':',
        is_decimal(t.skip(k + 1)),
    ensures
        t.index_of_last(':') == Some(k),
{
    let p = t.skip(k + 1);
    assert forall|j: int| k < j < t.len() implies t[j] != ':' by {
        assert(t[j] == p[j - k - 1]);
    }
    lemma_index_of_last_is(t, ':', k);
}

/// One group as it is written: up to four digits in lower case, without a
/// leading zero but for the number 0.
pub open spec fn is_plain_group(s: Seq<char>) -> bool {
    is_plain_hex(s) && s.len() <= 4
}

/// Groups as they are written: no text at all, or plain groups with a colon
/// between them.
pub open spec fn is_plain_groups(s: Seq<char>) -> bool {
    s.len() == 0 || forall|i: int|
        0 <= i < split(s, ':').len() ==> is_plain_group(#[trigger] split(s, ':')[i])
}

/// The text of the groups that plain groups spell is made of those plain
/// groups, with a colon between them.
proof fn lemma_plain_groups_join(parts: Seq<Seq<char>>)
    requires
        forall|i: int| 0 <= i < parts.len() ==> is_plain_group(#[trigger] parts[i]),
    ensures
        groups_text(hex_values(parts)) == join(parts, ':'),
    decreases parts.len(),
{
    let groups = hex_values(parts);
    if parts.len() > 0 {
        let first = parts[0];
        assert(is_plain_group(first));
        lemma_plain_hex(first);
        assert forall|i: int| 0 <= i < first.len() implies is_hex_digit(#[trigger] first[i]) by {
            assert(is_lower_hex_digit(first[i]));
        }
        lemma_hex_value_bound(first);
        assert(hex_text(groups[0] as nat) == first);
        if parts.len() > 1 {
            let rest = parts.drop_first();
            assert forall|i: int| 0 <= i < rest.len() implies is_plain_group(
                #[trigger] rest[i],
            ) by {
                assert(rest[i] == parts[i + 1]);
            }
            lemma_plain_groups_join(rest);
            assert(groups.drop_first() =~= hex_values(rest));
        }
    }
}

/// Groups that are written plainly spell groups whose text they are.
pub proof fn lemma_plain_groups_text(s: Seq<char>)
    requires
        is_plain_groups(s),
    ensures
        groups_parsed(s, false) is Some,
        groups_parsed(s, true) == groups_parsed(s, false),
        groups_text(groups_parsed(s, false)->0) == s,
{
    if s.len() > 0 {
        let parts = split(s, ':');
        assert forall|i: int| 0 <= i < parts.len() implies is_hex_group(#[trigger] parts[i]) by {
            let part = parts[i];
            assert(is_plain_group(part));
            assert forall|j: int| 0 <= j < part.len() implies is_hex_digit(#[trigger] part[j]) by {
                assert(is_lower_hex_digit(part[j]));
            }
        }
        assert(all_hex_groups(parts));
        crate::text::lemma_split_pieces(s, ':');
        let last = parts.last();
        assert(is_plain_group(last));
        assert forall|j: int| 0 <= j < last.len() implies last[j] != '.' by {
            assert(is_lower_hex_digit(last[j]));
        }
        lemma_split_one(last, '.');
        assert(ipv4_parsed(last) is None);
        lemma_plain_groups_join(parts);
        lemma_split_join(s, ':');
    } else {
        assert(groups_text(Seq::<u16>::empty()) =~= s);
    }
}

/// The text `::ffff:`, before the dotted quad of an IPv4 address that an
/// IPv6 address stands for.
pub open spec fn mapped_prefix() -> Seq<char> {
    seq![':', ':', 'f', 'f', 'f', 'f', ':']
}

/// An IPv6 address that stands for an IPv4 address as it is written:
/// `::ffff:` and a dotted quad.
pub open spec fn is_plain_mapped(x: Seq<char>) -> bool {
    x.len() >= 7 && x.take(7) == mapped_prefix() && ipv4_parsed(x.skip(7)) is Some
}

/// An IPv6 address with `::` at a place, as it is written: plain groups on
/// both sides, and `::` exactly in the place of the given run of zero
/// groups.
pub open spec fn is_plain_shortened(x: Seq<char>, k: int, run: (int, nat)) -> bool {
    let head = groups_parsed(x.take(k), false);
    let tail = groups_parsed(x.skip(k + 2), false);
    &&& run.1 >= 2
    &&& is_plain_groups(x.take(k))
    &&& is_plain_groups(x.skip(k + 2))
    &&& head->0.len() == run.0
    &&& head->0.len() + run.1 + tail->0.len() == 8
}

/// An IPv6 address as it is written. One that stands for an IPv4 address is
/// `::ffff:` and a dotted quad. Any other has plain groups and no dotted
/// quad; `::` stands exactly where the longest run of two or more zero
/// groups is, the first of several, and nowhere if there is no such run.
pub open spec fn is_plain_ipv6(x: Seq<char>) -> bool {
    match ipv6_parsed(x) {
        None => false,
        Some(groups) => {
            let run = longest_zero_run(groups, 8);
            if is_ipv4_mapped(groups) {
                is_plain_mapped(x)
            } else {
                match double_colon(x) {
                    None => run.1 < 2 && is_plain_groups(x),
                    Some(k) => is_plain_shortened(x, k, run),
                }
            }
        },
    }
}

/// The number of all ones in 16 bits is written `ffff`.
proof fn lemma_ffff()
    ensures
        hex_text(0xffff) == seq!['f', 'f', 'f', 'f'],
{
    let ffff = seq!['f', 'f', 'f', 'f'];
    assert(is_plain_hex(ffff));
    lemma_plain_hex(ffff);
    assert(hex_value(ffff) == 0xffff) by {
        assert(ffff.drop_last() =~= seq!['f', 'f', 'f']);
        assert(seq!['f', 'f', 'f'].drop_last() =~= seq!['f', 'f']);
        assert(seq!['f', 'f'].drop_last() =~= seq!['f']);
        assert(seq!['f'].drop_last() =~= Seq::<char>::empty());
        assert(hex_value(Seq::<char>::empty()) == 0);
        assert(hex_value(seq!['f']) == 15);
        assert(hex_value(seq!['f', 'f']) == 255);
        assert(hex_value(seq!['f', 'f', 'f']) == 4095);
    }
}

/// `::ffff:` and a dotted quad are the text of the address they spell.
proof fn lemma_plain_mapped(x: Seq<char>)
    requires
        is_plain_mapped(x),
    ensures
        ipv6_parsed(x) is Some,
        is_ipv4_mapped(ipv6_parsed(x)->0),
        seq![':', ':'] + hex_text(0xffff) + seq![':'] + ipv4_text(
            mapped_octets(ipv6_parsed(x)->0),
        ) == x,
{
    let quad = x.skip(7);
    let octets = ipv4_parsed(quad)->0;
    let groups = Seq::new(5, |i: int| 0u16) + seq![0xffffu16] + quad_groups(octets);
    lemma_ffff();
    lemma_ipv4_parsed_text(quad);
    assert(mapped_octets(groups) =~= octets);
    lemma_ipv6_mapped(groups);
    assert(x =~= x.take(7) + x.skip(7));
    assert(seq![':', ':'] + hex_text(0xffff) + seq![':'] + quad =~= mapped_prefix() + quad);
}

/// Plain groups, `::` in the place of a run of zero groups, and plain
/// groups are the groups before the run, `::` and the groups after it.
proof fn lemma_plain_shortened(x: Seq<char>, k: int, groups: Seq<u16>, run: (int, nat))
    requires
        double_colon(x) == Some(k),
        ipv6_parsed(x) == Some(groups),
        is_plain_shortened(x, k, run),
    ensures
        groups_text(groups.take(run.0)) + seq![':', ':'] + groups_text(
            groups.skip(run.0 + run.1),
        ) == x,
{
    let a = x.take(k);
    let b = x.skip(k + 2);
    lemma_double_colon(x);
    lemma_plain_groups_text(a);
    lemma_plain_groups_text(b);
    let head = groups_parsed(a, false)->0;
    let tail = groups_parsed(b, true)->0;
    assert(groups == head + Seq::new((8 - head.len() - tail.len()) as nat, |i: int| 0u16) + tail);
    assert(groups.take(run.0) =~= head);
    assert(groups.skip(run.0 + run.1) =~= tail);
    assert(x =~= a + seq![':', ':'] + b);
}

/// Plain groups without `::` are the text of the groups that they spell.
proof fn lemma_plain_written_out(x: Seq<char>, groups: Seq<u16>)
    requires
        double_colon(x) is None,
        ipv6_parsed(x) == Some(groups),
        is_plain_groups(x),
    ensures
        groups_text(groups) == x,
{
    lemma_plain_groups_text(x);
}

/// An IPv6 address that is written plainly is the text of the address that
/// it spells.
pub proof fn lemma_plain_ipv6_text(x: Seq<char>)
    requires
        is_plain_ipv6(x),
    ensures
        ipv6_text(ipv6_parsed(x)->0) == x,
{
    let groups = ipv6_parsed(x)->0;
    let run = longest_zero_run(groups, 8);
    if is_ipv4_mapped(groups) {
        lemma_plain_mapped(x);
    } else {
        match double_colon(x) {
            None => {
                lemma_plain_written_out(x, groups);
            },
            Some(k) => {
                lemma_plain_shortened(x, k, groups, run);
            },
        }
    }
}

/// What stands between the brackets of a text.
pub open spec fn bracketed_part(t: Seq<char>) -> Seq<char> {
    match t.index_of_first(']') {
        Some(k) => t.subrange(1, k),
        None => Seq::empty(),
    }
}

/// An IPv6 address with its scope as it is written between the brackets: a
/// plain IPv6 address and, for a scope other than 0, `%` and the scope as a
/// plain number.
pub open spec fn is_plain_scoped(s: Seq<char>) -> bool {
    match s.index_of_first('%') {
        Some(p) => is_plain_ipv6(s.take(p)) && is_plain_decimal(s.skip(p + 1)) && decimal_value(
            s.skip(p + 1),
        ) != 0,
        None => is_plain_ipv6(s),
    }
}

/// A network address as it is written: its port is a plain number, without
/// a plus sign and without a leading zero, and if it is an IPv6 address, the
/// address and the scope between its brackets are written plainly too.
pub open spec fn is_plain_text(t: Seq<char>) -> bool {
    &&& address_parsed(t) is Ok
    &&& is_plain_decimal(port_part(t))
    &&& address_parsed(t)->Ok_0 is Ipv6 ==> is_plain_scoped(bracketed_part(t))
}

/// A plainly written IPv4 socket address is the text of the address that it
/// spells.
proof fn lemma_plain_socket_v4(t: Seq<char>)
    requires
        socket_v4_parsed(t) is Some,
        is_plain_decimal(port_part(t)),
    ensures
        address_text(socket_v4_parsed(t)->0) == t,
{
    t.index_of_first_ensures(':');
    let k = t.index_of_first(':')->0;
    lemma_last_colon_before_digits(t, k);
    lemma_plain_decimal(port_part(t));
    lemma_ipv4_parsed_text(t.take(k));
    assert(t =~= t.take(k) + seq![':'] + t.skip(k + 1));
}

/// A plainly written address and scope are the text of what they spell.
proof fn lemma_plain_scoped(s: Seq<char>)
    requires
        scoped_parsed(s) is Some,
        is_plain_scoped(s),
    ensures
        scoped_parsed(s) matches Some(scoped) && ipv6_text(scoped.0) + scope_text(scoped.1) == s,
{
    s.index_of_first_ensures('%');
    match s.index_of_first('%') {
        Some(q) => {
            lemma_plain_ipv6_text(s.take(q));
            lemma_plain_decimal(s.skip(q + 1));
            assert(s =~= s.take(q) + seq!['%'] + s.skip(q + 1));
        },
        None => {
            lemma_plain_ipv6_text(s);
            assert(s + Seq::<char>::empty() =~= s);
        },
    }
}

/// A plainly written IPv6 socket address is the text of the address that it
/// spells.
proof fn lemma_plain_socket_v6(t: Seq<char>)
    requires
        socket_v6_parsed(t) is Some,
        is_plain_decimal(port_part(t)),
        is_plain_scoped(bracketed_part(t)),
    ensures
        address_text(socket_v6_parsed(t)->0) == t,
{
    t.index_of_first_ensures(']');
    let k = t.index_of_first(']')->0;
    let inner = t.subrange(1, k);
    let p = t.skip(k + 2);
    assert(t.skip(k + 1 + 1) == p);
    lemma_last_colon_before_digits(t, k + 1);
    lemma_plain_decimal(p);
    lemma_plain_scoped(inner);
    assert(t =~= seq!['['] + inner + seq![']', ':'] + p);
}

/// A hostname with a plainly written port is the text of the address that
/// it spells.
proof fn lemma_plain_dns(t: Seq<char>)
    requires
        socket_parsed(t) is None,
        address_parsed(t) is Ok,
        is_plain_decimal(port_part(t)),
    ensures
        address_text(address_parsed(t)->Ok_0) == t,
{
    t.index_of_last_ensures(':');
    let k = t.index_of_last(':')->0;
    lemma_plain_decimal(port_part(t));
    assert(t =~= t.take(k) + seq![':'] + t.skip(k + 1));
}

/// Writing the address that a text spells gives the text back, exactly, for
/// every text that is written plainly.
pub proof fn plain_text_round_trip(t: Seq<char>)
    requires
        is_plain_text(t),
    ensures
        address_text(address_parsed(t)->Ok_0) == t,
{
    if socket_v4_parsed(t) is Some {
        lemma_plain_socket_v4(t);
    } else if socket_v6_parsed(t) is Some {
        lemma_plain_socket_v6(t);
    } else {
        lemma_plain_dns(t);
    }
}

/// The text of groups is written plainly.
proof fn lemma_groups_text_is_plain(groups: Seq<u16>)
    ensures
        is_plain_groups(groups_text(groups)),
{
    lemma_groups_text(groups);
    if groups.len() > 0 {
        let parts = split(groups_text(groups), ':');
        assert forall|i: int| 0 <= i < parts.len() implies is_plain_group(#[trigger] parts[i]) by {
            lemma_hex_text(groups[i] as nat);
        }
    }
}

/// The text of an IPv6 address that stands for an IPv4 address is `::ffff:`
/// and a dotted quad.
proof fn lemma_mapped_text_is_plain(groups: Seq<u16>)
    requires
        groups.len() == 8,
    ensures
        is_plain_mapped(
            seq![':', ':'] + hex_text(0xffff) + seq![':'] + ipv4_text(mapped_octets(groups)),
        ),
{
    let quad = ipv4_text(mapped_octets(groups));
    let x = seq![':', ':'] + hex_text(0xffff) + seq![':'] + quad;
    lemma_ffff();
    lemma_ipv4_text(mapped_octets(groups));
    assert(x =~= mapped_prefix() + quad);
    assert(x.take(7) =~= mapped_prefix());
    assert(x.skip(7) =~= quad);
}

/// The text of the groups before a run, `::` and the text of the groups
/// after it are plain groups with `::` in the place of the run.
proof fn lemma_shortened_text_is_plain(groups: Seq<u16>, run: (int, nat))
    requires
        groups.len() == 8,
        0 <= run.0,
        2 <= run.1,
        run.0 + run.1 <= 8,
    ensures
        ({
            let a = groups_text(groups.take(run.0));
            let b = groups_text(groups.skip(run.0 + run.1));
            &&& double_colon(a + seq![':', ':'] + b) == Some(a.len() as int)
            &&& is_plain_shortened(a + seq![':', ':'] + b, a.len() as int, run)
        }),
{
    let head = groups.take(run.0);
    let tail = groups.skip(run.0 + run.1);
    lemma_groups_text(head);
    lemma_double_colon_between(groups_text(head), groups_text(tail));
    lemma_groups_text_is_plain(head);
    lemma_groups_text_is_plain(tail);
    lemma_groups_parsed(head, false);
    lemma_groups_parsed(tail, false);
}

/// The text of an IPv6 address is written plainly.
pub proof fn lemma_ipv6_text_is_plain(groups: Seq<u16>)
    requires
        groups.len() == 8,
    ensures
        is_plain_ipv6(ipv6_text(groups)),
{
    let x = ipv6_text(groups);
    let run = longest_zero_run(groups, 8);
    lemma_ipv6_text(groups);
    lemma_longest_zero_run(groups, 8);
    if is_ipv4_mapped(groups) {
        lemma_mapped_text_is_plain(groups);
    } else if run.1 >= 2 {
        lemma_shortened_text_is_plain(groups, run);
    } else {
        lemma_groups_text(groups);
        lemma_double_colon(x);
        lemma_groups_text_is_plain(groups);
    }
}

/// The text of an IPv6 address and its scope is written plainly.
proof fn lemma_scoped_text_is_plain(segments: Seq<u16>, scope_id: u32)
    requires
        segments.len() == 8,
    ensures
        is_plain_scoped(ipv6_text(segments) + scope_text(scope_id)),
{
    let x = ipv6_text(segments);
    let t = x + scope_text(scope_id);
    lemma_ipv6_text_is_plain(segments);
    lemma_ipv6_text_chars(segments);
    if scope_id == 0 {
        assert(t =~= x);
        lemma_index_of_absent(x, '%');
    } else {
        let d = decimal_text(scope_id as nat);
        lemma_decimal_text(scope_id as nat);
        assert(t =~= x + seq!['%'] + d);
        assert forall|j: int| 0 <= j < x.len() implies t[j] != '%' by {
            assert(t[j] == x[j]);
        }
        lemma_index_of_first_is(t, '%', x.len() as int);
        assert(t.take(x.len() as int) =~= x);
        assert(t.skip(x.len() as int + 1) =~= d);
    }
}

/// The text of a well-formed address is written plainly.
pub proof fn lemma_address_text_is_plain(a: NetworkAddressView)
    requires
        a.well_formed(),
    ensures
        is_plain_text(address_text(a)),
{
    let t = address_text(a);
    lemma_address_round_trip(a);
    match a {
        NetworkAddressView::Ipv4 { octets, port } => {
            let q = ipv4_text(octets);
            lemma_decimal_text(port as nat);
            assert(t.skip(q.len() as int + 1) =~= decimal_text(port as nat));
            lemma_last_colon_before_digits(t, q.len() as int);
        },
        NetworkAddressView::Ipv6 { segments, port, scope_id } => {
            lemma_socket_v6_shape(segments, port, scope_id);
            lemma_scoped_text_is_plain(segments, scope_id);
            lemma_decimal_text(port as nat);
            let k = 1 + (ipv6_text(segments) + scope_text(scope_id)).len() as int;
            assert(t.skip(k + 1 + 1) == t.skip(k + 2));
            lemma_last_colon_before_digits(t, k + 1);
        },
        NetworkAddressView::Dns { hostname, port } => {
            lemma_decimal_text(port as nat);
            assert(t.skip(hostname.len() as int + 1) =~= decimal_text(port as nat));
            lemma_last_colon_before_digits(t, hostname.len() as int);
        },
    }
}

/// A hostname read from a text whose port has no plus sign before it is well
/// formed: the text of the address is no socket address either.
proof fn lemma_parsed_dns_is_well_formed(t: Seq<char>, hostname: Seq<char>, port: u16)
    requires
        socket_parsed(t) is None,
        address_parsed(t) == Ok::<_, ParseError>(NetworkAddressView::Dns { hostname, port }),
        port_parsed(port_part(t)) is Some,
    ensures
        socket_parsed(hostname + seq![':'] + decimal_text(port as nat)) is None,
        hostname.len() > 0,
{
    t.index_of_last_ensures(':');
    let k = t.index_of_last(':')->0;
    let p = t.skip(k + 1);
    let d = decimal_text(port as nat);
    lemma_port_text(port);
    let u = hostname + seq![':'] + d;
    assert(hostname =~= t.take(k));
    lemma_last_colon_before_digits(u, k);
    assert(u.skip(k + 1) =~= d);
    assert(u.take(k) =~= hostname);
    // were the new text a socket address, the old one would be too
    if socket_v4_parsed(u) is Some {
        u.index_of_first_ensures(':');
        let c = u.index_of_first(':')->0;
        lemma_last_colon_before_digits(u, c);
        assert(c == k);
        assert forall|j: int| 0 <= j < k implies t[j] != ':' by {
            assert(t[j] == u[j]);
        }
        lemma_index_of_first_is(t, ':', k);
        assert(socket_v4_parsed(t) is Some);
    }
    if socket_v6_parsed(u) is Some {
        u.index_of_first_ensures(']');
        let b = u.index_of_first(']')->0;
        lemma_last_colon_before_digits(u, b + 1);
        assert(b + 1 == k);
        assert forall|j: int| 0 <= j < b implies t[j] != ']' by {
            assert(t[j] == u[j]);
        }
        assert(t[b] == u[b]);
        lemma_index_of_first_is(t, ']', b);
        assert(t[0] == u[0]);
        assert(t.subrange(1, b) =~= u.subrange(1, b));
        assert(t.skip(b + 2) =~= p);
        assert(socket_v6_parsed(t) is Some);
    }
}

/// A socket address that a text spells has four octets or eight groups.
proof fn lemma_parsed_socket_is_well_formed(t: Seq<char>)
    requires
        socket_parsed(t) is Some,
    ensures
        socket_parsed(t)->0.well_formed(),
{
    if socket_v4_parsed(t) is Some {
        t.index_of_first_ensures(':');
    } else {
        t.index_of_first_ensures(']');
        let inner = t.subrange(1, t.index_of_first(']')->0);
        inner.index_of_first_ensures('%');
    }
}

/// An address read from a text whose port has no plus sign before it is
/// well formed.
proof fn lemma_parsed_is_well_formed(t: Seq<char>)
    requires
        address_parsed(t) is Ok,
        port_parsed(port_part(t)) is Some,
    ensures
        address_parsed(t)->Ok_0.well_formed(),
{
    if socket_parsed(t) is Some {
        lemma_parsed_socket_is_well_formed(t);
    } else {
        match address_parsed(t)->Ok_0 {
            NetworkAddressView::Dns { hostname, port } => {
                lemma_parsed_dns_is_well_formed(t, hostname, port);
            },
            _ => {},
        }
    }
}

/// An address read from a text whose port has no plus sign before it is
/// well formed: its own text reads back as the same address.
pub proof fn parsed_address_is_well_formed(t: Seq<char>)
    requires
        address_parsed(t) is Ok,
        port_parsed(port_part(t)) is Some,
    ensures
        address_parsed(t)->Ok_0.well_formed(),
        address_parsed(address_text(address_parsed(t)->Ok_0)) == address_parsed(t),
{
    lemma_parsed_is_well_formed(t);
    lemma_address_round_trip(address_parsed(t)->Ok_0);
}

/// The texts that are written plainly are exactly the texts of the
/// well-formed addresses: those are the texts that reading and writing give
/// back.
pub proof fn plain_texts_are_texts_of_addresses(t: Seq<char>)
    ensures
        is_plain_text(t) <==> exists|a: NetworkAddressView| a.well_formed() && address_text(a) == t,
{
    if is_plain_text(t) {
        let a = address_parsed(t)->Ok_0;
        plain_text_round_trip(t);
        assert(port_parsed(port_part(t)) is Some) by {
            t.index_of_last_ensures(':');
            t.index_of_first_ensures(':');
            t.index_of_first_ensures(']');
            if socket_v4_parsed(t) is Some {
                lemma_last_colon_before_digits(t, t.index_of_first(':')->0);
            } else if socket_v6_parsed(t) is Some {
                let k = t.index_of_first(']')->0;
                assert(t.skip(k + 1 + 1) == t.skip(k + 2));
                lemma_last_colon_before_digits(t, k + 1);
            }
        }
        parsed_address_is_well_formed(t);
        assert(a.well_formed() && address_text(a) == t);
    }
    if exists|a: NetworkAddressView| a.well_formed() && address_text(a) == t {
        let a = choose|a: NetworkAddressView| a.well_formed() && address_text(a) == t;
        lemma_address_text_is_plain(a);
    }
}

} // verus!
