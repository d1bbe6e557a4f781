//! Network addresses as the status document writes them: an IPv4 or IPv6
//! socket address, or a DNS hostname with a port.
//!
//! A socket address has the text that the standard library gives its socket
//! addresses: `1.2.3.4:80` for IPv4, and for IPv6 the address in square
//! brackets, in any of its spellings, with `%` and a scope where it has one,
//! as in `[fe80::1%3]:80`. Every other text with a colon is a hostname and a
//! port.

use vstd::prelude::*;
use vstd::string::StringExecFns;
use crate::text::{
    chars_of, decimal_text, decimal_value, find_first, find_last, hex_text, hex_value, is_decimal,
    is_hex_group, lemma_split_pieces, parse_decimal, parse_hex_group, push_decimal, push_hex,
    slice_of, split, split_chars, string_of,
};

verus! {

/// An IPv4 address with a port.
#[derive(Debug, Clone, Copy, PartialEq, Eq)]
pub struct SocketAddrV4 {
    /// The four octets of the address, the first one first.
    pub ip: [u8; 4],
    pub port: u16,
}

/// An IPv6 address with a port and a scope.
#[derive(Debug, Clone, Copy, PartialEq, Eq)]
pub struct SocketAddrV6 {
    /// The eight groups of 16 bits of the address, the first one first.
    pub ip: [u16; 8],
    pub port: u16,
    /// The scope of the address; 0 where the text names none.
    pub scope_id: u32,
}

/// A network address that can be an IPv4/IPv6 socket address or a DNS
/// hostname with port.
///
/// Supports the following formats:
/// - IPv4: "10.0.0.1:4500"
/// - IPv6: "[::1]:4500" or "[2001:db8::1]:4500"
/// - DNS:  "hostname.namespace.svc.cluster.local:4501"
#[derive(Debug, Clone, PartialEq, Eq)]
pub enum NetworkAddress {
    /// IPv4 socket address (e.g., "10.0.0.1:4500")
    Ipv4(SocketAddrV4),
    /// IPv6 socket address (e.g., "[::1]:4500")
    Ipv6(SocketAddrV6),
    /// DNS hostname with port (e.g., "hostname.namespace.svc.cluster.local:4501")
    Dns { hostname: String, port: u16 },
}

impl SocketAddrV4 {
    /// The socket address of an IPv4 address and a port.
    pub fn new(ip: [u8; 4], port: u16) -> (a: SocketAddrV4)
        ensures
            a.ip == ip,
            a.port == port,
    {
        SocketAddrV4 { ip, port }
    }

    /// The four octets of the address.
    pub fn ip(&self) -> (ip: &[u8; 4])
        ensures
            *ip == self.ip,
    {
        &self.ip
    }

    /// The port.
    pub fn port(&self) -> (port: u16)
        ensures
            port == self.port,
    {
        self.port
    }
}

impl SocketAddrV6 {
    /// The socket address of an IPv6 address, a port and a scope.
    pub fn new(ip: [u16; 8], port: u16, scope_id: u32) -> (a: SocketAddrV6)
        ensures
            a.ip == ip,
            a.port == port,
            a.scope_id == scope_id,
    {
        SocketAddrV6 { ip, port, scope_id }
    }

    /// The eight groups of the address.
    pub fn ip(&self) -> (ip: &[u16; 8])
        ensures
            *ip == self.ip,
    {
        &self.ip
    }

    /// The port.
    pub fn port(&self) -> (port: u16)
        ensures
            port == self.port,
    {
        self.port
    }

    /// The scope; 0 for none.
    pub fn scope_id(&self) -> (scope_id: u32)
        ensures
            scope_id == self.scope_id,
    {
        self.scope_id
    }
}

/// A network address as plain values.
pub enum NetworkAddressView {
    Ipv4 { octets: Seq<u8>, port: u16 },
    Ipv6 { segments: Seq<u16>, port: u16, scope_id: u32 },
    Dns { hostname: Seq<char>, port: u16 },
}

impl NetworkAddressView {
    /// An address that its text gives back: an IPv4 address has four octets
    /// and an IPv6 address eight groups; a DNS address has a hostname, and
    /// its text is not that of a socket address.
    pub open spec fn well_formed(self) -> bool {
        match self {
            NetworkAddressView::Ipv4 { octets, port } => octets.len() == 4,
            NetworkAddressView::Ipv6 { segments, port, scope_id } => segments.len() == 8,
            NetworkAddressView::Dns { hostname, port } => hostname.len() > 0 && socket_parsed(
                address_text(self),
            ) is None,
        }
    }
}

impl View for NetworkAddress {
    type V = NetworkAddressView;

    open spec fn view(&self) -> NetworkAddressView {
        match self {
            NetworkAddress::Ipv4(a) => NetworkAddressView::Ipv4 { octets: a.ip@, port: a.port },
            NetworkAddress::Ipv6(a) => NetworkAddressView::Ipv6 {
                segments: a.ip@,
                port: a.port,
                scope_id: a.scope_id,
            },
            NetworkAddress::Dns { hostname, port } => NetworkAddressView::Dns {
                hostname: hostname@,
                port: *port,
            },
        }
    }
}

/// Why a text is no network address.
#[derive(Debug, Clone, Copy, PartialEq, Eq, Structural)]
pub enum ParseError {
    /// The text has no colon, so no port.
    MissingPort,
    /// Nothing stands before the colon of the port.
    ParsingHost,
    /// What stands after the last colon is no port.
    ParsingPort,
}

impl ParseError {
    /// The error in words, for the text that was refused.
    pub open spec fn words(self, text: Seq<char>) -> Seq<char> {
        match self {
            ParseError::MissingPort => "Invalid network address format: '"@ + text
                + "', expected 'host:port'"@,
            ParseError::ParsingHost => "Invalid network address: empty hostname in '"@ + text
                + "'"@,
            ParseError::ParsingPort => "Invalid port number in network address: '"@ + text + "'"@,
        }
    }

    /// Writes the error in words, for the text that was refused.
    pub fn describe(&self, text: &str) -> (r: String)
        ensures
            r@ == self.words(text@),
    {
        match self {
            ParseError::MissingPort => String::from_str("Invalid network address format: '").concat(
                text,
            ).concat("', expected 'host:port'"),
            ParseError::ParsingHost => String::from_str(
                "Invalid network address: empty hostname in '",
            ).concat(text).concat("'"),
            ParseError::ParsingPort => String::from_str(
                "Invalid port number in network address: '",
            ).concat(text).concat("'"),
        }
    }
}

// ------------------------------------------------------------------ IPv4

/// One octet of a dotted quad: a decimal number up to 255 in at most three
/// digits, without a leading zero.
pub open spec fn is_octet_text(s: Seq<char>) -> bool {
    &&& is_decimal(s)
    &&& s.len() <= 3
    &&& (s.len() > 1 ==> s[0] != '0')
    &&& decimal_value(s) <= 255
}

/// The IPv4 address that a text spells: four octets with a dot between them.
pub open spec fn ipv4_parsed(s: Seq<char>) -> Option<Seq<u8>> {
    let parts = split(s, '.');
    if parts.len() == 4 && is_octet_text(parts[0]) && is_octet_text(parts[1]) && is_octet_text(
        parts[2],
    ) && is_octet_text(parts[3]) {
        Some(
            seq![
                decimal_value(parts[0]) as u8,
                decimal_value(parts[1]) as u8,
                decimal_value(parts[2]) as u8,
                decimal_value(parts[3]) as u8,
            ],
        )
    } else {
        None
    }
}

/// A port: decimal digits that spell a number of 16 bits. Leading zeros are
/// accepted.
pub open spec fn port_parsed(s: Seq<char>) -> Option<u16> {
    if is_decimal(s) && decimal_value(s) <= 0xffff {
        Some(decimal_value(s) as u16)
    } else {
        None
    }
}

/// A scope: decimal digits that spell a number of 32 bits. Leading zeros are
/// accepted.
pub open spec fn scope_parsed(s: Seq<char>) -> Option<u32> {
    if is_decimal(s) && decimal_value(s) <= 0xffff_ffff {
        Some(decimal_value(s) as u32)
    } else {
        None
    }
}

fn parse_octet(v: &Vec<char>) -> (r: Option<u8>)
    ensures
        r matches Some(n) ==> is_octet_text(v@) && decimal_value(v@) == n,
        r is None ==> !is_octet_text(v@),
{
    if v.len() > 3 || (v.len() > 1 && v[0] == '0') {
        return None;
    }
    match parse_decimal(v, 255) {
        Some(n) => Some(n as u8),
        None => None,
    }
}

fn parse_port(v: &Vec<char>) -> (r: Option<u16>)
    ensures
        r == port_parsed(v@),
{
    match parse_decimal(v, 0xffff) {
        Some(n) => Some(n as u16),
        None => None,
    }
}

fn parse_scope(v: &Vec<char>) -> (r: Option<u32>)
    ensures
        r == scope_parsed(v@),
{
    parse_decimal(v, 0xffff_ffff)
}

fn parse_ipv4(v: &Vec<char>) -> (r: Option<[u8; 4]>)
    ensures
        r matches Some(ip) ==> ipv4_parsed(v@) == Some(ip@),
        r is None ==> ipv4_parsed(v@) is None,
{
    let parts = split_chars(v, '.');
    if parts.len() != 4 {
        return None;
    }
    let a = parse_octet(&parts[0])?;
    let b = parse_octet(&parts[1])?;
    let c = parse_octet(&parts[2])?;
    let d = parse_octet(&parts[3])?;
    let ip = [a, b, c, d];
    assert(ip@ =~= ipv4_parsed(v@)->0);
    Some(ip)
}

// ------------------------------------------------------------------ IPv6

/// The first place at which two colons stand side by side.
pub open spec fn double_colon(s: Seq<char>) -> Option<int>
    decreases s.len(),
{
    if s.len() < 2 {
        None
    } else if s[0] == ':' && s[1] == ':' {
        Some(0)
    } else {
        match double_colon(s.drop_first()) {
            Some(k) => Some(k + 1),
            None => None,
        }
    }
}

/// Whether two colons stand side by side at a place.
pub open spec fn colons_at(s: Seq<char>, k: int) -> bool {
    0 <= k && k + 1 < s.len() && s[k] == ':' && s[k + 1] == ':'
}

/// `double_colon` gives the first place with two colons, and none where
/// there is no such place.
pub proof fn lemma_double_colon(s: Seq<char>)
    ensures
        match double_colon(s) {
            Some(k) => colons_at(s, k) && forall|j: int| 0 <= j < k ==> !colons_at(s, j),
            None => forall|j: int| !colons_at(s, j),
        },
    decreases s.len(),
{
    if s.len() < 2 {
    } else if s[0] == ':' && s[1] == ':' {
    } else {
        let t = s.drop_first();
        lemma_double_colon(t);
        assert forall|j: int| colons_at(s, j) implies colons_at(t, j - 1) by {
            assert(t[j - 1] == s[j]);
            assert(t[j] == s[j + 1]);
        }
        match double_colon(t) {
            Some(k) => {
                assert(s[k + 1] == t[k]);
                assert(s[k + 2] == t[k + 1]);
                assert forall|j: int| 0 <= j < k + 1 implies !colons_at(s, j) by {
                    if colons_at(s, j) {
                        assert(colons_at(t, j - 1));
                    }
                }
            },
            None => {
                assert forall|j: int| !colons_at(s, j) by {
                    if colons_at(s, j) {
                        assert(colons_at(t, j - 1));
                    }
                }
            },
        }
    }
}

/// The place with two colons before which there is no such place is the
/// first.
pub proof fn lemma_double_colon_is(s: Seq<char>, k: int)
    requires
        colons_at(s, k),
        forall|j: int| 0 <= j < k ==> !colons_at(s, j),
    ensures
        double_colon(s) == Some(k),
{
    lemma_double_colon(s);
}

/// The numbers that a list of groups spells.
pub open spec fn hex_values(parts: Seq<Seq<char>>) -> Seq<u16> {
    Seq::new(parts.len(), |i: int| hex_value(parts[i]) as u16)
}

/// Whether every text of a list is a group.
pub open spec fn all_hex_groups(parts: Seq<Seq<char>>) -> bool {
    forall|i: int| 0 <= i < parts.len() ==> is_hex_group(#[trigger] parts[i])
}

/// The two groups that the four octets of an IPv4 address fill.
pub open spec fn quad_groups(ip: Seq<u8>) -> Seq<u16> {
    seq![(ip[0] * 256 + ip[1]) as u16, (ip[2] * 256 + ip[3]) as u16]
}

/// The groups that a text spells: groups of hexadecimal digits with a colon
/// between them; where `quad` allows it, the last item may be an IPv4
/// address instead, which stands for two groups. An empty text spells no
/// group.
pub open spec fn groups_parsed(s: Seq<char>, quad: bool) -> Option<Seq<u16>> {
    let parts = split(s, ':');
    if s.len() == 0 {
        Some(Seq::empty())
    } else if quad && ipv4_parsed(parts.last()) is Some {
        if all_hex_groups(parts.drop_last()) {
            Some(hex_values(parts.drop_last()) + quad_groups(ipv4_parsed(parts.last())->0))
        } else {
            None
        }
    } else if all_hex_groups(parts) {
        Some(hex_values(parts))
    } else {
        None
    }
}

/// The IPv6 address that a text spells. Without `::` the text must spell
/// all eight groups. With `::` the groups before it start the address, the
/// groups after it end the address, and between them stand as many zero
/// groups as are missing, at least one. An IPv4 address may stand for the
/// last two groups.
pub open spec fn ipv6_parsed(s: Seq<char>) -> Option<Seq<u16>> {
    match double_colon(s) {
        None => match groups_parsed(s, true) {
            Some(groups) => if groups.len() == 8 {
                Some(groups)
            } else {
                None
            },
            None => None,
        },
        Some(k) => match (groups_parsed(s.take(k), false), groups_parsed(s.skip(k + 2), true)) {
            (Some(head), Some(tail)) => if head.len() + tail.len() <= 7 {
                Some(head + Seq::new((8 - head.len() - tail.len()) as nat, |i: int| 0u16) + tail)
            } else {
                None
            },
            _ => None,
        },
    }
}

fn find_double_colon(v: &Vec<char>) -> (r: Option<usize>)
    ensures
        r matches Some(k) ==> double_colon(v@) == Some(k as int) && k + 2 <= v.len(),
        r is None ==> double_colon(v@) is None,
{
    proof {
        lemma_double_colon(v@);
    }
    if v.len() < 2 {
        return None;
    }
    let mut i: usize = 0;
    while i + 1 < v.len()
        invariant
            i + 1 <= v.len(),
            forall|j: int| 0 <= j < i ==> !colons_at(v@, j),
        decreases v.len() - i,
    {
        if v[i] == ':' && v[i + 1] == ':' {
            proof {
                lemma_double_colon_is(v@, i as int);
            }
            return Some(i);
        }
        i = i + 1;
    }
    proof {
        assert forall|j: int| !colons_at(v@, j) by {}
    }
    None
}

fn parse_groups(v: &Vec<char>, quad: bool) -> (r: Option<Vec<u16>>)
    ensures
        r matches Some(groups) ==> groups_parsed(v@, quad) == Some(groups@),
        r is None ==> groups_parsed(v@, quad) is None,
{
    if v.len() == 0 {
        let groups: Vec<u16> = Vec::new();
        assert(groups@ =~= Seq::empty());
        return Some(groups);
    }
    let parts = split_chars(v, ':');
    proof {
        lemma_split_pieces(v@, ':');
    }
    let ghost pieces = split(v@, ':');
    let n = parts.len();
    let last_ip = if quad {
        parse_ipv4(&parts[n - 1])
    } else {
        None
    };
    let hex_count = if last_ip.is_some() {
        n - 1
    } else {
        n
    };
    let mut groups: Vec<u16> = Vec::new();
    let mut i: usize = 0;
    while i < hex_count
        invariant
            i <= hex_count <= n,
            n == parts@.len(),
            n == pieces.len(),
            n >= 1,
            v@.len() > 0,
            pieces == split(v@, ':'),
            hex_count == (if quad && ipv4_parsed(pieces.last()) is Some {
                n - 1
            } else {
                n as int
            }),
            forall|k: int| 0 <= k < n ==> (#[trigger] parts@[k])@ == pieces[k],
            all_hex_groups(pieces.take(i as int)),
            groups@ == hex_values(pieces.take(i as int)),
        decreases hex_count - i,
    {
        match parse_hex_group(&parts[i]) {
            Some(g) => {
                groups.push(g);
                assert(pieces.take(i + 1) =~= pieces.take(i as int).push(pieces[i as int]));
                assert(groups@ =~= hex_values(pieces.take(i + 1)));
            },
            None => {
                proof {
                    if hex_count == n {
                        assert(pieces[i as int] == pieces[i as int]);
                        assert(!all_hex_groups(pieces));
                    } else {
                        assert(pieces.drop_last()[i as int] == pieces[i as int]);
                        assert(!all_hex_groups(pieces.drop_last()));
                    }
                }
                return None;
            },
        }
        i = i + 1;
    }
    match last_ip {
        Some(ip) => {
            assert(pieces.take(hex_count as int) =~= pieces.drop_last());
            let high: u16 = ip[0] as u16 * 256 + ip[1] as u16;
            let low: u16 = ip[2] as u16 * 256 + ip[3] as u16;
            groups.push(high);
            groups.push(low);
            assert(groups@ =~= hex_values(pieces.drop_last()) + quad_groups(ip@));
        },
        None => {
            assert(pieces.take(hex_count as int) =~= pieces);
        },
    }
    Some(groups)
}

fn parse_ipv6(v: &Vec<char>) -> (r: Option<[u16; 8]>)
    ensures
        r matches Some(ip) ==> ipv6_parsed(v@) == Some(ip@),
        r is None ==> ipv6_parsed(v@) is None,
{
    let (head, tail) = match find_double_colon(v) {
        None => {
            let groups = parse_groups(v, true)?;
            if groups.len() != 8 {
                return None;
            }
            (groups, Vec::new())
        },
        Some(k) => {
            let before = slice_of(v, 0, k);
            let after = slice_of(v, k + 2, v.len());
            assert(before@ =~= v@.take(k as int));
            assert(after@ =~= v@.skip(k + 2));
            let head = parse_groups(&before, false)?;
            let tail = parse_groups(&after, true)?;
            if head.len() > 7 || tail.len() > 7 || head.len() + tail.len() > 7 {
                return None;
            }
            (head, tail)
        },
    };
    let ghost want = head@ + Seq::new((8 - head.len() - tail.len()) as nat, |i: int| 0u16) + tail@;
    assert(ipv6_parsed(v@) == Some(want)) by {
        if double_colon(v@) is None {
            assert(want =~= head@);
        }
    }
    let mut ip: [u16; 8] = [0, 0, 0, 0, 0, 0, 0, 0];
    let mut i: usize = 0;
    while i < head.len()
        invariant
            i <= head.len(),
            head.len() + tail.len() <= 8,
            forall|j: int| 0 <= j < i ==> ip@[j] == head@[j],
            forall|j: int| i <= j < 8 ==> ip@[j] == 0,
        decreases head.len() - i,
    {
        ip[i] = head[i];
        i = i + 1;
    }
    let offset = 8 - tail.len();
    let mut i: usize = 0;
    while i < tail.len()
        invariant
            i <= tail.len(),
            offset == 8 - tail.len(),
            head.len() + tail.len() <= 8,
            forall|j: int| 0 <= j < head.len() ==> ip@[j] == head@[j],
            forall|j: int| head.len() <= j < offset ==> ip@[j] == 0,
            forall|j: int| 0 <= j < i ==> ip@[offset + j] == tail@[j],
        decreases tail.len() - i,
    {
        ip[offset + i] = tail[i];
        i = i + 1;
    }
    assert(ip@ =~= want);
    Some(ip)
}

// -------------------------------------------------------- socket addresses

/// The IPv4 socket address that a text spells: an IPv4 address, a colon and
/// a port.
pub open spec fn socket_v4_parsed(s: Seq<char>) -> Option<NetworkAddressView> {
    match s.index_of_first(':') {
        Some(k) => match (ipv4_parsed(s.take(k)), port_parsed(s.skip(k + 1))) {
            (Some(octets), Some(port)) => Some(NetworkAddressView::Ipv4 { octets, port }),
            _ => None,
        },
        None => None,
    }
}

/// The IPv6 address and the scope that the text between the brackets
/// spells: an IPv6 address and, where a scope is named, `%` and the scope.
pub open spec fn scoped_parsed(s: Seq<char>) -> Option<(Seq<u16>, u32)> {
    match s.index_of_first('%') {
        Some(p) => match (ipv6_parsed(s.take(p)), scope_parsed(s.skip(p + 1))) {
            (Some(segments), Some(scope_id)) => Some((segments, scope_id)),
            _ => None,
        },
        None => match ipv6_parsed(s) {
            Some(segments) => Some((segments, 0u32)),
            None => None,
        },
    }
}

/// The IPv6 socket address that a text spells: an IPv6 address in square
/// brackets, with its scope if it names one, a colon and a port.
pub open spec fn socket_v6_parsed(s: Seq<char>) -> Option<NetworkAddressView> {
    match s.index_of_first(']') {
        Some(k) => if s[0] == '[' && k + 1 < s.len() && s[k + 1] == ':' {
            match (scoped_parsed(s.subrange(1, k)), port_parsed(s.skip(k + 2))) {
                (Some(scoped), Some(port)) => Some(
                    NetworkAddressView::Ipv6 { segments: scoped.0, port, scope_id: scoped.1 },
                ),
                _ => None,
            }
        } else {
            None
        },
        None => None,
    }
}

/// The socket address that a text spells, IPv4 or IPv6.
pub open spec fn socket_parsed(s: Seq<char>) -> Option<NetworkAddressView> {
    match socket_v4_parsed(s) {
        Some(a) => Some(a),
        None => socket_v6_parsed(s),
    }
}

/// The port of a hostname: an unsigned number of 16 bits in decimal digits,
/// which may have a `+` before it.
pub open spec fn host_port_parsed(s: Seq<char>) -> Option<u16> {
    if s.len() > 0 && s[0] == '+' {
        port_parsed(s.skip(1))
    } else {
        port_parsed(s)
    }
}

/// The network address that a text spells. A text that spells a socket
/// address is that address. Any other text is cut at its last colon into a
/// host and a port: a text without a colon lacks the port; what stands after
/// the colon must be a port; and the host must not be empty.
pub open spec fn address_parsed(s: Seq<char>) -> Result<NetworkAddressView, ParseError> {
    match socket_parsed(s) {
        Some(a) => Ok(a),
        None => match s.index_of_last(':') {
            None => Err(ParseError::MissingPort),
            Some(k) => match host_port_parsed(s.skip(k + 1)) {
                None => Err(ParseError::ParsingPort),
                Some(port) => if k == 0 {
                    Err(ParseError::ParsingHost)
                } else {
                    Ok(NetworkAddressView::Dns { hostname: s.take(k), port })
                },
            },
        },
    }
}

fn parse_socket_v4(v: &Vec<char>) -> (r: Option<SocketAddrV4>)
    ensures
        r matches Some(a) ==> socket_v4_parsed(v@) == Some(NetworkAddress::Ipv4(a)@),
        r is None ==> socket_v4_parsed(v@) is None,
{
    let k = find_first(v, ':')?;
    let before = slice_of(v, 0, k);
    let after = slice_of(v, k + 1, v.len());
    assert(before@ =~= v@.take(k as int));
    assert(after@ =~= v@.skip(k + 1));
    let ip = parse_ipv4(&before)?;
    let port = parse_port(&after)?;
    Some(SocketAddrV4 { ip, port })
}

fn parse_scoped(v: &Vec<char>) -> (r: Option<([u16; 8], u32)>)
    ensures
        r matches Some(a) ==> scoped_parsed(v@) == Some((a.0@, a.1)),
        r is None ==> scoped_parsed(v@) is None,
{
    match find_first(v, '%') {
        Some(p) => {
            let before = slice_of(v, 0, p);
            let after = slice_of(v, p + 1, v.len());
            assert(before@ =~= v@.take(p as int));
            assert(after@ =~= v@.skip(p + 1));
            let ip = parse_ipv6(&before)?;
            let scope_id = parse_scope(&after)?;
            Some((ip, scope_id))
        },
        None => {
            let ip = parse_ipv6(v)?;
            Some((ip, 0))
        },
    }
}

fn parse_socket_v6(v: &Vec<char>) -> (r: Option<SocketAddrV6>)
    ensures
        r matches Some(a) ==> socket_v6_parsed(v@) == Some(NetworkAddress::Ipv6(a)@),
        r is None ==> socket_v6_parsed(v@) is None,
{
    let k = find_first(v, ']')?;
    if v[0] != '[' || k + 1 >= v.len() || v[k + 1] != ':' {
        return None;
    }
    proof {
        v@.index_of_first_ensures(']');
    }
    let inner = slice_of(v, 1, k);
    let after = slice_of(v, k + 2, v.len());
    assert(after@ =~= v@.skip(k + 2));
    let (ip, scope_id) = parse_scoped(&inner)?;
    let port = parse_port(&after)?;
    Some(SocketAddrV6 { ip, port, scope_id })
}

fn parse_host_port(v: &Vec<char>) -> (r: Option<u16>)
    ensures
        r == host_port_parsed(v@),
{
    if v.len() > 0 && v[0] == '+' {
        let digits = slice_of(v, 1, v.len());
        assert(digits@ =~= v@.skip(1));
        parse_port(&digits)
    } else {
        parse_port(v)
    }
}

impl NetworkAddress {
    /// Reads a network address from its text.
    pub fn from_str(s: &str) -> (r: Result<NetworkAddress, ParseError>)
        ensures
            r matches Ok(a) ==> address_parsed(s@) == Ok::<_, ParseError>(a@),
            r matches Err(e) ==> address_parsed(s@) == Err::<NetworkAddressView, _>(e),
    {
        let v = chars_of(s);
        NetworkAddress::from_chars(&v)
    }

    /// Reads a network address from the characters of its text.
    pub fn from_chars(v: &Vec<char>) -> (r: Result<NetworkAddress, ParseError>)
        ensures
            r matches Ok(a) ==> address_parsed(v@) == Ok::<_, ParseError>(a@),
            r matches Err(e) ==> address_parsed(v@) == Err::<NetworkAddressView, _>(e),
    {
        // First, try to parse as a standard socket address (IPv4 or IPv6)
        if let Some(v4) = parse_socket_v4(v) {
            return Ok(NetworkAddress::Ipv4(v4));
        }
        if let Some(v6) = parse_socket_v6(v) {
            return Ok(NetworkAddress::Ipv6(v6));
        }
        // Otherwise, find the last colon to split hostname and port
        match find_last(v, ':') {
            Some(colon_pos) => {
                let port_chars = slice_of(v, colon_pos + 1, v.len());
                assert(port_chars@ =~= v@.skip(colon_pos + 1));
                match parse_host_port(&port_chars) {
                    None => Err(ParseError::ParsingPort),
                    Some(port) => {
                        if colon_pos == 0 {
                            Err(ParseError::ParsingHost)
                        } else {
                            let hostname = string_of(v, 0, colon_pos);
                            assert(hostname@ =~= v@.take(colon_pos as int));
                            Ok(NetworkAddress::Dns { hostname, port })
                        }
                    },
                }
            },
            None => Err(ParseError::MissingPort),
        }
    }
}

// --------------------------------------------------------------- rendering

/// An IPv4 address as text: its four octets in decimal, with dots.
pub open spec fn ipv4_text(octets: Seq<u8>) -> Seq<char> {
    decimal_text(octets[0] as nat) + seq!['.'] + decimal_text(octets[1] as nat) + seq!['.']
        + decimal_text(octets[2] as nat) + seq!['.'] + decimal_text(octets[3] as nat)
}

/// Groups as text: each in hexadecimal, with colons between them.
pub open spec fn groups_text(groups: Seq<u16>) -> Seq<char>
    decreases groups.len(),
{
    if groups.len() == 0 {
        Seq::empty()
    } else if groups.len() == 1 {
        hex_text(groups[0] as nat)
    } else {
        hex_text(groups[0] as nat) + seq![':'] + groups_text(groups.drop_first())
    }
}

/// The number of zero groups in a row from a place on.
pub open spec fn zero_run(groups: Seq<u16>, from: int) -> nat
    decreases groups.len() - from,
{
    if 0 <= from < groups.len() && groups[from] == 0 {
        1 + zero_run(groups, from + 1)
    } else {
        0
    }
}

/// The longest run of zero groups that starts before a place, as its start
/// and its length: of several longest runs the first.
pub open spec fn longest_zero_run(groups: Seq<u16>, before: int) -> (int, nat)
    decreases before,
{
    if before <= 0 {
        (0, 0)
    } else {
        let best = longest_zero_run(groups, before - 1);
        if zero_run(groups, before - 1) > best.1 {
            (before - 1, zero_run(groups, before - 1))
        } else {
            best
        }
    }
}

/// Whether an IPv6 address stands for an IPv4 address: five zero groups and
/// one of all ones before the last two.
pub open spec fn is_ipv4_mapped(groups: Seq<u16>) -> bool {
    groups[0] == 0 && groups[1] == 0 && groups[2] == 0 && groups[3] == 0 && groups[4] == 0
        && groups[5] == 0xffff
}

/// The four octets in the last two groups of an IPv6 address.
pub open spec fn mapped_octets(groups: Seq<u16>) -> Seq<u8> {
    seq![
        (groups[6] / 256) as u8,
        (groups[6] % 256) as u8,
        (groups[7] / 256) as u8,
        (groups[7] % 256) as u8,
    ]
}

/// An IPv6 address as text. One that stands for an IPv4 address is written
/// `::ffff:` and that address. In any other the longest run of two or more
/// zero groups, the first of several, is written `::`; without such a run
/// all eight groups are written.
pub open spec fn ipv6_text(groups: Seq<u16>) -> Seq<char> {
    let run = longest_zero_run(groups, 8);
    if is_ipv4_mapped(groups) {
        seq![':', ':'] + hex_text(0xffff) + seq![':'] + ipv4_text(mapped_octets(groups))
    } else if run.1 >= 2 {
        groups_text(groups.take(run.0)) + seq![':', ':'] + groups_text(
            groups.skip(run.0 + run.1),
        )
    } else {
        groups_text(groups)
    }
}

/// The scope of an IPv6 socket address as text: nothing for scope 0, else
/// `%` and the scope in decimal.
pub open spec fn scope_text(scope_id: u32) -> Seq<char> {
    if scope_id == 0 {
        Seq::empty()
    } else {
        seq!['%'] + decimal_text(scope_id as nat)
    }
}

/// A network address as text: `ip:port`, `[ip]:port` or `hostname:port`.
pub open spec fn address_text(a: NetworkAddressView) -> Seq<char> {
    match a {
        NetworkAddressView::Ipv4 { octets, port } => ipv4_text(octets) + seq![':'] + decimal_text(
            port as nat,
        ),
        NetworkAddressView::Ipv6 { segments, port, scope_id } => seq!['['] + ipv6_text(segments)
            + scope_text(scope_id) + seq![']', ':'] + decimal_text(port as nat),
        NetworkAddressView::Dns { hostname, port } => hostname + seq![':'] + decimal_text(
            port as nat,
        ),
    }
}

/// A run of zero groups ends within the address and holds only zeros.
pub proof fn lemma_zero_run(groups: Seq<u16>, from: int)
    requires
        0 <= from <= groups.len(),
    ensures
        from + zero_run(groups, from) <= groups.len(),
        forall|j: int| from <= j < from + zero_run(groups, from) ==> groups[j] == 0,
    decreases groups.len() - from,
{
    if from < groups.len() && groups[from] == 0 {
        lemma_zero_run(groups, from + 1);
    }
}

/// The longest run of zero groups lies within the address and holds only
/// zeros.
pub proof fn lemma_longest_zero_run(groups: Seq<u16>, before: int)
    requires
        0 <= before <= groups.len(),
    ensures
        0 <= longest_zero_run(groups, before).0,
        longest_zero_run(groups, before).0 + longest_zero_run(groups, before).1 <= groups.len(),
        forall|j: int|
            longest_zero_run(groups, before).0 <= j < longest_zero_run(groups, before).0
                + longest_zero_run(groups, before).1 ==> groups[j] == 0,
    decreases before,
{
    if before > 0 {
        lemma_longest_zero_run(groups, before - 1);
        lemma_zero_run(groups, before - 1);
    }
}

fn push_ipv4(out: &mut String, ip: &[u8; 4])
    ensures
        final(out)@ == old(out)@ + ipv4_text(ip@),
{
    push_decimal(out, ip[0] as u32);
    out.push('.');
    push_decimal(out, ip[1] as u32);
    out.push('.');
    push_decimal(out, ip[2] as u32);
    out.push('.');
    push_decimal(out, ip[3] as u32);
    assert(final(out)@ =~= old(out)@ + ipv4_text(ip@));
}

fn push_groups(out: &mut String, ip: &[u16; 8], from: usize, to: usize)
    requires
        from <= to <= 8,
    ensures
        final(out)@ == old(out)@ + groups_text(ip@.subrange(from as int, to as int)),
    decreases to - from,
{
    let ghost groups = ip@.subrange(from as int, to as int);
    if from < to {
        push_hex(out, ip[from]);
        if from + 1 < to {
            out.push(':');
            push_groups(out, ip, from + 1, to);
            assert(groups.drop_first() =~= ip@.subrange(from + 1, to as int));
        }
    }
    assert(final(out)@ =~= old(out)@ + groups_text(groups));
}

fn zero_run_at(ip: &[u16; 8], from: usize) -> (n: usize)
    requires
        from <= 8,
    ensures
        n == zero_run(ip@, from as int),
        from + n <= 8,
    decreases 8 - from,
{
    if from < 8 && ip[from] == 0 {
        1 + zero_run_at(ip, from + 1)
    } else {
        0
    }
}

fn find_longest_zero_run(ip: &[u16; 8]) -> (run: (usize, usize))
    ensures
        run.0 == longest_zero_run(ip@, 8).0,
        run.1 == longest_zero_run(ip@, 8).1,
        run.0 + run.1 <= 8,
{
    let mut best: (usize, usize) = (0, 0);
    let mut i: usize = 0;
    while i < 8
        invariant
            i <= 8,
            best.0 == longest_zero_run(ip@, i as int).0,
            best.1 == longest_zero_run(ip@, i as int).1,
            best.0 + best.1 <= 8,
        decreases 8 - i,
    {
        let n = zero_run_at(ip, i);
        if n > best.1 {
            best = (i, n);
        }
        i = i + 1;
    }
    best
}

fn push_ipv6(out: &mut String, ip: &[u16; 8])
    ensures
        final(out)@ == old(out)@ + ipv6_text(ip@),
{
    if ip[0] == 0 && ip[1] == 0 && ip[2] == 0 && ip[3] == 0 && ip[4] == 0 && ip[5] == 0xffff {
        let octets: [u8; 4] = [
            (ip[6] / 256) as u8,
            (ip[6] % 256) as u8,
            (ip[7] / 256) as u8,
            (ip[7] % 256) as u8,
        ];
        assert(octets@ =~= mapped_octets(ip@));
        out.push(':');
        out.push(':');
        push_hex(out, 0xffff);
        out.push(':');
        push_ipv4(out, &octets);
        assert(final(out)@ =~= old(out)@ + ipv6_text(ip@));
    } else {
        let run = find_longest_zero_run(ip);
        if run.1 >= 2 {
            push_groups(out, ip, 0, run.0);
            out.push(':');
            out.push(':');
            push_groups(out, ip, run.0 + run.1, 8);
            assert(ip@.subrange(0, run.0 as int) =~= ip@.take(run.0 as int));
            assert(ip@.subrange(run.0 + run.1, 8) =~= ip@.skip(run.0 + run.1));
            assert(final(out)@ =~= old(out)@ + ipv6_text(ip@));
        } else {
            push_groups(out, ip, 0, 8);
            assert(ip@.subrange(0, 8) =~= ip@);
        }
    }
}

impl NetworkAddress {
    /// Writes the address as text.
    pub fn to_string(&self) -> (r: String)
        ensures
            r@ == address_text(self@),
    {
        let mut out = String::new();
        match self {
            NetworkAddress::Ipv4(addr) => {
                push_ipv4(&mut out, &addr.ip);
                out.push(':');
                push_decimal(&mut out, addr.port as u32);
            },
            NetworkAddress::Ipv6(addr) => {
                out.push('[');
                push_ipv6(&mut out, &addr.ip);
                if addr.scope_id != 0 {
                    out.push('%');
                    push_decimal(&mut out, addr.scope_id);
                }
                out.push(']');
                out.push(':');
                push_decimal(&mut out, addr.port as u32);
            },
            NetworkAddress::Dns { hostname, port } => {
                out = hostname.clone();
                out.push(':');
                push_decimal(&mut out, *port as u32);
            },
        }
        assert(out@ =~= address_text(self@));
        out
    }
}

impl core::str::FromStr for NetworkAddress {
    type Err = ParseError;

    /// Reads a network address from its text, as `NetworkAddress::from_str`
    /// does.
    fn from_str(s: &str) -> (r: Result<NetworkAddress, ParseError>)
        ensures
            r matches Ok(a) ==> address_parsed(s@) == Ok::<_, ParseError>(a@),
            r matches Err(e) ==> address_parsed(s@) == Err::<NetworkAddressView, _>(e),
    {
        NetworkAddress::from_str(s)
    }
}

} // verus!
