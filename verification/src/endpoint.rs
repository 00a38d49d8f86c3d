//! Endpoint identifiers and network addresses.
use vstd::prelude::*;

use crate::text::{hex, hex_of};

verus! {

/// Whether 32 bytes are a public key that can identify an endpoint.
pub uninterp spec fn is_public_key(bytes: Seq<u8>) -> bool;

/// The public key that a text names, if it names one.
pub uninterp spec fn named_public_key(text: Seq<char>) -> Option<Seq<u8>>;

/// `iroh::EndpointId::from_bytes`. Claimed: whether it accepts `bytes` depends on
/// them alone. Which bytes are points of the curve is left unsaid.
#[verifier::external_body]
fn check_public_key(bytes: &[u8; 32]) -> (r: bool)
    ensures
        r == is_public_key(bytes@),
{
    iroh::EndpointId::from_bytes(bytes).is_ok()
}

/// `iroh::EndpointId::from_str`, read back with `as_bytes`. Claimed: the result
/// depends on `text` alone, is always a public key, and the hexadecimal form of a
/// public key names that key. The base32 form, which is accepted too, is left
/// unsaid.
#[verifier::external_body]
fn read_public_key(text: &str) -> (r: Option<[u8; 32]>)
    ensures
        r is Some <==> named_public_key(text@) is Some,
        r matches Some(bytes) ==> {
            &&& named_public_key(text@) == Some(bytes@)
            &&& is_public_key(bytes@)
        },
        forall|key: Seq<u8>|
            key.len() == 32 && is_public_key(key) && text@ == #[trigger] hex(key) ==> {
                &&& r is Some
                &&& r->0@ == key
            },
{
    text.parse::<iroh::EndpointId>().ok().map(|id| *id.as_bytes())
}

/// Identifier of an endpoint: its public key.
#[derive(Debug, PartialEq, Eq)]
pub struct EndpointId {
    bytes: [u8; 32],
}

impl View for EndpointId {
    type V = Seq<u8>;

    closed spec fn view(&self) -> Seq<u8> {
        self.bytes@
    }
}

impl EndpointId {
    #[verifier::type_invariant]
    closed spec fn is_key(self) -> bool {
        is_public_key(self.bytes@)
    }

    /// The identifier with the given bytes, if they are a public key.
    pub fn from_bytes(bytes: [u8; 32]) -> (r: Option<EndpointId>)
        ensures
            r is Some <==> is_public_key(bytes@),
            r matches Some(id) ==> id@ == bytes@,
    {
        if check_public_key(&bytes) {
            Some(EndpointId { bytes })
        } else {
            None
        }
    }

    /// The identifier that a text names, if it names one.
    pub fn parse(text: &str) -> (r: Option<EndpointId>)
        ensures
            r is Some <==> named_public_key(text@) is Some,
            r matches Some(id) ==> named_public_key(text@) == Some(id@),
            forall|key: Seq<u8>|
                key.len() == 32 && is_public_key(key) && text@ == #[trigger] hex(key) ==> {
                    &&& r is Some
                    &&& r->0@ == key
                },
    {
        match read_public_key(text) {
            Some(bytes) => Some(EndpointId { bytes }),
            None => None,
        }
    }

    /// The bytes of the public key.
    pub fn to_bytes(&self) -> (r: [u8; 32])
        ensures
            r@ == self@,
            is_public_key(r@),
    {
        proof {
            use_type_invariant(self);
        }
        self.bytes
    }

    /// String form: the key in lower case hexadecimal.
    pub fn to_text(&self) -> (r: String)
        ensures
            r@ == hex(self@),
    {
        hex_of(self.bytes.as_slice())
    }
}

/// An IP address.
#[derive(Debug, Clone, Copy, PartialEq, Eq, Structural)]
pub enum IpAddr {
    /// IPv4, most significant octet first.
    V4(u32),
    /// IPv6, most significant segment first.
    V6(u128),
}

/// The order of IP addresses: IPv4 before IPv6, then by value.
pub open spec fn ip_less(a: IpAddr, b: IpAddr) -> bool {
    match (a, b) {
        (IpAddr::V4(x), IpAddr::V4(y)) => x < y,
        (IpAddr::V4(_), IpAddr::V6(_)) => true,
        (IpAddr::V6(_), IpAddr::V4(_)) => false,
        (IpAddr::V6(x), IpAddr::V6(y)) => x < y,
    }
}

impl IpAddr {
    /// Whether this is an IPv4 address.
    pub fn is_ipv4(&self) -> (r: bool)
        ensures
            r == (*self is V4),
    {
        match self {
            IpAddr::V4(_) => true,
            IpAddr::V6(_) => false,
        }
    }

    /// Whether this address comes before `other`.
    pub fn is_less(&self, other: &IpAddr) -> (r: bool)
        ensures
            r == ip_less(*self, *other),
    {
        match (self, other) {
            (IpAddr::V4(x), IpAddr::V4(y)) => *x < *y,
            (IpAddr::V4(_), IpAddr::V6(_)) => true,
            (IpAddr::V6(_), IpAddr::V4(_)) => false,
            (IpAddr::V6(x), IpAddr::V6(y)) => *x < *y,
        }
    }
}

/// A socket address: the IP address, and the whole in its string form.
#[derive(Debug, PartialEq, Eq)]
pub struct SocketAddr {
    pub ip: IpAddr,
    pub text: String,
}

/// The string forms of a list of socket addresses.
pub open spec fn addr_texts(addrs: Seq<SocketAddr>) -> Seq<Seq<char>> {
    addrs.map_values(|a: SocketAddr| a.text@)
}

/// The IP addresses of a list of socket addresses.
pub open spec fn addr_ips(addrs: Seq<SocketAddr>) -> Seq<IpAddr> {
    addrs.map_values(|a: SocketAddr| a.ip)
}

/// A socket address as its IP address and its string form.
pub open spec fn addr_view(a: SocketAddr) -> (IpAddr, Seq<char>) {
    (a.ip, a.text@)
}

/// A list of socket addresses, each as its IP address and its string form.
pub open spec fn addrs_view(addrs: Seq<SocketAddr>) -> Seq<(IpAddr, Seq<char>)> {
    addrs.map_values(|a: SocketAddr| addr_view(a))
}

impl SocketAddr {
    /// The same address again.
    pub fn copy(&self) -> (r: SocketAddr)
        ensures
            addr_view(r) == addr_view(*self),
    {
        SocketAddr { ip: self.ip, text: self.text.clone() }
    }
}

/// A way to reach an endpoint.
#[derive(Debug, PartialEq, Eq)]
pub enum TransportAddr {
    /// Through a relay server.
    Relay(String),
    /// Directly.
    Ip(SocketAddr),
    /// Through another kind of transport.
    Custom(String),
}

/// An endpoint and the ways to reach it.
#[derive(Debug, PartialEq, Eq)]
pub struct EndpointAddr {
    pub id: EndpointId,
    pub addrs: Vec<TransportAddr>,
}

/// The direct address in a transport address, if it is one.
pub open spec fn direct_addr(a: TransportAddr) -> Option<(IpAddr, Seq<char>)> {
    match a {
        TransportAddr::Ip(addr) => Some(addr_view(addr)),
        _ => None,
    }
}

/// The direct addresses among transport addresses, in order.
pub open spec fn direct_addrs(addrs: Seq<TransportAddr>) -> Seq<(IpAddr, Seq<char>)> {
    addrs.filter_map(|a: TransportAddr| direct_addr(a))
}

/// IPv4 addresses come before IPv6 addresses, and smaller ones before larger ones of the
/// same kind.
pub proof fn addresses_are_ordered_by_kind_and_value(x: u32, y: u32, v: u128, w: u128)
    ensures
        ip_less(IpAddr::V4(x), IpAddr::V4(y)) <==> x < y,
        ip_less(IpAddr::V6(v), IpAddr::V6(w)) <==> v < w,
        ip_less(IpAddr::V4(x), IpAddr::V6(v)),
        !ip_less(IpAddr::V6(v), IpAddr::V4(x)),
{
}

/// Of any two addresses just one comes first, unless they are the same.
pub proof fn addresses_are_totally_ordered(a: IpAddr, b: IpAddr, c: IpAddr)
    ensures
        a == b ==> !ip_less(a, b),
        a != b ==> ip_less(a, b) != ip_less(b, a),
        ip_less(a, b) && ip_less(b, c) ==> ip_less(a, c),
{
}

/// A list of socket addresses is seen address by address.
pub proof fn socket_addresses_are_seen_one_by_one(addrs: Seq<SocketAddr>)
    ensures
        addr_texts(addrs).len() == addrs.len(),
        addr_ips(addrs).len() == addrs.len(),
        addrs_view(addrs).len() == addrs.len(),
        forall|i: int|
            0 <= i < addrs.len() ==> addr_texts(addrs)[i] == (#[trigger] addrs[i]).text@
                && addr_ips(addrs)[i] == addrs[i].ip && addrs_view(addrs)[i] == (
                addrs[i].ip,
                addrs[i].text@,
            ),
{
}

/// Among the ways to reach an endpoint, all direct addresses are found, in order, and
/// nothing else.
pub proof fn direct_addresses_are_found_one_by_one(
    addrs: Seq<TransportAddr>,
    addr: SocketAddr,
    other: String,
)
    ensures
        direct_addrs(Seq::empty()) == Seq::<(IpAddr, Seq<char>)>::empty(),
        direct_addrs(addrs.push(TransportAddr::Ip(addr))) == direct_addrs(addrs).push(
            (addr.ip, addr.text@),
        ),
        direct_addrs(addrs.push(TransportAddr::Relay(other))) == direct_addrs(addrs),
        direct_addrs(addrs.push(TransportAddr::Custom(other))) == direct_addrs(addrs),
{
    reveal(Seq::filter_map);
    assert(direct_addrs(Seq::empty()) =~= Seq::<(IpAddr, Seq<char>)>::empty());
    assert(addrs.push(TransportAddr::Ip(addr)).drop_last() =~= addrs);
    assert(addrs.push(TransportAddr::Relay(other)).drop_last() =~= addrs);
    assert(addrs.push(TransportAddr::Custom(other)).drop_last() =~= addrs);
    assert(direct_addrs(addrs.push(TransportAddr::Ip(addr))) =~= direct_addrs(addrs).push(
        (addr.ip, addr.text@),
    ));
    assert(direct_addrs(addrs.push(TransportAddr::Relay(other))) =~= direct_addrs(addrs));
    assert(direct_addrs(addrs.push(TransportAddr::Custom(other))) =~= direct_addrs(addrs));
}

} // verus!
