//! Socket addresses and the choices made among them.

use vstd::prelude::*;

verus! {

/// An IP address, as the number that its bytes spell, most significant first.
#[derive(Clone, Copy, Debug, PartialEq, Eq, Hash, Structural)]
pub enum IpAddress {
    V4(u32),
    V6(u128),
}

/// The address of a UDP or TCP socket.
#[allow(inconsistent_fields)]
#[derive(Clone, Copy, Debug, PartialEq, Eq, Hash, Structural)]
pub enum SocketAddress {
    V4 { ip: u32, port: u16 },
    V6 { ip: u128, port: u16, flowinfo: u32, scope_id: u32 },
}

impl SocketAddress {
    pub fn is_ipv4(&self) -> (v4: bool)
        ensures
            v4 == (self is V4),
    {
        matches!(self, SocketAddress::V4 { .. })
    }

    pub fn is_ipv6(&self) -> (v6: bool)
        ensures
            v6 == (self is V6),
    {
        matches!(self, SocketAddress::V6 { .. })
    }
}

/// Whether an address may be connected to.
pub open spec fn eligible(addr: SocketAddress, ipv4_only: bool) -> bool {
    !ipv4_only || addr is V4
}

/// The first of the addresses that a host name resolved to that may be connected
/// to: any address, or with `ipv4_only` any IPv4 address.
pub fn select_remote(addrs: &Vec<SocketAddress>, ipv4_only: bool) -> (chosen: Option<SocketAddress>)
    ensures
        match chosen {
            Some(addr) => exists|i: int|
                0 <= i < addrs@.len() && #[trigger] addrs@[i] == addr && eligible(addr, ipv4_only)
                    && forall|j: int| 0 <= j < i ==> !eligible(#[trigger] addrs@[j], ipv4_only),
            None => forall|j: int|
                0 <= j < addrs@.len() ==> !eligible(#[trigger] addrs@[j], ipv4_only),
        },
        !ipv4_only ==> chosen == if addrs@.len() > 0 {
            Some(addrs@[0])
        } else {
            None
        },
        ipv4_only ==> match chosen {
            Some(addr) => addr is V4 && exists|i: int|
                0 <= i < addrs@.len() && #[trigger] addrs@[i] == addr && forall|j: int|
                    0 <= j < i ==> #[trigger] addrs@[j] is V6,
            None => forall|j: int| 0 <= j < addrs@.len() ==> #[trigger] addrs@[j] is V6,
        },
{
    let mut i: usize = 0;
    while i < addrs.len()
        invariant
            i <= addrs@.len(),
            forall|j: int| 0 <= j < i ==> !eligible(#[trigger] addrs@[j], ipv4_only),
        decreases addrs.len() - i,
    {
        if !ipv4_only || addrs[i].is_ipv4() {
            return Some(addrs[i]);
        }
        i = i + 1;
    }
    None
}

/// Where to bind the socket that serves one UDP client alone: the address that
/// the client sent to, at the port that is listened on. An IPv6 address keeps
/// the client's flow information and scope.
pub open spec fn reply_address(
    client: SocketAddress,
    local_ip: IpAddress,
    local_port: u16,
) -> Option<SocketAddress> {
    match (client, local_ip) {
        (SocketAddress::V4 { .. }, IpAddress::V4(ip)) => Some(
            SocketAddress::V4 { ip, port: local_port },
        ),
        (SocketAddress::V6 { flowinfo, scope_id, .. }, IpAddress::V6(ip)) => Some(
            SocketAddress::V6 { ip, port: local_port, flowinfo, scope_id },
        ),
        (_, _) => None,
    }
}

/// Computes [`reply_address`]. `None` if the client's address and the local one
/// are not of the same family.
pub fn bind_address(client: &SocketAddress, local_ip: &IpAddress, local_port: u16) -> (addr: Option<
    SocketAddress,
>)
    ensures
        addr == reply_address(*client, *local_ip, local_port),
        addr is None <==> (client is V4) != (local_ip is V4),
        addr matches Some(SocketAddress::V4 { ip, port }) ==> port == local_port && *local_ip
            == IpAddress::V4(ip),
        addr matches Some(SocketAddress::V6 { ip, port, flowinfo, scope_id }) ==> port == local_port
            && *local_ip == IpAddress::V6(ip) && (client matches SocketAddress::V6 {
            flowinfo: f,
            scope_id: s,
            ..
        } && f == flowinfo && s == scope_id),
{
    match (*client, *local_ip) {
        (SocketAddress::V4 { .. }, IpAddress::V4(ip)) => Some(
            SocketAddress::V4 { ip, port: local_port },
        ),
        (SocketAddress::V6 { flowinfo, scope_id, .. }, IpAddress::V6(ip)) => Some(
            SocketAddress::V6 { ip, port: local_port, flowinfo, scope_id },
        ),
        (_, _) => None,
    }
}

/// The unspecified address, with port 0, of the family of `remote`: where to bind
/// a socket that is to be connected to `remote`.
pub fn unspecified_for(remote: &SocketAddress) -> (addr: SocketAddress)
    ensures
        addr == match *remote {
            SocketAddress::V4 { .. } => SocketAddress::V4 { ip: 0, port: 0 },
            SocketAddress::V6 { .. } => SocketAddress::V6 {
                ip: 0,
                port: 0,
                flowinfo: 0,
                scope_id: 0,
            },
        },
{
    if remote.is_ipv4() {
        SocketAddress::V4 { ip: 0, port: 0 }
    } else {
        SocketAddress::V6 { ip: 0, port: 0, flowinfo: 0, scope_id: 0 }
    }
}

/// Without a restriction any address may be connected to, and with it any IPv4
/// address and no other.
pub proof fn only_the_family_is_restricted(addr: SocketAddress, ipv4_only: bool)
    ensures
        eligible(addr, ipv4_only) <==> (ipv4_only ==> addr is V4),
{
}

/// Replies come from where the client sent to: a reply address has the IP address
/// that the client sent to and the port that is listened on, whatever they are, and
/// an IPv6 one has the client's flow information and scope. There is one exactly if
/// both ends are of one family.
pub proof fn reply_comes_from_where_the_client_sent_to(
    client: SocketAddress,
    local_ip: IpAddress,
    local_port: u16,
)
    ensures
        reply_address(client, local_ip, local_port) is Some <==> (client is V4 <==> local_ip is V4),
        reply_address(client, local_ip, local_port) matches Some(SocketAddress::V4 { ip, port })
            ==> port == local_port && local_ip == IpAddress::V4(ip),
        reply_address(client, local_ip, local_port) matches Some(
            SocketAddress::V6 { ip, port, flowinfo, scope_id },
        ) ==> port == local_port && local_ip == IpAddress::V6(ip) && (
        client matches SocketAddress::V6 { flowinfo: f, scope_id: s, .. } && f == flowinfo && s
            == scope_id),
{
}

/// Where a reply comes from does not depend on the client's own IP address and
/// port.
pub proof fn clients_of_one_address_get_replies_from_one_address(
    a: SocketAddress,
    b: SocketAddress,
    local_ip: IpAddress,
    local_port: u16,
)
    requires
        match (a, b) {
            (SocketAddress::V4 { .. }, SocketAddress::V4 { .. }) => true,
            (
                SocketAddress::V6 { flowinfo: f, scope_id: s, .. },
                SocketAddress::V6 { flowinfo: g, scope_id: t, .. },
            ) => f == g && s == t,
            _ => false,
        },
    ensures
        reply_address(a, local_ip, local_port) == reply_address(b, local_ip, local_port),
{
}

} // verus!
