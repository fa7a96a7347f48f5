//! Numbers for a generator out of the machine's own addresses: the first
//! private address among the interfaces that are up names the data center
//! and the machine.

use vstd::prelude::*;

verus! {

/// An address of an interface.
#[derive(Clone, Copy, Debug)]
pub enum IpAddress {
    /// An IPv4 address as its four octets.
    V4([u8; 4]),
    /// An IPv6 address as its eight segments of 16 bits.
    V6([u16; 8]),
}

/// What the search needs to know of a network interface.
#[derive(Debug)]
pub struct Interface {
    /// The interface is up.
    pub up: bool,
    /// The interface is a loopback interface.
    pub loopback: bool,
    /// The addresses of the interface, in the order the system gives them.
    pub ips: Vec<IpAddress>,
}

/// The four octets are an address of a private network: 10.0.0.0/8,
/// 172.16.0.0/12 or 192.168.0.0/16.
pub open spec fn private_v4(octets: [u8; 4]) -> bool {
    octets[0] == 10 || (octets[0] == 172 && 16 <= octets[1] <= 31) || (octets[0] == 192
        && octets[1] == 168)
}

/// The eight segments are a unique local address (fc00::/7) or a link-local
/// address (fe80::/10).
pub open spec fn private_v6(segments: [u16; 8]) -> bool {
    0xfc00 <= segments[0] <= 0xfdff || 0xfe80 <= segments[0] <= 0xfebf
}

impl Interface {
    /// The search looks at the interface: it is up and no loopback.
    pub open spec fn usable(self) -> bool {
        self.up && !self.loopback
    }
}

/// The addresses of the usable interfaces, interface by interface, in order.
pub open spec fn addresses(interfaces: Seq<Interface>) -> Seq<IpAddress>
    decreases interfaces.len(),
{
    if interfaces.len() == 0 {
        Seq::empty()
    } else if interfaces.last().usable() {
        addresses(interfaces.drop_last()) + interfaces.last().ips@
    } else {
        addresses(interfaces.drop_last())
    }
}

/// The first private IPv4 address in a sequence of addresses.
pub open spec fn first_private_v4(addrs: Seq<IpAddress>) -> Option<[u8; 4]>
    decreases addrs.len(),
{
    if addrs.len() == 0 {
        None
    } else {
        match addrs[0] {
            IpAddress::V4(octets) if private_v4(octets) => Some(octets),
            _ => first_private_v4(addrs.drop_first()),
        }
    }
}

/// The first private IPv6 address in a sequence of addresses.
pub open spec fn first_private_v6(addrs: Seq<IpAddress>) -> Option<[u16; 8]>
    decreases addrs.len(),
{
    if addrs.len() == 0 {
        None
    } else {
        match addrs[0] {
            IpAddress::V6(segments) if private_v6(segments) => Some(segments),
            _ => first_private_v6(addrs.drop_first()),
        }
    }
}

/// The numbers that a sequence of addresses gives: data center and machine
/// are the last two octets of the first private IPv4 address or, where
/// there is none, the last two segments of the first private IPv6 address.
pub open spec fn ids_from(addrs: Seq<IpAddress>) -> Option<(u16, u16)> {
    match first_private_v4(addrs) {
        Some(octets) => Some((octets[2] as u16, octets[3] as u16)),
        None => match first_private_v6(addrs) {
            Some(segments) => Some((segments[6], segments[7])),
            None => None,
        },
    }
}

/// Tells whether four octets are an address of a private network.
pub fn is_private_ipv4(ip: &[u8; 4]) -> (private: bool)
    ensures
        private == private_v4(*ip),
{
    ip[0] == 10 || (ip[0] == 172 && 16 <= ip[1] && ip[1] <= 31) || (ip[0] == 192 && ip[1] == 168)
}

/// Tells whether eight segments are a unique local or a link-local address.
pub fn is_private_ipv6(ip: &[u16; 8]) -> (private: bool)
    ensures
        private == private_v6(*ip),
{
    let first = ip[0];
    proof {
        assert((first & 0xfe00 == 0xfc00) == (0xfc00 <= first && first <= 0xfdff)) by (bit_vector);
        assert((first & 0xffc0 == 0xfe80) == (0xfe80 <= first && first <= 0xfebf)) by (bit_vector);
    }
    (first & 0xfe00) == 0xfc00 || (first & 0xffc0) == 0xfe80
}

/// The addresses of the interfaces that are up and no loopback, in order.
pub fn usable_addresses(interfaces: &[Interface]) -> (addrs: Vec<IpAddress>)
    ensures
        addrs@ == addresses(interfaces@),
{
    let mut addrs: Vec<IpAddress> = Vec::new();
    let mut i: usize = 0;
    while i < interfaces.len()
        invariant
            i <= interfaces.len(),
            addrs@ == addresses(interfaces@.take(i as int)),
        decreases interfaces.len() - i,
    {
        let interface = &interfaces[i];
        proof {
            assert(interfaces@.take(i + 1).drop_last() =~= interfaces@.take(i as int));
        }
        if interface.up && !interface.loopback {
            let ghost before = addrs@;
            let mut j: usize = 0;
            while j < interface.ips.len()
                invariant
                    j <= interface.ips.len(),
                    addrs@ == before + interface.ips@.take(j as int),
                decreases interface.ips.len() - j,
            {
                addrs.push(interface.ips[j]);
                proof {
                    assert(interface.ips@.take(j + 1) =~= interface.ips@.take(j as int).push(
                        interface.ips@[j as int],
                    ));
                }
                j = j + 1;
            }
            proof {
                assert(interface.ips@.take(j as int) =~= interface.ips@);
            }
        }
        i = i + 1;
    }
    proof {
        assert(interfaces@.take(i as int) =~= interfaces@);
    }
    addrs
}

/// The first private IPv4 address of the usable interfaces.
pub fn private_ipv4(interfaces: &[Interface]) -> (found: Option<[u8; 4]>)
    ensures
        found == first_private_v4(addresses(interfaces@)),
{
    let addrs = usable_addresses(interfaces);
    let mut i: usize = 0;
    proof {
        assert(addrs@.skip(0) =~= addrs@);
    }
    while i < addrs.len()
        invariant
            i <= addrs.len(),
            addrs@ == addresses(interfaces@),
            first_private_v4(addrs@) == first_private_v4(addrs@.skip(i as int)),
        decreases addrs.len() - i,
    {
        proof {
            assert(addrs@.skip(i as int).drop_first() =~= addrs@.skip(i + 1));
            assert(addrs@.skip(i as int)[0] == addrs@[i as int]);
        }
        match addrs[i] {
            IpAddress::V4(octets) => {
                if is_private_ipv4(&octets) {
                    return Some(octets);
                }
            },
            IpAddress::V6(_) => {},
        }
        i = i + 1;
    }
    None
}

/// The first private IPv6 address of the usable interfaces.
pub fn private_ipv6(interfaces: &[Interface]) -> (found: Option<[u16; 8]>)
    ensures
        found == first_private_v6(addresses(interfaces@)),
{
    let addrs = usable_addresses(interfaces);
    let mut i: usize = 0;
    proof {
        assert(addrs@.skip(0) =~= addrs@);
    }
    while i < addrs.len()
        invariant
            i <= addrs.len(),
            addrs@ == addresses(interfaces@),
            first_private_v6(addrs@) == first_private_v6(addrs@.skip(i as int)),
        decreases addrs.len() - i,
    {
        proof {
            assert(addrs@.skip(i as int).drop_first() =~= addrs@.skip(i + 1));
            assert(addrs@.skip(i as int)[0] == addrs@[i as int]);
        }
        match addrs[i] {
            IpAddress::V4(_) => {},
            IpAddress::V6(segments) => {
                if is_private_ipv6(&segments) {
                    return Some(segments);
                }
            },
        }
        i = i + 1;
    }
    None
}

/// The data-center number and the machine number that the interfaces give,
/// in this order.
pub fn get_ids_from_ip(interfaces: &[Interface]) -> (ids: Option<(u16, u16)>)
    ensures
        ids == ids_from(addresses(interfaces@)),
{
    if let Some(octets) = private_ipv4(interfaces) {
        return Some((octets[2] as u16, octets[3] as u16));
    }
    if let Some(segments) = private_ipv6(interfaces) {
        return Some((segments[6], segments[7]));
    }
    None
}

} // verus!
