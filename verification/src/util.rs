//! The choice of the local address to bind to.

use vstd::prelude::*;

verus! {

/// An address of a network interface, with its netmask if it has one.
#[derive(Clone, Copy, Debug, PartialEq, Eq)]
pub enum InterfaceAddress {
    V4([u8; 4], Option<[u8; 4]>),
    V6([u8; 16], Option<[u8; 16]>),
}

/// The addresses of the widest networks that the machine is on: an IPv4
/// address and an IPv6 address, each with the length of its prefix.
#[derive(Clone, Copy, Debug, PartialEq, Eq)]
pub struct BestAddress {
    pub cidr4: Option<([u8; 4], u8)>,
    pub cidr6: Option<([u8; 16], u8)>,
}

/// Why no address could be chosen.
#[derive(Clone, Copy, Debug, PartialEq, Eq, Structural)]
pub enum AddressError {
    /// The interfaces of the machine could not be listed.
    Interfaces,
}

/// Calls `NetworkInterface::show` of the crate `network_interface` and
/// gives the addresses of all interfaces, in the order in which the
/// interfaces and their addresses are listed, each as its bytes. What the
/// machine has is not known beforehand: nothing is promised of the result.
/// An error of the crate gives nothing.
#[verifier::external_body]
fn show() -> (r: Option<Vec<InterfaceAddress>>) {
    let interfaces =
        <network_interface::NetworkInterface as network_interface::NetworkInterfaceConfig>::show()
            .ok()?;
    Some(interfaces.into_iter().flat_map(|interface| interface.addr).map(|addr| match addr {
        network_interface::Addr::V4(a) => InterfaceAddress::V4(
            a.ip.octets(),
            a.netmask.map(|m| m.octets()),
        ),
        network_interface::Addr::V6(a) => InterfaceAddress::V6(
            a.ip.octets(),
            a.netmask.map(|m| m.octets()),
        ),
    }).collect())
}

/// How many bits of a byte are set.
pub open spec fn ones(b: u8) -> nat {
    (b % 2 + (b / 2) % 2 + (b / 4) % 2 + (b / 8) % 2 + (b / 16) % 2 + (b / 32) % 2 + (b / 64) % 2
        + (b / 128) % 2) as nat
}

/// How many bits of the bytes are set.
pub open spec fn count_ones(bytes: Seq<u8>) -> nat
    decreases bytes.len(),
{
    if bytes.len() == 0 {
        0
    } else {
        count_ones(bytes.drop_last()) + ones(bytes.last())
    }
}

/// No more bits are set than there are.
pub proof fn lemma_count_ones_bound(bytes: Seq<u8>)
    ensures
        count_ones(bytes) <= 8 * bytes.len(),
    decreases bytes.len(),
{
    if bytes.len() > 0 {
        lemma_count_ones_bound(bytes.drop_last());
    }
}

fn mask_ones(mask: &[u8]) -> (n: u8)
    requires
        mask@.len() <= 16,
    ensures
        n == count_ones(mask@),
{
    let mut n: u8 = 0;
    let mut i: usize = 0;
    while i < mask.len()
        invariant
            i <= mask@.len() <= 16,
            n == count_ones(mask@.subrange(0, i as int)),
            n <= 8 * i,
        decreases mask@.len() - i,
    {
        let b: u8 = mask[i];
        let k: u8 = b % 2 + (b / 2) % 2 + (b / 4) % 2 + (b / 8) % 2 + (b / 16) % 2 + (b / 32) % 2
            + (b / 64) % 2 + (b / 128) % 2;
        proof {
            assert(mask@.subrange(0, i + 1).drop_last() =~= mask@.subrange(0, i as int));
        }
        n = n + k;
        i = i + 1;
    }
    assert(mask@.subrange(0, mask@.len() as int) =~= mask@);
    n
}

/// Whether all bytes are zero.
pub open spec fn is_zero(bytes: Seq<u8>) -> bool {
    forall|i: int| 0 <= i < bytes.len() ==> bytes[i] == 0
}

/// Whether an IPv4 address can be bound to and reached: not in 127.0.0.0/8,
/// not in 224.0.0.0/4, and not 0.0.0.0.
pub open spec fn usable4(ip: [u8; 4]) -> bool {
    ip@[0] != 127 && !(224 <= ip@[0] <= 239) && !is_zero(ip@)
}

/// Whether an IPv6 address can be bound to and reached: not `::1`, not in
/// `ff00::/8`, and not `::`.
pub open spec fn usable6(ip: [u8; 16]) -> bool {
    !(is_zero(ip@.subrange(0, 15)) && ip@[15] == 1) && ip@[0] != 0xff && !is_zero(ip@)
}

fn all_zero(bytes: &[u8], n: usize) -> (zero: bool)
    requires
        n <= bytes@.len(),
    ensures
        zero == is_zero(bytes@.subrange(0, n as int)),
{
    let mut i: usize = 0;
    while i < n
        invariant
            i <= n <= bytes@.len(),
            forall|j: int| 0 <= j < i ==> bytes@[j] == 0,
        decreases n - i,
    {
        if bytes[i] != 0 {
            assert(bytes@.subrange(0, n as int)[i as int] != 0);
            return false;
        }
        i = i + 1;
    }
    true
}

/// What an address offers to the choice: the IPv4 address and how many bits
/// its netmask has, if it is a usable IPv4 address with a netmask.
pub open spec fn candidate4(address: InterfaceAddress) -> Option<([u8; 4], u8)> {
    match address {
        InterfaceAddress::V4(ip, Some(mask)) if usable4(ip) => Some(
            (ip, count_ones(mask@) as u8),
        ),
        _ => None,
    }
}

/// What an address offers to the choice: the IPv6 address and how many bits
/// its netmask has, if it is a usable IPv6 address with a netmask.
pub open spec fn candidate6(address: InterfaceAddress) -> Option<([u8; 16], u8)> {
    match address {
        InterfaceAddress::V6(ip, Some(mask)) if usable6(ip) => Some(
            (ip, count_ones(mask@) as u8),
        ),
        _ => None,
    }
}

/// Whether `best` is the choice among `offers`: the first of those with the
/// shortest prefix, or nothing where nothing is offered.
pub open spec fn is_best<T>(offers: Seq<Option<(T, u8)>>, best: Option<(T, u8)>) -> bool {
    match best {
        None => forall|i: int| 0 <= i < offers.len() ==> offers[i] is None,
        Some(b) => exists|i: int|
            {
                &&& 0 <= i < offers.len()
                &&& #[trigger] offers[i] == Some(b)
                &&& forall|j: int| 0 <= j < i && offers[j] is Some ==> offers[j]->Some_0.1 > b.1
                &&& forall|j: int|
                    0 <= j < offers.len() && offers[j] is Some ==> offers[j]->Some_0.1 >= b.1
            },
    }
}

fn offer4(address: &InterfaceAddress) -> (offer: Option<([u8; 4], u8)>)
    ensures
        offer == candidate4(*address),
{
    match address {
        InterfaceAddress::V4(ip, Some(mask)) => {
            let zero: bool = all_zero(ip.as_slice(), 4);
            assert(ip@.subrange(0, 4) =~= ip@);
            if ip[0] == 127 || (224 <= ip[0] && ip[0] <= 239) || zero {
                None
            } else {
                proof {
                    lemma_count_ones_bound(mask@);
                }
                Some((*ip, mask_ones(mask.as_slice())))
            }
        },
        _ => None,
    }
}

fn offer6(address: &InterfaceAddress) -> (offer: Option<([u8; 16], u8)>)
    ensures
        offer == candidate6(*address),
{
    match address {
        InterfaceAddress::V6(ip, Some(mask)) => {
            let start_zero: bool = all_zero(ip.as_slice(), 15);
            let zero: bool = all_zero(ip.as_slice(), 16);
            assert(ip@.subrange(0, 16) =~= ip@);
            if (start_zero && ip[15] == 1) || ip[0] == 0xff || zero {
                None
            } else {
                proof {
                    lemma_count_ones_bound(mask@);
                }
                Some((*ip, mask_ones(mask.as_slice())))
            }
        },
        _ => None,
    }
}

/// Takes `offer` into account after the offers before it.
fn better<T: Copy>(
    best: Option<(T, u8)>,
    offer: Option<(T, u8)>,
    Ghost(before): Ghost<Seq<Option<(T, u8)>>>,
) -> (chosen: Option<(T, u8)>)
    requires
        is_best(before, best),
    ensures
        is_best(before.push(offer), chosen),
{
    let after = Ghost(before.push(offer));
    match offer {
        None => {
            proof {
                match best {
                    None => {},
                    Some(b) => {
                        let i = choose|i: int|
                            {
                                &&& 0 <= i < before.len()
                                &&& #[trigger] before[i] == Some(b)
                                &&& forall|j: int|
                                    0 <= j < i && before[j] is Some ==> before[j]->Some_0.1 > b.1
                                &&& forall|j: int|
                                    0 <= j < before.len() && before[j] is Some
                                        ==> before[j]->Some_0.1 >= b.1
                            };
                        assert(after@[i] == Some(b));
                    },
                }
            }
            best
        },
        Some(o) => match best {
            None => {
                proof {
                    assert(after@[before.len() as int] == Some(o));
                }
                Some(o)
            },
            Some(b) => {
                if o.1 < b.1 {
                    proof {
                        assert(after@[before.len() as int] == Some(o));
                    }
                    Some(o)
                } else {
                    proof {
                        let i = choose|i: int|
                            {
                                &&& 0 <= i < before.len()
                                &&& #[trigger] before[i] == Some(b)
                                &&& forall|j: int|
                                    0 <= j < i && before[j] is Some ==> before[j]->Some_0.1 > b.1
                                &&& forall|j: int|
                                    0 <= j < before.len() && before[j] is Some
                                        ==> before[j]->Some_0.1 >= b.1
                            };
                        assert(after@[i] == Some(b));
                    }
                    Some(b)
                }
            },
        },
    }
}

/// Whether `best` is the choice among `listed`: for IPv4 and for IPv6, the
/// first of the usable addresses with a netmask that has the fewest bits in
/// its netmask.
pub open spec fn is_choice(listed: Seq<InterfaceAddress>, best: BestAddress) -> bool {
    &&& is_best(listed.map_values(|a: InterfaceAddress| candidate4(a)), best.cidr4)
    &&& is_best(listed.map_values(|a: InterfaceAddress| candidate6(a)), best.cidr6)
}

/// What is chosen is fit to be chosen, whatever was listed: the address is
/// usable, and its prefix is no longer than the address.
pub proof fn lemma_choice_is_usable(listed: Seq<InterfaceAddress>, best: BestAddress)
    requires
        is_choice(listed, best),
    ensures
        best.cidr4 is Some ==> usable4(best.cidr4->Some_0.0) && best.cidr4->Some_0.1 <= 32,
        best.cidr6 is Some ==> usable6(best.cidr6->Some_0.0) && best.cidr6->Some_0.1 <= 128,
{
    let offers4 = listed.map_values(|a: InterfaceAddress| candidate4(a));
    let offers6 = listed.map_values(|a: InterfaceAddress| candidate6(a));
    if best.cidr4 is Some {
        let b = best.cidr4->Some_0;
        let i = choose|i: int| 0 <= i < offers4.len() && #[trigger] offers4[i] == Some(b);
        assert(candidate4(listed[i]) == Some(b));
        let mask = listed[i]->V4_1->Some_0;
        lemma_count_ones_bound(mask@);
    }
    if best.cidr6 is Some {
        let b = best.cidr6->Some_0;
        let i = choose|i: int| 0 <= i < offers6.len() && #[trigger] offers6[i] == Some(b);
        assert(candidate6(listed[i]) == Some(b));
        let mask = listed[i]->V6_1->Some_0;
        lemma_count_ones_bound(mask@);
    }
}

/// Chooses among `addresses`, which come in the order in which the machine
/// lists them: of the usable addresses that have a netmask, the first with
/// the fewest bits in its netmask, for IPv4 and for IPv6.
pub fn best_address(addresses: &Vec<InterfaceAddress>) -> (best: BestAddress)
    ensures
        is_best(addresses@.map_values(|a: InterfaceAddress| candidate4(a)), best.cidr4),
        is_best(addresses@.map_values(|a: InterfaceAddress| candidate6(a)), best.cidr6),
        is_choice(addresses@, best),
{
    let ghost offers4 = addresses@.map_values(|a: InterfaceAddress| candidate4(a));
    let ghost offers6 = addresses@.map_values(|a: InterfaceAddress| candidate6(a));
    let mut best4: Option<([u8; 4], u8)> = None;
    let mut best6: Option<([u8; 16], u8)> = None;
    let mut i: usize = 0;
    while i < addresses.len()
        invariant
            i <= addresses@.len(),
            offers4 == addresses@.map_values(|a: InterfaceAddress| candidate4(a)),
            offers6 == addresses@.map_values(|a: InterfaceAddress| candidate6(a)),
            is_best(offers4.subrange(0, i as int), best4),
            is_best(offers6.subrange(0, i as int), best6),
        decreases addresses@.len() - i,
    {
        proof {
            assert(offers4.subrange(0, i + 1) =~= offers4.subrange(0, i as int).push(
                candidate4(addresses@[i as int]),
            ));
            assert(offers6.subrange(0, i + 1) =~= offers6.subrange(0, i as int).push(
                candidate6(addresses@[i as int]),
            ));
        }
        best4 = better(best4, offer4(&addresses[i]), Ghost(offers4.subrange(0, i as int)));
        best6 = better(best6, offer6(&addresses[i]), Ghost(offers6.subrange(0, i as int)));
        i = i + 1;
    }
    assert(offers4.subrange(0, addresses@.len() as int) =~= offers4);
    assert(offers6.subrange(0, addresses@.len() as int) =~= offers6);
    BestAddress { cidr4: best4, cidr6: best6 }
}

/// Lists the addresses of the machine and chooses among them. Which
/// addresses the machine has is not known beforehand: the choice is the one
/// that `best_address` makes among those that were listed, so that what is
/// chosen is a usable address with the length of its prefix. If the
/// addresses cannot be listed, nothing is chosen.
pub fn find_best_address() -> (r: Result<BestAddress, AddressError>)
    ensures
        r is Ok ==> exists|listed: Seq<InterfaceAddress>| #[trigger] is_choice(listed, r->Ok_0),
        r is Ok ==> {
            let best = r->Ok_0;
            &&& best.cidr4 is Some ==> usable4(best.cidr4->Some_0.0) && best.cidr4->Some_0.1 <= 32
            &&& best.cidr6 is Some ==> usable6(best.cidr6->Some_0.0) && best.cidr6->Some_0.1
                <= 128
        },
        r is Err ==> r == Err::<BestAddress, AddressError>(AddressError::Interfaces),
{
    match show() {
        None => Err(AddressError::Interfaces),
        Some(addresses) => {
            let best: BestAddress = best_address(&addresses);
            proof {
                assert(is_choice(addresses@, best));
                lemma_choice_is_usable(addresses@, best);
            }
            Ok(best)
        },
    }
}

} // verus!
