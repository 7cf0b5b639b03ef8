//! An IPv4 subnet and the addresses that a scan of it asks for.
//!
//! Policy on reserved addresses: none is left out. The targets of a subnet
//! run from its network address to its broadcast address, both included.

use vstd::prelude::*;
use vstd::arithmetic::power2::pow2;
use vstd::bits::{lemma_u32_pow2_no_overflow, lemma_u32_shl_is_mul};
use crate::addr::Ipv4Address;

verus! {

/// The netmask of a prefix length: `prefix` ones followed by zeros.
pub open spec fn mask_bits(prefix: u8) -> u32
    recommends
        prefix <= 32,
{
    if prefix == 0 {
        0u32
    } else {
        0xffff_ffffu32 << ((32 - prefix) as u32)
    }
}

/// The number of addresses that are enumerated for a prefix length. With a
/// prefix of 0 it is one less than the whole address space, since the count
/// is kept in 32 bits.
pub open spec fn size_bits(prefix: u8) -> u32
    recommends
        prefix <= 32,
{
    if prefix == 0 {
        0xffff_ffffu32
    } else {
        1u32 << ((32 - prefix) as u32)
    }
}

/// The lowest address of the subnet of `addr` with `prefix`.
pub open spec fn network_bits(addr: u32, prefix: u8) -> u32 {
    addr & mask_bits(prefix)
}

/// The `n`-th address of the subnet of `addr` with `prefix`, counted from
/// its network address; none from the size on, nor for a prefix over 32.
pub open spec fn nth_bits(addr: u32, prefix: u8, n: u32) -> Option<u32> {
    if prefix <= 32 && n < size_bits(prefix) {
        Some((network_bits(addr, prefix) + n) as u32)
    } else {
        None
    }
}

/// `ipnetwork::Ipv4Network::new_checked`, then `Ipv4Network::size` on the
/// network it made. Not proved: that a prefix over 32 gives no network, and
/// that the size is 1 shifted left by the number of host bits, or `u32::MAX`
/// for a prefix of 0.
#[verifier::external_body]
fn outside_size(addr: u32, prefix: u8) -> (r: Option<u32>)
    ensures
        r == if prefix <= 32 {
            Some(size_bits(prefix))
        } else {
            None
        },
{
    match ipnetwork::Ipv4Network::new_checked(addr.into(), prefix) {
        Some(net) => Some(net.size()),
        None => None,
    }
}

/// `ipnetwork::Ipv4Network::new_checked`, then `Ipv4Network::nth` on the
/// network it made. Not proved: that the `n`-th address is the network
/// address (the given address under the netmask) plus `n` where `n` is below
/// the size, and that there is none otherwise.
#[verifier::external_body]
fn outside_nth(addr: u32, prefix: u8, n: u32) -> (r: Option<u32>)
    ensures
        r == nth_bits(addr, prefix, n),
{
    match ipnetwork::Ipv4Network::new_checked(addr.into(), prefix) {
        Some(net) => match net.nth(n) {
            Some(ip) => Some(u32::from(ip)),
            None => None,
        },
        None => None,
    }
}

/// An address together with the length of its network prefix.
#[derive(Clone, Copy, Debug)]
pub struct Subnet {
    addr: Ipv4Address,
    prefix: u8,
}

impl Subnet {
    #[verifier::type_invariant]
    spec fn inv(self) -> bool {
        self.prefix <= 32
    }

    /// The address that the subnet was made from (host bits kept).
    pub closed spec fn spec_addr(self) -> Ipv4Address {
        self.addr
    }

    /// The prefix length.
    pub closed spec fn spec_prefix(self) -> u8 {
        self.prefix
    }

    /// The prefix is no longer than an address. Every subnet that `new`
    /// made is valid.
    pub open spec fn valid(self) -> bool {
        self.spec_prefix() <= 32
    }

    /// The lowest address of the subnet.
    pub open spec fn network(self) -> Ipv4Address {
        Ipv4Address(network_bits(self.spec_addr().0, self.spec_prefix()))
    }

    /// Whether `ip` shares the subnet's prefix.
    pub open spec fn contains(self, ip: Ipv4Address) -> bool {
        ip.0 & mask_bits(self.spec_prefix()) == self.network().0
    }

    /// The target with index `n`.
    pub open spec fn target(self, n: int) -> Ipv4Address {
        Ipv4Address((self.network().0 + n) as u32)
    }

    /// The addresses to ask for, ascending.
    pub open spec fn targets(self) -> Seq<Ipv4Address> {
        Seq::new(size_bits(self.spec_prefix()) as nat, |n: int| self.target(n))
    }

    /// A subnet, unless the prefix is longer than an address.
    pub fn new(addr: Ipv4Address, prefix: u8) -> (r: Option<Subnet>)
        ensures
            prefix <= 32 <==> r.is_some(),
            r matches Some(s) ==> s.spec_addr() == addr && s.spec_prefix() == prefix && s.valid(),
    {
        if prefix <= 32 {
            Some(Subnet { addr, prefix })
        } else {
            None
        }
    }

    pub fn addr(&self) -> (r: Ipv4Address)
        ensures
            r == self.spec_addr(),
    {
        self.addr
    }

    pub fn prefix(&self) -> (r: u8)
        ensures
            r == self.spec_prefix(),
            r <= 32,
    {
        proof {
            use_type_invariant(self);
        }
        self.prefix
    }

    /// How many targets there are.
    pub fn target_count(&self) -> (r: u32)
        ensures
            r == self.targets().len(),
            r >= 1,
    {
        proof {
            use_type_invariant(self);
            lemma_size_positive(self.prefix);
        }
        match outside_size(self.addr.0, self.prefix) {
            Some(n) => n,
            None => 1,
        }
    }

    /// The target with index `n`, if there are more than `n`.
    pub fn target_at(&self, n: u32) -> (r: Option<Ipv4Address>)
        ensures
            r == if n < self.targets().len() {
                Some(self.targets()[n as int])
            } else {
                None
            },
            n == 0 ==> r.is_some(),
    {
        proof {
            use_type_invariant(self);
            lemma_size_positive(self.prefix);
        }
        match outside_nth(self.addr.0, self.prefix, n) {
            Some(bits) => Some(Ipv4Address(bits)),
            None => None,
        }
    }

    /// The first `limit` targets, or all of them where there are fewer.
    pub fn first_targets(&self, limit: u32) -> (out: Vec<Ipv4Address>)
        ensures
            out@ == self.targets().take(
                if limit < self.targets().len() {
                    limit as int
                } else {
                    self.targets().len() as int
                },
            ),
    {
        let count: u32 = self.target_count();
        let end: u32 = if limit < count {
            limit
        } else {
            count
        };
        let mut out: Vec<Ipv4Address> = Vec::new();
        let mut i: u32 = 0;
        while i < end
            invariant
                i <= end <= count,
                count == self.targets().len(),
                out@ == self.targets().take(i as int),
            decreases end - i,
        {
            match self.target_at(i) {
                Some(ip) => {
                    out.push(ip);
                },
                None => {},
            }
            proof {
                assert(out@ =~= self.targets().take(i + 1));
            }
            i = i + 1;
        }
        out
    }
}

/// There is at least one target, whatever the prefix.
pub proof fn lemma_size_positive(prefix: u8)
    requires
        prefix <= 32,
    ensures
        size_bits(prefix) >= 1,
{
    if prefix != 0 {
        let sh: u32 = (32 - prefix) as u32;
        assert((1u32 << sh) >= 1) by (bit_vector)
            requires
                sh < 32,
        ;
    }
}

/// With a prefix from 1 to 32 there are two to the number of host bits targets.
pub proof fn lemma_size_is_pow2(prefix: u8)
    requires
        0 < prefix <= 32,
    ensures
        size_bits(prefix) == pow2((32 - prefix) as nat),
{
    let sh: u32 = (32 - prefix) as u32;
    lemma_u32_pow2_no_overflow(sh as nat);
    lemma_u32_shl_is_mul(1u32, sh);
}

/// The targets of a subnet with a prefix from 1 to 32 are exactly the
/// addresses that share its prefix: there are two to the number of host bits
/// of them, none occurs twice, each lies in the subnet, and every address of
/// the subnet is among them. The network and broadcast addresses are
/// included.
pub proof fn lemma_targets_exact(s: Subnet)
    requires
        0 < s.spec_prefix() <= 32,
    ensures
        s.targets().len() == pow2((32 - s.spec_prefix()) as nat),
        s.targets().no_duplicates(),
        forall|ip: Ipv4Address| #[trigger] s.targets().contains(ip) <==> s.contains(ip),
{
    let p = s.spec_prefix();
    let sh: u32 = (32 - p) as u32;
    let mask: u32 = mask_bits(p);
    let size: u32 = size_bits(p);
    let net: u32 = s.network().0;
    let addr: u32 = s.spec_addr().0;
    lemma_size_is_pow2(p);
    assert forall|ip: Ipv4Address| #[trigger] s.targets().contains(ip) <==> s.contains(ip) by {
        let a: u32 = ip.0;
        if s.targets().contains(ip) {
            let i = choose|i: int| 0 <= i < s.targets().len() && s.targets()[i] == ip;
            lemma_offset_in_subnet(addr, p, i as u32);
        }
        if s.contains(ip) {
            assert(a >= net && a - net < size) by (bit_vector)
                requires
                    sh < 32,
                    mask == 0xffff_ffffu32 << sh,
                    size == 1u32 << sh,
                    net == addr & mask,
                    a & mask == net,
            ;
            let i: int = a - net;
            assert(0 <= i < s.targets().len());
            assert(s.targets()[i] == ip);
        }
    }
    assert forall|i: int, j: int|
        0 <= i < s.targets().len() && 0 <= j < s.targets().len() && i != j implies s.targets()[i]
        != s.targets()[j] by {
        lemma_offset_in_subnet(addr, p, i as u32);
        lemma_offset_in_subnet(addr, p, j as u32);
    }
}

/// The targets of a subnet with a prefix from 1 to 32 begin with its
/// network address and end with its broadcast address, the address with
/// every host bit set.
pub proof fn lemma_targets_span(s: Subnet)
    requires
        0 < s.spec_prefix() <= 32,
    ensures
        s.targets().len() >= 1,
        s.targets().first() == s.network(),
        s.targets().last() == Ipv4Address(s.spec_addr().0 | !mask_bits(s.spec_prefix())),
{
    let p = s.spec_prefix();
    let sh: u32 = (32 - p) as u32;
    let mask: u32 = mask_bits(p);
    let size: u32 = size_bits(p);
    let net: u32 = s.network().0;
    let addr: u32 = s.spec_addr().0;
    lemma_size_positive(p);
    assert(size >= 1 && net + (size - 1) <= 0xffff_ffff && ((net + (size - 1)) as u32) == addr
        | !mask) by (bit_vector)
        requires
            sh < 32,
            mask == 0xffff_ffffu32 << sh,
            size == 1u32 << sh,
            net == addr & mask,
    ;
}

/// Adding an offset below the size to a network address stays within 32
/// bits and within the subnet.
pub proof fn lemma_offset_in_subnet(addr: u32, prefix: u8, n: u32)
    requires
        0 < prefix <= 32,
        n < size_bits(prefix),
    ensures
        network_bits(addr, prefix) + n <= 0xffff_ffff,
        ((network_bits(addr, prefix) + n) as u32) & mask_bits(prefix) == network_bits(addr, prefix),
{
    let sh: u32 = (32 - prefix) as u32;
    let mask: u32 = mask_bits(prefix);
    let size: u32 = size_bits(prefix);
    let net: u32 = network_bits(addr, prefix);
    assert(net + n <= 0xffff_ffff && (((net + n) as u32) & mask == net)) by (bit_vector)
        requires
            sh < 32,
            mask == 0xffff_ffffu32 << sh,
            size == 1u32 << sh,
            net == addr & mask,
            n < size,
    ;
}

} // verus!
