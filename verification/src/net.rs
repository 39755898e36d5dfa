//! IP addresses and networks as numbers, with the address block a network
//! stands for.

use vstd::arithmetic::div_mod::*;
use vstd::arithmetic::mul::*;
use vstd::arithmetic::power2::*;
use vstd::prelude::*;

verus! {

/// An IP address; the number is the address read in network byte order.
#[derive(Clone, Copy, Debug, PartialEq, Eq, Structural)]
pub enum IpAddr {
    V4(u32),
    V6(u128),
}

impl IpAddr {
    /// The address as a number.
    pub open spec fn value(self) -> nat {
        match self {
            IpAddr::V4(a) => a as nat,
            IpAddr::V6(a) => a as nat,
        }
    }

    /// Number of bits of an address of this family.
    pub open spec fn family_bits(self) -> nat {
        match self {
            IpAddr::V4(_) => 32,
            IpAddr::V6(_) => 128,
        }
    }

    pub open spec fn is_v4(self) -> bool {
        self is V4
    }
}

/// An IP address and a port.
#[derive(Clone, Copy, Debug, PartialEq, Eq, Structural)]
pub struct SocketAddr {
    pub ip: IpAddr,
    pub port: u16,
}

/// The error of a network built with a prefix longer than the address.
#[derive(Clone, Copy, Debug, PartialEq, Eq, Structural)]
pub enum IpNetworkError {
    InvalidPrefix,
}

/// An IP network: an address and a prefix length.
#[derive(Clone, Copy, Debug, PartialEq, Eq, Structural)]
pub enum IpNetwork {
    /// Address and prefix length.
    V4(u32, u8),
    /// Address and prefix length.
    V6(u128, u8),
}

/// The number that a byte sequence spells in big-endian order.
pub open spec fn be_value(s: Seq<u8>) -> nat
    decreases s.len(),
{
    if s.len() == 0 {
        0
    } else {
        be_value(s.drop_last()) * 256 + s.last() as nat
    }
}

/// The first address of the block of `2^host_bits` addresses holding `x`.
pub open spec fn block_start(x: nat, host_bits: nat) -> nat {
    (x as int - (x as int) % (pow2(host_bits) as int)) as nat
}

impl IpNetwork {
    pub open spec fn spec_ip(self) -> IpAddr {
        match self {
            IpNetwork::V4(addr, _) => IpAddr::V4(addr),
            IpNetwork::V6(addr, _) => IpAddr::V6(addr),
        }
    }

    pub open spec fn spec_prefix(self) -> nat {
        match self {
            IpNetwork::V4(_, prefix) => prefix as nat,
            IpNetwork::V6(_, prefix) => prefix as nat,
        }
    }

    pub open spec fn max_prefix(self) -> nat {
        self.spec_ip().family_bits()
    }

    /// The prefix is not longer than the address.
    pub open spec fn wf(self) -> bool {
        self.spec_prefix() <= self.max_prefix()
    }

    pub open spec fn host_bits(self) -> nat {
        (self.max_prefix() - self.spec_prefix()) as nat
    }

    /// Number of addresses in the network.
    pub open spec fn span(self) -> nat {
        pow2(self.host_bits())
    }

    /// The lowest address of the network.
    pub open spec fn first(self) -> nat {
        block_start(self.spec_ip().value(), self.host_bits())
    }

    /// The network holds `ip`: same family, and `ip` lies in its block.
    pub open spec fn contains(self, ip: IpAddr) -> bool {
        &&& ip.is_v4() == self.spec_ip().is_v4()
        &&& self.first() <= ip.value()
        &&& ip.value() < self.first() + self.span()
    }

    /// The network of the one address `ip`: its prefix is the whole address.
    pub fn from_ip(ip: IpAddr) -> (r: IpNetwork)
        ensures
            r.spec_ip() == ip,
            r.spec_prefix() == ip.family_bits(),
            r.wf(),
    {
        match ip {
            IpAddr::V4(addr) => IpNetwork::V4(addr, 32),
            IpAddr::V6(addr) => IpNetwork::V6(addr, 128),
        }
    }

    /// Builds a network; fails when the prefix is longer than the address.
    pub fn new(ip: IpAddr, prefix: u8) -> (r: Result<IpNetwork, IpNetworkError>)
        ensures
            (prefix as nat <= ip.family_bits()) <==> r is Ok,
            r matches Ok(n) ==> n.spec_ip() == ip && n.spec_prefix() == prefix && n.wf(),
    {
        match ip {
            IpAddr::V4(addr) => {
                if prefix > 32 {
                    Err(IpNetworkError::InvalidPrefix)
                } else {
                    Ok(IpNetwork::V4(addr, prefix))
                }
            },
            IpAddr::V6(addr) => {
                if prefix > 128 {
                    Err(IpNetworkError::InvalidPrefix)
                } else {
                    Ok(IpNetwork::V6(addr, prefix))
                }
            },
        }
    }

    /// The address the network was built with.
    pub fn ip(&self) -> (r: IpAddr)
        ensures
            r == self.spec_ip(),
    {
        match self {
            IpNetwork::V4(addr, _) => IpAddr::V4(*addr),
            IpNetwork::V6(addr, _) => IpAddr::V6(*addr),
        }
    }

    pub fn prefix(&self) -> (r: u8)
        ensures
            r == self.spec_prefix(),
    {
        match self {
            IpNetwork::V4(_, prefix) => *prefix,
            IpNetwork::V6(_, prefix) => *prefix,
        }
    }

    /// The lowest address of the network.
    pub fn network(&self) -> (r: IpAddr)
        requires
            self.wf(),
        ensures
            r.value() == self.first(),
            r.is_v4() == self.spec_ip().is_v4(),
    {
        match self {
            IpNetwork::V4(addr, prefix) => {
                let step = pow2_u128(32 - *prefix);
                let a = *addr as u128;
                proof {
                    lemma_pow2_pos((32 - *prefix) as nat);
                    lemma_pow2_max_u128();
                    lemma_block_start_bounds(a as nat, (32 - *prefix) as nat, 32);
                    lemma_mod_decreases(a as nat, step as nat);
                }
                let first = a - a % step;
                IpAddr::V4(first as u32)
            },
            IpNetwork::V6(addr, prefix) => {
                if *prefix == 0 {
                    proof {
                        lemma_pow2_max_u128();
                        lemma_block_start_bounds(*addr as nat, 128, 128);
                        assert(block_start(*addr as nat, 128) == 0) by {
                            lemma_small_mod(*addr as nat, pow2(128));
                        }
                    }
                    IpAddr::V6(0)
                } else {
                    let step = pow2_u128(128 - *prefix);
                    proof {
                        lemma_pow2_pos((128 - *prefix) as nat);
                        lemma_pow2_max_u128();
                        lemma_block_start_bounds(*addr as nat, (128 - *prefix) as nat, 128);
                        lemma_mod_decreases(*addr as nat, step as nat);
                    }
                    IpAddr::V6(*addr - *addr % step)
                }
            },
        }
    }
}

/// `2^k` for `k < 128`.
pub fn pow2_u128(k: u8) -> (r: u128)
    requires
        k < 128,
    ensures
        r == pow2(k as nat),
{
    let mut r: u128 = 1;
    let mut i: u8 = 0;
    proof {
        lemma2_to64();
    }
    while i < k
        invariant
            i <= k < 128,
            r == pow2(i as nat),
        decreases k - i,
    {
        proof {
            lemma_pow2_unfold((i + 1) as nat);
            lemma_pow2_strictly_increases((i + 1) as nat, 128);
            lemma_pow2_max_u128();
        }
        r = r * 2;
        i = i + 1;
    }
    r
}

/// `2^128` is one more than the largest `u128`.
pub proof fn lemma_pow2_max_u128()
    ensures
        pow2(128) == u128::MAX + 1,
        pow2(64) == u64::MAX + 1,
        pow2(32) == u32::MAX + 1,
{
    lemma2_to64();
    lemma_pow2_adds(64, 64);
}

/// The block start is a multiple of the block size, at most the address, and
/// its block ends within the address space.
pub proof fn lemma_block_start_bounds(x: nat, k: nat, b: nat)
    requires
        k <= b,
        x < pow2(b),
    ensures
        (block_start(x, k) as int) % (pow2(k) as int) == 0,
        block_start(x, k) <= x < block_start(x, k) + pow2(k),
        block_start(x, k) + pow2(k) <= pow2(b),
        block_start(x, k) == (pow2(k) as int) * ((x as int) / (pow2(k) as int)),
{
    let s = pow2(k) as int;
    lemma_pow2_pos(k);
    lemma_fundamental_div_mod(x as int, s);
    lemma_mod_bound(x as int, s);
    let q = x as int / s;
    assert(block_start(x, k) == s * q);
    lemma_mul_is_commutative(s, q);
    lemma_mod_multiples_basic(q, s);
    lemma_pow2_adds(k, (b - k) as nat);
    let m = pow2((b - k) as nat) as int;
    assert(pow2(b) == s * m);
    // q < m, else s * q >= s * m > x
    if q >= m {
        lemma_mul_inequality(m, q, s);
        lemma_mul_is_commutative(m, s);
        assert(false);
    }
    lemma_mul_inequality(q + 1, m, s);
    lemma_mul_is_distributive_add_other_way(s, q, 1);
    lemma_mul_is_commutative(q + 1, s);
    lemma_mul_is_commutative(m, s);
}

/// Halving a block: the block of `2^k` addresses holding `x` starts a block of
/// `2^(k-1)` addresses, and so does its middle.
pub proof fn lemma_block_halves(x: nat, k: nat)
    requires
        k >= 1,
    ensures
        pow2(k) == 2 * pow2((k - 1) as nat),
        block_start(block_start(x, k), (k - 1) as nat) == block_start(x, k),
        block_start(block_start(x, k) + pow2((k - 1) as nat), (k - 1) as nat) == block_start(x, k)
            + pow2((k - 1) as nat),
{
    let h = pow2((k - 1) as nat) as int;
    lemma_pow2_unfold(k);
    lemma_pow2_pos((k - 1) as nat);
    let s = 2 * h;
    lemma_fundamental_div_mod(x as int, s);
    lemma_mod_bound(x as int, s);
    let q = x as int / s;
    let f = s * q;
    assert(block_start(x, k) == f);
    assert(f == h * (2 * q)) by {
        lemma_mul_is_associative(2, h, q);
        lemma_mul_is_commutative(2, h);
        lemma_mul_is_associative(h, 2, q);
    }
    lemma_mul_is_commutative(h, 2 * q);
    lemma_mod_multiples_basic(2 * q, h);
    assert(f + h == h * (2 * q + 1)) by {
        lemma_mul_is_distributive_add(h, 2 * q, 1);
    }
    lemma_mul_is_commutative(h, 2 * q + 1);
    lemma_mod_multiples_basic(2 * q + 1, h);
    lemma_mul_nonnegative(h, 2 * q);
}

} // verus!
