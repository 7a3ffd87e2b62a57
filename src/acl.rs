//! Destinations that outbound connections may not reach, as IPv4 and IPv6
//! prefixes. An address is blocked when some prefix covers it.

use crate::address::SocketAddr;
use vstd::prelude::*;

verus! {

/// The divisor that keeps the top `bits` bits of a byte, for `bits` below 8.
pub open spec fn top_bits_divisor(bits: int) -> int {
    if bits == 1 {
        128
    } else if bits == 2 {
        64
    } else if bits == 3 {
        32
    } else if bits == 4 {
        16
    } else if bits == 5 {
        8
    } else if bits == 6 {
        4
    } else if bits == 7 {
        2
    } else {
        1
    }
}

/// The first `bits` bits of `ip` and `net` agree.
pub open spec fn prefix_match(ip: Seq<u8>, net: Seq<u8>, bits: int) -> bool {
    let whole = bits / 8;
    let rest = bits % 8;
    &&& ip.subrange(0, whole) == net.subrange(0, whole)
    &&& rest != 0 ==> ip[whole] as int / top_bits_divisor(rest) == net[whole] as int / top_bits_divisor(rest)
}

/// Some rule of `rules` covers `ip`.
pub open spec fn covered(rules: Seq<(Seq<u8>, int)>, ip: Seq<u8>) -> bool {
    exists|i: int| 0 <= i < rules.len() && prefix_match(ip, #[trigger] rules[i].0, rules[i].1)
}

/// The local IPv4 ranges: 127/8, 10/8, 100.64/10, 172.16/12, 198.18/15,
/// 192.168/16 and 192.0.0/24.
pub open spec fn local_rules4() -> Seq<(Seq<u8>, int)> {
    seq![
        (seq![127u8, 0u8, 0u8, 0u8], 8int),
        (seq![10u8, 0u8, 0u8, 0u8], 8int),
        (seq![100u8, 64u8, 0u8, 0u8], 10int),
        (seq![172u8, 16u8, 0u8, 0u8], 12int),
        (seq![198u8, 18u8, 0u8, 0u8], 15int),
        (seq![192u8, 168u8, 0u8, 0u8], 16int),
        (seq![192u8, 0u8, 0u8, 0u8], 24int),
    ]
}

/// `::1`.
pub open spec fn loopback6() -> Seq<u8> {
    Seq::new(16, |i: int| if i == 15 { 1u8 } else { 0u8 })
}

/// The local IPv6 ranges: ::1/128, fc00::/7 and fe80::/10.
pub open spec fn local_rules6() -> Seq<(Seq<u8>, int)> {
    seq![
        (loopback6(), 128int),
        (Seq::new(16, |i: int| if i == 0 { 0xfcu8 } else { 0u8 }), 7int),
        (Seq::new(16, |i: int| if i == 0 { 0xfeu8 } else if i == 1 { 0x80u8 } else { 0u8 }), 10int),
    ]
}

/// The IPv4 addresses of the local ranges, told byte by byte.
pub open spec fn is_local4(ip: Seq<u8>) -> bool {
    ||| ip[0] == 127
    ||| ip[0] == 10
    ||| ip[0] == 100 && 64 <= ip[1] < 128
    ||| ip[0] == 172 && 16 <= ip[1] < 32
    ||| ip[0] == 198 && 18 <= ip[1] < 20
    ||| ip[0] == 192 && ip[1] == 168
    ||| ip[0] == 192 && ip[1] == 0 && ip[2] == 0
}

/// The IPv6 addresses of the local ranges, told byte by byte.
pub open spec fn is_local6(ip: Seq<u8>) -> bool {
    ||| ip == loopback6()
    ||| ip[0] == 0xfc || ip[0] == 0xfd
    ||| ip[0] == 0xfe && 0x80 <= ip[1] < 0xc0
}

#[allow(non_camel_case_types)]
pub struct ACL {
    blocklist4: Vec<([u8; 4], u8)>,
    blocklist6: Vec<([u8; 16], u8)>,
}

fn divisor(bits: u8) -> (r: u8)
    requires
        0 < bits < 8,
    ensures
        r == top_bits_divisor(bits as int),
{
    if bits == 1 {
        128
    } else if bits == 2 {
        64
    } else if bits == 3 {
        32
    } else if bits == 4 {
        16
    } else if bits == 5 {
        8
    } else if bits == 6 {
        4
    } else {
        2
    }
}

/// Whether the first `bits` bits of `ip` and `net` agree.
fn matches_prefix(ip: &[u8], net: &[u8], bits: u8) -> (r: bool)
    requires
        ip@.len() == net@.len(),
        bits as int <= 8 * ip@.len(),
    ensures
        r == prefix_match(ip@, net@, bits as int),
{
    let whole = (bits / 8) as usize;
    let rest = bits % 8;
    let mut k: usize = 0;
    while k < whole
        invariant
            k <= whole,
            whole == bits / 8,
            whole <= ip@.len(),
            ip@.len() == net@.len(),
            ip@.subrange(0, k as int) == net@.subrange(0, k as int),
        decreases whole - k,
    {
        if ip[k] != net[k] {
            assert(ip@.subrange(0, whole as int)[k as int] != net@.subrange(0, whole as int)[k as int]);
            return false;
        }
        proof {
            assert(ip@.subrange(0, k + 1) == ip@.subrange(0, k as int).push(ip@[k as int]));
            assert(net@.subrange(0, k + 1) == net@.subrange(0, k as int).push(net@[k as int]));
        }
        k = k + 1;
    }
    if rest == 0 {
        return true;
    }
    let d = divisor(rest);
    ip[whole] / d == net[whole] / d
}

fn rules4(block_local: bool) -> (r: Vec<([u8; 4], u8)>)
    ensures
        forall|i: int| 0 <= i < r@.len() ==> #[trigger] r@[i].1 <= 32,
        rules_view4(r@) == if block_local {
            local_rules4()
        } else {
            Seq::empty()
        },
{
    let mut r: Vec<([u8; 4], u8)> = Vec::new();
    if block_local {
        r.push(([127, 0, 0, 0], 8));
        r.push(([10, 0, 0, 0], 8));
        r.push(([100, 64, 0, 0], 10));
        r.push(([172, 16, 0, 0], 12));
        r.push(([198, 18, 0, 0], 15));
        r.push(([192, 168, 0, 0], 16));
        r.push(([192, 0, 0, 0], 24));
        assert(rules_view4(r@) =~= local_rules4());
        assert(forall|i: int| 0 <= i < r@.len() ==> #[trigger] r@[i].1 <= 32);
    } else {
        assert(rules_view4(r@) =~= Seq::empty());
    }
    r
}

fn rules6(block_local: bool) -> (r: Vec<([u8; 16], u8)>)
    ensures
        forall|i: int| 0 <= i < r@.len() ==> #[trigger] r@[i].1 <= 128,
        rules_view6(r@) == if block_local {
            local_rules6()
        } else {
            Seq::empty()
        },
{
    let mut r: Vec<([u8; 16], u8)> = Vec::new();
    if block_local {
        r.push(([0, 0, 0, 0, 0, 0, 0, 0, 0, 0, 0, 0, 0, 0, 0, 1], 128));
        r.push(([0xfc, 0, 0, 0, 0, 0, 0, 0, 0, 0, 0, 0, 0, 0, 0, 0], 7));
        r.push(([0xfe, 0x80, 0, 0, 0, 0, 0, 0, 0, 0, 0, 0, 0, 0, 0, 0], 10));
        assert(forall|i: int| 0 <= i < r@.len() ==> #[trigger] r@[i].1 <= 128);
        proof {
            let v = rules_view6(r@);
            assert(v[0].0 =~= loopback6());
            assert(v[1].0 =~= local_rules6()[1].0);
            assert(v[2].0 =~= local_rules6()[2].0);
            assert(v =~= local_rules6());
        }
    } else {
        assert(rules_view6(r@) =~= Seq::empty());
    }
    r
}

/// IPv4 rules as plain values.
pub open spec fn rules_view4(r: Seq<([u8; 4], u8)>) -> Seq<(Seq<u8>, int)> {
    r.map_values(|x: ([u8; 4], u8)| (x.0@, x.1 as int))
}

/// IPv6 rules as plain values.
pub open spec fn rules_view6(r: Seq<([u8; 16], u8)>) -> Seq<(Seq<u8>, int)> {
    r.map_values(|x: ([u8; 16], u8)| (x.0@, x.1 as int))
}

impl ACL {
    #[verifier::type_invariant]
    spec fn prefix_lengths_fit(self) -> bool {
        &&& forall|i: int| 0 <= i < self.blocklist4@.len() ==> #[trigger] self.blocklist4@[i].1 <= 32
        &&& forall|i: int| 0 <= i < self.blocklist6@.len() ==> #[trigger] self.blocklist6@[i].1 <= 128
    }

    pub closed spec fn rules4(&self) -> Seq<(Seq<u8>, int)> {
        rules_view4(self.blocklist4@)
    }

    pub closed spec fn rules6(&self) -> Seq<(Seq<u8>, int)> {
        rules_view6(self.blocklist6@)
    }

    /// Whether `addr` is blocked.
    pub open spec fn blocks(&self, addr: SocketAddr) -> bool {
        match addr {
            SocketAddr::V4(ip, _) => covered(self.rules4(), ip@),
            SocketAddr::V6(ip, _) => covered(self.rules6(), ip@),
        }
    }

    /// An ACL that blocks the local ranges when `block_local` is set, and
    /// nothing otherwise.
    pub fn new(block_local: bool) -> (r: ACL)
        ensures
            r.rules4() == if block_local {
                local_rules4()
            } else {
                Seq::empty()
            },
            r.rules6() == if block_local {
                local_rules6()
            } else {
                Seq::empty()
            },
    {
        ACL { blocklist4: rules4(block_local), blocklist6: rules6(block_local) }
    }

    /// Whether some prefix covers the address.
    pub fn has_match(&self, address: SocketAddr) -> (r: bool)
        ensures
            r == self.blocks(address),
    {
        proof {
            use_type_invariant(self);
        }
        match address {
            SocketAddr::V4(ip, port) => {
                let mut i: usize = 0;
                while i < self.blocklist4.len()
                    invariant
                        address == SocketAddr::V4(ip, port),
                        i <= self.blocklist4@.len(),
                        forall|j: int|
                            0 <= j < self.blocklist4@.len() ==> #[trigger] self.blocklist4@[j].1 <= 32,
                        forall|j: int|
                            0 <= j < i ==> !prefix_match(
                                ip@,
                                #[trigger] self.rules4()[j].0,
                                self.rules4()[j].1,
                            ),
                    decreases self.blocklist4@.len() - i,
                {
                    let (net, bits) = self.blocklist4[i];
                    assert(self.rules4()[i as int] == (net@, bits as int));
                    if matches_prefix(ip.as_slice(), net.as_slice(), bits) {
                        assert(prefix_match(ip@, self.rules4()[i as int].0, self.rules4()[i as int].1));
                        assert(covered(self.rules4(), ip@));
                        return true;
                    }
                    i = i + 1;
                }
                false
            },
            SocketAddr::V6(ip, port) => {
                let mut i: usize = 0;
                while i < self.blocklist6.len()
                    invariant
                        address == SocketAddr::V6(ip, port),
                        i <= self.blocklist6@.len(),
                        forall|j: int|
                            0 <= j < self.blocklist6@.len() ==> #[trigger] self.blocklist6@[j].1 <= 128,
                        forall|j: int|
                            0 <= j < i ==> !prefix_match(
                                ip@,
                                #[trigger] self.rules6()[j].0,
                                self.rules6()[j].1,
                            ),
                    decreases self.blocklist6@.len() - i,
                {
                    let (net, bits) = self.blocklist6[i];
                    assert(self.rules6()[i as int] == (net@, bits as int));
                    if matches_prefix(ip.as_slice(), net.as_slice(), bits) {
                        assert(prefix_match(ip@, self.rules6()[i as int].0, self.rules6()[i as int].1));
                        assert(covered(self.rules6(), ip@));
                        return true;
                    }
                    i = i + 1;
                }
                false
            },
        }
    }
}

/// With the local ranges blocked, every IPv4 address of those ranges is
/// covered by a rule.
pub proof fn lemma_local4_blocked(ip: Seq<u8>)
    requires
        ip.len() == 4,
        is_local4(ip),
    ensures
        covered(local_rules4(), ip),
{
    let rules = local_rules4();
    assert(ip.subrange(0, 1) =~= seq![ip[0]]);
    assert(ip.subrange(0, 2) =~= seq![ip[0], ip[1]]);
    assert(ip.subrange(0, 3) =~= seq![ip[0], ip[1], ip[2]]);
    if ip[0] == 127 {
        assert(rules[0].0.subrange(0, 1) =~= seq![127u8]);
        assert(prefix_match(ip, rules[0].0, rules[0].1));
    } else if ip[0] == 10 {
        assert(rules[1].0.subrange(0, 1) =~= seq![10u8]);
        assert(prefix_match(ip, rules[1].0, rules[1].1));
    } else if ip[0] == 100 && 64 <= ip[1] < 128 {
        assert(rules[2].0.subrange(0, 1) =~= seq![100u8]);
        assert(prefix_match(ip, rules[2].0, rules[2].1));
    } else if ip[0] == 172 && 16 <= ip[1] < 32 {
        assert(rules[3].0.subrange(0, 1) =~= seq![172u8]);
        assert(prefix_match(ip, rules[3].0, rules[3].1));
    } else if ip[0] == 198 && 18 <= ip[1] < 20 {
        assert(rules[4].0.subrange(0, 1) =~= seq![198u8]);
        assert(prefix_match(ip, rules[4].0, rules[4].1));
    } else if ip[0] == 192 && ip[1] == 168 {
        assert(rules[5].0.subrange(0, 2) =~= seq![192u8, 168u8]);
        assert(prefix_match(ip, rules[5].0, rules[5].1));
    } else {
        assert(rules[6].0.subrange(0, 3) =~= seq![192u8, 0u8, 0u8]);
        assert(prefix_match(ip, rules[6].0, rules[6].1));
    }
}

/// With the local ranges blocked, every IPv6 address of those ranges is
/// covered by a rule.
pub proof fn lemma_local6_blocked(ip: Seq<u8>)
    requires
        ip.len() == 16,
        is_local6(ip),
    ensures
        covered(local_rules6(), ip),
{
    let rules = local_rules6();
    if ip == loopback6() {
        assert(ip.subrange(0, 16) =~= ip);
        assert(rules[0].0.subrange(0, 16) =~= loopback6());
        assert(prefix_match(ip, rules[0].0, rules[0].1));
    } else if ip[0] == 0xfc || ip[0] == 0xfd {
        assert(ip.subrange(0, 0) =~= rules[1].0.subrange(0, 0));
        assert(prefix_match(ip, rules[1].0, rules[1].1));
    } else {
        assert(ip.subrange(0, 1) =~= seq![ip[0]]);
        assert(rules[2].0.subrange(0, 1) =~= seq![0xfeu8]);
        assert(prefix_match(ip, rules[2].0, rules[2].1));
    }
}

/// An ACL made to block local ranges reports every address of those ranges,
/// IPv4 or IPv6, as blocked.
pub proof fn lemma_block_local_sound(acl: ACL, addr: SocketAddr)
    requires
        acl.rules4() == local_rules4(),
        acl.rules6() == local_rules6(),
        match addr {
            SocketAddr::V4(ip, _) => is_local4(ip@),
            SocketAddr::V6(ip, _) => is_local6(ip@),
        },
    ensures
        acl.blocks(addr),
{
    match addr {
        SocketAddr::V4(ip, _) => lemma_local4_blocked(ip@),
        SocketAddr::V6(ip, _) => lemma_local6_blocked(ip@),
    }
}

} // verus!
