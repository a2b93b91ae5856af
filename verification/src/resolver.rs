//! Which addresses a public host may resolve to, and the resolver decision built on it.
//!
//! A name is not an address: `evil.example` is a well-formed public hostname that can resolve to
//! `127.0.0.1`, `10.0.0.1`, or `169.254.169.254`. The decision here hands the HTTP client only
//! addresses outside the local network, so the client connects to exactly what was vetted and no
//! second lookup is left for DNS rebinding to poison. Performing the lookup itself is the
//! caller's part.

use vstd::prelude::*;

use crate::text::{join, join_exec, string_views};

verus! {

/// ureq keeps at most this many addresses from a resolver.
pub const MAX_ADDRS: usize = 16;

/// An IP address, as the resolver decision reads it.
#[derive(Debug, Clone, Copy, PartialEq, Eq)]
pub enum IpAddress {
    /// An IPv4 address, most significant octet first.
    V4([u8; 4]),
    /// An IPv6 address as eight 16-bit segments, most significant first.
    V6([u16; 8]),
}

/// 127/8.
pub open spec fn v4_loopback(o: [u8; 4]) -> bool {
    o[0] == 127
}

/// 10/8, 172.16/12, 192.168/16.
pub open spec fn v4_private(o: [u8; 4]) -> bool {
    o[0] == 10 || (o[0] == 172 && 16 <= o[1] <= 31) || (o[0] == 192 && o[1] == 168)
}

/// 169.254/16, which is where cloud metadata lives.
pub open spec fn v4_link_local(o: [u8; 4]) -> bool {
    o[0] == 169 && o[1] == 254
}

/// 255.255.255.255.
pub open spec fn v4_broadcast(o: [u8; 4]) -> bool {
    o[0] == 255 && o[1] == 255 && o[2] == 255 && o[3] == 255
}

/// 192.0.2/24, 198.51.100/24, 203.0.113/24.
pub open spec fn v4_documentation(o: [u8; 4]) -> bool {
    (o[0] == 192 && o[1] == 0 && o[2] == 2) || (o[0] == 198 && o[1] == 51 && o[2] == 100) || (
    o[0] == 203 && o[1] == 0 && o[2] == 113)
}

/// 0.0.0.0.
pub open spec fn v4_unspecified(o: [u8; 4]) -> bool {
    o[0] == 0 && o[1] == 0 && o[2] == 0 && o[3] == 0
}

/// 224/4.
pub open spec fn v4_multicast(o: [u8; 4]) -> bool {
    224 <= o[0] <= 239
}

/// Ranges with no standard-library predicate that still reach somewhere local: 100.64/10
/// (carrier-grade NAT), 192.0.0/24 (IETF protocol assignments), 198.18/15 (benchmarking), and
/// 240/4 (reserved, including the broadcast address).
pub open spec fn v4_other_local(o: [u8; 4]) -> bool {
    (o[0] == 100 && 64 <= o[1] < 128) || (o[0] == 192 && o[1] == 0 && o[2] == 0) || (o[0] == 198
        && 18 <= o[1] < 20) || o[0] >= 240
}

/// Whether an IPv4 address is outside every range a public host should never resolve to.
pub open spec fn v4_public(o: [u8; 4]) -> bool {
    !(v4_loopback(o) || v4_private(o) || v4_link_local(o) || v4_broadcast(o) || v4_documentation(o)
        || v4_unspecified(o) || v4_multicast(o) || v4_other_local(o))
}

/// `::ffff:a.b.c.d`.
pub open spec fn v6_is_v4_mapped(s: [u16; 8]) -> bool {
    s[0] == 0 && s[1] == 0 && s[2] == 0 && s[3] == 0 && s[4] == 0 && s[5] == 0xffff
}

/// `::a.b.c.d`, the deprecated IPv4-compatible form.
pub open spec fn v6_is_v4_compatible(s: [u16; 8]) -> bool {
    s[0] == 0 && s[1] == 0 && s[2] == 0 && s[3] == 0 && s[4] == 0 && s[5] == 0
}

/// The IPv4 address carried in the last two segments.
pub open spec fn v6_embedded_v4(s: [u16; 8]) -> [u8; 4] {
    [(s[6] / 256) as u8, (s[6] % 256) as u8, (s[7] / 256) as u8, (s[7] % 256) as u8]
}

/// The IPv4-mapped form of an IPv4 address.
pub open spec fn v4_mapped(o: [u8; 4]) -> [u16; 8] {
    [
        0,
        0,
        0,
        0,
        0,
        0xffff,
        ((o[0] as int) * 256 + (o[1] as int)) as u16,
        ((o[2] as int) * 256 + (o[3] as int)) as u16,
    ]
}

/// Whether an IPv6 address (not IPv4-mapped) is outside the local ranges: not `::1`, not `::`,
/// not multicast ff00::/8, not unique local fc00::/7, not link local fe80::/10, and not an
/// IPv4-compatible address whose IPv4 half is local.
pub open spec fn v6_public(s: [u16; 8]) -> bool {
    let loopback = v6_is_v4_compatible(s) && s[6] == 0 && s[7] == 1;
    let unspecified = v6_is_v4_compatible(s) && s[6] == 0 && s[7] == 0;
    !(loopback || unspecified || s[0] >= 0xff00 || (0xfc00 <= s[0] <= 0xfdff) || (0xfe80 <= s[0]
        <= 0xfebf) || (v6_is_v4_compatible(s) && !v4_public(v6_embedded_v4(s))))
}

/// Whether an address is outside the ranges a public host should never resolve to. An
/// IPv4-mapped IPv6 address is judged by the IPv4 address it reaches.
pub open spec fn ip_public(ip: IpAddress) -> bool {
    match ip {
        IpAddress::V4(o) => v4_public(o),
        IpAddress::V6(s) => if v6_is_v4_mapped(s) {
            v4_public(v6_embedded_v4(s))
        } else {
            v6_public(s)
        },
    }
}

fn is_public_v4(o: [u8; 4]) -> (r: bool)
    ensures
        r == v4_public(o),
{
    let a = o[0];
    let b = o[1];
    let c = o[2];
    let d = o[3];
    !(a == 127 || a == 10 || (a == 172 && 16 <= b && b <= 31) || (a == 192 && b == 168) || (a
        == 169 && b == 254) || (a == 255 && b == 255 && c == 255 && d == 255) || (a == 192 && b
        == 0 && c == 2) || (a == 198 && b == 51 && c == 100) || (a == 203 && b == 0 && c == 113)
        || (a == 0 && b == 0 && c == 0 && d == 0) || (224 <= a && a <= 239) || (a == 100 && 64 <= b
        && b < 128) || (a == 192 && b == 0 && c == 0) || (a == 198 && 18 <= b && b < 20) || a
        >= 240)
}

fn embedded_v4(s: [u16; 8]) -> (o: [u8; 4])
    ensures
        o == v6_embedded_v4(s),
{
    let hi = s[6];
    let lo = s[7];
    let o = [(hi / 256) as u8, (hi % 256) as u8, (lo / 256) as u8, (lo % 256) as u8];
    assert(o =~= v6_embedded_v4(s));
    o
}

fn is_public_v6(s: [u16; 8]) -> (r: bool)
    ensures
        r == v6_public(s),
{
    let compatible = s[0] == 0 && s[1] == 0 && s[2] == 0 && s[3] == 0 && s[4] == 0 && s[5] == 0;
    let loopback = compatible && s[6] == 0 && s[7] == 1;
    let unspecified = compatible && s[6] == 0 && s[7] == 0;
    let first = s[0];
    let local_v4 = compatible && !is_public_v4(embedded_v4(s));
    !(loopback || unspecified || first >= 0xff00 || (0xfc00 <= first && first <= 0xfdff) || (0xfe80
        <= first && first <= 0xfebf) || local_v4)
}

/// Whether an address is outside the ranges a public host should never resolve to.
pub fn is_public(ip: IpAddress) -> (r: bool)
    ensures
        r == ip_public(ip),
{
    match ip {
        IpAddress::V4(o) => is_public_v4(o),
        IpAddress::V6(s) => {
            if s[0] == 0 && s[1] == 0 && s[2] == 0 && s[3] == 0 && s[4] == 0 && s[5] == 0xffff {
                is_public_v4(embedded_v4(s))
            } else {
                is_public_v6(s)
            }
        },
    }
}

/// An IPv4-mapped IPv6 address such as `::ffff:127.0.0.1` is judged exactly as the IPv4
/// address it reaches: checking it as IPv6 alone would wave loopback straight through.
pub proof fn lemma_mapped_address_judged_as_v4(o: [u8; 4])
    ensures
        ip_public(IpAddress::V6(v4_mapped(o))) == ip_public(IpAddress::V4(o)),
{
    let s = v4_mapped(o);
    assert(v6_is_v4_mapped(s));
    let e = v6_embedded_v4(s);
    assert(e[0] == o[0] && e[1] == o[1] && e[2] == o[2] && e[3] == o[3]) by (nonlinear_arith)
        requires
            s[6] == (o[0] as int) * 256 + (o[1] as int),
            s[7] == (o[2] as int) * 256 + (o[3] as int),
            e[0] == (s[6] / 256) as u8,
            e[1] == (s[6] % 256) as u8,
            e[2] == (s[7] / 256) as u8,
            e[3] == (s[7] % 256) as u8,
    ;
    assert(e =~= o);
}

/// One address a lookup produced, with its printed form.
#[derive(Debug)]
pub struct ResolvedAddress {
    /// The address.
    pub ip: IpAddress,
    /// How the address is printed, for example `127.0.0.1` or `::1`.
    pub text: String,
}

/// Positions of the public addresses in `a`, in order.
pub open spec fn public_positions(a: Seq<ResolvedAddress>) -> Seq<int>
    decreases a.len(),
{
    if a.len() == 0 {
        Seq::empty()
    } else {
        let rest = public_positions(a.drop_last());
        if ip_public(a.last().ip) {
            rest.push(a.len() - 1)
        } else {
            rest
        }
    }
}

/// Printed forms of the refused addresses in `a`, in order.
pub open spec fn refused_texts(a: Seq<ResolvedAddress>) -> Seq<Seq<char>>
    decreases a.len(),
{
    if a.len() == 0 {
        Seq::empty()
    } else {
        let rest = refused_texts(a.drop_last());
        if ip_public(a.last().ip) {
            rest
        } else {
            rest.push(a.last().text@)
        }
    }
}

/// The positions handed to the client: the first `MAX_ADDRS` public ones.
pub open spec fn kept_positions(a: Seq<ResolvedAddress>) -> Seq<int> {
    let p = public_positions(a);
    if p.len() <= MAX_ADDRS {
        p
    } else {
        p.take(MAX_ADDRS as int)
    }
}

/// Why a lookup was refused, when nothing public survived.
pub open spec fn refusal_detail(host: Seq<char>, a: Seq<ResolvedAddress>) -> Seq<char> {
    let refused = refused_texts(a);
    if refused.len() == 0 {
        host + " did not resolve to any address"@
    } else {
        host + " resolves to "@ + join(refused, ", "@)
            + ", which is inside the local network; refusing to connect"@
    }
}

/// Every position listed by `public_positions` is a public address, in increasing order.
proof fn lemma_public_positions(a: Seq<ResolvedAddress>)
    ensures
        forall|k: int|
            0 <= k < public_positions(a).len() ==> 0 <= #[trigger] public_positions(a)[k] < a.len()
                && ip_public(a[public_positions(a)[k]].ip),
        forall|k: int, l: int|
            0 <= k < l < public_positions(a).len() ==> #[trigger] public_positions(a)[k]
                < #[trigger] public_positions(a)[l],
        public_positions(a).len() == 0 && refused_texts(a).len() == 0 ==> a.len() == 0,
    decreases a.len(),
{
    if a.len() > 0 {
        lemma_public_positions(a.drop_last());
        let rest = public_positions(a.drop_last());
        assert forall|k: int| 0 <= k < rest.len() implies a[rest[k]] == a.drop_last()[rest[k]] by {}
    }
}

/// A resolver decision that returns only addresses outside the local network, and records why
/// it refused a lookup.
#[derive(Debug)]
pub struct PublicOnlyResolver {
    rejections: Vec<String>,
}

impl PublicOnlyResolver {
    /// Creates a resolver that records why it refused an address, after the reasons already in
    /// `rejections`.
    pub fn new(rejections: Vec<String>) -> (r: Self)
        ensures
            r.rejections() == string_views(rejections@),
    {
        PublicOnlyResolver { rejections }
    }

    /// The recorded reasons, oldest first.
    pub closed spec fn rejections(&self) -> Seq<Seq<char>> {
        string_views(self.rejections@)
    }

    /// The first recorded reason, which is the one that explains a failed request.
    pub fn first_rejection(&self) -> (r: Option<String>)
        ensures
            r matches Some(m) ==> self.rejections().len() > 0 && m@ == self.rejections()[0],
            r is None ==> self.rejections().len() == 0,
    {
        if self.rejections.len() == 0 {
            None
        } else {
            Some(self.rejections[0].clone())
        }
    }

    /// Screens what a lookup of `host` produced.
    ///
    /// Returns the positions of the addresses to hand to the client: the public ones, in order,
    /// at most `MAX_ADDRS`. When none is public, records why and returns `None`.
    pub fn screen(&mut self, host: &str, resolved: &Vec<ResolvedAddress>) -> (kept: Option<
        Vec<usize>,
    >)
        ensures
            kept matches Some(k) ==> k@.len() > 0 && k@.map_values(|i: usize| i as int)
                == kept_positions(resolved@) && final(self).rejections() == old(self).rejections(),
            kept is None ==> public_positions(resolved@).len() == 0 && final(self).rejections()
                == old(self).rejections().push(refusal_detail(host@, resolved@)),
            kept matches Some(k) ==> forall|i: int|
                0 <= i < k@.len() ==> k@[i] < resolved@.len() && ip_public(
                    #[trigger] resolved@[k@[i] as int].ip,
                ),
            kept matches Some(k) ==> k@.len() <= MAX_ADDRS,
    {
        let mut kept: Vec<usize> = Vec::new();
        let mut refused: Vec<String> = Vec::new();
        let mut i: usize = 0;
        while i < resolved.len()
            invariant
                i <= resolved.len(),
                kept@.map_values(|j: usize| j as int) == (if public_positions(
                    resolved@.take(i as int),
                ).len() <= MAX_ADDRS {
                    public_positions(resolved@.take(i as int))
                } else {
                    public_positions(resolved@.take(i as int)).take(MAX_ADDRS as int)
                }),
                string_views(refused@) == refused_texts(resolved@.take(i as int)),
            decreases resolved.len() - i,
        {
            let ghost prefix = resolved@.take(i as int + 1);
            assert(prefix.drop_last() =~= resolved@.take(i as int));
            assert(prefix.last() == resolved@[i as int]);
            let address = &resolved[i];
            if is_public(address.ip) {
                if kept.len() < MAX_ADDRS {
                    let ghost before = kept@;
                    kept.push(i);
                    assert(kept@.map_values(|j: usize| j as int) =~= before.map_values(
                        |j: usize| j as int,
                    ).push(i as int));
                } else {
                    let ghost p = public_positions(resolved@.take(i as int));
                    assert(p.push(i as int).take(MAX_ADDRS as int) =~= p.take(MAX_ADDRS as int));
                }
                assert(string_views(refused@) == refused_texts(prefix));
            } else {
                let ghost before = string_views(refused@);
                refused.push(address.text.clone());
                assert(string_views(refused@) =~= before.push(address.text@));
            }
            i = i + 1;
        }
        assert(resolved@.take(resolved.len() as int) =~= resolved@);
        proof {
            lemma_public_positions(resolved@);
        }
        if kept.len() == 0 {
            let mut detail = String::from_str(host);
            if refused.len() == 0 {
                detail.append(" did not resolve to any address");
            } else {
                detail.append(" resolves to ");
                let listed = join_exec(&refused, ", ");
                detail.append(listed.as_str());
                detail.append(", which is inside the local network; refusing to connect");
            }
            let ghost before = string_views(self.rejections@);
            self.rejections.push(detail);
            assert(string_views(self.rejections@) =~= before.push(refusal_detail(host@, resolved@)));
            None
        } else {
            proof {
                let kp = kept@.map_values(|j: usize| j as int);
                assert forall|t: int| 0 <= t < kept@.len() implies kept@[t] < resolved@.len()
                    && ip_public(#[trigger] resolved@[kept@[t] as int].ip) by {
                    assert(kp[t] == kept@[t] as int);
                    assert(kp[t] == public_positions(resolved@)[t]);
                }
            }
            Some(kept)
        }
    }
}

} // verus!
