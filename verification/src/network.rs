//! The network: interface classes, the mesh's shape, and the arithmetic that
//! turns an ordinal into an address.
//!
//! Addresses come from ordinals. [`Addressing`] holds two bases; a [`Link`] is
//! computed from the two ordinals it joins, so both ends of a cable reach the
//! same answer from the same two numbers.
use vstd::prelude::*;

use crate::address::{dotted, ipv4_of, Ipv4};
use crate::named::{find_row, is_listed, listed, row, Named};
use crate::text::{decimal, decimal_of};

verus! {

/// Everything the model says about the network.
#[derive(Debug)]
pub struct NetworkFile {
    /// The schema tag.
    pub spec: String,
    /// The prefix the LAN's declared ports are opened to.
    pub lan_prefix: String,
    /// How a port is recognised as mesh or LAN.
    pub class: Vec<Class>,
    /// What shape the mesh is, and what it can grow to.
    pub topology: Topology,
    /// The arithmetic turning an ordinal into an address.
    pub addressing: Addressing,
    /// Forwarding and route metrics.
    pub routing: Routing,
    /// How a node learns which peer is on the far end of a cable.
    pub discovery: Discovery,
    /// The rendered firewall.
    pub firewall: Firewall,
    /// Where the hosts file goes.
    pub hosts: Hosts,
}

/// An interface class: how a port is recognised, and what it gets.
///
/// There is no MAC here and no interface name. A port is `mesh` if its driver
/// reports support for the class's speed and `lan` otherwise.
#[derive(Debug)]
pub struct Class {
    /// `mesh` or `lan`.
    pub id: String,
    /// The lowest supported link speed that puts a port in this class.
    pub min_speed_mbps: u32,
    /// How many ports of this class a conforming machine presents.
    pub count: u32,
    /// The MTU every port in this class takes.
    pub mtu: u32,
    /// `derived` (from the ordinal) or `dhcp`.
    pub addressing: String,
    /// What the class is for.
    pub description: String,
}

/// The mesh's shape, and the ceiling that shape implies.
#[derive(Debug)]
pub struct Topology {
    /// `direct-triangle`, or another kind of mesh.
    pub kind: String,
    /// The node count this topology admits.
    pub max_nodes: u32,
}

/// The arithmetic turning an ordinal into an address.
#[derive(Debug)]
pub struct Addressing {
    /// A node's loopback is this plus its ordinal.
    pub loopback_base: String,
    /// `32`. A loopback is a host route.
    pub loopback_prefix_len: u8,
    /// A link's prefix is this plus twice its index.
    pub link_base: String,
    /// `31`: exactly two hosts, no network or broadcast address.
    pub link_prefix_len: u8,
}

/// A point-to-point link between two ordinals, derived from the two.
#[derive(Debug, Clone, Copy, PartialEq, Eq, Structural)]
pub struct Link {
    /// The lower ordinal, which takes the even address.
    pub lower: u32,
    /// The higher ordinal, which takes the odd one.
    pub higher: u32,
    /// The even address.
    pub lower_address: Ipv4,
    /// The odd address.
    pub higher_address: Ipv4,
    /// `31`.
    pub prefix_len: u8,
}

/// Forwarding and the two route metrics.
#[derive(Debug)]
pub struct Routing {
    /// On every node, so that a transit route has something to transit.
    pub ip_forward: bool,
    /// Metric of the direct route to a peer loopback.
    pub direct_metric: u32,
    /// Metric of the route via the remaining peer.
    pub transit_metric: u32,
}

/// How a node learns which peer is on the far end of a cable.
#[derive(Debug)]
pub struct Discovery {
    /// The IPv6 link-local multicast group announcements go to.
    pub group: String,
    /// The UDP port.
    pub port: u16,
    /// How often an unpeered link re-announces.
    pub interval_ms: u32,
    /// How long a node waits before reporting a link unpeered.
    pub timeout_s: u32,
}

/// The rendered firewall.
#[derive(Debug)]
pub struct Firewall {
    /// Default policy on the input hook. `drop`.
    pub input_policy: String,
    /// Default policy on the forward hook.
    pub forward_policy: String,
    /// Default policy on the output hook.
    pub output_policy: String,
    /// Every accept is a declared one.
    pub rule: Vec<FirewallRule>,
}

/// One accepted flow.
#[derive(Debug)]
pub struct FirewallRule {
    /// The interface class the rule applies on, or `tailscale` or `lo`.
    pub plane: String,
    /// `tcp`, `udp`, `icmp`, or `any`.
    pub protocol: String,
    /// Destination port; `0` when the protocol has none.
    pub port: u16,
    /// `lan`, `tailnet`, `mesh`, `link-local`, or `any`.
    pub source: String,
    /// Restrict the rule to named roles. Empty means every role.
    pub roles: Vec<String>,
    /// Why the flow is accepted.
    pub comment: String,
}

/// Where the hosts file goes.
#[derive(Debug)]
pub struct Hosts {
    /// Where the file lands.
    pub path: String,
    /// Written here and renamed over `path`, so that the write is atomic.
    pub staging_path: String,
}

// ---- pairs of ordinals ----

/// How many pairs start below `a` in a fleet of `n`.
pub open spec fn row_start(a: int, n: int) -> int
    decreases a,
{
    if a <= 1 {
        0
    } else {
        row_start(a - 1, n) + (n - (a - 1))
    }
}

/// The position of the pair `a < b` among all pairs of `1..=n` in ascending
/// order: `(1,2)` is 0, `(1,3)` is 1 and, of three, `(2,3)` is 2.
pub open spec fn rank(a: int, b: int, n: int) -> int {
    row_start(a, n) + (b - a - 1)
}

/// How many pairs `1..=n` has.
pub open spec fn pair_count(n: int) -> int {
    n * (n - 1) / 2
}

/// Whether two ordinals of a fleet of `n` are joined by a link.
pub open spec fn joined(x: int, y: int, n: int) -> bool {
    x != y && 1 <= x <= n && 1 <= y <= n
}

proof fn lemma_row_start(a: int, n: int)
    requires
        1 <= a <= n,
    ensures
        2 * row_start(a, n) == (a - 1) * (2 * n - a),
    decreases a,
{
    if a > 1 {
        lemma_row_start(a - 1, n);
        let c = a - 1;
        assert((c - 1) * (2 * n - c) + 2 * (n - c) == c * (2 * n - (c + 1))) by (nonlinear_arith);
        assert(c + 1 == a);
    } else {
        assert((a - 1) * (2 * n - a) == 0) by (nonlinear_arith)
            requires
                a == 1,
        ;
    }
}

/// Every pair has a position below the number of pairs.
pub proof fn rank_is_bounded(a: int, b: int, n: int)
    requires
        1 <= a < b <= n,
    ensures
        0 <= rank(a, b, n) < pair_count(n),
{
    lemma_row_start(a, n);
    let r = rank(a, b, n);
    assert((a - 1) * (2 * n - a) >= 0) by (nonlinear_arith)
        requires
            1 <= a < n,
    ;
    assert((a - 1) * (2 * n - a) + 2 * (n - a) <= n * (n - 1)) by (nonlinear_arith)
        requires
            1 <= a < n,
    ;
}

/// Row `a` ends where row `a + 1` starts.
proof fn lemma_rows_follow(a: int, c: int, n: int)
    requires
        1 <= a < c <= n,
    ensures
        row_start(a, n) + (n - a) <= row_start(c, n),
    decreases c - a,
{
    if a + 1 < c {
        lemma_rows_follow(a, c - 1, n);
    }
}

/// Different pairs have different positions.
pub proof fn rank_is_injective(a: int, b: int, c: int, d: int, n: int)
    requires
        1 <= a < b <= n,
        1 <= c < d <= n,
        rank(a, b, n) == rank(c, d, n),
    ensures
        a == c,
        b == d,
{
    if a < c {
        lemma_rows_follow(a, c, n);
    } else if c < a {
        lemma_rows_follow(c, a, n);
    }
}

// ---- addressing ----

impl Addressing {
    /// The loopback of an ordinal: the base plus the ordinal.
    pub open spec fn loopback_spec(&self, ordinal: u32) -> Option<Ipv4> {
        match ipv4_of(self.loopback_base@) {
            Some(base) => if base + ordinal <= u32::MAX {
                Some(Ipv4 { bits: (base + ordinal) as u32 })
            } else {
                None
            },
            None => None,
        }
    }

    /// The link between two ordinals of a fleet of `n`, in either order.
    pub open spec fn link_spec(&self, x: u32, y: u32, n: u32) -> Option<Link> {
        if !joined(x as int, y as int, n as int) {
            None
        } else {
            let lower = if x < y {
                x
            } else {
                y
            };
            let higher = if x < y {
                y
            } else {
                x
            };
            match ipv4_of(self.link_base@) {
                Some(base) => {
                    let prefix = base + 2 * rank(lower as int, higher as int, n as int);
                    if prefix + 1 <= u32::MAX {
                        Some(
                            Link {
                                lower,
                                higher,
                                lower_address: Ipv4 { bits: prefix as u32 },
                                higher_address: Ipv4 { bits: (prefix + 1) as u32 },
                                prefix_len: self.link_prefix_len,
                            },
                        )
                    } else {
                        None
                    }
                },
                None => None,
            }
        }
    }

    /// The links from `a` to the ordinals between `a` and `b`.
    pub open spec fn row_links(&self, a: int, b: int, n: u32) -> Seq<Link>
        decreases b - a,
    {
        if b <= a + 1 {
            Seq::empty()
        } else {
            let before = self.row_links(a, b - 1, n);
            match self.link_spec(a as u32, (b - 1) as u32, n) {
                Some(link) => before.push(link),
                None => before,
            }
        }
    }

    /// The links whose lower ordinal is below `a`.
    pub open spec fn links_below(&self, a: int, n: u32) -> Seq<Link>
        decreases a,
    {
        if a <= 1 {
            Seq::empty()
        } else {
            self.links_below(a - 1, n) + self.row_links(a - 1, n + 1, n)
        }
    }

    /// Every link of a fleet of `n`, in ascending pair order.
    pub open spec fn links_spec(&self, n: u32) -> Seq<Link> {
        self.links_below(n + 1, n)
    }

    /// The loopback of ordinal `n`.
    ///
    /// `None` when the base is not a well-formed address, or when the sum
    /// leaves the address space.
    pub fn loopback_of(&self, ordinal: u32) -> (r: Option<Ipv4>)
        ensures
            r == self.loopback_spec(ordinal),
    {
        match Ipv4::parse(self.loopback_base.as_str()) {
            Some(base) => match base.bits.checked_add(ordinal) {
                Some(bits) => Some(Ipv4 { bits }),
                None => None,
            },
            None => None,
        }
    }

    /// The link between two ordinals, in either order.
    ///
    /// The index is the position of the unordered pair in ascending order, so
    /// both ends compute the same prefix from the same two numbers without
    /// exchanging it. The lower ordinal takes the lower address.
    pub fn link_between(&self, x: u32, y: u32, fleet_size: u32) -> (r: Option<Link>)
        requires
            x < y && joined(x as int, y as int, fleet_size as int) ==> 2 * rank(
                x as int,
                y as int,
                fleet_size as int,
            ) <= u32::MAX,
            y < x && joined(x as int, y as int, fleet_size as int) ==> 2 * rank(
                y as int,
                x as int,
                fleet_size as int,
            ) <= u32::MAX,
        ensures
            r == self.link_spec(x, y, fleet_size),
    {
        if x == y || x == 0 || y == 0 || x > fleet_size || y > fleet_size {
            return None;
        }
        let (lower, higher) = if x < y {
            (x, y)
        } else {
            (y, x)
        };
        let index: u32 = Self::pair_index(lower, higher, fleet_size);
        let base = match Ipv4::parse(self.link_base.as_str()) {
            Some(base) => base,
            None => {
                return None;
            },
        };
        let prefix: u32 = match base.bits.checked_add(2 * index) {
            Some(prefix) => prefix,
            None => {
                return None;
            },
        };
        match prefix.checked_add(1) {
            Some(odd) => Some(
                Link {
                    lower,
                    higher,
                    lower_address: Ipv4 { bits: prefix },
                    higher_address: Ipv4 { bits: odd },
                    prefix_len: self.link_prefix_len,
                },
            ),
            None => None,
        }
    }

    /// The position of a pair among all pairs of the fleet, in ascending order.
    fn pair_index(lower: u32, higher: u32, fleet_size: u32) -> (index: u32)
        requires
            1 <= lower < higher <= fleet_size,
            rank(lower as int, higher as int, fleet_size as int) <= u32::MAX,
        ensures
            index == rank(lower as int, higher as int, fleet_size as int),
    {
        let mut index: u64 = 0;
        let mut a: u32 = 1;
        proof {
            lemma_row_start_grows(1, lower as int, fleet_size as int);
        }
        while a < lower
            invariant
                1 <= a <= lower < higher <= fleet_size,
                index == row_start(a as int, fleet_size as int),
                row_start(lower as int, fleet_size as int) <= u32::MAX,
            decreases lower - a,
        {
            proof {
                lemma_row_start_grows(a + 1, lower as int, fleet_size as int);
            }
            index = index + (fleet_size - a) as u64;
            a = a + 1;
        }
        (index + (higher - lower - 1) as u64) as u32
    }

    /// Every link in the fleet, in ascending pair order.
    pub fn links(&self, fleet_size: u32) -> (out: Vec<Link>)
        requires
            fleet_size <= 65536,
        ensures
            out@ == self.links_spec(fleet_size),
    {
        let mut out: Vec<Link> = Vec::new();
        let mut a: u32 = 1;
        while a <= fleet_size
            invariant
                1 <= a <= fleet_size + 1,
                fleet_size <= 65536,
                out@ == self.links_below(a as int, fleet_size),
            decreases fleet_size + 1 - a,
        {
            let ghost before = out@;
            let mut b: u32 = a + 1;
            proof {
                assert(before + self.row_links(a as int, a + 1, fleet_size) =~= before);
            }
            while b <= fleet_size
                invariant
                    1 <= a < b <= fleet_size + 1,
                    fleet_size <= 65536,
                    out@ == before + self.row_links(a as int, b as int, fleet_size),
                decreases fleet_size + 1 - b,
            {
                proof {
                    rank_is_bounded(a as int, b as int, fleet_size as int);
                    assert(fleet_size * (fleet_size - 1) <= 65536 * 65535) by (nonlinear_arith)
                        requires
                            0 <= fleet_size <= 65536,
                    ;
                    let row = self.row_links(a as int, b as int, fleet_size);
                    assert(forall|link: Link|
                        before + row.push(link) =~= #[trigger] (before + row).push(link));
                }
                if let Some(link) = self.link_between(a, b, fleet_size) {
                    out.push(link);
                }
                b = b + 1;
            }
            a = a + 1;
        }
        out
    }

    /// The links of the fleet that touch `ordinal`.
    pub open spec fn links_of_spec(&self, ordinal: u32, n: u32) -> Seq<Link> {
        touching(self.links_spec(n), ordinal)
    }

    /// Every link touching ordinal `n`.
    pub fn links_of(&self, ordinal: u32, fleet_size: u32) -> (out: Vec<Link>)
        requires
            fleet_size <= 65536,
        ensures
            out@ == self.links_of_spec(ordinal, fleet_size),
    {
        let all = self.links(fleet_size);
        let mut out: Vec<Link> = Vec::new();
        let mut i: usize = 0;
        while i < all.len()
            invariant
                i <= all.len(),
                out@ == touching(all@.take(i as int), ordinal),
            decreases all.len() - i,
        {
            proof {
                assert(all@.take(i + 1).drop_last() =~= all@.take(i as int));
            }
            if all[i].touches(ordinal) {
                out.push(all[i]);
            }
            i = i + 1;
        }
        proof {
            assert(all@.take(i as int) =~= all@);
        }
        out
    }
}

proof fn lemma_row_start_grows(a: int, c: int, n: int)
    requires
        1 <= a <= c <= n,
    ensures
        0 <= row_start(a, n) <= row_start(c, n),
    decreases c,
{
    if a < c {
        lemma_row_start_grows(a, c - 1, n);
    } else if a > 1 {
        lemma_row_start_grows(a - 1, a - 1, n);
    }
}

/// The links of `all` that touch `ordinal`, in order.
pub open spec fn touching(all: Seq<Link>, ordinal: u32) -> Seq<Link>
    decreases all.len(),
{
    if all.len() == 0 {
        Seq::empty()
    } else {
        let before = touching(all.drop_last(), ordinal);
        if all.last().lower == ordinal || all.last().higher == ordinal {
            before.push(all.last())
        } else {
            before
        }
    }
}

impl Link {
    /// A stable identifier, e.g. `l12`.
    pub open spec fn id_spec(&self) -> Seq<char> {
        "l"@ + decimal(self.lower as nat) + decimal(self.higher as nat)
    }

    /// The network prefix, e.g. `10.10.0.2/31`.
    pub open spec fn prefix_spec(&self) -> Seq<char> {
        dotted(self.lower_address.bits) + "/"@ + decimal(self.prefix_len as nat)
    }

    /// A stable identifier, e.g. `l12`.
    pub fn id(&self) -> (out: String)
        ensures
            out@ == self.id_spec(),
    {
        "l".to_owned().concat(decimal_of(self.lower as u64).as_str()).concat(
            decimal_of(self.higher as u64).as_str(),
        )
    }

    /// The network prefix, e.g. `10.10.0.2/31`.
    pub fn prefix(&self) -> (out: String)
        ensures
            out@ == self.prefix_spec(),
    {
        self.lower_address.to_text().concat("/").concat(
            decimal_of(self.prefix_len as u64).as_str(),
        )
    }

    /// Does this link touch `ordinal`?
    pub fn touches(&self, ordinal: u32) -> (r: bool)
        ensures
            r == (self.lower == ordinal || self.higher == ordinal),
    {
        self.lower == ordinal || self.higher == ordinal
    }

    /// The ordinal on the other end of this link.
    pub open spec fn peer_spec(&self, ordinal: u32) -> Option<u32> {
        if self.lower == ordinal {
            Some(self.higher)
        } else if self.higher == ordinal {
            Some(self.lower)
        } else {
            None
        }
    }

    /// The ordinal on the other end of this link.
    pub fn peer_of(&self, ordinal: u32) -> (r: Option<u32>)
        ensures
            r == self.peer_spec(ordinal),
    {
        if self.lower == ordinal {
            Some(self.higher)
        } else if self.higher == ordinal {
            Some(self.lower)
        } else {
            None
        }
    }

    /// `ordinal`'s own address on this link.
    pub open spec fn address_spec(&self, ordinal: u32) -> Option<Ipv4> {
        if self.lower == ordinal {
            Some(self.lower_address)
        } else if self.higher == ordinal {
            Some(self.higher_address)
        } else {
            None
        }
    }

    /// `ordinal`'s own address on this link.
    pub fn address_of(&self, ordinal: u32) -> (r: Option<Ipv4>)
        ensures
            r == self.address_spec(ordinal),
    {
        if self.lower == ordinal {
            Some(self.lower_address)
        } else if self.higher == ordinal {
            Some(self.higher_address)
        } else {
            None
        }
    }

    /// Both addresses this link carries.
    pub fn addresses(&self) -> (r: [Ipv4; 2])
        ensures
            r@ == seq![self.lower_address, self.higher_address],
    {
        [self.lower_address, self.higher_address]
    }
}

// ---- laws of the addressing ----

/// Both ends of a cable derive the same link, whichever names itself first.
pub proof fn both_ends_derive_the_same_link(a: Addressing, x: u32, y: u32, n: u32)
    ensures
        a.link_spec(x, y, n) == a.link_spec(y, x, n),
{
}

/// The ends of a link are each other's peers, on addresses that are neighbours.
pub proof fn the_ends_of_a_link_are_peers(a: Addressing, x: u32, y: u32, n: u32)
    requires
        a.link_spec(x, y, n) is Some,
    ensures
        ({
            let link = a.link_spec(x, y, n).unwrap();
            &&& link.lower < link.higher
            &&& link.peer_spec(x) == Some(y)
            &&& link.peer_spec(y) == Some(x)
            &&& link.higher_address.bits == link.lower_address.bits + 1
        }),
{
    if x < y {
        rank_is_bounded(x as int, y as int, n as int);
    } else {
        rank_is_bounded(y as int, x as int, n as int);
    }
}

/// On an even base the lower ordinal takes the even address and the higher its
/// odd twin.
pub proof fn the_lower_ordinal_takes_the_even_address(
    a: Addressing,
    base: u32,
    x: u32,
    y: u32,
    n: u32,
)
    requires
        ipv4_of(a.link_base@) == Some(base),
        base % 2 == 0,
        a.link_spec(x, y, n) is Some,
    ensures
        a.link_spec(x, y, n).unwrap().lower_address.bits % 2 == 0,
        a.link_spec(x, y, n).unwrap().higher_address.bits % 2 == 1,
{
    let lower = if x < y {
        x
    } else {
        y
    };
    let higher = if x < y {
        y
    } else {
        x
    };
    rank_is_bounded(lower as int, higher as int, n as int);
}

/// No address is on two links.
pub proof fn no_address_is_on_two_links(a: Addressing, n: u32, x: u32, y: u32, u: u32, v: u32)
    requires
        a.link_spec(x, y, n) is Some,
        a.link_spec(u, v, n) is Some,
        a.link_spec(x, y, n) != a.link_spec(u, v, n),
    ensures
        ({
            let l = a.link_spec(x, y, n).unwrap();
            let k = a.link_spec(u, v, n).unwrap();
            &&& l.lower_address != k.lower_address
            &&& l.lower_address != k.higher_address
            &&& l.higher_address != k.lower_address
            &&& l.higher_address != k.higher_address
        }),
{
    let l = a.link_spec(x, y, n).unwrap();
    let k = a.link_spec(u, v, n).unwrap();
    rank_is_bounded(l.lower as int, l.higher as int, n as int);
    rank_is_bounded(k.lower as int, k.higher as int, n as int);
    if rank(l.lower as int, l.higher as int, n as int) == rank(k.lower as int, k.higher as int, n as int) {
        rank_is_injective(l.lower as int, l.higher as int, k.lower as int, k.higher as int, n as int);
    }
}

/// An ordinal outside the fleet has no link, and none has a link to itself.
pub proof fn an_ordinal_outside_the_fleet_has_no_link(a: Addressing, x: u32, y: u32, n: u32)
    requires
        x == 0 || x > n || x == y,
    ensures
        a.link_spec(x, y, n) is None,
        a.link_spec(y, x, n) is None,
{
}

/// Where the base leaves room, every pair has its link: the list holds each
/// once, at the pair's position.
pub proof fn every_pair_has_its_link(a: Addressing, n: u32, base: u32)
    requires
        ipv4_of(a.link_base@) == Some(base),
        base + 2 * pair_count(n as int) <= u32::MAX + 1,
    ensures
        a.links_spec(n).len() == pair_count(n as int),
        forall|x: u32, y: u32|
            #![trigger a.link_spec(x, y, n)]
            1 <= x < y <= n ==> Some(a.links_spec(n)[rank(x as int, y as int, n as int)])
                == a.link_spec(x, y, n),
{
    lemma_links_below(a, n, base, n + 1);
    let m = n as int;
    if m > 0 {
        lemma_row_start(m, m);
        assert((m - 1) * (2 * m - m) == m * (m - 1)) by (nonlinear_arith);
    } else {
        assert(m * (m - 1) == 0) by (nonlinear_arith)
            requires
                m == 0,
        ;
    }
    assert(a.links_spec(n).len() == pair_count(m));
    assert forall|x: u32, y: u32|
        #![trigger a.link_spec(x, y, n)]
        1 <= x < y <= n implies Some(a.links_spec(n)[rank(x as int, y as int, n as int)])
        == a.link_spec(x, y, n) by {
        assert(x < n + 1);
    }
}

proof fn lemma_row_links(a: Addressing, n: u32, base: u32, x: int, b: int)
    requires
        ipv4_of(a.link_base@) == Some(base),
        base + 2 * pair_count(n as int) <= u32::MAX + 1,
        1 <= x < b <= n + 1,
    ensures
        a.row_links(x, b, n).len() == b - x - 1,
        forall|y: u32|
            x < y < b ==> Some(a.row_links(x, b, n)[y - x - 1]) == #[trigger] a.link_spec(
                x as u32,
                y,
                n,
            ),
    decreases b,
{
    if b > x + 1 {
        lemma_row_links(a, n, base, x, b - 1);
        rank_is_bounded(x, b - 1, n as int);
    }
}

proof fn lemma_links_below(a: Addressing, n: u32, base: u32, c: int)
    requires
        ipv4_of(a.link_base@) == Some(base),
        base + 2 * pair_count(n as int) <= u32::MAX + 1,
        1 <= c <= n + 1,
    ensures
        a.links_below(c, n).len() == row_start(c, n as int),
        forall|x: u32, y: u32|
            #![trigger a.link_spec(x, y, n)]
            1 <= x < c && x < y <= n ==> {
                &&& 0 <= rank(x as int, y as int, n as int) < a.links_below(c, n).len()
                &&& Some(a.links_below(c, n)[rank(x as int, y as int, n as int)]) == a.link_spec(
                    x,
                    y,
                    n,
                )
            },
    decreases c,
{
    if c > 1 {
        lemma_links_below(a, n, base, c - 1);
        lemma_row_links(a, n, base, c - 1, n + 1);
        assert forall|x: u32, y: u32|
            #![trigger a.link_spec(x, y, n)]
            1 <= x < c && x < y <= n implies {
            &&& 0 <= rank(x as int, y as int, n as int) < a.links_below(c, n).len()
            &&& Some(a.links_below(c, n)[rank(x as int, y as int, n as int)]) == a.link_spec(
                x,
                y,
                n,
            )
        } by {
            rank_is_bounded(x as int, y as int, n as int);
            if x < c - 1 {
            } else {
                assert(x as int == c - 1);
            }
        }
    }
}

// ---- lookups ----

impl FirewallRule {
    /// Does this rule render for `role`?
    pub open spec fn applies_spec(&self, role: Seq<char>) -> bool {
        self.roles@.len() == 0 || listed(self.roles@, role)
    }

    /// Does this rule hold for every role, or only for some?
    pub fn is_universal(&self) -> (r: bool)
        ensures
            r == (self.roles@.len() == 0),
    {
        self.roles.len() == 0
    }

    /// Does this rule render for `role`?
    pub fn applies_to(&self, role: &str) -> (r: bool)
        ensures
            r == self.applies_spec(role@),
    {
        self.is_universal() || is_listed(&self.roles, role)
    }
}

impl Named for Class {
    open spec fn key(&self) -> Seq<char> {
        self.id@
    }

    fn name_of(&self) -> (r: &str) {
        self.id.as_str()
    }
}

impl NetworkFile {
    /// An interface class by name.
    pub fn class(&self, id: &str) -> (r: Option<&Class>)
        ensures
            match r {
                Some(c) => row(self.class@, id@) == Some(*c),
                None => row(self.class@, id@) is None,
            },
    {
        find_row(&self.class, id)
    }

    /// The mesh class, which a consistent model has.
    pub fn mesh_class(&self) -> (r: Option<&Class>)
        ensures
            match r {
                Some(c) => row(self.class@, "mesh"@) == Some(*c),
                None => row(self.class@, "mesh"@) is None,
            },
    {
        self.class("mesh")
    }

    /// The LAN class, which a consistent model has.
    pub fn lan_class(&self) -> (r: Option<&Class>)
        ensures
            match r {
                Some(c) => row(self.class@, "lan"@) == Some(*c),
                None => row(self.class@, "lan"@) is None,
            },
    {
        self.class("lan")
    }
}

// ---- laws of the addresses ----

/// A node's loopback is its ordinal counted from the base.
pub proof fn a_loopback_counts_from_the_base(a: Addressing, ordinal: u32, base: u32, r: Option<Ipv4>)
    requires
        call_ensures(Addressing::loopback_of, (&a, ordinal), r),
        ipv4_of(a.loopback_base@) == Some(base),
    ensures
        r is Some <==> base + ordinal <= u32::MAX,
        r is Some ==> r.unwrap().bits == base + ordinal,
{
}

/// The first link has the first two addresses of its base, and each link after
/// it the next two: within a row by the higher end, and from row to row by the
/// lower.
pub proof fn links_take_their_addresses_in_turn(a: Addressing, x: u32, y: u32, n: u32, base: u32)
    requires
        ipv4_of(a.link_base@) == Some(base),
        1 <= x < y <= n,
    ensures
        x == 1 && y == 2 ==> (a.link_spec(x, y, n) matches Some(link) ==> link.lower_address.bits
            == base),
        a.link_spec(x, y, n) matches Some(link) ==> {
            &&& link.lower == x && link.higher == y
            &&& link.higher_address.bits == link.lower_address.bits + 1
            &&& link.prefix_len == a.link_prefix_len
        },
        y < n && a.link_spec(x, y, n) is Some && a.link_spec(x, (y + 1) as u32, n) is Some
            ==> a.link_spec(x, (y + 1) as u32, n).unwrap().lower_address.bits == a.link_spec(
            x,
            y,
            n,
        ).unwrap().lower_address.bits + 2,
        x + 2 <= n && a.link_spec(x, n, n) is Some && a.link_spec(
            (x + 1) as u32,
            (x + 2) as u32,
            n,
        ) is Some ==> a.link_spec((x + 1) as u32, (x + 2) as u32, n).unwrap().lower_address.bits
            == a.link_spec(x, n, n).unwrap().lower_address.bits + 2,
{
    rank_is_bounded(x as int, y as int, n as int);
    if y < n {
        rank_is_bounded(x as int, y + 1, n as int);
    }
    if x + 2 <= n {
        rank_is_bounded(x as int, n as int, n as int);
        rank_is_bounded(x + 1, x + 2, n as int);
        assert(row_start(x + 1, n as int) == row_start(x as int, n as int) + (n - x));
    }
}

/// A rule that names no role is for all of them, and one that names some for
/// those.
pub proof fn a_rule_is_for_the_roles_it_names(rule: FirewallRule, role: &str, universal: bool, applies: bool, i: int)
    requires
        call_ensures(FirewallRule::is_universal, (&rule,), universal),
        call_ensures(FirewallRule::applies_to, (&rule, role), applies),
    ensures
        universal <==> rule.roles@.len() == 0,
        rule.roles@.len() == 0 ==> applies,
        0 <= i < rule.roles@.len() && rule.roles@[i]@ == role@ ==> applies,
        rule.roles@.len() > 0 && (forall|k: int|
            0 <= k < rule.roles@.len() ==> (#[trigger] rule.roles@[k])@ != role@) ==> !applies,
{
}

/// A link touches its two ends and no other ordinal.
pub proof fn a_link_touches_its_ends(link: Link, ordinal: u32, r: bool)
    requires
        call_ensures(Link::touches, (&link, ordinal), r),
    ensures
        ordinal == link.lower ==> r,
        ordinal == link.higher ==> r,
        ordinal != link.lower && ordinal != link.higher ==> !r,
{
}

} // verus!
